//! The calls into `postcard` that frame a report on the wire and take it off
//! again. A report travels as the postcard encoding of the tuple
//! `(left, right, left_pressed, right_pressed)`, which is byte for byte the
//! encoding of a struct with those four fields in that order, COBS-stuffed
//! and closed by a `0x00` sentinel.
use vstd::prelude::*;

use crate::protocol::ProtocolError;

verus! {

/// The fields of a report, in wire order.
pub type ReportFields = (i32, i32, bool, bool);

/// The bytes that `postcard::to_slice_cobs` writes for `fields`: the postcard
/// serialization, COBS-encoded, with the `0x00` sentinel at the end.
pub uninterp spec fn postcard_cobs_frame(fields: (i32, i32, bool, bool)) -> Seq<u8>;

/// What `postcard::from_bytes_cobs` does to a slice holding `frame`: the
/// slice's contents afterwards (it decodes in place), and the tuple it
/// deserializes or the error it returns, as a `ProtocolError`.
pub uninterp spec fn postcard_cobs_decoding(frame: Seq<u8>) -> (Seq<u8>, Result<(i32, i32, bool, bool), ProtocolError>);

/// Longest frame that `postcard_to_slice_cobs` can write for a report: two
/// zigzag varints of at most 5 bytes each and two bool bytes make 12 bytes,
/// COBS adds one code byte per started block of 254, and the sentinel one more.
pub const MAX_FRAME_LEN: usize = 14;

/// Calls `postcard::to_slice_cobs(&fields, buf)` and returns the length of the
/// slice it hands back.
///
/// Claimed of postcard here: it fails exactly when the frame does not fit in
/// `buf` (the slice flavour refuses a push past the end, nothing else can fail
/// for these field types), which never happens for a buffer of
/// `MAX_FRAME_LEN` bytes or more; on success it wrote the frame at the front
/// of `buf` and left the rest alone. Of the frame it claims what COBS and
/// postcard document: it ends in the `0x00` sentinel, holds no other zero byte,
/// and `from_bytes_cobs` on the bytes before the sentinel gives the fields
/// back. The only error it returns is `SerializeBufferFull`. Of `buf` after a
/// failure nothing is said beyond its length.
#[verifier::external_body]
pub(crate) fn postcard_to_slice_cobs(fields: (i32, i32, bool, bool), buf: &mut [u8]) -> (res: Result<usize, ProtocolError>)
    ensures
        final(buf)@.len() == old(buf)@.len(),
        res is Ok <==> postcard_cobs_frame(fields).len() <= old(buf)@.len(),
        res matches Err(e) ==> e == ProtocolError::SerializeBufferFull,
        old(buf)@.len() >= MAX_FRAME_LEN ==> res is Ok,
        res matches Ok(n) ==> {
            &&& n == postcard_cobs_frame(fields).len()
            &&& final(buf)@ == postcard_cobs_frame(fields) + old(buf)@.skip(n as int)
        },
        res matches Ok(n) ==> {
            let frame = final(buf)@.take(n as int);
            &&& 6 <= n <= MAX_FRAME_LEN
            &&& frame[n - 1] == 0
            &&& forall|i: int| 0 <= i < n - 1 ==> frame[i] != 0
            &&& postcard_cobs_decoding(frame.take(n - 1)).1 matches Ok(decoded) && decoded == fields
        },
{
    match postcard::to_slice_cobs(&fields, buf) {
        Ok(used) => Ok(used.len()),
        Err(postcard::Error::SerializeBufferFull) => Err(ProtocolError::SerializeBufferFull),
        Err(_) => Err(ProtocolError::Other),
    }
}

/// Calls `postcard::from_bytes_cobs` on the first `len` bytes of `buf`, and
/// turns a `postcard::Error` into the `ProtocolError` of the same name.
///
/// Claimed of postcard here: the result and the new contents of those bytes
/// are the ones `postcard_cobs_decoding` names for their old contents, and the
/// bytes after them are untouched. Of its errors it claims what its source
/// shows: COBS failures come back as `DeserializeBadEncoding`, and reading two
/// varints and two bools fails only with `DeserializeUnexpectedEnd`,
/// `DeserializeBadVarint` or `DeserializeBadBool`; so never with
/// `SerializeBufferFull` and never with another error.
#[verifier::external_body]
pub(crate) fn postcard_from_bytes_cobs(buf: &mut [u8; 64], len: usize) -> (res: Result<(i32, i32, bool, bool), ProtocolError>)
    requires
        len <= 64,
    ensures
        final(buf)@ == postcard_cobs_decoding(old(buf)@.take(len as int)).0 + old(buf)@.skip(len as int),
        res == postcard_cobs_decoding(old(buf)@.take(len as int)).1,
        res matches Err(e) ==> e != ProtocolError::SerializeBufferFull && e != ProtocolError::Other,
{
    match postcard::from_bytes_cobs::<(i32, i32, bool, bool)>(&mut buf[..len]) {
        Ok(fields) => Ok(fields),
        Err(postcard::Error::DeserializeUnexpectedEnd) => Err(ProtocolError::DeserializeUnexpectedEnd),
        Err(postcard::Error::DeserializeBadVarint) => Err(ProtocolError::DeserializeBadVarint),
        Err(postcard::Error::DeserializeBadBool) => Err(ProtocolError::DeserializeBadBool),
        Err(postcard::Error::DeserializeBadEncoding) => Err(ProtocolError::DeserializeBadEncoding),
        Err(_) => Err(ProtocolError::Other),
    }
}

} // verus!
