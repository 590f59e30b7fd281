use vstd::prelude::*;

use crate::wire::{
    postcard_cobs_decoding, postcard_cobs_frame, postcard_from_bytes_cobs, postcard_to_slice_cobs,
    ReportFields, MAX_FRAME_LEN,
};

verus! {

/// Positions of the two rotary encoders and whether their push buttons are held.
#[derive(Clone, Copy, Debug, PartialEq, Eq, Structural)]
pub struct EncoderState {
    pub left: i32,
    pub right: i32,
    pub left_pressed: bool,
    pub right_pressed: bool,
}

impl EncoderState {
    /// The report's fields in wire order.
    pub open spec fn fields(self) -> ReportFields {
        (self.left, self.right, self.left_pressed, self.right_pressed)
    }

    /// The report whose fields, in wire order, are `fields`.
    pub open spec fn from_fields(fields: ReportFields) -> EncoderState {
        EncoderState {
            left: fields.0,
            right: fields.1,
            left_pressed: fields.2,
            right_pressed: fields.3,
        }
    }
}

/// Why an encode or a feed failed: the `postcard::Error` of the same name.
#[derive(Clone, Copy, Debug, PartialEq, Eq, Structural)]
pub enum ProtocolError {
    /// The output buffer of `encode` was too small, or more than
    /// `FRAME_CAPACITY` bytes arrived at the decoder without a sentinel (the
    /// partial frame was dropped).
    SerializeBufferFull,
    /// A frame ended in the middle of a field.
    DeserializeUnexpectedEnd,
    /// A position's varint did not terminate in time.
    DeserializeBadVarint,
    /// A button flag was neither 0 nor 1.
    DeserializeBadBool,
    /// A frame was not valid COBS.
    DeserializeBadEncoding,
    /// Any other postcard error; none arises for a report's field types.
    Other,
}

/// `bytes` is a complete frame for `state`: it ends in the one `0x00`
/// sentinel it holds, fits the decoder, and what comes before the sentinel
/// decodes to `state`.
pub open spec fn is_frame_of(bytes: Seq<u8>, state: EncoderState) -> bool {
    &&& 6 <= bytes.len() <= MAX_FRAME_LEN
    &&& bytes.last() == 0
    &&& forall|i: int| 0 <= i < bytes.len() - 1 ==> bytes[i] != 0
    &&& postcard_cobs_decoding(bytes.drop_last()).1 == Ok::<ReportFields, ProtocolError>(state.fields())
}

/// Encode `state` into a COBS-framed postcard message at the front of `buf`.
/// Returns the number of bytes written to `buf`.
pub fn encode(state: &EncoderState, buf: &mut [u8]) -> (res: Result<usize, ProtocolError>)
    ensures
        final(buf)@.len() == old(buf)@.len(),
        res is Ok <==> postcard_cobs_frame(state.fields()).len() <= old(buf)@.len(),
        old(buf)@.len() >= MAX_FRAME_LEN ==> res is Ok,
        res matches Ok(n) ==> {
            &&& n == postcard_cobs_frame(state.fields()).len()
            &&& final(buf)@ == postcard_cobs_frame(state.fields()) + old(buf)@.skip(n as int)
            &&& is_frame_of(final(buf)@.take(n as int), *state)
        },
        res is Err ==> res == Err::<usize, ProtocolError>(ProtocolError::SerializeBufferFull),
{
    let fields = (state.left, state.right, state.left_pressed, state.right_pressed);
    let res = postcard_to_slice_cobs(fields, buf);
    if let Ok(n) = res {
        assert(buf@.take(n as int).take(n - 1) =~= buf@.take(n as int).drop_last());
    }
    res
}

/// Capacity of the frame accumulator, in bytes.
pub const FRAME_CAPACITY: usize = 64;

/// Accumulates bytes and decodes COBS-framed postcard messages.
pub struct Decoder {
    buf: [u8; 64],
    len: usize,
}

impl Decoder {
    /// The accumulator never holds more than `FRAME_CAPACITY` bytes.
    pub closed spec fn wf(self) -> bool {
        self.len <= FRAME_CAPACITY
    }

    /// The bytes received since the last frame boundary.
    pub closed spec fn pending(self) -> Seq<u8> {
        self.buf@.take(self.len as int)
    }

    /// A decoder with nothing pending.
    pub fn new() -> (d: Self)
        ensures
            d.wf(),
            d.pending() == Seq::<u8>::empty(),
    {
        Self { buf: [0; 64], len: 0 }
    }
}

/// What feeding `data` to a decoder with `pending` bytes does: the bytes
/// pending afterwards, the reports decoded in order, and the error it stopped
/// early on, if it did.
///
/// A `0x00` byte closes the pending frame, which is decoded if it is not empty;
/// any other byte is appended, unless `FRAME_CAPACITY` bytes are already
/// pending, in which case the frame is dropped and feeding stops with
/// `SerializeBufferFull`. A frame that does not decode stops feeding too, with
/// the decoding error, and stays pending in the state that decoding in place
/// left it.
pub open spec fn feed_outcome(pending: Seq<u8>, data: Seq<u8>) -> (Seq<u8>, Seq<EncoderState>, Option<ProtocolError>)
    decreases data.len(),
{
    if data.len() == 0 {
        (pending, Seq::empty(), None)
    } else if data[0] == 0 {
        if pending.len() == 0 {
            feed_outcome(pending, data.drop_first())
        } else {
            let (residue, decoded) = postcard_cobs_decoding(pending);
            match decoded {
                Ok(fields) => {
                    let rest = feed_outcome(Seq::empty(), data.drop_first());
                    (rest.0, seq![EncoderState::from_fields(fields)] + rest.1, rest.2)
                },
                Err(e) => (residue, Seq::empty(), Some(e)),
            }
        }
    } else if pending.len() < FRAME_CAPACITY {
        feed_outcome(pending.push(data[0]), data.drop_first())
    } else {
        (Seq::empty(), Seq::empty(), Some(ProtocolError::SerializeBufferFull))
    }
}

/// Whether feeding `data` to a decoder with `pending` bytes stops on an
/// overflow: a `FRAME_CAPACITY`-th non-zero byte since the last sentinel
/// (pending bytes included) is followed by yet another before any sentinel,
/// and no frame before that fails to decode.
pub open spec fn overflows(pending: Seq<u8>, data: Seq<u8>) -> bool
    decreases data.len(),
{
    if data.len() == 0 {
        false
    } else if data[0] == 0 {
        if pending.len() == 0 {
            overflows(pending, data.drop_first())
        } else {
            match postcard_cobs_decoding(pending).1 {
                Ok(_) => overflows(Seq::empty(), data.drop_first()),
                Err(_) => false,
            }
        }
    } else if pending.len() < FRAME_CAPACITY {
        overflows(pending.push(data[0]), data.drop_first())
    } else {
        true
    }
}

/// Feeding `a` and then `b` is feeding `a + b`: the reports of `b` follow
/// those of `a`, and once feeding `a` has failed nothing of `b` is looked at.
pub proof fn lemma_feed_split(pending: Seq<u8>, a: Seq<u8>, b: Seq<u8>)
    ensures
        ({
            let first = feed_outcome(pending, a);
            let second = feed_outcome(first.0, b);
            &&& first.2 is None ==> feed_outcome(pending, a + b) == (second.0, first.1 + second.1, second.2)
            &&& first.2 is Some ==> feed_outcome(pending, a + b) == first
        }),
    decreases a.len(),
{
    if a.len() == 0 {
        assert(a + b =~= b);
        let second = feed_outcome(pending, b);
        assert(Seq::<EncoderState>::empty() + second.1 =~= second.1);
    } else {
        assert((a + b)[0] == a[0]);
        assert((a + b).drop_first() =~= a.drop_first() + b);
        if a[0] == 0 {
            if pending.len() == 0 {
                lemma_feed_split(pending, a.drop_first(), b);
            } else {
                lemma_feed_split(Seq::empty(), a.drop_first(), b);
                let (residue, decoded) = postcard_cobs_decoding(pending);
                if let Ok(fields) = decoded {
                    let rest = feed_outcome(Seq::empty(), a.drop_first());
                    let second = feed_outcome(rest.0, b);
                    assert(seq![EncoderState::from_fields(fields)] + rest.1 + second.1 =~= seq![
                        EncoderState::from_fields(fields),
                    ] + (rest.1 + second.1));
                }
            }
        } else if pending.len() < FRAME_CAPACITY {
            lemma_feed_split(pending.push(a[0]), a.drop_first(), b);
        }
    }
}

/// A decoder with nothing pending ignores sentinels: feeding it nothing but
/// `0x00` bytes decodes nothing, fails nowhere and leaves nothing pending.
pub proof fn lemma_idle_sentinels(data: Seq<u8>)
    requires
        forall|i: int| 0 <= i < data.len() ==> data[i] == 0,
    ensures
        feed_outcome(Seq::empty(), data) == (Seq::<u8>::empty(), Seq::<EncoderState>::empty(), None::<ProtocolError>),
    decreases data.len(),
{
    if data.len() > 0 {
        lemma_idle_sentinels(data.drop_first());
    }
}

/// More than `FRAME_CAPACITY` bytes without a sentinel make a decoder with
/// nothing pending drop the frame and fail with `SerializeBufferFull`,
/// whatever follows.
pub proof fn lemma_overflow(data: Seq<u8>)
    requires
        data.len() > FRAME_CAPACITY,
        forall|i: int| 0 <= i <= FRAME_CAPACITY ==> data[i] != 0,
    ensures
        feed_outcome(Seq::empty(), data) == (Seq::<u8>::empty(), Seq::<EncoderState>::empty(), Some(ProtocolError::SerializeBufferFull)),
{
    lemma_overflow_from(Seq::empty(), data);
}

proof fn lemma_overflow_from(pending: Seq<u8>, data: Seq<u8>)
    requires
        pending.len() <= FRAME_CAPACITY,
        data.len() > FRAME_CAPACITY - pending.len(),
        forall|i: int| 0 <= i <= FRAME_CAPACITY - pending.len() ==> data[i] != 0,
    ensures
        feed_outcome(pending, data) == (Seq::<u8>::empty(), Seq::<EncoderState>::empty(), Some(ProtocolError::SerializeBufferFull)),
    decreases data.len(),
{
    assert(data[0] != 0);
    if pending.len() < FRAME_CAPACITY {
        assert forall|i: int| 0 <= i <= FRAME_CAPACITY - (pending.len() + 1) implies data.drop_first()[i] != 0 by {
            assert(data.drop_first()[i] == data[i + 1]);
        }
        lemma_overflow_from(pending.push(data[0]), data.drop_first());
    }
}

/// Bytes with no `0x00` among them are only accumulated, as long as they fit:
/// a frame of up to `FRAME_CAPACITY` non-zero bytes is taken without an
/// overflow.
pub proof fn lemma_accumulate(pending: Seq<u8>, data: Seq<u8>)
    requires
        pending.len() + data.len() <= FRAME_CAPACITY,
        forall|i: int| 0 <= i < data.len() ==> data[i] != 0,
    ensures
        feed_outcome(pending, data) == (pending + data, Seq::<EncoderState>::empty(), None::<ProtocolError>),
        !overflows(pending, data),
    decreases data.len(),
{
    if data.len() == 0 {
        assert(pending + data =~= pending);
    } else {
        assert(pending.push(data[0]) + data.drop_first() =~= pending + data);
        lemma_accumulate(pending.push(data[0]), data.drop_first());
    }
}

/// A complete frame, fed to a decoder with nothing pending, yields its report
/// and leaves the decoder as if the frame had not been there.
pub proof fn lemma_frame_decodes(frame: Seq<u8>, state: EncoderState, rest: Seq<u8>)
    requires
        is_frame_of(frame, state),
    ensures
        ({
            let after = feed_outcome(Seq::empty(), rest);
            feed_outcome(Seq::empty(), frame + rest) == (after.0, seq![state] + after.1, after.2)
        }),
{
    let body = frame.drop_last();
    assert(frame =~= body + seq![0u8]);
    lemma_accumulate(Seq::empty(), body);
    assert(Seq::<u8>::empty() + body =~= body);
    assert(EncoderState::from_fields(state.fields()) == state);
    let closing = seq![0u8] + rest;
    assert(closing[0] == 0);
    assert(closing.drop_first() =~= rest);
    lemma_feed_split(Seq::empty(), body, closing);
    assert(frame + rest =~= body + closing);
    let after = feed_outcome(Seq::empty(), rest);
    assert(Seq::<EncoderState>::empty() + (seq![state] + after.1) =~= seq![state] + after.1);
}

/// The number of `0x00` bytes in `data`.
pub open spec fn sentinel_count(data: Seq<u8>) -> nat
    decreases data.len(),
{
    if data.len() == 0 {
        0
    } else {
        (if data[0] == 0 { 1nat } else { 0nat }) + sentinel_count(data.drop_first())
    }
}

/// Every report comes from a sentinel: feeding `data` decodes at most one
/// report per `0x00` byte in it.
pub proof fn lemma_one_report_per_sentinel(pending: Seq<u8>, data: Seq<u8>)
    ensures
        feed_outcome(pending, data).1.len() <= sentinel_count(data),
    decreases data.len(),
{
    if data.len() > 0 {
        if data[0] == 0 {
            lemma_one_report_per_sentinel(pending, data.drop_first());
            lemma_one_report_per_sentinel(Seq::empty(), data.drop_first());
        } else if pending.len() < FRAME_CAPACITY {
            lemma_one_report_per_sentinel(pending.push(data[0]), data.drop_first());
        }
    }
}

/// The round trip: the bytes that `encode` wrote for a report, fed to a
/// decoder with nothing pending, yield exactly that report and leave nothing
/// pending.
pub proof fn lemma_round_trip(frame: Seq<u8>, state: EncoderState)
    requires
        is_frame_of(frame, state),
    ensures
        feed_outcome(Seq::empty(), frame) == (Seq::<u8>::empty(), seq![state], None::<ProtocolError>),
{
    lemma_frame_decodes(frame, state, Seq::empty());
    assert(frame + Seq::<u8>::empty() =~= frame);
    assert(seq![state] + Seq::<EncoderState>::empty() =~= seq![state]);
}

/// The round trip over a stream: frames written back to back for a sequence of
/// reports, fed to a decoder with nothing pending, yield exactly those reports
/// in order, with no failure and nothing left pending.
pub proof fn lemma_stream_round_trip(frames: Seq<Seq<u8>>, states: Seq<EncoderState>)
    requires
        frames.len() == states.len(),
        forall|i: int| 0 <= i < frames.len() ==> is_frame_of(#[trigger] frames[i], states[i]),
    ensures
        feed_outcome(Seq::empty(), frames.flatten()) == (Seq::<u8>::empty(), states, None::<ProtocolError>),
    decreases frames.len(),
{
    if frames.len() == 0 {
        assert(frames.flatten() =~= Seq::<u8>::empty());
        assert(states =~= Seq::<EncoderState>::empty());
    } else {
        let tail = frames.drop_first();
        assert forall|i: int| 0 <= i < tail.len() implies is_frame_of(#[trigger] tail[i], states.drop_first()[i]) by {
            assert(tail[i] == frames[i + 1]);
        }
        lemma_stream_round_trip(tail, states.drop_first());
        assert(frames.flatten() =~= frames[0] + tail.flatten());
        assert(is_frame_of(frames[0], states[0]));
        lemma_frame_decodes(frames[0], states[0], tail.flatten());
        assert(seq![states[0]] + states.drop_first() =~= states);
    }
}

impl Decoder {
    /// Take the result of decoding the pending frame: a decoded report is
    /// appended to `decoded` and the frame is done with; a decoding error is
    /// passed on and the frame stays pending.
    pub fn complete_frame(
        &mut self,
        result: Result<(i32, i32, bool, bool), ProtocolError>,
        decoded: &mut Vec<EncoderState>,
    ) -> (res: Result<(), ProtocolError>)
        requires
            old(self).wf(),
        ensures
            final(self).wf(),
            match result {
                Ok(fields) => {
                    &&& res is Ok
                    &&& final(self).pending() == Seq::<u8>::empty()
                    &&& final(decoded)@ == old(decoded)@.push(EncoderState::from_fields(fields))
                },
                Err(e) => {
                    &&& res == Err::<(), ProtocolError>(e)
                    &&& final(self).pending() == old(self).pending()
                    &&& final(decoded)@ == old(decoded)@
                },
            },
    {
        match result {
            Ok(fields) => {
                decoded.push(
                    EncoderState {
                        left: fields.0,
                        right: fields.1,
                        left_pressed: fields.2,
                        right_pressed: fields.3,
                    },
                );
                self.len = 0;
                Ok(())
            },
            Err(e) => Err(e),
        }
    }

    /// Feed a chunk of bytes. Each decoded message is appended to `decoded`.
    /// Returns `Err` if a frame fails to decode or overflows the accumulator;
    /// the messages decoded before that point are appended all the same.
    pub fn feed(&mut self, data: &[u8], decoded: &mut Vec<EncoderState>) -> (res: Result<(), ProtocolError>)
        requires
            old(self).wf(),
        ensures
            final(self).wf(),
            ({
                let outcome = feed_outcome(old(self).pending(), data@);
                &&& final(self).pending() == outcome.0
                &&& final(decoded)@ == old(decoded)@ + outcome.1
                &&& res == match outcome.2 {
                    None => Ok(()),
                    Some(e) => Err(e),
                }
            }),
            res == Err::<(), ProtocolError>(ProtocolError::SerializeBufferFull) <==> overflows(old(self).pending(), data@),
            res != Err::<(), ProtocolError>(ProtocolError::Other),
    {
        let ghost whole = feed_outcome(self.pending(), data@);
        let ghost emitted: Seq<EncoderState> = Seq::empty();
        let ghost start = decoded@;
        let mut i: usize = 0;
        assert(data@.skip(0) =~= data@);
        while i < data.len()
            invariant
                i <= data@.len(),
                self.len <= FRAME_CAPACITY,
                whole == feed_outcome(old(self).pending(), data@),
                start == old(decoded)@,
                decoded@ == start + emitted,
                whole.0 == feed_outcome(self.pending(), data@.skip(i as int)).0,
                whole.1 == emitted + feed_outcome(self.pending(), data@.skip(i as int)).1,
                whole.2 == feed_outcome(self.pending(), data@.skip(i as int)).2,
                overflows(old(self).pending(), data@) == overflows(self.pending(), data@.skip(i as int)),
            decreases data@.len() - i,
        {
            let byte: u8 = data[i];
            let ghost rest = data@.skip(i as int);
            assert(rest.drop_first() =~= data@.skip(i + 1));
            assert(rest[0] == byte);
            if byte == 0x00 {
                if self.len > 0 {
                    let ghost frame = self.pending();
                    let ghost old_buf = self.buf@;
                    let result = postcard_from_bytes_cobs(&mut self.buf, self.len);
                    proof {
                        // The bytes after the frame are untouched, so the
                        // frame keeps its length.
                        broadcast use vstd::array::array_len_matches_n;
                        assert(self.buf@.len() == 64 && old_buf.len() == 64);
                        assert(postcard_cobs_decoding(frame).0.len() == self.len);
                        assert(self.pending() =~= postcard_cobs_decoding(frame).0);
                    }
                    match self.complete_frame(result, decoded) {
                        Ok(()) => {
                            proof {
                                emitted = emitted.push(decoded@.last());
                                assert(self.pending() =~= Seq::<u8>::empty());
                            }
                        },
                        Err(e) => {
                            assert(whole.1 =~= emitted);
                            return Err(e);
                        },
                    }
                }
            } else if self.len < FRAME_CAPACITY {
                let ghost before = self.pending();
                self.buf[self.len] = byte;
                self.len = self.len + 1;
                assert(self.pending() =~= before.push(byte));
            } else {
                self.len = 0;
                assert(self.pending() =~= Seq::<u8>::empty());
                assert(whole.1 =~= emitted);
                return Err(ProtocolError::SerializeBufferFull);
            }
            i = i + 1;
        }
        assert(data@.skip(i as int) =~= Seq::<u8>::empty());
        assert(whole.1 =~= emitted);
        Ok(())
    }
}

} // verus!
