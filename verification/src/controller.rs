//! The decisions of the controller firmware: which encoder movements update the
//! shared report, and when a report goes out over USB.
use vstd::prelude::*;

use crate::protocol::{encode, is_frame_of, EncoderState};
use crate::wire::{postcard_cobs_frame, MAX_FRAME_LEN};

verus! {

/// Which of the two rotary encoders a task reads.
#[derive(Clone, Copy, Debug, PartialEq, Eq, Structural)]
pub enum Side {
    Left,
    Right,
}

/// `state` with the position of the encoder on `side` set to `pos`.
pub open spec fn with_position(state: EncoderState, side: Side, pos: i32) -> EncoderState {
    match side {
        Side::Left => EncoderState { left: pos, ..state },
        Side::Right => EncoderState { right: pos, ..state },
    }
}

/// The position of the encoder on `side` in `state`.
pub open spec fn side_position(state: EncoderState, side: Side) -> i32 {
    match side {
        Side::Left => state.left,
        Side::Right => state.right,
    }
}

/// One poll of a tracker that last saw `last`: the position it then last saw
/// and the shared state it leaves.
pub open spec fn observe_step(last: i32, side: Side, poll: Option<i32>, shared: EncoderState) -> (i32, EncoderState) {
    match poll {
        Some(pos) => if pos != last {
            (pos, with_position(shared, side, pos))
        } else {
            (last, shared)
        },
        None => (last, shared),
    }
}

/// A run of polls, one `observe_step` after another.
pub open spec fn observe_run(last: i32, side: Side, polls: Seq<Option<i32>>, shared: EncoderState) -> (i32, EncoderState)
    decreases polls.len(),
{
    if polls.len() == 0 {
        (last, shared)
    } else {
        let (next, after) = observe_step(last, side, polls[0], shared);
        observe_run(next, side, polls.drop_first(), after)
    }
}

/// The position of the last successful read among `polls`, or `before` if
/// none succeeded.
pub open spec fn latest_read(polls: Seq<Option<i32>>, before: i32) -> i32
    decreases polls.len(),
{
    if polls.len() == 0 {
        before
    } else {
        latest_read(
            polls.drop_first(),
            match polls[0] {
                Some(pos) => pos,
                None => before,
            },
        )
    }
}

/// Over any run of polls, the shared state's position on the tracker's side
/// mirrors the latest successful read (or the position it started from), and
/// nothing else in the shared state changes, provided the two agreed at the
/// start (as they do for a new tracker and a state starting at 0).
pub proof fn lemma_shared_mirrors_latest_read(last: i32, side: Side, polls: Seq<Option<i32>>, shared: EncoderState)
    requires
        side_position(shared, side) == last,
    ensures
        observe_run(last, side, polls, shared) == (
            latest_read(polls, last),
            with_position(shared, side, latest_read(polls, last)),
        ),
    decreases polls.len(),
{
    if polls.len() > 0 {
        let (next, after) = observe_step(last, side, polls[0], shared);
        lemma_shared_mirrors_latest_read(next, side, polls.drop_first(), after);
        let latest = latest_read(polls, last);
        assert(with_position(after, side, latest) == with_position(shared, side, latest));
    } else {
        assert(with_position(shared, side, last) == shared);
    }
}

/// What one poll of an encoder came to.
#[derive(Clone, Copy, Debug, PartialEq, Eq, Structural)]
pub enum Reading {
    /// The encoder reported a position other than the last one.
    Moved(i32),
    /// The encoder reported the last position again.
    Unchanged,
    /// The encoder could not be read.
    ReadError,
}

/// Follows one encoder's position between polls.
pub struct EncoderTracker {
    side: Side,
    last_pos: i32,
}

impl EncoderTracker {
    /// The encoder on this side.
    pub closed spec fn side(self) -> Side {
        self.side
    }

    /// The position last seen, 0 before any.
    pub closed spec fn last_pos(self) -> i32 {
        self.last_pos
    }

    /// A tracker for the encoder on `side` that has seen nothing yet.
    pub fn new(side: Side) -> (t: Self)
        ensures
            t.side() == side,
            t.last_pos() == 0,
    {
        Self { side, last_pos: 0 }
    }

    /// Take one poll result: `Some(pos)` for a position read, `None` for a
    /// failed read. A position other than the last one becomes the last one
    /// and is written into `shared` on this tracker's side.
    pub fn observe(&mut self, poll: Option<i32>, shared: &mut EncoderState) -> (r: Reading)
        ensures
            final(self).side() == old(self).side(),
            final(shared).left_pressed == old(shared).left_pressed,
            final(shared).right_pressed == old(shared).right_pressed,
            old(self).side() == Side::Left ==> final(shared).right == old(shared).right,
            old(self).side() == Side::Right ==> final(shared).left == old(shared).left,
            poll is Some && poll.unwrap() != old(self).last_pos() ==> {
                &&& final(self).last_pos() == poll.unwrap()
                &&& old(self).side() == Side::Left ==> final(shared).left == poll.unwrap()
                &&& old(self).side() == Side::Right ==> final(shared).right == poll.unwrap()
            },
            !(poll is Some && poll.unwrap() != old(self).last_pos()) ==> {
                &&& final(self).last_pos() == old(self).last_pos()
                &&& *final(shared) == *old(shared)
            },
            (final(self).last_pos(), *final(shared)) == observe_step(old(self).last_pos(), old(self).side(), poll, *old(shared)),
            match poll {
                Some(pos) => if pos != old(self).last_pos() {
                    &&& r == Reading::Moved(pos)
                    &&& final(self).last_pos() == pos
                    &&& *final(shared) == with_position(*old(shared), old(self).side(), pos)
                } else {
                    &&& r == Reading::Unchanged
                    &&& final(self).last_pos() == old(self).last_pos()
                    &&& *final(shared) == *old(shared)
                },
                None => {
                    &&& r == Reading::ReadError
                    &&& final(self).last_pos() == old(self).last_pos()
                    &&& *final(shared) == *old(shared)
                },
            },
    {
        match poll {
            Some(pos) => {
                if pos != self.last_pos {
                    self.last_pos = pos;
                    match self.side {
                        Side::Left => shared.left = pos,
                        Side::Right => shared.right = pos,
                    }
                    Reading::Moved(pos)
                } else {
                    Reading::Unchanged
                }
            },
            None => Reading::ReadError,
        }
    }
}

/// Whether `current` differs from `last` in a position. A change of the
/// button flags alone does not count.
pub open spec fn positions_changed(last: EncoderState, current: EncoderState) -> bool {
    current.left != last.left || current.right != last.right
}

/// A report goes out exactly when a position moved, in either direction, by
/// any amount: a change of either position counts, and a change of the button
/// flags alone does not.
pub proof fn lemma_any_position_change_counts(last: EncoderState, current: EncoderState)
    ensures
        current.left != last.left ==> positions_changed(last, current),
        current.right != last.right ==> positions_changed(last, current),
        current.left == last.left && current.right == last.right ==> !positions_changed(last, current),
        positions_changed(last, current) == positions_changed(current, last),
{
}

/// What to do with the USB link after one poll.
#[derive(Clone, Copy, Debug, PartialEq, Eq, Structural)]
pub enum ReportAction {
    /// Nothing moved since the last report.
    Idle,
    /// Send the first `n` bytes of the buffer.
    Send(usize),
    /// The report did not fit in the buffer.
    EncodeFailed,
}

/// Decides when the encoder state is reported over USB.
pub struct UsbReporter {
    last: EncoderState,
}

/// The state taken as reported when nothing has been sent yet.
pub open spec fn initial_report() -> EncoderState {
    EncoderState { left: 0, right: 0, left_pressed: false, right_pressed: false }
}

impl UsbReporter {
    /// The state last reported (or tried to be).
    pub closed spec fn last(self) -> EncoderState {
        self.last
    }

    /// A reporter for which both positions were last reported as 0.
    pub fn new() -> (r: Self)
        ensures
            r.last() == initial_report(),
    {
        Self { last: EncoderState { left: 0, right: 0, left_pressed: false, right_pressed: false } }
    }

    /// Take the current state. If a position changed since the last report,
    /// it becomes the last report and is encoded at the front of `buf`.
    pub fn poll(&mut self, current: EncoderState, buf: &mut [u8]) -> (a: ReportAction)
        ensures
            final(buf)@.len() == old(buf)@.len(),
            current.left != old(self).last().left || current.right != old(self).last().right ==> {
                &&& a !is Idle
                &&& final(self).last() == current
            },
            current.left == old(self).last().left && current.right == old(self).last().right ==> a == ReportAction::Idle,
            final(self).last().left == current.left && final(self).last().right == current.right,
            !positions_changed(final(self).last(), current),
            positions_changed(old(self).last(), current) ==> {
                &&& final(self).last() == current
                &&& a !is Idle
                &&& (a is Send <==> postcard_cobs_frame(current.fields()).len() <= old(buf)@.len())
                &&& old(buf)@.len() >= MAX_FRAME_LEN ==> a is Send
            },
            !positions_changed(old(self).last(), current) ==> {
                &&& final(self).last() == old(self).last()
                &&& a == ReportAction::Idle
                &&& final(buf)@ == old(buf)@
            },
            a matches ReportAction::Send(n) ==> {
                &&& n == postcard_cobs_frame(current.fields()).len()
                &&& final(buf)@ == postcard_cobs_frame(current.fields()) + old(buf)@.skip(n as int)
                &&& is_frame_of(final(buf)@.take(n as int), current)
            },
    {
        if current.left != self.last.left || current.right != self.last.right {
            self.last = current;
            match encode(&current, buf) {
                Ok(len) => ReportAction::Send(len),
                Err(_) => ReportAction::EncodeFailed,
            }
        } else {
            ReportAction::Idle
        }
    }
}

} // verus!
