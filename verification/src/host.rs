//! The decisions of the host daemon: how encoder reports turn into volume
//! changes and mute toggles, and the arguments and output of `amixer`.
use vstd::prelude::*;

use crate::decimal::{
    all_digits, decimal, digits_value, is_digit, lemma_canonical_digits, lemma_decimal_parses_back,
    parse_u32, parse_u32_str, push_decimal,
};
use crate::protocol::EncoderState;

verus! {

/// Where the run of decimal digits that starts at `start` in `s` ends.
pub open spec fn digit_run_end(s: Seq<char>, start: int) -> int
    decreases s.len() - start,
{
    if 0 <= start < s.len() && is_digit(s[start]) {
        digit_run_end(s, start + 1)
    } else {
        start
    }
}

/// A `[NN%]` field starts at `i` in `s`: a `[`, one or more decimal digits,
/// then `%]`.
pub open spec fn percent_field_at(s: Seq<char>, i: int) -> bool {
    let end = digit_run_end(s, i + 1);
    &&& 0 <= i < s.len()
    &&& s[i] == '['
    &&& end > i + 1
    &&& end + 1 < s.len()
    &&& s[end] == '%'
    &&& s[end + 1] == ']'
}

/// The first `[NN%]` field of `s` starts at `i`.
pub open spec fn first_percent_field_at(s: Seq<char>, i: int) -> bool {
    &&& percent_field_at(s, i)
    &&& forall|j: int| 0 <= j < i ==> !#[trigger] percent_field_at(s, j)
}

/// The digits of the first `[NN%]` field of `text`, if it has one.
pub open spec fn volume_field(text: Seq<char>) -> Option<Seq<char>> {
    if exists|i: int| first_percent_field_at(text, i) {
        let i = choose|i: int| first_percent_field_at(text, i);
        Some(text.subrange(i + 1, digit_run_end(text, i + 1)))
    } else {
        None
    }
}

/// The level that `amixer sget` output shows: the number in its first
/// `[NN%]` field, if it fits a `u32`.
pub open spec fn volume_level(text: Seq<char>) -> Option<u32> {
    match volume_field(text) {
        Some(field) => parse_u32(field),
        None => None,
    }
}

/// The digit run from `start` ends at `end` when everything between is a
/// digit and what follows is not.
proof fn lemma_digit_run_end(s: Seq<char>, start: int, end: int)
    requires
        0 <= start <= end <= s.len(),
        forall|k: int| start <= k < end ==> is_digit(#[trigger] s[k]),
        end == s.len() || !is_digit(s[end]),
    ensures
        digit_run_end(s, start) == end,
    decreases end - start,
{
    if start < end {
        lemma_digit_run_end(s, start + 1, end);
    }
}

/// Everything in the digit run from `start` is a digit.
proof fn lemma_digit_run_digits(s: Seq<char>, start: int)
    requires
        0 <= start <= s.len(),
    ensures
        start <= digit_run_end(s, start) <= s.len(),
        forall|k: int| start <= k < digit_run_end(s, start) ==> is_digit(#[trigger] s[k]),
    decreases s.len() - start,
{
    if start < s.len() && is_digit(s[start]) {
        lemma_digit_run_digits(s, start + 1);
    }
}

/// `[`, then digits only, then `%]`, from `i` to `k + 1` in `s`.
pub open spec fn bracketed_percent(s: Seq<char>, i: int, k: int) -> bool {
    &&& 0 <= i && i + 1 < k && k + 1 < s.len()
    &&& s[i] == '[' && s[k] == '%' && s[k + 1] == ']'
    &&& forall|m: int| i < m < k ==> '0' <= #[trigger] s[m] <= '9'
}

/// The level read from `amixer sget` output is the value of the digits in a
/// `[NN%]` field of the text, and no such field comes before that one.
pub proof fn lemma_volume_level_reads_first_field(text: Seq<char>, level: u32)
    requires
        volume_level(text) == Some(level),
    ensures
        exists|i: int, k: int|
            #![trigger bracketed_percent(text, i, k)]
            {
                &&& bracketed_percent(text, i, k)
                &&& digits_value(text.subrange(i + 1, k)) == level
                &&& forall|j: int, k2: int| 0 <= j < i ==> !#[trigger] bracketed_percent(text, j, k2)
            },
{
    let i: int = choose|i: int| first_percent_field_at(text, i);
    lemma_digit_run_digits(text, i + 1);
    let k = digit_run_end(text, i + 1);
    let field = text.subrange(i + 1, k);
    assert(field[0] != '+') by {
        assert(is_digit(text[i + 1]));
    }
    assert(bracketed_percent(text, i, k)) by {
        assert forall|m: int| i < m < k implies '0' <= #[trigger] text[m] <= '9' by {
            assert(is_digit(text[m]));
        }
    }
    assert forall|j: int, k2: int| 0 <= j < i implies !#[trigger] bracketed_percent(text, j, k2) by {
        if bracketed_percent(text, j, k2) {
            assert forall|m: int| j + 1 <= m < k2 implies is_digit(#[trigger] text[m]) by {
                assert('0' <= text[m] <= '9');
            }
            lemma_digit_run_end(text, j + 1, k2);
            assert(percent_field_at(text, j));
        }
    }
}

/// A level read from `amixer sget` output comes back as the same text: the
/// argument that restores it is the digits of the `[NN%]` field it was read
/// from, then `%`, whenever those digits carry no leading zero; and in every
/// case that argument names the level that was read.
pub proof fn lemma_restore_repeats_read_level(text: Seq<char>, level: u32)
    requires
        volume_level(text) == Some(level),
    ensures
        volume_field(text) is Some,
        digits_value(volume_field(text).unwrap()) == level,
        parse_u32(percent_arg_spec(level).drop_last()) == Some(level),
        ({
            let field = volume_field(text).unwrap();
            field[0] != '0' || field.len() == 1 ==> percent_arg_spec(level) == field.push('%')
        }),
{
    let i: int = choose|i: int| first_percent_field_at(text, i);
    lemma_digit_run_digits(text, i + 1);
    let field = volume_field(text).unwrap();
    assert(all_digits(field)) by {
        assert forall|k: int| 0 <= k < field.len() implies is_digit(#[trigger] field[k]) by {
            assert(field[k] == text[i + 1 + k]);
        }
    }
    assert(field[0] != '+');
    assert(percent_arg_spec(level).drop_last() =~= decimal(level as nat));
    lemma_decimal_parses_back(level);
    if field[0] != '0' || field.len() == 1 {
        lemma_canonical_digits(field);
    }
}

/// Read the current volume from the output of `amixer sget <control>`: the
/// number in the first `[NN%]` field.
pub fn parse_volume_level(text: &str) -> (r: Option<u32>)
    ensures
        r == volume_level(text@),
{
    let n: usize = text.unicode_len();
    let mut chars: Vec<char> = Vec::new();
    let mut c: usize = 0;
    while c < n
        invariant
            c <= n,
            n == text@.len(),
            chars@ == text@.take(c as int),
        decreases n - c,
    {
        chars.push(text.get_char(c));
        c = c + 1;
        assert(chars@ =~= text@.take(c as int));
    }
    assert(chars@ =~= text@);
    let ghost s = text@;
    let mut i: usize = 0;
    while i < n
        invariant
            i <= n,
            n == s.len(),
            s == text@,
            chars@ == s,
            forall|j: int| 0 <= j < i ==> !#[trigger] percent_field_at(s, j),
        decreases n - i,
    {
        if chars[i] == '[' {
            let mut end: usize = i + 1;
            while end < n && '0' <= chars[end] && chars[end] <= '9'
                invariant
                    i + 1 <= end <= n,
                    n == s.len(),
                    chars@ == s,
                    forall|k: int| i + 1 <= k < end ==> is_digit(#[trigger] s[k]),
                decreases n - end,
            {
                end = end + 1;
            }
            proof {
                lemma_digit_run_end(s, i + 1, end as int);
            }
            if end > i + 1 && n - end >= 2 && chars[end] == '%' && chars[end + 1] == ']' {
                assert(first_percent_field_at(s, i as int));
                proof {
                    let k: int = choose|k: int| first_percent_field_at(s, k);
                    if k < i {
                        assert(!percent_field_at(s, k));
                    } else if k > i {
                        assert(!percent_field_at(s, i as int));
                    }
                    assert(k == i);
                }
                let field = text.substring_char(i + 1, end);
                return parse_u32_str(field);
            }
            assert(!percent_field_at(s, i as int));
        }
        i = i + 1;
    }
    assert(!exists|k: int| first_percent_field_at(s, k));
    None
}

/// `level` followed by `%`, as `amixer sset` takes an absolute level.
pub open spec fn percent_arg_spec(level: u32) -> Seq<char> {
    decimal(level as nat).push('%')
}

/// The `amixer sset` argument that sets the level to `level` percent.
pub fn percent_arg(level: u32) -> (s: String)
    ensures
        s@ == percent_arg_spec(level),
        s@.len() >= 2 && s@.last() == '%',
        parse_u32(s@.drop_last()) == Some(level),
{
    let mut s = String::new();
    push_decimal(&mut s, level);
    proof {
        reveal_strlit("%");
    }
    s.append("%");
    assert(s@ =~= percent_arg_spec(level));
    proof {
        lemma_percent_arg_reads_back(level);
    }
    s
}

/// The magnitude of `delta`.
pub open spec fn abs_i32(delta: i32) -> nat {
    if delta < 0 {
        (-delta) as nat
    } else {
        delta as nat
    }
}

/// The `amixer sset` argument for a relative step: the size of `delta` in
/// percent, then `+` when it is positive and `-` otherwise.
pub open spec fn step_arg_spec(delta: i32) -> Seq<char> {
    decimal(abs_i32(delta)).push('%').push(if delta > 0 { '+' } else { '-' })
}

/// The step argument moves the level the way `delta` points: it ends in `+`
/// for every positive `delta` and in `-` otherwise, after a `%` and a
/// numeral that reads back as the size of `delta`.
pub proof fn lemma_step_arg_direction(delta: i32)
    ensures
        ({
            let arg = step_arg_spec(delta);
            &&& arg.len() >= 3
            &&& arg[arg.len() - 2] == '%'
            &&& delta > 0 ==> arg.last() == '+'
            &&& delta <= 0 ==> arg.last() == '-'
            &&& parse_u32(arg.take(arg.len() - 2)) matches Some(m) && m as int == if delta < 0 {
                -delta
            } else {
                delta as int
            }
        }),
{
    let m: u32 = abs_i32(delta) as u32;
    lemma_decimal_parses_back(m);
    let arg = step_arg_spec(delta);
    assert(arg.take(arg.len() - 2) =~= decimal(m as nat));
}

/// A level argument is a numeral that reads back as the level, then `%`.
pub proof fn lemma_percent_arg_reads_back(level: u32)
    ensures
        percent_arg_spec(level).len() >= 2,
        percent_arg_spec(level).last() == '%',
        parse_u32(percent_arg_spec(level).drop_last()) == Some(level),
{
    lemma_decimal_parses_back(level);
    assert(percent_arg_spec(level).drop_last() =~= decimal(level as nat));
}

/// The `amixer sset` argument that moves the level by `delta` percent.
pub fn step_arg(delta: i32) -> (s: String)
    ensures
        s@ == step_arg_spec(delta),
        delta > 0 ==> s@.last() == '+',
        delta <= 0 ==> s@.last() == '-',
        s@.len() >= 3 && s@[s@.len() - 2] == '%',
        parse_u32(s@.take(s@.len() - 2)) matches Some(m) && m as int == if delta < 0 {
            -delta
        } else {
            delta as int
        },
{
    let magnitude: u32 = if delta < 0 {
        (-(delta as i64)) as u32
    } else {
        delta as u32
    };
    let mut s = String::new();
    push_decimal(&mut s, magnitude);
    proof {
        reveal_strlit("%");
        reveal_strlit("+");
        reveal_strlit("-");
    }
    s.append("%");
    if delta > 0 {
        s.append("+");
    } else {
        s.append("-");
    }
    assert(s@ =~= step_arg_spec(delta));
    proof {
        lemma_step_arg_direction(delta);
    }
    s
}

/// What a turn of the right knob does to the volume.
#[derive(Clone, Copy, Debug, PartialEq, Eq, Structural)]
pub enum VolumeChange {
    /// Test mode: the simulated volume is now this level (0 to 100).
    TestLevel(i32),
    /// Move the mixer level by this many percent.
    Adjust(i32),
}

/// What a press of the right knob does.
#[derive(Clone, Copy, Debug, PartialEq, Eq, Structural)]
pub enum PressAction {
    /// Test mode: the simulated mute is now on (`true`) or off.
    TestMuted(bool),
    /// Unmute: set the mixer back to this level.
    Restore(u32),
    /// Mute: read the mixer's current level and hand it to `mute_at`.
    QueryForMute,
}

/// The reaction to one report, in the order the daemon carries it out.
#[derive(Clone, Copy, Debug, PartialEq, Eq, Structural)]
pub struct Reaction {
    pub volume: Option<VolumeChange>,
    pub press: Option<PressAction>,
}

/// The outcome of the mixer read that a mute waits for.
#[derive(Clone, Copy, Debug, PartialEq, Eq, Structural)]
pub enum MuteOutcome {
    /// The level was saved; set the mixer to 0%.
    Mute { was: u32 },
    /// The level could not be read; nothing changes.
    Unreadable,
}

/// Turns the reports of the controller into volume and mute actions.
pub struct VolumeController {
    test_mode: bool,
    prev_right: Option<i32>,
    prev_right_pressed: bool,
    volume: i32,
    muted: bool,
    saved_volume: Option<u32>,
}

/// The volume a test-mode controller starts at.
pub const TEST_START_VOLUME: i32 = 50;

/// `v` held within 0 to 100.
pub open spec fn clamp_percent(v: int) -> i32 {
    if v < 0 {
        0
    } else if v > 100 {
        100
    } else {
        v as i32
    }
}

/// Clamping to a percentage leaves a percentage alone and takes anything
/// else to the nearer end: a value below 0 to 0, one above 100 to 100.
pub proof fn lemma_clamp_percent(v: int)
    ensures
        0 <= v <= 100 ==> clamp_percent(v) == v,
        v < 0 ==> clamp_percent(v) == 0,
        v > 100 ==> clamp_percent(v) == 100,
        0 <= clamp_percent(v) <= 100,
{
}

impl VolumeController {
    /// Whether the mixer is only simulated.
    pub closed spec fn test_mode(self) -> bool {
        self.test_mode
    }

    /// The right knob's position in the previous report, if there was one.
    pub closed spec fn prev_right(self) -> Option<i32> {
        self.prev_right
    }

    /// Whether the right knob was held in the previous report.
    pub closed spec fn prev_right_pressed(self) -> bool {
        self.prev_right_pressed
    }

    /// The simulated volume (test mode).
    pub closed spec fn volume(self) -> i32 {
        self.volume
    }

    /// The simulated mute (test mode).
    pub closed spec fn muted(self) -> bool {
        self.muted
    }

    /// The level saved when muting, to restore on the next press.
    pub closed spec fn saved_volume(self) -> Option<u32> {
        self.saved_volume
    }

    /// The simulated volume stays a percentage.
    pub closed spec fn wf(self) -> bool {
        0 <= self.volume <= 100
    }

    /// Whether `state` can be taken without the arithmetic overflowing: the
    /// step from the previous position, and in test mode the volume plus that
    /// step, fit in an `i32`.
    pub open spec fn can_take(self, state: EncoderState) -> bool {
        self.prev_right() matches Some(prev) ==> {
            &&& i32::MIN <= state.right - prev <= i32::MAX
            &&& self.test_mode() ==> self.volume() + (state.right - prev) <= i32::MAX
        }
    }

    /// The controller after `state`, and its reaction. Only a change of the
    /// right position moves the volume, and only a press of the right button
    /// (not holding it) toggles mute; a turn forgets the level saved at a mute.
    pub closed spec fn step(self, state: EncoderState) -> (VolumeController, Reaction) {
        let delta: int = match self.prev_right {
            Some(prev) => state.right - prev,
            None => 0,
        };
        let turned = self.prev_right is Some && delta != 0;
        let volume = if turned && self.test_mode {
            clamp_percent(self.volume + delta)
        } else {
            self.volume
        };
        let saved = if turned && !self.test_mode {
            None
        } else {
            self.saved_volume
        };
        let volume_change = if !turned {
            None
        } else if self.test_mode {
            Some(VolumeChange::TestLevel(volume))
        } else {
            Some(VolumeChange::Adjust(delta as i32))
        };
        let pressed = state.right_pressed && !self.prev_right_pressed;
        let (muted, saved, press) = if !pressed {
            (self.muted, saved, None)
        } else if self.test_mode {
            (!self.muted, saved, Some(PressAction::TestMuted(!self.muted)))
        } else {
            match saved {
                Some(level) => (self.muted, None, Some(PressAction::Restore(level))),
                None => (self.muted, None, Some(PressAction::QueryForMute)),
            }
        };
        (
            VolumeController {
                test_mode: self.test_mode,
                prev_right: Some(state.right),
                prev_right_pressed: state.right_pressed,
                volume,
                muted,
                saved_volume: saved,
            },
            Reaction { volume: volume_change, press },
        )
    }

    /// The controller after the mixer read that a mute waits for, and the
    /// outcome: a level read is saved for the next press to restore.
    pub closed spec fn saving(self, current: Option<u32>) -> (VolumeController, MuteOutcome) {
        match current {
            Some(level) => (VolumeController { saved_volume: Some(level), ..self }, MuteOutcome::Mute { was: level }),
            None => (self, MuteOutcome::Unreadable),
        }
    }

    /// A controller that has seen no report, at volume 50 and not muted.
    pub fn new(test_mode: bool) -> (c: Self)
        ensures
            c.wf(),
            c.test_mode() == test_mode,
            c.prev_right() is None,
            !c.prev_right_pressed(),
            c.volume() == TEST_START_VOLUME,
            !c.muted(),
            c.saved_volume() is None,
    {
        Self {
            test_mode,
            prev_right: None,
            prev_right_pressed: false,
            volume: TEST_START_VOLUME,
            muted: false,
            saved_volume: None,
        }
    }

    /// Whether `handle` can take `state` (see `can_take`); where it cannot, the
    /// step from the previous position overflows.
    pub fn accepts(&self, state: &EncoderState) -> (b: bool)
        ensures
            b == self.can_take(*state),
    {
        match self.prev_right {
            Some(prev) => {
                let delta: i64 = state.right as i64 - prev as i64;
                let in_range = i32::MIN as i64 <= delta && delta <= i32::MAX as i64;
                in_range && (!self.test_mode || self.volume as i64 + delta <= i32::MAX as i64)
            },
            None => true,
        }
    }

    /// Take one decoded report and say what to do about it.
    pub fn handle(&mut self, state: EncoderState) -> (r: Reaction)
        requires
            old(self).wf(),
            old(self).can_take(state),
        ensures
            final(self).wf(),
            (*final(self), r) == old(self).step(state),
            final(self).prev_right() == Some(state.right),
            old(self).prev_right() is None ==> r.volume is None && final(self).volume() == old(self).volume(),
            old(self).prev_right() == Some(state.right) ==> {
                &&& r.volume is None
                &&& final(self).volume() == old(self).volume()
            },
            old(self).prev_right() is Some && old(self).prev_right() != Some(state.right) ==> {
                let prev = old(self).prev_right().unwrap();
                let target = old(self).volume() + (state.right - prev);
                if old(self).test_mode() {
                    &&& 0 <= target <= 100 ==> final(self).volume() == target
                    &&& target < 0 ==> final(self).volume() == 0
                    &&& target > 100 ==> final(self).volume() == 100
                    &&& r.volume == Some(VolumeChange::TestLevel(final(self).volume()))
                } else {
                    &&& r.volume == Some(VolumeChange::Adjust((state.right - prev) as i32))
                    &&& final(self).saved_volume() is None
                }
            },
            !(state.right_pressed && !old(self).prev_right_pressed()) ==> r.press is None && final(self).muted() == old(self).muted(),
            state.right_pressed && !old(self).prev_right_pressed() && old(self).test_mode() ==> {
                &&& final(self).muted() != old(self).muted()
                &&& r.press == Some(PressAction::TestMuted(final(self).muted()))
            },
            ({
                let turned = old(self).prev_right() is Some && old(self).prev_right() != Some(state.right);
                let kept = if turned { None } else { old(self).saved_volume() };
                state.right_pressed && !old(self).prev_right_pressed() && !old(self).test_mode() ==> {
                    &&& final(self).saved_volume() is None
                    &&& kept is Some ==> r.press == Some(PressAction::Restore(kept.unwrap()))
                    &&& kept is None ==> r.press == Some(PressAction::QueryForMute)
                }
            }),
    {
        let mut volume_change: Option<VolumeChange> = None;
        if let Some(prev) = self.prev_right {
            let delta: i32 = state.right - prev;
            if delta != 0 {
                if self.test_mode {
                    let sum: i32 = self.volume + delta;
                    self.volume = if sum < 0 {
                        0
                    } else if sum > 100 {
                        100
                    } else {
                        sum
                    };
                    volume_change = Some(VolumeChange::TestLevel(self.volume));
                } else {
                    // Turning after a mute drops the saved level: the user has
                    // chosen a new level, so a later press mutes from there.
                    self.saved_volume = None;
                    volume_change = Some(VolumeChange::Adjust(delta));
                }
            }
        }
        self.prev_right = Some(state.right);
        let mut press: Option<PressAction> = None;
        if state.right_pressed && !self.prev_right_pressed {
            if self.test_mode {
                self.muted = !self.muted;
                press = Some(PressAction::TestMuted(self.muted));
            } else if let Some(level) = self.saved_volume.take() {
                press = Some(PressAction::Restore(level));
            } else {
                press = Some(PressAction::QueryForMute);
            }
        }
        self.prev_right_pressed = state.right_pressed;
        Reaction { volume: volume_change, press }
    }

    /// Finish a mute with the level read from the mixer, if it could be read:
    /// that level is saved for the next press to restore.
    pub fn mute_at(&mut self, current: Option<u32>) -> (m: MuteOutcome)
        ensures
            old(self).wf() ==> final(self).wf(),
            (*final(self), m) == old(self).saving(current),
    {
        match current {
            Some(level) => {
                self.saved_volume = Some(level);
                MuteOutcome::Mute { was: level }
            },
            None => MuteOutcome::Unreadable,
        }
    }
}

/// The whole of one step, over the controller's accessors. With `delta` the
/// move of the right knob from the previous report (none for the first),
/// a turn is a non-zero `delta` and a press is the right button going down:
/// - the report becomes the previous one;
/// - a turn in test mode sets the simulated volume to the old one plus
///   `delta`, held within 0 to 100, and reports it; otherwise it reports an
///   adjustment by `delta` and forgets the saved level;
/// - a press in test mode flips the simulated mute and reports it; otherwise
///   it restores the saved level (which is then forgotten) or, with none
///   saved, asks for the current level.
pub proof fn lemma_step(c: VolumeController, state: EncoderState)
    ensures
        ({
            let (next, r) = c.step(state);
            let delta: int = match c.prev_right() {
                Some(prev) => state.right - prev,
                None => 0,
            };
            let turned = c.prev_right() is Some && delta != 0;
            let pressed = state.right_pressed && !c.prev_right_pressed();
            let saved_after_turn = if turned && !c.test_mode() { None } else { c.saved_volume() };
            &&& next.test_mode() == c.test_mode()
            &&& next.prev_right() == Some(state.right)
            &&& next.prev_right_pressed() == state.right_pressed
            &&& next.volume() == if turned && c.test_mode() {
                clamp_percent(c.volume() + delta)
            } else {
                c.volume()
            }
            &&& r.volume == if !turned {
                None
            } else if c.test_mode() {
                Some(VolumeChange::TestLevel(clamp_percent(c.volume() + delta)))
            } else {
                Some(VolumeChange::Adjust(delta as i32))
            }
            &&& next.muted() == if pressed && c.test_mode() { !c.muted() } else { c.muted() }
            &&& next.saved_volume() == if pressed && !c.test_mode() { None } else { saved_after_turn }
            &&& r.press == if !pressed {
                None
            } else if c.test_mode() {
                Some(PressAction::TestMuted(!c.muted()))
            } else {
                match saved_after_turn {
                    Some(level) => Some(PressAction::Restore(level)),
                    None => Some(PressAction::QueryForMute),
                }
            }
        }),
{
}

/// The whole of finishing a mute: a level read is saved and reported, and
/// nothing else changes; no level read changes nothing.
pub proof fn lemma_saving(c: VolumeController, current: Option<u32>)
    ensures
        ({
            let (next, m) = c.saving(current);
            &&& next.test_mode() == c.test_mode()
            &&& next.prev_right() == c.prev_right()
            &&& next.prev_right_pressed() == c.prev_right_pressed()
            &&& next.volume() == c.volume()
            &&& next.muted() == c.muted()
            &&& next.wf() == c.wf()
            &&& match current {
                Some(level) => next.saved_volume() == Some(level) && m == MuteOutcome::Mute { was: level },
                None => next.saved_volume() == c.saved_volume() && m == MuteOutcome::Unreadable,
            }
        }),
{
}

/// Only the moment the right button goes down counts as a press: holding it
/// through further reports, or releasing it, neither mutes nor unmutes.
pub proof fn lemma_press_is_an_edge(c: VolumeController, state: EncoderState)
    ensures
        c.step(state).1.press is Some <==> (state.right_pressed && !c.prev_right_pressed()),
        c.step(state).0.prev_right_pressed() == state.right_pressed,
{
}

/// The first report only sets the reference position: it never moves the
/// volume.
pub proof fn lemma_first_report_keeps_volume(c: VolumeController, state: EncoderState)
    requires
        c.prev_right() is None,
    ensures
        c.step(state).1.volume is None,
        c.step(state).0.volume() == c.volume(),
        c.step(state).0.prev_right() == Some(state.right),
{
}

/// Turning the right knob by `d` adjusts the mixer by `d` percent (in test
/// mode: moves the simulated volume by `d`, held within 0 to 100).
pub proof fn lemma_turn_moves_volume(c: VolumeController, state: EncoderState, prev: i32)
    requires
        c.prev_right() == Some(prev),
        state.right != prev,
        c.can_take(state),
    ensures
        !c.test_mode() ==> c.step(state).1.volume == Some(VolumeChange::Adjust((state.right - prev) as i32)),
        c.test_mode() ==> c.step(state).1.volume == Some(VolumeChange::TestLevel(clamp_percent(c.volume() + state.right - prev))),
{
}

/// Turning after a mute drops the saved level: the next press mutes from the
/// new level instead of restoring the old one.
pub proof fn lemma_turn_forgets_saved_level(c: VolumeController, state: EncoderState, prev: i32)
    requires
        !c.test_mode(),
        c.prev_right() == Some(prev),
        state.right != prev,
    ensures
        c.step(state).0.saved_volume() is None,
        state.right_pressed && !c.prev_right_pressed() ==> c.step(state).1.press == Some(PressAction::QueryForMute),
{
}

/// A press with a level saved restores it and forgets it.
pub proof fn lemma_press_restores_saved_level(c: VolumeController, state: EncoderState, level: u32)
    requires
        !c.test_mode(),
        c.saved_volume() == Some(level),
        c.prev_right() is None || c.prev_right() == Some(state.right),
        state.right_pressed,
        !c.prev_right_pressed(),
    ensures
        c.step(state).1.press == Some(PressAction::Restore(level)),
        c.step(state).0.saved_volume() is None,
{
}

/// Mute then unmute without turning: a press asks for the current level, the
/// level read is saved, and the next press (after a release) restores exactly
/// that level and leaves nothing saved.
pub proof fn lemma_mute_then_unmute(c: VolumeController, pos: i32, level: u32)
    requires
        !c.test_mode(),
        c.saved_volume() is None,
        c.prev_right() == Some(pos),
        !c.prev_right_pressed(),
    ensures
        ({
            let down = EncoderState { left: 0, right: pos, left_pressed: false, right_pressed: true };
            let up = EncoderState { right_pressed: false, ..down };
            let (c1, r1) = c.step(down);
            let (c2, m) = c1.saving(Some(level));
            let (c3, r3) = c2.step(up);
            let (c4, r4) = c3.step(down);
            &&& r1 == Reaction { volume: None, press: Some(PressAction::QueryForMute) }
            &&& m == MuteOutcome::Mute { was: level }
            &&& r3 == Reaction { volume: None, press: None }
            &&& r4 == Reaction { volume: None, press: Some(PressAction::Restore(level)) }
            &&& c4.saved_volume() is None
        }),
{
}

/// In test mode every press flips the simulated mute.
pub proof fn lemma_test_press_toggles(c: VolumeController, state: EncoderState)
    requires
        c.test_mode(),
        state.right_pressed,
        !c.prev_right_pressed(),
    ensures
        c.step(state).0.muted() == !c.muted(),
        c.step(state).1.press == Some(PressAction::TestMuted(!c.muted())),
{
}

} // verus!
