//! The decisions of the single-knob daemon: where a turn of the rotary
//! encoder takes the level, which LED shows it, and the mixer command that
//! sets it.
use vstd::prelude::*;

use crate::decimal::{decimal, parse_u32, push_decimal};

verus! {

/// What the rotary encoder reports on one poll.
#[derive(Clone, Copy, Debug, PartialEq, Eq, Structural)]
pub enum Rotation {
    Clockwise,
    CounterClockwise,
    Idle,
}

/// How far one detent moves the level.
pub const KNOB_STEP: i16 = 5;

/// The highest level.
pub const KNOB_MAX: i16 = 255;

/// Where `rotation` takes the level from `position`: one step up or down,
/// held within 0 to `KNOB_MAX`.
pub open spec fn knob_next(position: int, rotation: Rotation) -> int {
    match rotation {
        Rotation::Clockwise => if position + KNOB_STEP > KNOB_MAX {
            KNOB_MAX as int
        } else {
            position + KNOB_STEP
        },
        Rotation::CounterClockwise => if position - KNOB_STEP < 0 {
            0
        } else {
            position - KNOB_STEP
        },
        Rotation::Idle => position,
    }
}

/// What a poll does to the level, by rotation: an idle poll leaves it where
/// it is; a clockwise detent raises it by `KNOB_STEP`, or to `KNOB_MAX` where
/// that is nearer; a counter-clockwise detent lowers it by `KNOB_STEP`, or to
/// 0 where that is nearer. So the level never leaves 0 to `KNOB_MAX`, and
/// turning never moves it the wrong way.
pub proof fn lemma_knob_next(position: int, rotation: Rotation)
    requires
        0 <= position <= KNOB_MAX,
    ensures
        0 <= knob_next(position, rotation) <= KNOB_MAX,
        rotation == Rotation::Idle ==> knob_next(position, rotation) == position,
        rotation == Rotation::Clockwise ==> {
            &&& position <= knob_next(position, rotation) <= position + 5
            &&& position + 5 <= 255 ==> knob_next(position, rotation) == position + 5
            &&& position + 5 > 255 ==> knob_next(position, rotation) == 255
        },
        rotation == Rotation::CounterClockwise ==> {
            &&& position - 5 <= knob_next(position, rotation) <= position
            &&& position >= 5 ==> knob_next(position, rotation) == position - 5
            &&& position < 5 ==> knob_next(position, rotation) == 0
        },
{
}

/// The level set by the knob.
pub struct Knob {
    position: i16,
}

impl Knob {
    pub closed spec fn position(self) -> int {
        self.position as int
    }

    /// The level is always between 0 and `KNOB_MAX`.
    pub closed spec fn wf(self) -> bool {
        0 <= self.position <= KNOB_MAX
    }

    /// A knob at level 0.
    pub fn new() -> (k: Self)
        ensures
            k.wf(),
            k.position() == 0,
    {
        Self { position: 0 }
    }

    /// Take one poll of the encoder. Returns the new level when it moved.
    pub fn turn(&mut self, rotation: Rotation) -> (r: Option<u8>)
        requires
            old(self).wf(),
        ensures
            final(self).wf(),
            final(self).position() == knob_next(old(self).position(), rotation),
            rotation == Rotation::Idle ==> r is None && final(self).position() == old(self).position(),
            rotation == Rotation::Clockwise ==> final(self).position() == if old(self).position() + 5 <= 255 {
                old(self).position() + 5
            } else {
                255
            },
            rotation == Rotation::CounterClockwise ==> final(self).position() == if old(self).position() >= 5 {
                old(self).position() - 5
            } else {
                0
            },
            r matches Some(level) ==> level as int == final(self).position() && level as int != old(self).position(),
            r == if final(self).position() != old(self).position() {
                Some(final(self).position() as u8)
            } else {
                None::<u8>
            },
    {
        let old_position: i16 = self.position;
        match rotation {
            Rotation::Clockwise => {
                self.position = if self.position + KNOB_STEP > KNOB_MAX {
                    KNOB_MAX
                } else {
                    self.position + KNOB_STEP
                };
            },
            Rotation::CounterClockwise => {
                self.position = if self.position - KNOB_STEP < 0 {
                    0
                } else {
                    self.position - KNOB_STEP
                };
            },
            Rotation::Idle => {},
        }
        if self.position != old_position {
            Some(self.position as u8)
        } else {
            None
        }
    }
}

/// Which of the three LEDs are lit for `level`: exactly the one at
/// `level % 3`.
pub fn led_pattern(level: u8) -> (leds: [bool; 3])
    ensures
        forall|i: int| 0 <= i < 3 ==> leds@[i] == (i == level % 3),
{
    let lit: u8 = level % 3;
    [lit == 0, lit == 1, lit == 2]
}

/// The shell command that sets the DSP volume to `level`.
pub fn dsp_volume_command(level: u8) -> (cmd: String)
    ensures
        cmd@ == "amixer set DSPVolume "@ + decimal(level as nat),
        cmd@.take(21) == "amixer set DSPVolume "@,
        parse_u32(cmd@.skip(21)) == Some(level as u32),
{
    let mut cmd = String::new();
    proof {
        reveal_strlit("amixer set DSPVolume ");
    }
    cmd.append("amixer set DSPVolume ");
    push_decimal(&mut cmd, level as u32);
    assert(cmd@ =~= "amixer set DSPVolume "@ + decimal(level as nat));
    cmd
}

} // verus!
