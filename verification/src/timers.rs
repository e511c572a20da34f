//! A pair of countdown timers driven by a thread of their own, 60 times a
//! second. The thread itself, which sleeps between ticks, stands outside
//! the library; each tick is decided here.
use vstd::prelude::*;

verus! {

/// The delay and sound timers that the timer thread counts down.
pub struct ChipTimer {
    delay_timer: u8,
    sound_timer: u8,
}

impl ChipTimer {
    /// The delay timer's value.
    pub closed spec fn delay(&self) -> u8 {
        self.delay_timer
    }

    /// The sound timer's value.
    pub closed spec fn sound(&self) -> u8 {
        self.sound_timer
    }

    /// Both timers at zero.
    pub fn new() -> (t: Self)
        ensures
            t.delay() == 0,
            t.sound() == 0,
    {
        ChipTimer { delay_timer: 0, sound_timer: 0 }
    }

    /// One step of the timer thread: each timer that is above zero goes
    /// down by one.
    pub fn tick(&mut self)
        ensures
            final(self).delay() == if old(self).delay() > 0 {
                old(self).delay() - 1
            } else {
                0
            },
            final(self).sound() == if old(self).sound() > 0 {
                old(self).sound() - 1
            } else {
                0
            },
    {
        if self.delay_timer > 0 {
            self.delay_timer -= 1;
        }
        if self.sound_timer > 0 {
            self.sound_timer -= 1;
        }
    }
}

} // verus!
