//! The delay and sound timers of a CHIP-8 machine.
//!
//! Both timers count down by one on every tick (60 times a second) until
//! they reach zero. While the sound timer is above zero at a tick, the
//! machine beeps.
use vstd::prelude::*;

verus! {

#[verifier::ext_equal]
/// The abstract state of the timers: the two counters and whether the
/// last tick asked for a beep.
pub struct TimerState {
    pub delay: u8,
    pub sound: u8,
    pub beep: bool,
}

/// What one tick does to the timers: each counter that is above zero goes
/// down by one, and the beep flag says whether the sound timer was above
/// zero before the tick.
pub open spec fn tick_spec(t: TimerState) -> TimerState {
    TimerState {
        delay: if t.delay > 0 { (t.delay - 1) as u8 } else { 0 },
        sound: if t.sound > 0 { (t.sound - 1) as u8 } else { 0 },
        beep: t.sound > 0,
    }
}

/// The delay timer, the sound timer and the beep flag of a machine.
pub struct ChipTimer {
    delay_timer: u8,
    sound_timer: u8,
    should_beep: bool,
}

impl View for ChipTimer {
    type V = TimerState;

    closed spec fn view(&self) -> TimerState {
        TimerState {
            delay: self.delay_timer,
            sound: self.sound_timer,
            beep: self.should_beep,
        }
    }
}

impl ChipTimer {
    /// Both timers at zero, no beep.
    pub fn new() -> (t: Self)
        ensures
            t@ == (TimerState { delay: 0, sound: 0, beep: false }),
    {
        ChipTimer { delay_timer: 0, sound_timer: 0, should_beep: false }
    }

    /// One tick of the 60 Hz clock.
    pub fn tick(&mut self)
        ensures
            final(self)@ == tick_spec(old(self)@),
    {
        if self.delay_timer > 0 {
            self.delay_timer = self.delay_timer - 1;
        }
        if self.sound_timer > 0 {
            self.sound_timer = self.sound_timer - 1;
            self.should_beep = true;
        } else {
            self.should_beep = false;
        }
    }

    /// The value of the delay timer.
    pub fn read_dt(&self) -> (v: u8)
        ensures
            v == self@.delay,
    {
        self.delay_timer
    }

    /// Sets the delay timer.
    pub fn write_dt(&mut self, val: u8)
        ensures
            final(self)@ == (TimerState { delay: val, ..old(self)@ }),
    {
        self.delay_timer = val;
    }

    /// Sets the sound timer.
    pub fn write_st(&mut self, val: u8)
        ensures
            final(self)@ == (TimerState { sound: val, ..old(self)@ }),
    {
        self.sound_timer = val;
    }

    /// Whether the last tick asked for a beep.
    pub fn should_beep(&self) -> (b: bool)
        ensures
            b == self@.beep,
    {
        self.should_beep
    }
}

} // verus!

verus! {

/// The timers after `k` ticks.
pub open spec fn ticks(t: TimerState, k: nat) -> TimerState
    decreases k,
{
    if k == 0 {
        t
    } else {
        tick_spec(ticks(t, (k - 1) as nat))
    }
}

/// The timers count down at one per tick and stop at zero: after `k`
/// ticks each is its old value less `k`, or zero. So after 255 ticks both
/// are at zero.
pub proof fn lemma_timers_count_down(t: TimerState, k: nat)
    ensures
        ticks(t, k).delay == if t.delay >= k {
            t.delay - k
        } else {
            0
        },
        ticks(t, k).sound == if t.sound >= k {
            t.sound - k
        } else {
            0
        },
    decreases k,
{
    if k > 0 {
        lemma_timers_count_down(t, (k - 1) as nat);
    }
}

} // verus!
