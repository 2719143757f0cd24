//! The two 60 Hz countdown timers.
//!
//! Both decrement once per tick while above zero. The sound timer
//! additionally drives an external audio-enable signal: asserted while its
//! value is nonzero after the tick, de-asserted once it reaches zero.

use vstd::prelude::*;

verus! {

/// A timer value after one tick: decremented while above zero, parked at
/// zero otherwise.
pub open spec fn spec_ticked(value: u8) -> u8 {
    if value > 0 {
        (value - 1) as u8
    } else {
        0u8
    }
}

/// The audio-enable signal that belongs to a sound-timer value: beeping
/// exactly while the value is nonzero.
pub open spec fn spec_audio_signal(value: u8) -> bool {
    value > 0
}

/// The delay timer: counts down to zero, nothing more.
pub struct DelayTimer {
    pub time_value: u8,
}

impl DelayTimer {
    /// A fresh delay timer, parked at zero.
    pub fn new() -> (r: Self)
        ensures
            r.time_value == 0,
    {
        DelayTimer { time_value: 0 }
    }

    /// One 60 Hz tick: decrements the timer unless it already reached zero.
    pub fn tick_down(&mut self)
        ensures
            final(self).time_value == spec_ticked(old(self).time_value),
    {
        if self.time_value > 0 {
            self.time_value -= 1;
        }
    }
}

/// How a host driver turns the beep on and off.
pub trait SoundDriver {
    fn set_beep(&self, state: bool);
}

/// The sound timer: counts down to zero and keeps the host beeping while
/// it is above zero.
pub struct SoundTimer<D: SoundDriver> {
    pub time_value: u8,
    driver: D,
}

impl<D: SoundDriver> SoundTimer<D> {
    /// The current timer value, for contracts: the struct is opaque
    /// outside this module because of the driver it carries.
    pub closed spec fn spec_time(&self) -> u8 {
        self.time_value
    }

    /// A fresh sound timer, parked at zero and silent.
    pub fn new(driver: D) -> (r: Self)
        ensures
            r.spec_time() == 0,
    {
        SoundTimer { time_value: 0, driver }
    }

    /// Loads the timer with a fresh count.
    pub fn set_time(&mut self, value: u8)
        ensures
            final(self).spec_time() == value,
    {
        self.time_value = value;
    }

    /// The current count.
    pub fn get_time(&self) -> (r: u8)
        ensures
            r == self.spec_time(),
    {
        self.time_value
    }

    /// One 60 Hz tick: decrements the timer unless it already reached
    /// zero, then hands the driver the audio signal of the new value —
    /// asserted while nonzero, de-asserted at zero.
    pub fn tick_down(&mut self)
        ensures
            final(self).spec_time() == spec_ticked(old(self).spec_time()),
    {
        if self.time_value > 0 {
            self.time_value -= 1;
        }
        let beeping = self.time_value > 0;
        self.driver.set_beep(beeping);
    }
}

} // verus!
