//! The fixed-rate cycle scheduler.
//!
//! Dispatch runs at 700 Hz and the timers at 60 Hz. The runner keeps two
//! accumulators in a microsecond-like tick unit; every `tick_chip` call
//! advances both by one tick, fires a timer tick when the timer interval
//! is exceeded and one dispatcher step when the decode interval is
//! exceeded — each at most once per call. `decode_next_immediately`
//! drains in catch-up mode, without sleeping, until a timer tick has just
//! fired; pacing the ticks in real time is the host's affair.

use vstd::prelude::*;

use crate::errors::ChipError;
use crate::instruction_decoder::{
    spec_chip_step, spec_initial_state, spec_tick_timers, spec_waits_for_key, ChipState, ChipSystem,
};
use crate::keyboard::KeyboardDriver;
use crate::memory::{MEMORY_SIZE, PROGRAM_START};
use crate::memory::spec_loaded_memory;
use crate::timers::SoundDriver;
use crate::video::VideoDriver;

verus! {

/// Ticks per second: the least common multiple of the two rates.
pub const TIMING_LCM: u64 = 700 * 60;

/// The length of one scheduler tick.
pub const MICROSECONDS_PER_TICK: u64 = 1000000 / TIMING_LCM;

/// The 60 Hz timer interval, in the same unit.
pub const MICROSECONDS_PER_TIMER_DECREMENT: u64 = MICROSECONDS_PER_TICK * 700;

/// The 700 Hz dispatch interval, in the same unit.
pub const MICROSECONDS_PER_INSTRUCTION_DECODE: u64 = MICROSECONDS_PER_TICK * 60;

/// The mathematical state of the runner: the machine plus the two
/// accumulators.
pub ghost struct RunnerState {
    pub sys: ChipState,
    pub since_timer: u64,
    pub since_decode: u64,
}

impl RunnerState {
    /// Accumulators never sit beyond their interval: they are reset the
    /// moment they exceed it.
    pub open spec fn wf(self) -> bool {
        &&& self.sys.wf()
        &&& self.since_timer <= MICROSECONDS_PER_TIMER_DECREMENT
        &&& self.since_decode <= MICROSECONDS_PER_INSTRUCTION_DECODE
    }
}

/// One scheduler tick: both accumulators advance by one tick; the timers
/// fire when the timer interval is exceeded, then one dispatcher step
/// runs when the decode interval is exceeded; whichever fired is reset.
pub open spec fn spec_runner_tick(rs: RunnerState, key: Option<u8>) -> (
    RunnerState,
    Result<(), ChipError>,
) {
    let t = rs.since_timer + MICROSECONDS_PER_TICK;
    let d = rs.since_decode + MICROSECONDS_PER_TICK;
    let timer_fires = t > MICROSECONDS_PER_TIMER_DECREMENT;
    let sys1 = if timer_fires {
        spec_tick_timers(rs.sys)
    } else {
        rs.sys
    };
    let t1: u64 = if timer_fires {
        0u64
    } else {
        t as u64
    };
    if d > MICROSECONDS_PER_INSTRUCTION_DECODE {
        let step = spec_chip_step(sys1, key);
        (RunnerState { sys: step.0, since_timer: t1, since_decode: 0 }, step.1)
    } else {
        (RunnerState { sys: sys1, since_timer: t1, since_decode: (d as u64) }, Ok(()))
    }
}

/// Whether this tick will run the dispatcher on the blocking key-wait
/// instruction.
pub open spec fn spec_tick_waits_for_key(rs: RunnerState) -> bool {
    rs.since_decode + MICROSECONDS_PER_TICK > MICROSECONDS_PER_INSTRUCTION_DECODE
        && spec_waits_for_key(rs.sys)
}

/// A run of `n` scheduler ticks from `a` to `b` with overall result `r`:
/// every tick up to the last returned `Ok`, and a failing tick, if any,
/// is the last.
pub open spec fn spec_runner_run(
    a: RunnerState,
    b: RunnerState,
    r: Result<(), ChipError>,
    n: nat,
) -> bool
    decreases n,
{
    if n == 0 {
        b == a && r == Ok::<(), ChipError>(())
    } else {
        exists|key: Option<u8>|
            #![trigger spec_runner_tick(a, key)]
            {
                if spec_runner_tick(a, key).1 is Err {
                    &&& n == 1
                    &&& b == spec_runner_tick(a, key).0
                    &&& r == spec_runner_tick(a, key).1
                } else {
                    spec_runner_run(spec_runner_tick(a, key).0, b, r, (n - 1) as nat)
                }
            }
    }
}

/// A run extends by one more tick at its end.
proof fn lemma_runner_run_snoc(
    a: RunnerState,
    b: RunnerState,
    n: nat,
    c: RunnerState,
    r: Result<(), ChipError>,
    key: Option<u8>,
)
    requires
        spec_runner_run(a, b, Ok::<(), ChipError>(()), n),
        (c, r) == spec_runner_tick(b, key),
    ensures
        spec_runner_run(a, c, r, n + 1),
    decreases n,
{
    if n == 0 {
        assert(b == a);
        let step = spec_runner_tick(a, key);
        if step.1 is Err {
            assert(spec_runner_run(a, c, r, 1));
        } else {
            assert(spec_runner_run(step.0, c, r, 0));
            assert(spec_runner_run(a, c, r, 1));
        }
    } else {
        let key0 = choose|key0: Option<u8>|
            #![trigger spec_runner_tick(a, key0)]
            spec_runner_tick(a, key0).1 is Ok && spec_runner_run(
                spec_runner_tick(a, key0).0,
                b,
                Ok::<(), ChipError>(()),
                (n - 1) as nat,
            );
        let step0 = spec_runner_tick(a, key0);
        lemma_runner_run_snoc(step0.0, b, (n - 1) as nat, c, r, key);
        assert(spec_runner_run(a, c, r, n + 1));
    }
}

/// Runs the machine at the fixed 700:60 cadence. One `tick_chip` call is
/// one scheduler tick; a host loop paces the calls in real time.
pub struct TimedRunner<V: VideoDriver, S: SoundDriver, K: KeyboardDriver> {
    system: ChipSystem<V, S, K>,
    time_since_timer_decrement: u64,
    time_since_last_decode: u64,
}

impl<V: VideoDriver, S: SoundDriver, K: KeyboardDriver> View for TimedRunner<V, S, K> {
    type V = RunnerState;

    closed spec fn view(&self) -> RunnerState {
        RunnerState {
            sys: self.system@,
            since_timer: self.time_since_timer_decrement,
            since_decode: self.time_since_last_decode,
        }
    }
}

impl<V: VideoDriver, S: SoundDriver, K: KeyboardDriver> TimedRunner<V, S, K> {
    /// The machine and the accumulators are in shape.
    pub closed spec fn wf(&self) -> bool {
        &&& self.system.wf()
        &&& self@.wf()
    }

    /// A fresh runner around a fresh machine, both accumulators at zero.
    pub fn new(video_driver: V, sound_driver: S, keyboard_driver: K) -> (r: Self)
        ensures
            r.wf(),
            r@ == (RunnerState { sys: spec_initial_state(), since_timer: 0, since_decode: 0 }),
    {
        TimedRunner {
            system: ChipSystem::new(video_driver, sound_driver, keyboard_driver),
            time_since_timer_decrement: 0,
            time_since_last_decode: 0,
        }
    }

    /// Copies a program into the machine and points it at the entry
    /// address; fails with `ProgramTooLarge`, changing nothing, when the
    /// program does not fit.
    pub fn load_program(&mut self, program_array: Vec<u8>) -> (r: Result<(), ChipError>)
        requires
            old(self).wf(),
        ensures
            final(self).wf(),
            final(self)@.since_timer == old(self)@.since_timer,
            final(self)@.since_decode == old(self)@.since_decode,
            program_array@.len() <= MEMORY_SIZE - PROGRAM_START ==> {
                &&& r == Ok::<(), ChipError>(())
                &&& final(self)@.sys == ChipState {
                    pc: PROGRAM_START,
                    mem: spec_loaded_memory(old(self)@.sys.mem, program_array@),
                    ..old(self)@.sys
                }
            },
            program_array@.len() > MEMORY_SIZE - PROGRAM_START ==> {
                &&& r == Err::<(), ChipError>(ChipError::ProgramTooLarge)
                &&& final(self)@.sys == old(self)@.sys
            },
    {
        self.system.load_program(program_array)
    }

    /// The machine, for a host that wants to inspect it.
    pub fn system(&self) -> (r: &ChipSystem<V, S, K>)
        ensures
            r@ == self@.sys,
            self.wf() ==> r.wf(),
    {
        &self.system
    }

    /// One scheduler tick, exactly `spec_runner_tick` for the key the
    /// keypad reported: at most one timer tick and at most one dispatcher
    /// step, each when its interval is exceeded.
    pub fn tick_chip(&mut self) -> (r: Result<(), ChipError>)
        requires
            old(self).wf(),
        ensures
            final(self).wf(),
            exists|key: Option<u8>|
                {
                    &&& (spec_tick_waits_for_key(old(self)@) ==> key is Some)
                    &&& (final(self)@, r) == spec_runner_tick(old(self)@, key)
                },
    {
        let ghost pre = self@;
        self.time_since_timer_decrement = self.time_since_timer_decrement + MICROSECONDS_PER_TICK;
        self.time_since_last_decode = self.time_since_last_decode + MICROSECONDS_PER_TICK;

        if self.time_since_timer_decrement > MICROSECONDS_PER_TIMER_DECREMENT {
            self.system.tick_timers();
            self.time_since_timer_decrement = 0;
        }
        if self.time_since_last_decode > MICROSECONDS_PER_INSTRUCTION_DECODE {
            let ghost mid = self.system@;
            let r = self.system.decode_next_instruction();
            self.time_since_last_decode = 0;
            proof {
                let k = choose|k: Option<u8>|
                    (spec_waits_for_key(mid) ==> k is Some) && (self.system@, r) == spec_chip_step(
                        mid,
                        k,
                    );
                assert((self@, r) == spec_runner_tick(pre, k));
            }
            r
        } else {
            proof {
                assert((self@, Result::<(), ChipError>::Ok(())) == spec_runner_tick(
                    pre,
                    Option::<u8>::None,
                ));
            }
            Ok(())
        }
    }

    /// Catch-up mode: scheduler ticks back to back, without sleeping,
    /// until a timer tick has just fired — or a dispatcher error stops the
    /// run. From a fresh accumulator this is a no-op, as the timer
    /// accumulator is already at zero.
    #[verifier::loop_isolation(false)]
    pub fn decode_next_immediately(&mut self) -> (r: Result<(), ChipError>)
        requires
            old(self).wf(),
        ensures
            final(self).wf(),
            exists|n: nat| spec_runner_run(old(self)@, final(self)@, r, n),
            r is Ok ==> final(self)@.since_timer == 0,
    {
        proof {
            assert(spec_runner_run(old(self)@, self@, Ok::<(), ChipError>(()), 0));
        }
        while self.time_since_timer_decrement != 0
            invariant
                self.wf(),
                exists|n: nat| spec_runner_run(old(self)@, self@, Ok::<(), ChipError>(()), n),
            decreases (
            if self.time_since_timer_decrement == 0 {
                0int
            } else {
                MICROSECONDS_PER_TIMER_DECREMENT + MICROSECONDS_PER_TICK
                    - self.time_since_timer_decrement
            }),
        {
            let ghost prev = self@;
            let ghost n0 = choose|n: nat|
                spec_runner_run(old(self)@, prev, Ok::<(), ChipError>(()), n);
            let r = self.tick_chip();
            proof {
                let k = choose|k: Option<u8>|
                    (spec_tick_waits_for_key(prev) ==> k is Some) && (self@, r)
                        == spec_runner_tick(prev, k);
                lemma_runner_run_snoc(old(self)@, prev, n0, self@, r, k);
            }
            if let Err(e) = r {
                return Err(e);
            }
        }
        Ok(())
    }
}

} // verus!
