//! The state of one fixed-timestep loop and the steps that change it.

use vstd::prelude::*;
use vstd::arithmetic::div_mod::lemma_fundamental_div_mod_converse;

verus! {

/// Length of one logical tick, in nanoseconds (about 1/60 s).
pub const FIXED_TICK_NANOS: u64 = 16_666_667;

/// What a frame callback reports back to the loop.
#[derive(Clone, Copy, Debug, PartialEq, Eq, Structural)]
pub enum Action {
    Stop,
    Continue,
}

/// How long to suspend the thread when `accumulator` nanoseconds of
/// simulation time are left unconsumed: the rest of the tick, and never
/// less than zero.
pub open spec fn sleep_for(accumulator: int) -> nat {
    if accumulator >= FIXED_TICK_NANOS {
        0
    } else {
        (FIXED_TICK_NANOS - accumulator) as nat
    }
}

/// The time to sleep, `max(0, FIXED_TICK_NANOS - accumulator)`.
pub fn clamped_sleep_nanos(accumulator: u64) -> (r: u64)
    ensures
        r == sleep_for(accumulator as int),
{
    if accumulator >= FIXED_TICK_NANOS {
        0
    } else {
        FIXED_TICK_NANOS - accumulator
    }
}

/// What the loop does after a frame that asked to continue: run `updates`
/// logical updates, then sleep for `sleep_nanos`.
#[derive(Clone, Copy, Debug, PartialEq, Eq)]
pub struct Tick {
    pub updates: u64,
    pub sleep_nanos: u64,
}

/// The loop's own state: the simulation time not yet consumed by a logical
/// update, and whether the loop is still running.
pub struct FixedTimestep {
    accumulator: u64,
    running: bool,
}

impl FixedTimestep {
    /// Unconsumed simulation time, in nanoseconds.
    pub closed spec fn accumulated(&self) -> nat {
        self.accumulator as nat
    }

    /// True until a frame has asked to stop.
    pub closed spec fn running(&self) -> bool {
        self.running
    }

    /// Between frames, less than one whole tick is left unconsumed.
    pub open spec fn wf(&self) -> bool {
        self.accumulated() < FIXED_TICK_NANOS
    }

    /// A loop on entry: running, with nothing accumulated.
    pub fn new() -> (r: Self)
        ensures
            r.accumulated() == 0,
            r.running(),
            r.wf(),
    {
        FixedTimestep { accumulator: 0, running: true }
    }

    pub fn accumulator_nanos(&self) -> (r: u64)
        ensures
            r == self.accumulated(),
    {
        self.accumulator
    }

    pub fn is_running(&self) -> (r: bool)
        ensures
            r == self.running(),
    {
        self.running
    }

    /// Takes the outcome of a frame callback. The loop goes on only while it
    /// is running and the frame asked to continue; once stopped it stays so.
    pub fn record(&mut self, action: Action) -> (keep_going: bool)
        ensures
            keep_going == (old(self).running() && action == Action::Continue),
            final(self).running() == keep_going,
            final(self).accumulated() == old(self).accumulated(),
    {
        if action == Action::Stop {
            self.running = false;
        }
        self.running
    }

    /// Adds the time measured since the previous frame, consumes one tick
    /// per logical update while a whole tick is accumulated, and says how
    /// long to sleep afterwards.
    pub fn advance(&mut self, elapsed_nanos: u64) -> (t: Tick)
        requires
            old(self).wf(),
        ensures
            final(self).wf(),
            final(self).running() == old(self).running(),
            final(self).accumulated() == (old(self).accumulated() + elapsed_nanos)
                % (FIXED_TICK_NANOS as int),
            t.updates == (old(self).accumulated() + elapsed_nanos) / (FIXED_TICK_NANOS as int),
            old(self).accumulated() + elapsed_nanos == t.updates * FIXED_TICK_NANOS
                + final(self).accumulated(),
            t.sleep_nanos == sleep_for(final(self).accumulated() as int),
    {
        let ghost total: int = self.accumulator + elapsed_nanos;
        let mut acc: u128 = self.accumulator as u128 + elapsed_nanos as u128;
        let mut updates: u64 = 0;
        while acc >= FIXED_TICK_NANOS as u128
            invariant
                total == acc + updates * FIXED_TICK_NANOS,
                total < u64::MAX + FIXED_TICK_NANOS,
            decreases acc,
        {
            acc = acc - FIXED_TICK_NANOS as u128;
            // one logical update of the simulation per whole tick
            updates = updates + 1;
        }
        proof {
            lemma_fundamental_div_mod_converse(total, FIXED_TICK_NANOS as int, updates as int, acc as int);
        }
        self.accumulator = acc as u64;
        Tick { updates, sleep_nanos: clamped_sleep_nanos(self.accumulator) }
    }
}

} // verus!
