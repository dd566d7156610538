//! The whole loop, run over a recorded sequence of frames: for each frame,
//! the callback's outcome and the time measured after it. This is the loop
//! that a live driver runs, with the callback's results and the clock's
//! readings handed in, so that what the loop decides can be stated for every
//! sequence of them.

use vstd::prelude::*;
use crate::timestep::{sleep_for, Action, FixedTimestep, Tick, FIXED_TICK_NANOS};

verus! {

/// The callback outcomes of a recorded run.
pub open spec fn outcomes_of(frames: Seq<(Action, u64)>) -> Seq<Action> {
    frames.map_values(|f: (Action, u64)| f.0)
}

/// The time measured after each frame of a recorded run.
pub open spec fn elapsed_of(frames: Seq<(Action, u64)>) -> Seq<u64> {
    frames.map_values(|f: (Action, u64)| f.1)
}

/// How many times the loop calls the callback, given what the calls return:
/// each call is made, and the first `Stop` ends the loop.
pub open spec fn invocations(outcomes: Seq<Action>) -> nat
    decreases outcomes.len(),
{
    if outcomes.len() == 0 {
        0
    } else if outcomes[0] == Action::Stop {
        1
    } else {
        1 + invocations(outcomes.drop_first())
    }
}

/// How many times the loop sleeps: once after each call that asked to
/// continue, up to the first `Stop`.
pub open spec fn sleeps(outcomes: Seq<Action>) -> nat
    decreases outcomes.len(),
{
    if outcomes.len() == 0 {
        0
    } else if outcomes[0] == Action::Stop {
        0
    } else {
        1 + sleeps(outcomes.drop_first())
    }
}

/// Whether some call asks the loop to stop.
pub open spec fn stops(outcomes: Seq<Action>) -> bool
    decreases outcomes.len(),
{
    if outcomes.len() == 0 {
        false
    } else if outcomes[0] == Action::Stop {
        true
    } else {
        stops(outcomes.drop_first())
    }
}

/// The accumulator after the first `k` passes that went on to sleep, with
/// `elapsed[i]` measured in pass `i`.
pub open spec fn acc_after(elapsed: Seq<u64>, k: nat) -> nat
    decreases k,
{
    if k == 0 {
        0
    } else {
        ((acc_after(elapsed, (k - 1) as nat) + elapsed[k - 1]) % (FIXED_TICK_NANOS as int)) as nat
    }
}

/// What pass `i` of the loop does after its callback asked to continue.
pub open spec fn tick_at(elapsed: Seq<u64>, i: nat) -> (nat, nat) {
    (
        ((acc_after(elapsed, i) + elapsed[i as int]) / (FIXED_TICK_NANOS as int)) as nat,
        sleep_for(acc_after(elapsed, i + 1) as int),
    )
}

/// What a recorded run did: how many callback calls it made, whether one of
/// them stopped the loop, and the updates and sleep of each pass that went on.
pub struct RunReport {
    pub invocations: usize,
    pub stopped: bool,
    pub ticks: Vec<Tick>,
}

/// When the first `i` outcomes all ask to continue, each count is `i` plus
/// the count over the rest.
proof fn lemma_continue_prefix(outcomes: Seq<Action>, i: nat)
    requires
        i <= outcomes.len(),
        forall|j: int| 0 <= j < i ==> outcomes[j] == Action::Continue,
    ensures
        invocations(outcomes) == i + invocations(outcomes.subrange(i as int, outcomes.len() as int)),
        sleeps(outcomes) == i + sleeps(outcomes.subrange(i as int, outcomes.len() as int)),
        stops(outcomes) == stops(outcomes.subrange(i as int, outcomes.len() as int)),
    decreases i,
{
    if i == 0 {
        assert(outcomes.subrange(0, outcomes.len() as int) =~= outcomes);
    } else {
        let rest = outcomes.drop_first();
        assert forall|j: int| 0 <= j < i - 1 implies rest[j] == Action::Continue by {
            assert(rest[j] == outcomes[j + 1]);
        }
        lemma_continue_prefix(rest, (i - 1) as nat);
        assert(rest.subrange(i - 1, rest.len() as int) =~= outcomes.subrange(
            i as int,
            outcomes.len() as int,
        ));
    }
}

/// A callback that asks to continue `n` times and then to stop is called
/// exactly `n + 1` times, and the loop sleeps after each of the `n` calls
/// that went on; whatever the sequence holds after the `Stop` is never asked.
pub proof fn lemma_continues_then_stop(outcomes: Seq<Action>, n: nat)
    requires
        n < outcomes.len(),
        forall|j: int| 0 <= j < n ==> outcomes[j] == Action::Continue,
        outcomes[n as int] == Action::Stop,
    ensures
        stops(outcomes),
        invocations(outcomes) == n + 1,
        sleeps(outcomes) == n,
{
    lemma_continue_prefix(outcomes, n);
}

/// A callback that asks to stop on its first call is called once, and the
/// loop returns without sleeping.
pub proof fn lemma_stop_at_once(outcomes: Seq<Action>)
    requires
        outcomes.len() > 0,
        outcomes[0] == Action::Stop,
    ensures
        stops(outcomes),
        invocations(outcomes) == 1,
        sleeps(outcomes) == 0,
{
}

/// After the logical updates of every pass, less than one tick is left in
/// the accumulator.
pub proof fn lemma_accumulator_below_tick(elapsed: Seq<u64>, k: nat)
    ensures
        acc_after(elapsed, k) < FIXED_TICK_NANOS,
{
}

/// When no time passes between frames, the accumulator stays empty: no pass
/// runs a logical update, and each sleeps a whole tick.
pub proof fn lemma_no_time_passes(elapsed: Seq<u64>, k: nat)
    requires
        k <= elapsed.len(),
        forall|j: int| 0 <= j < elapsed.len() ==> elapsed[j] == 0,
    ensures
        acc_after(elapsed, k) == 0,
        forall|i: nat| i < k ==> #[trigger] tick_at(elapsed, i) == (0nat, FIXED_TICK_NANOS as nat),
    decreases k,
{
    if k > 0 {
        lemma_no_time_passes(elapsed, (k - 1) as nat);
        assert(acc_after(elapsed, k) == 0);
        assert forall|i: nat| i < k implies #[trigger] tick_at(elapsed, i) == (0nat, FIXED_TICK_NANOS as nat) by {
            if i + 1 < k {
                assert(tick_at(elapsed, i) == (0nat, FIXED_TICK_NANOS as nat));
            }
        }
    }
}

/// Runs the loop over `frames`: calls stand for the callback returning
/// `frames[i].0`, and `frames[i].1` is the time measured after that call.
/// The run ends at the first `Stop`, or when the frames run out.
pub fn run_scripted(frames: &Vec<(Action, u64)>) -> (r: RunReport)
    ensures
        r.invocations == invocations(outcomes_of(frames@)),
        r.stopped == stops(outcomes_of(frames@)),
        r.ticks@.len() == sleeps(outcomes_of(frames@)),
        forall|i: int|
            0 <= i < r.ticks@.len() ==> (r.ticks@[i].updates as nat, r.ticks@[i].sleep_nanos as nat)
                == tick_at(elapsed_of(frames@), i as nat),
{
    let ghost outcomes = outcomes_of(frames@);
    let ghost elapsed = elapsed_of(frames@);
    let mut state = FixedTimestep::new();
    let mut ticks: Vec<Tick> = Vec::new();
    let mut i: usize = 0;
    while i < frames.len()
        invariant
            i <= frames@.len(),
            outcomes == outcomes_of(frames@),
            elapsed == elapsed_of(frames@),
            state.wf(),
            state.running(),
            state.accumulated() == acc_after(elapsed, i as nat),
            ticks@.len() == i,
            forall|j: int| 0 <= j < i ==> outcomes[j] == Action::Continue,
            forall|j: int|
                0 <= j < i ==> (ticks@[j].updates as nat, ticks@[j].sleep_nanos as nat) == tick_at(
                    elapsed,
                    j as nat,
                ),
        decreases frames@.len() - i,
    {
        let (action, elapsed_nanos) = frames[i];
        assert(outcomes[i as int] == action);
        assert(elapsed[i as int] == elapsed_nanos);
        if !state.record(action) {
            proof {
                lemma_continue_prefix(outcomes, i as nat);
                let rest = outcomes.subrange(i as int, outcomes.len() as int);
                assert(rest[0] == Action::Stop);
            }
            return RunReport { invocations: i + 1, stopped: true, ticks };
        }
        let t = state.advance(elapsed_nanos);
        ticks.push(t);
        i = i + 1;
    }
    proof {
        lemma_continue_prefix(outcomes, i as nat);
        assert(outcomes.subrange(i as int, outcomes.len() as int).len() == 0);
    }
    RunReport { invocations: i, stopped: false, ticks }
}

} // verus!
