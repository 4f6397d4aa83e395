//! What holds over a run of ticks: the library's steps composed.
//!
//! A tick begins with `process_tick`, which counts it and names its phase,
//! and goes on with that phase's work: steps of an exploration round and
//! surveys, the partitioning, or a delivery. `lemma_tick` shows that such a
//! tick has the effect `tick_effect`; the other laws speak of runs, sequences
//! of states in which each follows from the one before by a tick.

use vstd::prelude::*;
use crate::robot::{
    delivered, explored, grows, partitioned, phase_invariant, same_state, tick_effect, tick_phase,
    DistributorRobot, TickPhase,
};

verus! {

/// Each state of `run` follows from the one before by a tick.
pub open spec fn is_run(run: Seq<DistributorRobot>) -> bool {
    forall|k: int| 0 <= k < run.len() - 1 ==> tick_effect(#[trigger] run[k], run[k + 1])
}

/// Two steps of exploration are one.
pub proof fn lemma_explored_compose(a: DistributorRobot, b: DistributorRobot, c: DistributorRobot)
    requires
        explored(a, b),
        explored(b, c),
    ensures
        explored(a, c),
{
}

/// A tick: `process_tick` leads from `a` to `b` (`same_state`), and the work
/// of the phase it named leads from `b` to `c`. Its effect is `tick_effect`.
pub proof fn lemma_tick(a: DistributorRobot, b: DistributorRobot, c: DistributorRobot)
    requires
        same_state(a, b),
        match tick_phase(a) {
            TickPhase::Explore => explored(b, c),
            TickPhase::Stalled => same_state(b, c),
            TickPhase::Partition => partitioned(b, c),
            TickPhase::Deliver => delivered(b, c),
        },
    ensures
        tick_effect(a, c),
{
}

/// A tick grows the robot's state.
pub proof fn lemma_tick_grows(a: DistributorRobot, b: DistributorRobot)
    requires
        tick_effect(a, b),
    ensures
        grows(a, b),
{
}

/// A tick keeps the phase invariant: the robot never has partitioned without
/// having explored and without a known market and bank.
pub proof fn lemma_tick_keeps_phase_invariant(a: DistributorRobot, b: DistributorRobot)
    requires
        tick_effect(a, b),
        phase_invariant(a),
    ensures
        phase_invariant(b),
{
}

/// Over a run, the phase invariant holds in every state if it held at the
/// start (as it does for a new robot).
pub proof fn lemma_run_keeps_phase_invariant(run: Seq<DistributorRobot>, k: int)
    requires
        is_run(run),
        run.len() > 0,
        phase_invariant(run[0]),
        0 <= k < run.len(),
    ensures
        phase_invariant(run[k]),
    decreases k,
{
    if k > 0 {
        lemma_run_keeps_phase_invariant(run, k - 1);
        assert(tick_effect(run[k - 1], run[k]));
    }
}

/// Over a run, the flags only get set and the markets and banks only get
/// added to: every later state grows every earlier one.
pub proof fn lemma_run_grows(run: Seq<DistributorRobot>, i: int, j: int)
    requires
        is_run(run),
        0 <= i <= j < run.len(),
    ensures
        grows(run[i], run[j]),
    decreases j - i,
{
    if i < j {
        lemma_run_grows(run, i, j - 1);
        assert(tick_effect(run[j - 1], run[j]));
    }
}

/// The partitioning runs at most once in a run.
pub proof fn lemma_partition_at_most_once(run: Seq<DistributorRobot>, i: int, j: int)
    requires
        is_run(run),
        0 <= i < j < run.len(),
    ensures
        !(tick_phase(run[i]) == TickPhase::Partition && tick_phase(run[j]) == TickPhase::Partition),
{
    if tick_phase(run[i]) == TickPhase::Partition {
        assert(tick_effect(run[i], run[i + 1]));
        lemma_run_grows(run, i + 1, j);
    }
}

/// The robot delivers (collects and puts content) only once the
/// partitioning is solved, exploration is over and a market and a bank are
/// known.
pub proof fn lemma_delivery_only_after_partitioning(r: DistributorRobot)
    requires
        phase_invariant(r),
        tick_phase(r) == TickPhase::Deliver,
    ensures
        r.partitioning_solved,
        r.exploration_finished,
        r.markets@.len() > 0,
        r.banks@.len() > 0,
{
}

/// A robot that is stalled (exploration over, but no market or no bank
/// known) stays stalled, and its state does not change.
pub proof fn lemma_stalled_stays_stalled(run: Seq<DistributorRobot>, k: int)
    requires
        is_run(run),
        run.len() > 0,
        tick_phase(run[0]) == TickPhase::Stalled,
        0 <= k < run.len(),
    ensures
        tick_phase(run[k]) == TickPhase::Stalled,
        same_state(run[0], run[k]),
    decreases k,
{
    if k > 0 {
        lemma_stalled_stays_stalled(run, k - 1);
        assert(tick_effect(run[k - 1], run[k]));
    }
}

/// Once delivering, the robot keeps delivering, one target per tick, highest
/// priority first, until no target is left; after that its targets stay
/// empty (and `deliver_content` plans nothing).
pub proof fn lemma_delivery_drains(run: Seq<DistributorRobot>, k: int)
    requires
        is_run(run),
        run.len() > 0,
        tick_phase(run[0]) == TickPhase::Deliver,
        0 <= k < run.len(),
    ensures
        tick_phase(run[k]) == TickPhase::Deliver,
        k <= run[0].targets@.len() ==> run[k].targets@ == run[0].targets@.take(
            run[0].targets@.len() - k,
        ),
        k >= run[0].targets@.len() ==> run[k].targets@.len() == 0,
    decreases k,
{
    if k > 0 {
        lemma_delivery_drains(run, k - 1);
        assert(tick_effect(run[k - 1], run[k]));
        let t = run[0].targets@;
        if k <= t.len() {
            assert(t.take(t.len() - (k - 1)).drop_last() =~= t.take(t.len() - k));
        }
    }
}

} // verus!
