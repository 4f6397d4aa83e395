//! The robot's state and the factory that configures it.

use vstd::prelude::*;
use crate::geometry::{Direction, Position};
use crate::storage::{StorageInfo, TargetQueue};
use crate::exploration::ExplorationStage;

verus! {

/// Everything the distribution robot knows and has decided.
pub struct DistributorRobot {
    /// Number of ticks processed so far.
    pub tick_counter: usize,
    /// Indices of the kinds of content the robot collects.
    pub desired_content: Vec<usize>,
    /// Set once enough of the world has been seen.
    pub exploration_finished: bool,
    /// Set once every target has been assigned to a market.
    pub partitioning_solved: bool,
    /// Side length of the world, learnt on the first exploration; 0 until then.
    pub world_size: usize,
    /// The targets still to be delivered.
    pub targets: TargetQueue,
    /// Known markets, each once, in the order they were found.
    pub markets: Vec<Position>,
    /// Known banks, each once, in the order they were found.
    pub banks: Vec<Position>,
    /// Where the current exploration round stands.
    pub exploration: ExplorationStage,
}

/// The configuration from which distribution robots are created.
pub struct DistributorRobotFactory {
    pub desired_content: Vec<usize>,
    pub exploration_finished: bool,
    pub partitioning_solved: bool,
    pub world_size: usize,
    pub targets: TargetQueue,
    pub markets: Vec<Position>,
    pub banks: Vec<Position>,
}

/// What the robot does in a tick.
#[derive(Clone, Copy, Debug, PartialEq, Eq, Structural)]
pub enum TickPhase {
    /// Explore the world.
    Explore,
    /// Exploration is over but no market or no bank is known: nothing to do.
    Stalled,
    /// Assign the targets to markets.
    Partition,
    /// Deliver a target.
    Deliver,
}

/// The phase a robot in state `r` is in.
pub open spec fn tick_phase(r: DistributorRobot) -> TickPhase {
    if !r.exploration_finished {
        TickPhase::Explore
    } else if !r.partitioning_solved {
        if r.markets@.len() < 1 || r.banks@.len() < 1 {
            TickPhase::Stalled
        } else {
            TickPhase::Partition
        }
    } else {
        TickPhase::Deliver
    }
}

/// The robot's flags are only ever set, never cleared, and its markets and
/// banks are only ever added to.
pub open spec fn grows(a: DistributorRobot, b: DistributorRobot) -> bool {
    &&& a.exploration_finished ==> b.exploration_finished
    &&& a.partitioning_solved ==> b.partitioning_solved
    &&& a.markets@.len() <= b.markets@.len()
    &&& forall|i: int| 0 <= i < a.markets@.len() ==> b.markets@[i] == a.markets@[i]
    &&& a.banks@.len() <= b.banks@.len()
    &&& forall|i: int| 0 <= i < a.banks@.len() ==> b.banks@[i] == a.banks@[i]
}

/// The same state, the tick count and the exploration stage aside.
pub open spec fn same_state(a: DistributorRobot, b: DistributorRobot) -> bool {
    &&& b.desired_content@ == a.desired_content@
    &&& b.exploration_finished == a.exploration_finished
    &&& b.partitioning_solved == a.partitioning_solved
    &&& b.world_size == a.world_size
    &&& b.targets@ == a.targets@
    &&& b.markets@ == a.markets@
    &&& b.banks@ == a.banks@
}

/// What exploring (a step of an exploration round, or a survey) does at
/// most: it grows the robot's state and leaves the partitioning alone.
pub open spec fn explored(a: DistributorRobot, b: DistributorRobot) -> bool {
    &&& grows(a, b)
    &&& b.partitioning_solved == a.partitioning_solved
    &&& b.desired_content@ == a.desired_content@
}

/// What the partitioning does besides reassigning the targets.
pub open spec fn partitioned(a: DistributorRobot, b: DistributorRobot) -> bool {
    &&& b.partitioning_solved
    &&& b.exploration_finished == a.exploration_finished
    &&& b.markets@ == a.markets@
    &&& b.banks@ == a.banks@
    &&& b.desired_content@ == a.desired_content@
    &&& b.world_size == a.world_size
}

/// What a delivery does: it removes the target of highest priority, if any,
/// and nothing else.
pub open spec fn delivered(a: DistributorRobot, b: DistributorRobot) -> bool {
    &&& a.targets@.len() == 0 ==> b.targets@ == a.targets@
    &&& a.targets@.len() > 0 ==> b.targets@ == a.targets@.drop_last()
    &&& b.desired_content@ == a.desired_content@
    &&& b.exploration_finished == a.exploration_finished
    &&& b.partitioning_solved == a.partitioning_solved
    &&& b.world_size == a.world_size
    &&& b.markets@ == a.markets@
    &&& b.banks@ == a.banks@
}

/// The robot only partitions after exploring, and only with a market and a
/// bank known.
pub open spec fn phase_invariant(r: DistributorRobot) -> bool {
    r.partitioning_solved ==> r.exploration_finished && r.markets@.len() > 0 && r.banks@.len() > 0
}

/// What a whole tick, begun in state `a`, may do to the robot's state: the
/// work of the tick's phase.
pub open spec fn tick_effect(a: DistributorRobot, b: DistributorRobot) -> bool {
    match tick_phase(a) {
        TickPhase::Explore => explored(a, b),
        TickPhase::Stalled => same_state(a, b),
        TickPhase::Partition => partitioned(a, b),
        TickPhase::Deliver => delivered(a, b),
    }
}

/// The direction that a random index chooses when exploration fails: 0 down,
/// 1 up, 2 right, 3 left, and up for any other index.
pub open spec fn direction_for(index: int) -> Direction {
    if index == 0 {
        Direction::Down
    } else if index == 1 {
        Direction::Up
    } else if index == 2 {
        Direction::Right
    } else if index == 3 {
        Direction::Left
    } else {
        Direction::Up
    }
}

/// The direction chosen by the random number `random` when there are
/// `direction_count` directions.
pub fn fallback_direction(random: usize, direction_count: usize) -> (d: Direction)
    requires
        direction_count > 0,
    ensures
        d == direction_for((random % direction_count) as int),
{
    match random % direction_count {
        0 => Direction::Down,
        1 => Direction::Up,
        2 => Direction::Right,
        3 => Direction::Left,
        _ => Direction::Up,
    }
}

/// With the four directions of the world, the drawn number modulo 4 picks
/// down, up, right, left for 0, 1, 2, 3: every direction is the choice of
/// some draw.
pub proof fn lemma_fallback_direction_by_draw(random: usize)
    ensures
        random % 4 == 0 ==> direction_for((random % 4) as int) == Direction::Down,
        random % 4 == 1 ==> direction_for((random % 4) as int) == Direction::Up,
        random % 4 == 2 ==> direction_for((random % 4) as int) == Direction::Right,
        random % 4 == 3 ==> direction_for((random % 4) as int) == Direction::Left,
{
}

/// A random number drawn with `rand::random`; every `usize` may come back.
#[verifier::external_body]
fn random_number() -> usize {
    rand::random::<usize>()
}

/// A random direction to move in when exploration fails.
pub fn choose_fallback_direction(direction_count: usize) -> (d: Direction)
    requires
        direction_count > 0,
    ensures
        exists|random: usize| d == #[trigger] direction_for((random % direction_count) as int),
{
    let random = random_number();
    fallback_direction(random, direction_count)
}

/// Energy level below which the robot recharges.
pub const RECHARGE_BELOW: usize = 300;

/// Energy level that a recharge restores.
pub const FULL_ENERGY: usize = 1000;

/// The energy that a recharge adds at energy level `energy_level`, if the
/// robot is to recharge.
pub fn recharge_amount(energy_level: usize) -> (r: Option<usize>)
    ensures
        energy_level < RECHARGE_BELOW ==> r == Some((FULL_ENERGY - energy_level) as usize),
        energy_level >= RECHARGE_BELOW ==> r is None,
{
    if energy_level < RECHARGE_BELOW {
        Some(FULL_ENERGY - energy_level)
    } else {
        None
    }
}

impl DistributorRobot {
    /// Counts a new tick and says what the robot does in it.
    pub fn process_tick(&mut self) -> (phase: TickPhase)
        requires
            old(self).tick_counter < usize::MAX,
        ensures
            phase == tick_phase(*old(self)),
            final(self).tick_counter == old(self).tick_counter + 1,
            final(self).desired_content@ == old(self).desired_content@,
            final(self).exploration_finished == old(self).exploration_finished,
            final(self).partitioning_solved == old(self).partitioning_solved,
            final(self).world_size == old(self).world_size,
            final(self).targets@ == old(self).targets@,
            final(self).markets@ == old(self).markets@,
            final(self).banks@ == old(self).banks@,
            final(self).exploration == old(self).exploration,
            same_state(*old(self), *final(self)),
    {
        self.tick_counter = self.tick_counter + 1;
        if !self.exploration_finished {
            TickPhase::Explore
        } else if !self.partitioning_solved {
            if self.markets.len() < 1 || self.banks.len() < 1 {
                TickPhase::Stalled
            } else {
                TickPhase::Partition
            }
        } else {
            TickPhase::Deliver
        }
    }
}

fn copy_usizes(v: &Vec<usize>) -> (r: Vec<usize>)
    ensures
        r@ == v@,
{
    let n = v.len();
    let mut r: Vec<usize> = Vec::new();
    let mut k: usize = 0;
    while k < n
        invariant
            n == v@.len(),
            k <= n,
            r@ == v@.take(k as int),
        decreases n - k,
    {
        r.push(v[k]);
        k = k + 1;
        assert(r@ =~= v@.take(k as int));
    }
    assert(r@ =~= v@);
    r
}

fn copy_positions(v: &Vec<Position>) -> (r: Vec<Position>)
    ensures
        r@ == v@,
{
    let n = v.len();
    let mut r: Vec<Position> = Vec::new();
    let mut k: usize = 0;
    while k < n
        invariant
            n == v@.len(),
            k <= n,
            r@ == v@.take(k as int),
        decreases n - k,
    {
        r.push(v[k]);
        k = k + 1;
        assert(r@ =~= v@.take(k as int));
    }
    assert(r@ =~= v@);
    r
}

impl DistributorRobotFactory {
    /// A factory for robots that collect the content kinds `desired_content`
    /// and start with nothing explored, found or assigned.
    pub fn new(desired_content: Vec<usize>) -> (f: DistributorRobotFactory)
        ensures
            f.desired_content@ == desired_content@,
            !f.exploration_finished,
            !f.partitioning_solved,
            f.world_size == 0,
            f.targets@ == Seq::<StorageInfo>::empty(),
            f.markets@ == Seq::<Position>::empty(),
            f.banks@ == Seq::<Position>::empty(),
    {
        DistributorRobotFactory {
            desired_content,
            exploration_finished: false,
            partitioning_solved: false,
            world_size: 0,
            targets: TargetQueue::new(),
            markets: Vec::new(),
            banks: Vec::new(),
        }
    }

    /// A robot with this factory's configuration, at tick 0 and with no
    /// exploration round under way.
    pub fn create(&self) -> (r: DistributorRobot)
        ensures
            r.tick_counter == 0,
            r.desired_content@ == self.desired_content@,
            r.exploration_finished == self.exploration_finished,
            r.partitioning_solved == self.partitioning_solved,
            r.world_size == self.world_size,
            r.targets@ == self.targets@,
            r.markets@ == self.markets@,
            r.banks@ == self.banks@,
            r.exploration == ExplorationStage::Idle,
    {
        DistributorRobot {
            tick_counter: 0,
            desired_content: copy_usizes(&self.desired_content),
            exploration_finished: self.exploration_finished,
            partitioning_solved: self.partitioning_solved,
            world_size: self.world_size,
            targets: self.targets.copy(),
            markets: copy_positions(&self.markets),
            banks: copy_positions(&self.banks),
            exploration: ExplorationStage::Idle,
        }
    }
}

} // verus!
