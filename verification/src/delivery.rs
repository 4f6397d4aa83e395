//! Assigning targets to markets and delivering them one by one.

use vstd::prelude::*;
use crate::geometry::{Direction, Position};
use crate::storage::{sorted, storage_le, StorageInfo, TargetQueue};
use crate::robot::{delivered, partitioned, DistributorRobot};

verus! {

broadcast use vstd::seq_lib::group_to_multiset_ensures;

/// The kind of content the robot puts into a market.
#[derive(Clone, Copy, Debug, PartialEq, Eq, Structural)]
pub enum ContentKind {
    Rock,
    Tree,
    Coin,
    Fish,
    Market,
    Nothing,
}

/// The kind of content with content index `index`: 0 rock, 1 tree, 4 coin,
/// 10 fish, 11 market, and none for any other index.
pub open spec fn content_kind(index: usize) -> ContentKind {
    if index == 0 {
        ContentKind::Rock
    } else if index == 1 {
        ContentKind::Tree
    } else if index == 4 {
        ContentKind::Coin
    } else if index == 10 {
        ContentKind::Fish
    } else if index == 11 {
        ContentKind::Market
    } else {
        ContentKind::Nothing
    }
}

pub fn content_for_index(index: usize) -> (k: ContentKind)
    ensures
        k == content_kind(index),
{
    match index {
        0 => ContentKind::Rock,
        1 => ContentKind::Tree,
        4 => ContentKind::Coin,
        10 => ContentKind::Fish,
        11 => ContentKind::Market,
        _ => ContentKind::Nothing,
    }
}

/// Splits a path into the steps to walk and the direction of the final step,
/// in which the robot acts instead of moving; up when the path is empty.
pub fn split_final_step(path: Vec<Direction>) -> (r: (Vec<Direction>, Direction))
    ensures
        path@.len() == 0 ==> r.0@ == path@ && r.1 == Direction::Up,
        path@.len() > 0 ==> r.0@ == path@.drop_last() && r.1 == path@.last(),
{
    let mut path = path;
    let last = path.pop();
    match last {
        Some(d) => (path, d),
        None => (path, Direction::Up),
    }
}

/// One delivery: collect `quantity` units of `content` at `pickup` and put
/// them into the market with index `market_index`.
#[derive(Clone, Copy, Debug, PartialEq, Eq, Structural)]
pub struct DeliveryPlan {
    pub pickup: Position,
    pub market_index: usize,
    pub content: ContentKind,
    pub quantity: usize,
}

/// Absolute value of an integer.
pub open spec fn abs_int(x: int) -> int {
    if x < 0 {
        -x
    } else {
        x
    }
}

/// Absolute value of an `i32` other than the smallest.
fn abs_i32(x: i32) -> (r: i32)
    requires
        x > i32::MIN,
    ensures
        r == abs_int(x as int),
{
    if x < 0 {
        -x
    } else {
        x
    }
}

/// The distance by which banks are compared: the sum of the absolute
/// differences of rows and of columns, each coordinate taken as an `i32`.
pub open spec fn bank_distance(bank: Position, robot: Position) -> int {
    abs_int((bank.row as i32) - (robot.row as i32)) + abs_int((bank.col as i32) - (robot.col as i32))
}

/// The distance of `bank` from `robot` can be computed in `i32` arithmetic.
pub open spec fn distance_fits(bank: Position, robot: Position) -> bool {
    let dr = (bank.row as i32) - (robot.row as i32);
    let dc = (bank.col as i32) - (robot.col as i32);
    &&& i32::MIN < dr <= i32::MAX
    &&& i32::MIN < dc <= i32::MAX
    &&& bank_distance(bank, robot) <= i32::MAX
}

/// Banks farther than this are never chosen.
pub const BANK_RANGE: i32 = 100000;

proof fn lemma_small_cast(x: usize)
    requires
        x <= 0x7fff_ffff,
    ensures
        x as i32 == x,
{
    assert(x as i32 == x) by (bit_vector)
        requires
            x <= 0x7fff_ffffusize,
    ;
}

/// On coordinates that fit an `i32`, the bank distance is the Manhattan distance.
pub proof fn lemma_bank_distance_is_manhattan(bank: Position, robot: Position)
    requires
        bank.row <= i32::MAX,
        bank.col <= i32::MAX,
        robot.row <= i32::MAX,
        robot.col <= i32::MAX,
    ensures
        bank_distance(bank, robot) == crate::geometry::manhattan(bank, robot),
{
    lemma_small_cast(bank.row);
    lemma_small_cast(bank.col);
    lemma_small_cast(robot.row);
    lemma_small_cast(robot.col);
}

/// The weight of a target as handed to the partitioning: its quantity taken
/// as a `u32`, times its coefficient.
pub open spec fn partition_weight(t: StorageInfo) -> int {
    (t.quantity as u32) * t.coefficient
}

/// The weights of the targets in the order `pop` hands them out.
pub open spec fn delivery_weights(targets: Seq<StorageInfo>) -> Seq<int> {
    Seq::new(targets.len(), |i: int| partition_weight(targets[targets.len() - 1 - i]))
}

/// The targets after the `i`-th one in `pop` order has been given market
/// `solution[i]`; targets beyond the solution's length are left out.
pub open spec fn assigned(targets: Seq<StorageInfo>, solution: Seq<usize>) -> Seq<StorageInfo> {
    Seq::new(
        solution.len(),
        |i: int| StorageInfo { market_index: solution[i], ..targets[targets.len() - 1 - i] },
    )
}

/// The partitioning sees the targets in `pop` order: the target that receives
/// the `i`-th market of a solution is the one whose weight was the `i`-th
/// weight handed to the partitioning, and it keeps its position, content,
/// quantity and coefficient.
pub proof fn lemma_assignment_follows_weights(targets: Seq<StorageInfo>, solution: Seq<usize>, i: int)
    requires
        solution.len() <= targets.len(),
        0 <= i < solution.len(),
    ensures
        assigned(targets, solution)[i].market_index == solution[i],
        partition_weight(assigned(targets, solution)[i]) == delivery_weights(targets)[i],
        assigned(targets, solution)[i].position == targets[targets.len() - 1 - i].position,
        assigned(targets, solution)[i].content == targets[targets.len() - 1 - i].content,
        assigned(targets, solution)[i].quantity == targets[targets.len() - 1 - i].quantity,
        assigned(targets, solution)[i].coefficient == targets[targets.len() - 1 - i].coefficient,
{
}

impl DistributorRobot {
    /// Whether the weight of every target fits a `u32`.
    pub fn weights_fit(&self) -> (b: bool)
        ensures
            b == forall|i: int|
                0 <= i < self.targets@.len() ==> partition_weight(#[trigger] self.targets@[i])
                    <= u32::MAX,
    {
        let n = self.targets.len();
        let mut k: usize = 0;
        while k < n
            invariant
                n == self.targets@.len(),
                k <= n,
                forall|i: int|
                    0 <= i < k ==> partition_weight(#[trigger] self.targets@[i]) <= u32::MAX,
            decreases n - k,
        {
            let t = self.targets.get(k);
            let q: u64 = t.quantity as u32 as u64;
            let c: u64 = t.coefficient as u64;
            assert(q * c <= 0xffff_ffff * 0xffff_ffff) by (nonlinear_arith)
                requires
                    q <= 0xffff_ffff,
                    c <= 0xffff_ffff,
            ;
            if q * c > 0xffff_ffff {
                return false;
            }
            k = k + 1;
        }
        true
    }

    /// The weights of all targets, in the order in which they will be
    /// assigned and delivered (highest priority first).
    pub fn extract_storage_into_weights(&self) -> (weights: Vec<u32>)
        requires
            forall|i: int|
                0 <= i < self.targets@.len() ==> partition_weight(#[trigger] self.targets@[i])
                    <= u32::MAX,
        ensures
            weights@.len() == self.targets@.len(),
            forall|i: int| 0 <= i < weights@.len() ==> weights@[i] == delivery_weights(self.targets@)[i],
    {
        let n = self.targets.len();
        let mut weights: Vec<u32> = Vec::new();
        let mut k: usize = 0;
        while k < n
            invariant
                n == self.targets@.len(),
                k <= n,
                weights@.len() == k,
                forall|i: int|
                    0 <= i < self.targets@.len() ==> partition_weight(#[trigger] self.targets@[i])
                        <= u32::MAX,
                forall|i: int| 0 <= i < k ==> weights@[i] == delivery_weights(self.targets@)[i],
            decreases n - k,
        {
            let target = self.targets.get(n - 1 - k);
            assert(partition_weight(self.targets@[n - 1 - k]) <= u32::MAX);
            weights.push((target.get_quantity() as u32) * target.get_coefficient());
            k = k + 1;
        }
        weights
    }

    /// Gives the `i`-th target in `pop` order the market `best_solution[i]`;
    /// targets beyond the solution's length are dropped. Marks the
    /// partitioning as solved.
    pub fn solve_packaging_problem(&mut self, best_solution: Vec<usize>)
        requires
            best_solution@.len() <= old(self).targets@.len(),
        ensures
            final(self).targets@.to_multiset() == assigned(
                old(self).targets@,
                best_solution@,
            ).to_multiset(),
            final(self).partitioning_solved,
            final(self).tick_counter == old(self).tick_counter,
            final(self).desired_content@ == old(self).desired_content@,
            final(self).exploration_finished == old(self).exploration_finished,
            final(self).world_size == old(self).world_size,
            final(self).markets@ == old(self).markets@,
            final(self).banks@ == old(self).banks@,
            final(self).exploration == old(self).exploration,
            partitioned(*old(self), *final(self)),
            sorted(final(self).targets@),
    {
        let ghost old_targets = self.targets@;
        let ghost n = old_targets.len();
        self.partitioning_solved = true;
        let mut new_targets = TargetQueue::new();
        let m = best_solution.len();
        let mut k: usize = 0;
        proof {
            assert(assigned(old_targets, best_solution@.take(0)) =~= Seq::<StorageInfo>::empty());
            assert(Seq::<StorageInfo>::empty().to_multiset() =~= vstd::multiset::Multiset::empty());
        }
        while k < m
            invariant
                m == best_solution@.len(),
                m <= n,
                n == old_targets.len(),
                k <= m,
                self.targets@ == old_targets.take(n - k),
                sorted(new_targets@),
                new_targets@.to_multiset() == assigned(
                    old_targets,
                    best_solution@.take(k as int),
                ).to_multiset(),
                self.partitioning_solved,
                self.tick_counter == old(self).tick_counter,
                self.desired_content@ == old(self).desired_content@,
                self.exploration_finished == old(self).exploration_finished,
                self.world_size == old(self).world_size,
                self.markets@ == old(self).markets@,
                self.banks@ == old(self).banks@,
                self.exploration == old(self).exploration,
            decreases m - k,
        {
            let popped = self.targets.pop();
            let mut target = popped.unwrap();
            target.set_market_index(best_solution[k]);
            new_targets.push(target);
            proof {
                assert(old_targets.take(n - k).drop_last() =~= old_targets.take(n - (k + 1)));
                assert(assigned(old_targets, best_solution@.take(k + 1)) =~= assigned(
                    old_targets,
                    best_solution@.take(k as int),
                ).push(target));
            }
            k = k + 1;
        }
        proof {
            assert(best_solution@.take(m as int) =~= best_solution@);
        }
        self.targets = new_targets;
    }

    /// Starts the next delivery: takes the target of highest priority and
    /// plans to collect it and bring it to its market. `None` when no target
    /// is left.
    pub fn deliver_content(&mut self) -> (plan: Option<DeliveryPlan>)
        ensures
            old(self).targets@.len() == 0 ==> plan is None && final(self).targets@ == old(
                self,
            ).targets@,
            old(self).targets@.len() > 0 ==> {
                let t = old(self).targets@.last();
                &&& plan == Some(
                    DeliveryPlan {
                        pickup: t.position,
                        market_index: t.market_index,
                        content: content_kind(t.content),
                        quantity: t.quantity,
                    },
                )
                &&& final(self).targets@ == old(self).targets@.drop_last()
            },
            final(self).tick_counter == old(self).tick_counter,
            final(self).desired_content@ == old(self).desired_content@,
            final(self).exploration_finished == old(self).exploration_finished,
            final(self).partitioning_solved == old(self).partitioning_solved,
            final(self).world_size == old(self).world_size,
            final(self).markets@ == old(self).markets@,
            final(self).banks@ == old(self).banks@,
            final(self).exploration == old(self).exploration,
            delivered(*old(self), *final(self)),
            old(self).targets@.len() > 0 ==> forall|i: int|
                0 <= i < old(self).targets@.len() ==> storage_le(
                    #[trigger] old(self).targets@[i],
                    old(self).targets@.last(),
                ),
            sorted(final(self).targets@),
    {
        match self.targets.pop() {
            None => None,
            Some(target) => {
                Some(
                    DeliveryPlan {
                        pickup: target.get_position(),
                        market_index: target.get_market_index(),
                        content: content_for_index(target.get_content()),
                        quantity: target.get_quantity(),
                    },
                )
            },
        }
    }

    /// The position of the market with index `index`.
    pub fn market_position(&self, index: usize) -> (p: Position)
        requires
            index < self.markets@.len(),
        ensures
            p == self.markets@[index as int],
    {
        self.markets[index]
    }

    /// Whether some bank is nearer to `robot` than `BANK_RANGE`.
    pub fn has_bank_in_range(&self, robot: Position) -> (b: bool)
        requires
            forall|i: int| 0 <= i < self.banks@.len() ==> distance_fits(#[trigger] self.banks@[i], robot),
        ensures
            b == exists|i: int|
                0 <= i < self.banks@.len() && bank_distance(#[trigger] self.banks@[i], robot)
                    < BANK_RANGE,
    {
        let n = self.banks.len();
        let mut k: usize = 0;
        while k < n
            invariant
                n == self.banks@.len(),
                k <= n,
                forall|i: int| 0 <= i < n ==> distance_fits(#[trigger] self.banks@[i], robot),
                forall|j: int| 0 <= j < k ==> bank_distance(#[trigger] self.banks@[j], robot) >= BANK_RANGE,
            decreases n - k,
        {
            let bank = self.banks[k];
            assert(distance_fits(self.banks@[k as int], robot));
            let distance: i32 = abs_i32(bank.get_row() as i32 - robot.get_row() as i32) + abs_i32(
                bank.get_col() as i32 - robot.get_col() as i32,
            );
            if distance < BANK_RANGE {
                return true;
            }
            k = k + 1;
        }
        false
    }

    /// Whether the distance of every bank from `robot` can be computed.
    pub fn bank_distances_fit(&self, robot: Position) -> (b: bool)
        ensures
            b == forall|i: int| 0 <= i < self.banks@.len() ==> distance_fits(#[trigger] self.banks@[i], robot),
    {
        let n = self.banks.len();
        let mut k: usize = 0;
        while k < n
            invariant
                n == self.banks@.len(),
                k <= n,
                forall|i: int| 0 <= i < k ==> distance_fits(#[trigger] self.banks@[i], robot),
            decreases n - k,
        {
            let bank = self.banks[k];
            let dr: i64 = bank.row as i32 as i64 - robot.row as i32 as i64;
            let dc: i64 = bank.col as i32 as i64 - robot.col as i32 as i64;
            if dr <= i32::MIN as i64 || dr > i32::MAX as i64 || dc <= i32::MIN as i64 || dc > i32::MAX as i64 {
                return false;
            }
            let ar: i64 = if dr < 0 { -dr } else { dr };
            let ac: i64 = if dc < 0 { -dc } else { dc };
            if ar + ac > i32::MAX as i64 {
                return false;
            }
            k = k + 1;
        }
        true
    }

    /// The first of the nearest banks to `robot`, among those nearer than
    /// `BANK_RANGE`.
    pub fn get_closest_bank(&self, robot: Position) -> (bank: Position)
        requires
            forall|i: int| 0 <= i < self.banks@.len() ==> distance_fits(#[trigger] self.banks@[i], robot),
            exists|i: int|
                0 <= i < self.banks@.len() && bank_distance(#[trigger] self.banks@[i], robot)
                    < BANK_RANGE,
        ensures
            exists|k: int|
                0 <= k < self.banks@.len() && bank == self.banks@[k] && bank_distance(bank, robot)
                    < BANK_RANGE && (forall|j: int|
                    0 <= j < k ==> bank_distance(#[trigger] self.banks@[j], robot) > bank_distance(
                        bank,
                        robot,
                    )) && (forall|j: int|
                    k < j < self.banks@.len() ==> bank_distance(#[trigger] self.banks@[j], robot)
                        >= bank_distance(bank, robot)),
    {
        let n = self.banks.len();
        let mut closest: Option<Position> = None;
        let mut closest_index: Ghost<int> = Ghost(0);
        let mut closest_distance: i32 = BANK_RANGE;
        let mut k: usize = 0;
        while k < n
            invariant
                n == self.banks@.len(),
                k <= n,
                forall|i: int| 0 <= i < n ==> distance_fits(#[trigger] self.banks@[i], robot),
                closest is None ==> forall|j: int|
                    0 <= j < k ==> bank_distance(#[trigger] self.banks@[j], robot) >= BANK_RANGE,
                closest is None ==> closest_distance == BANK_RANGE,
                closest matches Some(b) ==> {
                    &&& 0 <= closest_index@ < k
                    &&& b == self.banks@[closest_index@]
                    &&& closest_distance == bank_distance(b, robot)
                    &&& closest_distance < BANK_RANGE
                    &&& forall|j: int|
                        0 <= j < closest_index@ ==> bank_distance(#[trigger] self.banks@[j], robot)
                            > closest_distance
                    &&& forall|j: int|
                        closest_index@ < j < k ==> bank_distance(#[trigger] self.banks@[j], robot)
                            >= closest_distance
                },
            decreases n - k,
        {
            let bank = self.banks[k];
            assert(distance_fits(self.banks@[k as int], robot));
            let distance: i32 = abs_i32(bank.get_row() as i32 - robot.get_row() as i32) + abs_i32(
                bank.get_col() as i32 - robot.get_col() as i32,
            );
            if distance < closest_distance {
                closest_distance = distance;
                closest = Some(bank);
                closest_index = Ghost(k as int);
            }
            k = k + 1;
        }
        proof {
            if closest is None {
                let i = choose|i: int|
                    0 <= i < self.banks@.len() && bank_distance(#[trigger] self.banks@[i], robot)
                        < BANK_RANGE;
                assert(bank_distance(self.banks@[i], robot) >= BANK_RANGE);
            }
        }
        closest.unwrap()
    }
}

} // verus!
