use distribution_robot::delivery::{content_for_index, split_final_step, ContentKind, DeliveryPlan};
use distribution_robot::exploration::{
    accepts_event, ExplorationAction, ExplorationEvent, ExplorationStage,
};
use distribution_robot::geometry::{Direction, Position};
use distribution_robot::robot::{
    choose_fallback_direction, fallback_direction, recharge_amount, DistributorRobot,
    DistributorRobotFactory, TickPhase,
};
use distribution_robot::storage::{StorageInfo, TargetQueue};
use distribution_robot::survey::{contains_position, contains_usize, KnownTile};

fn robot(desired: Vec<usize>) -> DistributorRobot {
    DistributorRobotFactory::new(desired).create()
}

fn target(row: usize, col: usize, content: usize, quantity: usize) -> StorageInfo {
    StorageInfo::new(Position::new(row, col), content, quantity, 1)
}

fn tile(content: usize, value: Option<usize>) -> Option<KnownTile> {
    Some(KnownTile { content, value, coefficient: 1 })
}

#[test]
fn factory_starts_with_nothing_known() {
    let f = DistributorRobotFactory::new(vec![0, 1, 10]);
    assert_eq!(f.desired_content, vec![0, 1, 10]);
    assert!(!f.exploration_finished);
    assert!(!f.partitioning_solved);
    assert_eq!(f.world_size, 0);
    assert_eq!(f.targets.len(), 0);
    assert!(f.markets.is_empty());
    assert!(f.banks.is_empty());
}

#[test]
fn created_robot_copies_the_factory() {
    let mut f = DistributorRobotFactory::new(vec![1]);
    f.world_size = 7;
    f.exploration_finished = true;
    f.markets.push(Position::new(2, 3));
    f.banks.push(Position::new(4, 4));
    f.targets.push(target(1, 1, 1, 5));
    let r = f.create();
    assert_eq!(r.tick_counter, 0);
    assert_eq!(r.desired_content, vec![1]);
    assert!(r.exploration_finished);
    assert!(!r.partitioning_solved);
    assert_eq!(r.world_size, 7);
    assert_eq!(r.targets.len(), 1);
    assert_eq!(r.targets.get(0), target(1, 1, 1, 5));
    assert_eq!(r.markets, vec![Position::new(2, 3)]);
    assert_eq!(r.banks, vec![Position::new(4, 4)]);
    assert!(matches!(r.exploration, ExplorationStage::Idle));
}

#[test]
fn queue_pops_heaviest_first() {
    let mut q = TargetQueue::new();
    q.push(target(0, 0, 0, 3));
    q.push(target(0, 1, 0, 1));
    q.push(target(0, 2, 0, 2));
    assert_eq!(q.len(), 3);
    assert_eq!(q.peek(), Some(target(0, 0, 0, 3)));
    assert_eq!(q.pop(), Some(target(0, 0, 0, 3)));
    assert_eq!(q.pop(), Some(target(0, 2, 0, 2)));
    assert_eq!(q.pop(), Some(target(0, 1, 0, 1)));
    assert_eq!(q.pop(), None);
    assert_eq!(q.peek(), None);
}

#[test]
fn queue_breaks_ties_by_content_then_position() {
    let mut q = TargetQueue::new();
    q.push(target(5, 5, 1, 2));
    q.push(target(1, 1, 10, 2));
    q.push(target(3, 0, 1, 2));
    assert_eq!(q.pop(), Some(target(1, 1, 10, 2)));
    assert_eq!(q.pop(), Some(target(5, 5, 1, 2)));
    assert_eq!(q.pop(), Some(target(3, 0, 1, 2)));
}

#[test]
fn queue_order_does_not_depend_on_push_order() {
    let items = [target(0, 0, 0, 4), target(1, 0, 1, 4), target(2, 2, 0, 9), target(0, 3, 0, 1)];
    let mut a = TargetQueue::new();
    let mut b = TargetQueue::new();
    for t in items.iter() {
        a.push(*t);
    }
    for t in items.iter().rev() {
        b.push(*t);
    }
    for i in 0..items.len() {
        assert_eq!(a.get(i), b.get(i));
    }
}

#[test]
fn pop_undoes_push_of_a_heaviest_target() {
    let mut q = TargetQueue::new();
    q.push(target(0, 0, 0, 2));
    q.push(target(0, 1, 0, 3));
    let before: Vec<StorageInfo> = (0..q.len()).map(|i| q.get(i)).collect();
    q.push(target(9, 9, 0, 8));
    assert_eq!(q.pop(), Some(target(9, 9, 0, 8)));
    let after: Vec<StorageInfo> = (0..q.len()).map(|i| q.get(i)).collect();
    assert_eq!(before, after);
}

#[test]
fn storage_info_accessors() {
    let mut t = target(3, 4, 10, 6);
    assert_eq!(t.get_position(), Position::new(3, 4));
    assert_eq!(t.get_content(), 10);
    assert_eq!(t.get_quantity(), 6);
    assert_eq!(t.get_coefficient(), 1);
    assert_eq!(t.get_market_index(), 0);
    t.set_market_index(2);
    assert_eq!(t.get_market_index(), 2);
    assert!(target(0, 0, 0, 1).precedes(&target(0, 0, 0, 2)));
    assert!(!target(0, 0, 0, 2).precedes(&target(0, 0, 0, 1)));
    assert!(target(0, 0, 0, 2).precedes(&target(0, 0, 0, 2)));
}

#[test]
fn survey_finds_targets_markets_and_banks() {
    // content 0 and 10 are desired; 11 is a market, 7 a bank.
    let mut r = robot(vec![0, 10]);
    let map = vec![
        vec![tile(0, Some(3)), None, tile(11, Some(0))],
        vec![tile(10, Some(0)), tile(7, None), None],
        vec![tile(2, Some(5)), tile(10, Some(4)), tile(11, Some(0))],
    ];
    let (known, total) = r.get_quantity_explored_world(&map, 11, 7);
    assert_eq!(known, 7);
    assert_eq!(total, 9);
    assert_eq!(r.targets.len(), 2);
    assert_eq!(r.targets.pop(), Some(target(2, 1, 10, 4)));
    assert_eq!(r.targets.pop(), Some(target(0, 0, 0, 3)));
    assert_eq!(r.markets, vec![Position::new(0, 2), Position::new(2, 2)]);
    assert_eq!(r.banks, vec![Position::new(1, 1)]);
}

#[test]
fn survey_lists_markets_and_banks_once() {
    let mut r = robot(vec![1]);
    let map = vec![vec![tile(11, Some(0)), tile(7, None)], vec![tile(1, Some(2)), None]];
    r.get_quantity_explored_world(&map, 11, 7);
    r.get_quantity_explored_world(&map, 11, 7);
    assert_eq!(r.markets, vec![Position::new(0, 0)]);
    assert_eq!(r.banks, vec![Position::new(0, 1)]);
    // targets are found again on every survey
    assert_eq!(r.targets.len(), 2);
}

#[test]
fn survey_prefers_desired_over_market_and_market_over_bank() {
    let mut r = robot(vec![11]);
    let map = vec![vec![tile(11, Some(2)), tile(7, None)]];
    r.get_quantity_explored_world(&map, 11, 11);
    assert_eq!(r.targets.len(), 1);
    assert!(r.markets.is_empty());
    assert!(r.banks.is_empty());
    let mut r = robot(vec![]);
    r.get_quantity_explored_world(&map, 11, 11);
    assert_eq!(r.markets, vec![Position::new(0, 0)]);
    assert!(r.banks.is_empty());
}

#[test]
fn survey_of_unknown_world() {
    let mut r = robot(vec![0]);
    let map: Vec<Vec<Option<KnownTile>>> = vec![vec![None, None], vec![None, None]];
    assert_eq!(r.get_quantity_explored_world(&map, 11, 7), (0, 4));
    let empty: Vec<Vec<Option<KnownTile>>> = vec![];
    assert_eq!(r.get_quantity_explored_world(&empty, 11, 7), (0, 0));
}

#[test]
fn contains_helpers() {
    assert!(contains_usize(&vec![3, 4], 4));
    assert!(!contains_usize(&vec![3, 4], 5));
    assert!(contains_position(&vec![Position::new(1, 2)], Position::new(1, 2)));
    assert!(!contains_position(&vec![Position::new(1, 2)], Position::new(2, 1)));
}

#[test]
fn weights_follow_pop_order() {
    let mut r = robot(vec![0]);
    r.targets.push(target(0, 0, 0, 2));
    r.targets.push(target(0, 1, 0, 7));
    r.targets.push(target(0, 2, 0, 5));
    assert_eq!(r.extract_storage_into_weights(), vec![7, 5, 2]);
    assert_eq!(r.targets.len(), 3);
}

#[test]
fn solution_assigns_markets_in_pop_order() {
    let mut r = robot(vec![0]);
    r.targets.push(target(0, 0, 0, 2));
    r.targets.push(target(0, 1, 0, 7));
    r.targets.push(target(0, 2, 0, 5));
    r.solve_packaging_problem(vec![1, 0, 1]);
    assert!(r.partitioning_solved);
    assert_eq!(r.targets.len(), 3);
    let mut heaviest = target(0, 1, 0, 7);
    heaviest.market_index = 1;
    let mut middle = target(0, 2, 0, 5);
    middle.market_index = 0;
    let mut lightest = target(0, 0, 0, 2);
    lightest.market_index = 1;
    assert_eq!(r.targets.pop(), Some(heaviest));
    assert_eq!(r.targets.pop(), Some(middle));
    assert_eq!(r.targets.pop(), Some(lightest));
}

#[test]
fn short_solution_drops_remaining_targets() {
    let mut r = robot(vec![0]);
    r.targets.push(target(0, 0, 0, 2));
    r.targets.push(target(0, 1, 0, 7));
    r.solve_packaging_problem(vec![3]);
    assert_eq!(r.targets.len(), 1);
    assert_eq!(r.targets.get(0).market_index, 3);
    assert_eq!(r.targets.get(0).quantity, 7);
}

#[test]
fn delivery_plans_the_heaviest_target() {
    let mut r = robot(vec![10]);
    r.markets.push(Position::new(9, 9));
    r.markets.push(Position::new(8, 1));
    let mut t = target(2, 3, 10, 4);
    t.market_index = 1;
    r.targets.push(t);
    r.targets.push(target(0, 0, 0, 1));
    let plan = r.deliver_content();
    assert_eq!(
        plan,
        Some(DeliveryPlan {
            pickup: Position::new(2, 3),
            market_index: 1,
            content: ContentKind::Fish,
            quantity: 4
        })
    );
    assert_eq!(r.targets.len(), 1);
    assert_eq!(r.market_position(1), Position::new(8, 1));
}

#[test]
fn delivery_without_targets() {
    let mut r = robot(vec![10]);
    assert_eq!(r.deliver_content(), None);
    assert_eq!(r.targets.len(), 0);
}

#[test]
fn content_kinds_by_index() {
    assert_eq!(content_for_index(0), ContentKind::Rock);
    assert_eq!(content_for_index(1), ContentKind::Tree);
    assert_eq!(content_for_index(4), ContentKind::Coin);
    assert_eq!(content_for_index(10), ContentKind::Fish);
    assert_eq!(content_for_index(11), ContentKind::Market);
    assert_eq!(content_for_index(2), ContentKind::Nothing);
    assert_eq!(content_for_index(7), ContentKind::Nothing);
}

#[test]
fn final_step_is_split_off() {
    let (walk, last) = split_final_step(vec![Direction::Left, Direction::Down, Direction::Right]);
    assert_eq!(walk, vec![Direction::Left, Direction::Down]);
    assert_eq!(last, Direction::Right);
    let (walk, last) = split_final_step(vec![]);
    assert!(walk.is_empty());
    assert_eq!(last, Direction::Up);
}

#[test]
fn closest_bank_is_the_first_nearest() {
    let mut r = robot(vec![0]);
    r.banks.push(Position::new(10, 10));
    r.banks.push(Position::new(2, 4));
    r.banks.push(Position::new(4, 2));
    r.banks.push(Position::new(3, 3));
    // distances from (3, 3): 14, 2, 2, 0
    assert_eq!(r.get_closest_bank(Position::new(3, 3)), Position::new(3, 3));
    // distances from (0, 0): 20, 6, 6, 6
    assert_eq!(r.get_closest_bank(Position::new(0, 0)), Position::new(2, 4));
}

#[test]
fn closest_bank_ignores_banks_out_of_range() {
    let mut r = robot(vec![0]);
    r.banks.push(Position::new(200000, 0));
    r.banks.push(Position::new(0, 99999));
    assert!(r.bank_distances_fit(Position::new(0, 0)));
    assert!(r.has_bank_in_range(Position::new(0, 0)));
    assert_eq!(r.get_closest_bank(Position::new(0, 0)), Position::new(0, 99999));
    let mut far = robot(vec![0]);
    far.banks.push(Position::new(50000, 50000));
    assert!(!far.has_bank_in_range(Position::new(0, 0)));
    let none = robot(vec![0]);
    assert!(!none.has_bank_in_range(Position::new(0, 0)));
}

#[test]
fn bank_distances_that_overflow_are_refused() {
    let mut r = robot(vec![0]);
    r.banks.push(Position::new(0x7fff_ffff, 0));
    assert!(r.bank_distances_fit(Position::new(0, 0)));
    r.banks.push(Position::new(0x7fff_ffff, 5));
    assert!(!r.bank_distances_fit(Position::new(0, 0)));
}

#[test]
fn delivery_names_the_market_index_even_when_unknown() {
    let mut r = robot(vec![0]);
    let mut t = target(1, 1, 0, 2);
    t.market_index = 3;
    r.targets.push(t);
    let plan = r.deliver_content().unwrap();
    assert_eq!(plan.market_index, 3);
    assert!(plan.market_index >= r.markets.len());
    assert_eq!(plan.content, ContentKind::Rock);
    assert_eq!(r.targets.len(), 0);
}

#[test]
fn weights_that_overflow_are_refused() {
    let mut r = robot(vec![0]);
    r.targets.push(target(0, 0, 0, 4_000_000_000));
    assert!(r.weights_fit());
    let mut big = target(0, 1, 0, 3);
    big.coefficient = 2_000_000_000;
    r.targets.push(big);
    assert!(!r.weights_fit());
}

#[test]
fn survey_refuses_desired_tiles_without_amount() {
    let r = robot(vec![7]);
    let good = vec![vec![tile(7, Some(1)), tile(3, None)], vec![None, None]];
    assert!(r.survey_accepts(&good));
    let bad = vec![vec![tile(7, None)]];
    assert!(!r.survey_accepts(&bad));
}

#[test]
fn tick_phases() {
    let mut r = robot(vec![0]);
    assert_eq!(r.process_tick(), TickPhase::Explore);
    assert_eq!(r.tick_counter, 1);
    r.exploration_finished = true;
    assert_eq!(r.process_tick(), TickPhase::Stalled);
    r.markets.push(Position::new(1, 1));
    assert_eq!(r.process_tick(), TickPhase::Stalled);
    r.banks.push(Position::new(2, 2));
    assert_eq!(r.process_tick(), TickPhase::Partition);
    r.partitioning_solved = true;
    assert_eq!(r.process_tick(), TickPhase::Deliver);
    assert_eq!(r.tick_counter, 5);
}

#[test]
fn fallback_directions() {
    assert_eq!(fallback_direction(0, 4), Direction::Down);
    assert_eq!(fallback_direction(5, 4), Direction::Up);
    assert_eq!(fallback_direction(6, 4), Direction::Right);
    assert_eq!(fallback_direction(7, 4), Direction::Left);
    assert_eq!(fallback_direction(4, 5), Direction::Up);
    assert_eq!(choose_fallback_direction(1), Direction::Down);
    for _ in 0..20 {
        let d = choose_fallback_direction(2);
        assert!(d == Direction::Down || d == Direction::Up);
    }
}

#[test]
fn recharge_below_threshold() {
    assert_eq!(recharge_amount(0), Some(1000));
    assert_eq!(recharge_amount(299), Some(701));
    assert_eq!(recharge_amount(300), None);
    assert_eq!(recharge_amount(5000), None);
}

fn step(r: &mut DistributorRobot, e: ExplorationEvent) -> ExplorationAction {
    assert!(accepts_event(&r.exploration, &e));
    r.exploration_phase(e)
}

fn viewed(row_lens: Vec<usize>, row: usize, col: usize) -> ExplorationEvent {
    ExplorationEvent::Viewed { row_lens, robot: Position::new(row, col) }
}

#[test]
fn exploration_along_the_column() {
    let mut r = robot(vec![0]);
    assert_eq!(step(&mut r, ExplorationEvent::Start), ExplorationAction::LookAround);
    assert_eq!(
        step(&mut r, ExplorationEvent::Surveyed { map_size: 10 }),
        ExplorationAction::View { dir: Direction::Up, distance: 10 }
    );
    assert_eq!(r.world_size, 10);
    // two rows above, the farther one three cells long
    assert_eq!(
        step(&mut r, viewed(vec![3, 3], 5, 5)),
        ExplorationAction::QueryPath { to: Position::new(3, 5) }
    );
    assert_eq!(
        step(&mut r, ExplorationEvent::PathResult { steps: None }),
        ExplorationAction::QueryPath { to: Position::new(3, 4) }
    );
    assert_eq!(
        step(&mut r, ExplorationEvent::PathResult { steps: Some(4) }),
        ExplorationAction::View { dir: Direction::Down, distance: 10 }
    );
    assert_eq!(
        step(&mut r, viewed(vec![2], 5, 5)),
        ExplorationAction::QueryPath { to: Position::new(6, 5) }
    );
    assert_eq!(
        step(&mut r, ExplorationEvent::PathResult { steps: Some(2) }),
        ExplorationAction::View { dir: Direction::Left, distance: 10 }
    );
    assert_eq!(
        step(&mut r, viewed(vec![], 5, 5)),
        ExplorationAction::View { dir: Direction::Right, distance: 10 }
    );
    assert_eq!(
        step(&mut r, viewed(vec![], 5, 5)),
        ExplorationAction::Walk {
            to: Position::new(6, 5),
            first_look: Direction::Left,
            second_look: Direction::Right
        }
    );
    assert_eq!(
        step(&mut r, ExplorationEvent::Walked),
        ExplorationAction::Walk {
            to: Position::new(3, 4),
            first_look: Direction::Left,
            second_look: Direction::Right
        }
    );
    assert_eq!(step(&mut r, ExplorationEvent::Walked), ExplorationAction::MeasureExplored);
    assert_eq!(
        step(&mut r, ExplorationEvent::Explored { enough: true }),
        ExplorationAction::Finished { explored: true }
    );
    assert!(r.exploration_finished);
    assert!(matches!(r.exploration, ExplorationStage::Idle));
}

#[test]
fn exploration_along_the_row() {
    let mut r = robot(vec![0]);
    step(&mut r, ExplorationEvent::Start);
    step(&mut r, ExplorationEvent::Surveyed { map_size: 8 });
    // nothing reachable upwards
    assert_eq!(
        step(&mut r, viewed(vec![1], 4, 4)),
        ExplorationAction::QueryPath { to: Position::new(3, 4) }
    );
    assert_eq!(
        step(&mut r, ExplorationEvent::PathResult { steps: None }),
        ExplorationAction::View { dir: Direction::Down, distance: 8 }
    );
    assert_eq!(
        step(&mut r, viewed(vec![1], 4, 4)),
        ExplorationAction::QueryPath { to: Position::new(5, 4) }
    );
    assert_eq!(
        step(&mut r, ExplorationEvent::PathResult { steps: Some(1) }),
        ExplorationAction::View { dir: Direction::Left, distance: 8 }
    );
    // rows of lengths 3, 2, 4: candidates use all rows but the last
    assert_eq!(
        step(&mut r, viewed(vec![3, 2, 4], 4, 4)),
        ExplorationAction::QueryPath { to: Position::new(4, 2) }
    );
    assert_eq!(
        step(&mut r, ExplorationEvent::PathResult { steps: None }),
        ExplorationAction::QueryPath { to: Position::new(3, 3) }
    );
    assert_eq!(
        step(&mut r, ExplorationEvent::PathResult { steps: Some(3) }),
        ExplorationAction::View { dir: Direction::Right, distance: 8 }
    );
    assert_eq!(
        step(&mut r, viewed(vec![2, 1], 4, 4)),
        ExplorationAction::QueryPath { to: Position::new(4, 5) }
    );
    // equally long paths: the right end first
    assert_eq!(
        step(&mut r, ExplorationEvent::PathResult { steps: Some(3) }),
        ExplorationAction::Walk {
            to: Position::new(4, 5),
            first_look: Direction::Up,
            second_look: Direction::Down
        }
    );
    assert_eq!(
        step(&mut r, ExplorationEvent::Walked),
        ExplorationAction::Walk {
            to: Position::new(3, 3),
            first_look: Direction::Up,
            second_look: Direction::Down
        }
    );
    assert_eq!(step(&mut r, ExplorationEvent::Walked), ExplorationAction::MeasureExplored);
    assert_eq!(
        step(&mut r, ExplorationEvent::Explored { enough: false }),
        ExplorationAction::Finished { explored: false }
    );
    assert!(!r.exploration_finished);
}

#[test]
fn exploration_without_reachable_ends_measures() {
    let mut r = robot(vec![0]);
    step(&mut r, ExplorationEvent::Start);
    step(&mut r, ExplorationEvent::Surveyed { map_size: 3 });
    assert_eq!(
        step(&mut r, viewed(vec![0], 1, 1)),
        ExplorationAction::View { dir: Direction::Down, distance: 3 }
    );
    assert_eq!(
        step(&mut r, viewed(vec![0], 1, 1)),
        ExplorationAction::View { dir: Direction::Left, distance: 3 }
    );
    assert_eq!(
        step(&mut r, viewed(vec![2], 1, 1)),
        ExplorationAction::View { dir: Direction::Right, distance: 3 }
    );
    assert_eq!(step(&mut r, viewed(vec![2], 1, 1)), ExplorationAction::MeasureExplored);
}

#[test]
fn world_size_is_learnt_once() {
    let mut r = robot(vec![0]);
    step(&mut r, ExplorationEvent::Start);
    step(&mut r, ExplorationEvent::Surveyed { map_size: 12 });
    step(&mut r, ExplorationEvent::Start);
    assert_eq!(
        step(&mut r, ExplorationEvent::Surveyed { map_size: 30 }),
        ExplorationAction::View { dir: Direction::Up, distance: 12 }
    );
    assert_eq!(r.world_size, 12);
}

#[test]
fn exploration_refuses_what_would_fail() {
    let r = robot(vec![0]);
    assert!(!accepts_event(&r.exploration, &ExplorationEvent::Surveyed { map_size: 3 }));
    assert!(!accepts_event(&r.exploration, &ExplorationEvent::Walked));
    assert!(accepts_event(&r.exploration, &ExplorationEvent::Start));
    let mut r = robot(vec![0]);
    step(&mut r, ExplorationEvent::Start);
    step(&mut r, ExplorationEvent::Surveyed { map_size: 3 });
    // an empty view
    assert!(!accepts_event(&r.exploration, &viewed(vec![], 1, 1)));
    // the robot stands too close to the top edge for a view two rows deep
    assert!(!accepts_event(&r.exploration, &viewed(vec![1, 1], 1, 1)));
    assert!(accepts_event(&r.exploration, &viewed(vec![1, 1], 2, 1)));
}

#[test]
fn second_survey_of_the_same_map_keeps_markets_and_banks() {
    let mut r = robot(vec![0]);
    let map = vec![vec![tile(11, Some(0)), tile(7, None), tile(0, Some(2))], vec![tile(11, Some(0)), None, None], vec![None, None, None]];
    let first = r.get_quantity_explored_world(&map, 11, 7);
    let markets = r.markets.clone();
    let banks = r.banks.clone();
    let second = r.get_quantity_explored_world(&map, 11, 7);
    assert_eq!(first, second);
    assert_eq!(r.markets, markets);
    assert_eq!(r.banks, banks);
}

#[test]
fn known_count_grows_with_the_map() {
    let mut r = robot(vec![]);
    let earlier = vec![vec![tile(3, None), None], vec![None, None]];
    let later = vec![vec![tile(3, None), tile(4, None)], vec![None, tile(5, None)]];
    let (a, _) = r.get_quantity_explored_world(&earlier, 11, 7);
    let (b, _) = r.get_quantity_explored_world(&later, 11, 7);
    assert!(a <= b);
    assert_eq!((a, b), (1, 3));
}

#[test]
fn delivery_ticks_drain_the_targets() {
    let mut r = robot(vec![0]);
    r.exploration_finished = true;
    r.partitioning_solved = true;
    r.markets.push(Position::new(1, 1));
    r.banks.push(Position::new(2, 2));
    r.targets.push(target(0, 0, 0, 2));
    r.targets.push(target(0, 1, 0, 5));
    let expected = [(true, 1usize), (true, 0), (false, 0), (false, 0)];
    for (planned, left) in expected {
        assert_eq!(r.process_tick(), TickPhase::Deliver);
        let plan = r.deliver_content();
        assert_eq!(plan.is_some(), planned);
        assert_eq!(r.targets.len(), left);
    }
}

#[test]
fn stalled_robot_stays_stalled() {
    let mut r = robot(vec![0]);
    r.exploration_finished = true;
    r.markets.push(Position::new(1, 1));
    for _ in 0..3 {
        assert_eq!(r.process_tick(), TickPhase::Stalled);
        assert!(!r.partitioning_solved);
        assert_eq!(r.markets, vec![Position::new(1, 1)]);
        assert!(r.banks.is_empty());
    }
}

#[test]
fn partitioning_happens_once() {
    let mut r = robot(vec![0]);
    r.exploration_finished = true;
    r.markets.push(Position::new(1, 1));
    r.banks.push(Position::new(2, 2));
    r.targets.push(target(0, 0, 0, 2));
    assert_eq!(r.process_tick(), TickPhase::Partition);
    r.solve_packaging_problem(vec![0]);
    for _ in 0..3 {
        assert_eq!(r.process_tick(), TickPhase::Deliver);
        r.deliver_content();
    }
}

#[test]
fn surveyed_targets_carry_the_worth_of_their_content() {
    let mut r = robot(vec![0, 10]);
    let map = vec![vec![
        Some(KnownTile { content: 0, value: Some(3), coefficient: 2 }),
        Some(KnownTile { content: 10, value: Some(2), coefficient: 5 }),
    ]];
    r.get_quantity_explored_world(&map, 11, 7);
    // weights 6 and 10: the fish, though fewer, is the heavier target
    assert_eq!(r.extract_storage_into_weights(), vec![10, 6]);
    let t = r.targets.peek().unwrap();
    assert_eq!(t, StorageInfo::new(Position::new(0, 1), 10, 2, 5));
    assert_eq!(t.get_coefficient(), 5);
}
