//! The exploration round: which way the robot looks, which cells it tries to
//! reach and in which order it walks, decided one event at a time.
//!
//! A round looks up and down the robot's column for the farthest reachable
//! cells at the edge of its view. When both exist, the robot also looks left
//! and right, then walks to the nearer end and on to the other, looking left
//! and right at every step. Otherwise it does the same along its row: it
//! looks left and right and, when both sides have a reachable far cell, walks
//! to the nearer one and on to the other, looking up and down at every step.
//! The round ends by measuring how much of the world is known.

use vstd::prelude::*;
use crate::geometry::{Direction, Position};
use crate::robot::{explored, DistributorRobot};

verus! {

/// A cell that the robot can reach, with the length of the path to it.
#[derive(Clone, Copy, Debug, PartialEq, Eq, Structural)]
pub struct Found {
    pub position: Position,
    pub steps: usize,
}

/// Where an exploration round stands.
pub enum ExplorationStage {
    /// No round under way.
    Idle,
    /// Waiting for the size of the robot's map.
    Surveying,
    /// Waiting for the view in `dir`; `first` is what the earlier direction of
    /// the pair (up for down, left for right) found.
    Viewing { dir: Direction, first: Option<Found> },
    /// Waiting to learn whether `target`, the candidate `next` of the view in
    /// `dir`, can be reached. `row_lens` are the lengths of the rows of that
    /// view and `robot` where the robot stood.
    Probing {
        dir: Direction,
        first: Option<Found>,
        robot: Position,
        row_lens: Vec<usize>,
        next: usize,
        target: Position,
    },
    /// Both ends of the column are reachable: waiting for the view to the
    /// left, then (`right_pending`) for the view to the right.
    LookingSideways { up: Found, down: Found, right_pending: bool },
    /// Walking; `then` is where to walk next, if anywhere.
    Walking { then: Option<Position>, first_look: Direction, second_look: Direction },
    /// Waiting to learn whether enough of the world is known.
    Measuring,
}

/// What the program around the library reports back.
pub enum ExplorationEvent {
    /// A new round begins.
    Start,
    /// The robot looked around; its map of the world has `map_size` rows.
    Surveyed { map_size: usize },
    /// The view asked for came back with rows of these lengths, nearest row
    /// first, while the robot stood at `robot`.
    Viewed { row_lens: Vec<usize>, robot: Position },
    /// The path asked for has `steps` steps, or there is none.
    PathResult { steps: Option<usize> },
    /// The walk asked for is done.
    Walked,
    /// Whether more than the required portion of the world is known.
    Explored { enough: bool },
}

/// What the program around the library is to do next.
#[derive(Clone, Copy, Debug, PartialEq, Eq, Structural)]
pub enum ExplorationAction {
    /// Look around and read the robot's map; report `Surveyed`.
    LookAround,
    /// Look `distance` cells in `dir`; report `Viewed`.
    View { dir: Direction, distance: usize },
    /// Find a path to `to`; report `PathResult`.
    QueryPath { to: Position },
    /// Walk the path to `to` (none if there is no path), and at every step look
    /// around, move, then look in `first_look` and `second_look`; report `Walked`.
    Walk { to: Position, first_look: Direction, second_look: Direction },
    /// Measure how much of the world is known; report `Explored`.
    MeasureExplored,
    /// The round is over; it succeeded if `explored`.
    Finished { explored: bool },
}

/// The world size once the map of side `map_size` has been seen.
pub open spec fn surveyed_size(world_size: usize, map_size: usize) -> usize {
    if world_size == 0 {
        map_size
    } else {
        world_size
    }
}

/// How many far cells a view in `dir` offers: up and down, one per cell of
/// the farthest row; left and right, one per row but the last.
pub open spec fn candidate_count(dir: Direction, row_lens: Seq<usize>) -> int {
    match dir {
        Direction::Up | Direction::Down => row_lens.last() as int,
        Direction::Left | Direction::Right => row_lens.len() - 1,
    }
}

/// Row and column of the `i`-th far cell of a view in `dir` seen from `robot`.
pub open spec fn candidate(dir: Direction, robot: Position, row_lens: Seq<usize>, i: int) -> (int, int) {
    let rows = row_lens.len() as int;
    match dir {
        Direction::Up => (robot.row - rows, robot.col - i),
        Direction::Down => (robot.row + rows, robot.col - i),
        Direction::Left => (robot.row - i, robot.col - (row_lens[i] - 1)),
        Direction::Right => (robot.row - i, robot.col + (row_lens[i] - 1)),
    }
}

/// The `i`-th far cell lies on the grid of `usize` coordinates (and, left and
/// right, its row is not empty).
pub open spec fn candidate_ok(dir: Direction, robot: Position, row_lens: Seq<usize>, i: int) -> bool {
    let (r, c) = candidate(dir, robot, row_lens, i);
    &&& 0 <= r <= usize::MAX
    &&& 0 <= c <= usize::MAX
    &&& (dir == Direction::Left || dir == Direction::Right) ==> row_lens[i] >= 1
}

pub open spec fn candidate_position(dir: Direction, robot: Position, row_lens: Seq<usize>, i: int) -> Position {
    let (r, c) = candidate(dir, robot, row_lens, i);
    Position { row: r as usize, col: c as usize }
}

/// The two walks, nearer end first, with the looks at every step.
pub open spec fn walks(first: Found, second: Found, first_look: Direction, second_look: Direction) -> (
    ExplorationStage,
    ExplorationAction,
) {
    (
        ExplorationStage::Walking { then: Some(second.position), first_look, second_look },
        ExplorationAction::Walk { to: first.position, first_look, second_look },
    )
}

/// Walks along the column: to the lower end first only if the upper one is
/// strictly farther.
pub open spec fn column_walks(up: Found, down: Found) -> (ExplorationStage, ExplorationAction) {
    if up.steps > down.steps {
        walks(down, up, Direction::Left, Direction::Right)
    } else {
        walks(up, down, Direction::Left, Direction::Right)
    }
}

/// Walks along the row: to the left end first only if it is strictly nearer.
pub open spec fn row_walks(left: Found, right: Found) -> (ExplorationStage, ExplorationAction) {
    if left.steps < right.steps {
        walks(left, right, Direction::Up, Direction::Down)
    } else {
        walks(right, left, Direction::Up, Direction::Down)
    }
}

/// What follows once the far cells of the view in `dir` have been tried;
/// `found` is the first reachable one, if any.
pub open spec fn after_direction(
    dir: Direction,
    first: Option<Found>,
    found: Option<Found>,
    world_size: usize,
) -> (ExplorationStage, ExplorationAction) {
    match dir {
        Direction::Up => (
            ExplorationStage::Viewing { dir: Direction::Down, first: found },
            ExplorationAction::View { dir: Direction::Down, distance: world_size },
        ),
        Direction::Down => match (first, found) {
            (Some(up), Some(down)) => (
                ExplorationStage::LookingSideways { up, down, right_pending: false },
                ExplorationAction::View { dir: Direction::Left, distance: world_size },
            ),
            _ => (
                ExplorationStage::Viewing { dir: Direction::Left, first: None },
                ExplorationAction::View { dir: Direction::Left, distance: world_size },
            ),
        },
        Direction::Left => (
            ExplorationStage::Viewing { dir: Direction::Right, first: found },
            ExplorationAction::View { dir: Direction::Right, distance: world_size },
        ),
        Direction::Right => match (first, found) {
            (Some(left), Some(right)) => row_walks(left, right),
            _ => (ExplorationStage::Measuring, ExplorationAction::MeasureExplored),
        },
    }
}

/// Trying the far cells of a view from the `i`-th on: ask for a path to it,
/// or, when there is none left, go on as `after_direction` says.
pub open spec fn probes(
    stage: ExplorationStage,
    action: ExplorationAction,
    dir: Direction,
    first: Option<Found>,
    robot: Position,
    row_lens: Seq<usize>,
    i: int,
    world_size: usize,
) -> bool {
    if i < candidate_count(dir, row_lens) {
        &&& stage matches ExplorationStage::Probing { dir: d, first: f, robot: r, row_lens: l, next: k, target: t }
        &&& d == dir
        &&& f == first
        &&& r == robot
        &&& l@ == row_lens
        &&& k == i
        &&& t == candidate_position(dir, robot, row_lens, i)
        &&& action == ExplorationAction::QueryPath { to: t }
    } else {
        (stage, action) == after_direction(dir, first, None, world_size)
    }
}

/// The events that the round accepts in each stage; outside them the program
/// around the library would have failed (an empty view, or a far cell off the
/// grid of `usize` coordinates).
pub open spec fn accepts(stage: ExplorationStage, event: ExplorationEvent) -> bool {
    match event {
        ExplorationEvent::Start => true,
        ExplorationEvent::Surveyed { .. } => stage is Surveying,
        ExplorationEvent::Viewed { row_lens, robot } => match stage {
            ExplorationStage::Viewing { dir, .. } => {
                &&& row_lens@.len() >= 1
                &&& 0 < candidate_count(dir, row_lens@) ==> candidate_ok(dir, robot, row_lens@, 0)
            },
            ExplorationStage::LookingSideways { .. } => true,
            _ => false,
        },
        ExplorationEvent::PathResult { steps } => match stage {
            ExplorationStage::Probing { dir, robot, row_lens, next, .. } => {
                &&& row_lens@.len() >= 1
                &&& next < candidate_count(dir, row_lens@)
                &&& (steps is None && next + 1 < candidate_count(dir, row_lens@)) ==> candidate_ok(
                    dir,
                    robot,
                    row_lens@,
                    next + 1,
                )
            },
            _ => false,
        },
        ExplorationEvent::Walked => stage is Walking,
        ExplorationEvent::Explored { .. } => stage is Measuring,
    }
}

/// The next stage and action of a round in `stage`, with world size
/// `world_size`, on `event`.
pub open spec fn step_result(
    stage: ExplorationStage,
    world_size: usize,
    event: ExplorationEvent,
    new_stage: ExplorationStage,
    action: ExplorationAction,
) -> bool {
    match event {
        ExplorationEvent::Start => new_stage == ExplorationStage::Surveying && action
            == ExplorationAction::LookAround,
        ExplorationEvent::Surveyed { map_size } => {
            &&& new_stage == ExplorationStage::Viewing { dir: Direction::Up, first: None }
            &&& action == ExplorationAction::View {
                dir: Direction::Up,
                distance: surveyed_size(world_size, map_size),
            }
        },
        ExplorationEvent::Viewed { row_lens, robot } => match stage {
            ExplorationStage::Viewing { dir, first } => probes(
                new_stage,
                action,
                dir,
                first,
                robot,
                row_lens@,
                0,
                world_size,
            ),
            ExplorationStage::LookingSideways { up, down, right_pending } => if !right_pending {
                &&& new_stage == ExplorationStage::LookingSideways { up, down, right_pending: true }
                &&& action == ExplorationAction::View { dir: Direction::Right, distance: world_size }
            } else {
                (new_stage, action) == column_walks(up, down)
            },
            _ => true,
        },
        ExplorationEvent::PathResult { steps } => match stage {
            ExplorationStage::Probing { dir, first, robot, row_lens, next, target } => match steps {
                Some(n) => (new_stage, action) == after_direction(
                    dir,
                    first,
                    Some(Found { position: target, steps: n }),
                    world_size,
                ),
                None => probes(new_stage, action, dir, first, robot, row_lens@, next + 1, world_size),
            },
            _ => true,
        },
        ExplorationEvent::Walked => match stage {
            ExplorationStage::Walking { then, first_look, second_look } => match then {
                Some(p) => {
                    &&& new_stage == ExplorationStage::Walking { then: None, first_look, second_look }
                    &&& action == ExplorationAction::Walk { to: p, first_look, second_look }
                },
                None => new_stage == ExplorationStage::Measuring && action
                    == ExplorationAction::MeasureExplored,
            },
            _ => true,
        },
        ExplorationEvent::Explored { enough } => new_stage == ExplorationStage::Idle && action
            == ExplorationAction::Finished { explored: enough },
    }
}

/// The world size is learnt from the first survey only.
pub proof fn lemma_world_size_learnt_once(world_size: usize, map_size: usize)
    ensures
        world_size != 0 ==> surveyed_size(world_size, map_size) == world_size,
        world_size == 0 ==> surveyed_size(world_size, map_size) == map_size,
{
}

/// Along the column the robot first walks to the end with the shorter path,
/// to the upper end when the paths are equally long, and then on to the other
/// end, looking left and right.
pub proof fn lemma_column_walk_order(up: Found, down: Found)
    ensures
        column_walks(up, down).1 == (ExplorationAction::Walk {
            to: if down.steps < up.steps {
                down.position
            } else {
                up.position
            },
            first_look: Direction::Left,
            second_look: Direction::Right,
        }),
        column_walks(up, down).0 == (ExplorationStage::Walking {
            then: Some(
                if down.steps < up.steps {
                    up.position
                } else {
                    down.position
                },
            ),
            first_look: Direction::Left,
            second_look: Direction::Right,
        }),
{
}

/// Along the row the robot first walks to the end with the shorter path, to
/// the right end when the paths are equally long, and then on to the other
/// end, looking up and down.
pub proof fn lemma_row_walk_order(left: Found, right: Found)
    ensures
        row_walks(left, right).1 == (ExplorationAction::Walk {
            to: if left.steps < right.steps {
                left.position
            } else {
                right.position
            },
            first_look: Direction::Up,
            second_look: Direction::Down,
        }),
        row_walks(left, right).0 == (ExplorationStage::Walking {
            then: Some(
                if left.steps < right.steps {
                    right.position
                } else {
                    left.position
                },
            ),
            first_look: Direction::Up,
            second_look: Direction::Down,
        }),
{
}

/// The robot walks only when both ends of its column, or both ends of its
/// row, are reachable: a direction whose far cells are all unreachable never
/// leads to a walk before the next view or the measurement.
pub proof fn lemma_no_walk_without_both_ends(dir: Direction, first: Option<Found>, found: Option<Found>, world_size: usize)
    requires
        first is None || found is None,
    ensures
        !(after_direction(dir, first, found, world_size).1 is Walk),
{
}

/// A view that offers far cells starts probing them with the first: up, the
/// cell as many rows above the robot as the view is deep, in the robot's
/// column; down, as many rows below; left, the far end of the nearest row
/// (the robot's own), `len - 1` columns to the left; right, likewise to the
/// right.
pub proof fn lemma_view_probes_first_far_cell(
    dir: Direction,
    first: Option<Found>,
    row_lens: Vec<usize>,
    robot: Position,
    world_size: usize,
    new_stage: ExplorationStage,
    action: ExplorationAction,
)
    requires
        step_result(
            ExplorationStage::Viewing { dir, first },
            world_size,
            ExplorationEvent::Viewed { row_lens, robot },
            new_stage,
            action,
        ),
        row_lens@.len() >= 1,
        match dir {
            Direction::Up | Direction::Down => row_lens@[row_lens@.len() - 1] > 0,
            Direction::Left | Direction::Right => row_lens@.len() > 1,
        },
    ensures
        action == (ExplorationAction::QueryPath {
            to: match dir {
                Direction::Up => Position {
                    row: (robot.row - row_lens@.len()) as usize,
                    col: robot.col,
                },
                Direction::Down => Position {
                    row: (robot.row + row_lens@.len()) as usize,
                    col: robot.col,
                },
                Direction::Left => Position {
                    row: robot.row,
                    col: (robot.col - (row_lens@[0] - 1)) as usize,
                },
                Direction::Right => Position {
                    row: robot.row,
                    col: (robot.col + (row_lens@[0] - 1)) as usize,
                },
            },
        }),
        new_stage matches ExplorationStage::Probing { dir: d, next, target, .. } && d == dir
            && next == 0 && action == (ExplorationAction::QueryPath { to: target }),
{
}

/// When a far cell cannot be reached, the next one is tried: up, one column
/// further left in the farthest row above; down, likewise in the farthest row
/// below; left and right, the far end of the next row up.
pub proof fn lemma_unreachable_probes_next_far_cell(
    dir: Direction,
    first: Option<Found>,
    robot: Position,
    row_lens: Vec<usize>,
    next: usize,
    target: Position,
    world_size: usize,
    new_stage: ExplorationStage,
    action: ExplorationAction,
)
    requires
        step_result(
            ExplorationStage::Probing { dir, first, robot, row_lens, next, target },
            world_size,
            ExplorationEvent::PathResult { steps: None },
            new_stage,
            action,
        ),
        row_lens@.len() >= 1,
        match dir {
            Direction::Up | Direction::Down => next + 1 < row_lens@[row_lens@.len() - 1],
            Direction::Left | Direction::Right => next + 1 < row_lens@.len() - 1,
        },
    ensures
        action == (ExplorationAction::QueryPath {
            to: match dir {
                Direction::Up => Position {
                    row: (robot.row - row_lens@.len()) as usize,
                    col: (robot.col - (next + 1)) as usize,
                },
                Direction::Down => Position {
                    row: (robot.row + row_lens@.len()) as usize,
                    col: (robot.col - (next + 1)) as usize,
                },
                Direction::Left => Position {
                    row: (robot.row - (next + 1)) as usize,
                    col: (robot.col - (row_lens@[next + 1] - 1)) as usize,
                },
                Direction::Right => Position {
                    row: (robot.row - (next + 1)) as usize,
                    col: (robot.col + (row_lens@[next + 1] - 1)) as usize,
                },
            },
        }),
        new_stage matches ExplorationStage::Probing { dir: d, next: k, .. } && d == dir && k
            == next + 1,
{
}

/// When the far cell being probed turns out reachable by a path of `n`
/// steps, it is the end found in that direction, with `n` as its step count:
/// after up the robot looks down; after down it looks left, sideways if both
/// ends of the column were found; after left it looks right; after right it
/// walks first to the end of the row whose path is strictly shorter (the
/// right one on a tie) when both were found, and otherwise measures.
pub proof fn lemma_reachable_far_cell_is_kept(
    dir: Direction,
    first: Option<Found>,
    robot: Position,
    row_lens: Vec<usize>,
    next: usize,
    target: Position,
    n: usize,
    world_size: usize,
    new_stage: ExplorationStage,
    action: ExplorationAction,
)
    requires
        step_result(
            ExplorationStage::Probing { dir, first, robot, row_lens, next, target },
            world_size,
            ExplorationEvent::PathResult { steps: Some(n) },
            new_stage,
            action,
        ),
    ensures
        dir == Direction::Up ==> new_stage == (ExplorationStage::Viewing {
            dir: Direction::Down,
            first: Some(Found { position: target, steps: n }),
        }) && action == (ExplorationAction::View { dir: Direction::Down, distance: world_size }),
        dir == Direction::Down ==> match first {
            Some(up) => new_stage == (ExplorationStage::LookingSideways {
                up,
                down: Found { position: target, steps: n },
                right_pending: false,
            }),
            None => new_stage == (ExplorationStage::Viewing { dir: Direction::Left, first: None }),
        } && action == (ExplorationAction::View { dir: Direction::Left, distance: world_size }),
        dir == Direction::Left ==> new_stage == (ExplorationStage::Viewing {
            dir: Direction::Right,
            first: Some(Found { position: target, steps: n }),
        }) && action == (ExplorationAction::View { dir: Direction::Right, distance: world_size }),
        dir == Direction::Right ==> match first {
            Some(left) => {
                &&& action == (ExplorationAction::Walk {
                    to: if left.steps < n {
                        left.position
                    } else {
                        target
                    },
                    first_look: Direction::Up,
                    second_look: Direction::Down,
                })
                &&& new_stage == (ExplorationStage::Walking {
                    then: Some(
                        if left.steps < n {
                            target
                        } else {
                            left.position
                        },
                    ),
                    first_look: Direction::Up,
                    second_look: Direction::Down,
                })
            },
            None => new_stage == ExplorationStage::Measuring && action
                == ExplorationAction::MeasureExplored,
        },
{
}

/// Once both sideways views of a column round are in, the robot walks first
/// to the end of the column whose path is shorter (the upper one on a tie).
pub proof fn lemma_column_round_walks_nearer_end_first(
    up: Found,
    down: Found,
    row_lens: Vec<usize>,
    robot: Position,
    world_size: usize,
    new_stage: ExplorationStage,
    action: ExplorationAction,
)
    requires
        step_result(
            ExplorationStage::LookingSideways { up, down, right_pending: true },
            world_size,
            ExplorationEvent::Viewed { row_lens, robot },
            new_stage,
            action,
        ),
    ensures
        action == (ExplorationAction::Walk {
            to: if down.steps < up.steps {
                down.position
            } else {
                up.position
            },
            first_look: Direction::Left,
            second_look: Direction::Right,
        }),
        new_stage == (ExplorationStage::Walking {
            then: Some(
                if down.steps < up.steps {
                    up.position
                } else {
                    down.position
                },
            ),
            first_look: Direction::Left,
            second_look: Direction::Right,
        }),
{
}

fn candidate_count_of(dir: Direction, row_lens: &Vec<usize>) -> (n: usize)
    requires
        row_lens@.len() >= 1,
    ensures
        n == candidate_count(dir, row_lens@),
{
    match dir {
        Direction::Up | Direction::Down => row_lens[row_lens.len() - 1],
        Direction::Left | Direction::Right => row_lens.len() - 1,
    }
}

fn candidate_at(dir: Direction, robot: Position, row_lens: &Vec<usize>, i: usize) -> (p: Position)
    requires
        row_lens@.len() >= 1,
        i < candidate_count(dir, row_lens@),
        candidate_ok(dir, robot, row_lens@, i as int),
    ensures
        p == candidate_position(dir, robot, row_lens@, i as int),
{
    let rows = row_lens.len();
    match dir {
        Direction::Up => Position::new(robot.row - rows, robot.col - i),
        Direction::Down => Position::new(robot.row + rows, robot.col - i),
        Direction::Left => Position::new(robot.row - i, robot.col - (row_lens[i] - 1)),
        Direction::Right => Position::new(robot.row - i, robot.col + (row_lens[i] - 1)),
    }
}

fn walks_exec(first: Found, second: Found, first_look: Direction, second_look: Direction) -> (r: (
    ExplorationStage,
    ExplorationAction,
))
    ensures
        r == walks(first, second, first_look, second_look),
{
    (
        ExplorationStage::Walking { then: Some(second.position), first_look, second_look },
        ExplorationAction::Walk { to: first.position, first_look, second_look },
    )
}

fn column_walks_exec(up: Found, down: Found) -> (r: (ExplorationStage, ExplorationAction))
    ensures
        r == column_walks(up, down),
{
    if up.steps > down.steps {
        walks_exec(down, up, Direction::Left, Direction::Right)
    } else {
        walks_exec(up, down, Direction::Left, Direction::Right)
    }
}

fn row_walks_exec(left: Found, right: Found) -> (r: (ExplorationStage, ExplorationAction))
    ensures
        r == row_walks(left, right),
{
    if left.steps < right.steps {
        walks_exec(left, right, Direction::Up, Direction::Down)
    } else {
        walks_exec(right, left, Direction::Up, Direction::Down)
    }
}

fn after_direction_exec(
    dir: Direction,
    first: Option<Found>,
    found: Option<Found>,
    world_size: usize,
) -> (r: (ExplorationStage, ExplorationAction))
    ensures
        r == after_direction(dir, first, found, world_size),
{
    match dir {
        Direction::Up => (
            ExplorationStage::Viewing { dir: Direction::Down, first: found },
            ExplorationAction::View { dir: Direction::Down, distance: world_size },
        ),
        Direction::Down => match (first, found) {
            (Some(up), Some(down)) => (
                ExplorationStage::LookingSideways { up, down, right_pending: false },
                ExplorationAction::View { dir: Direction::Left, distance: world_size },
            ),
            _ => (
                ExplorationStage::Viewing { dir: Direction::Left, first: None },
                ExplorationAction::View { dir: Direction::Left, distance: world_size },
            ),
        },
        Direction::Left => (
            ExplorationStage::Viewing { dir: Direction::Right, first: found },
            ExplorationAction::View { dir: Direction::Right, distance: world_size },
        ),
        Direction::Right => match (first, found) {
            (Some(left), Some(right)) => row_walks_exec(left, right),
            _ => (ExplorationStage::Measuring, ExplorationAction::MeasureExplored),
        },
    }
}

fn probe_from(
    dir: Direction,
    first: Option<Found>,
    robot: Position,
    row_lens: Vec<usize>,
    i: usize,
    world_size: usize,
) -> (r: (ExplorationStage, ExplorationAction))
    requires
        row_lens@.len() >= 1,
        i < candidate_count(dir, row_lens@) ==> candidate_ok(dir, robot, row_lens@, i as int),
    ensures
        probes(r.0, r.1, dir, first, robot, row_lens@, i as int, world_size),
{
    let count = candidate_count_of(dir, &row_lens);
    if i < count {
        let target = candidate_at(dir, robot, &row_lens, i);
        (
            ExplorationStage::Probing { dir, first, robot, row_lens, next: i, target },
            ExplorationAction::QueryPath { to: target },
        )
    } else {
        after_direction_exec(dir, first, None, world_size)
    }
}

/// Whether the round in `stage` accepts `event` (see `accepts`).
pub fn accepts_event(stage: &ExplorationStage, event: &ExplorationEvent) -> (b: bool)
    ensures
        b == accepts(*stage, *event),
{
    match event {
        ExplorationEvent::Start => true,
        ExplorationEvent::Surveyed { .. } => matches!(stage, ExplorationStage::Surveying),
        ExplorationEvent::Viewed { row_lens, robot } => match stage {
            ExplorationStage::Viewing { dir, .. } => {
                if row_lens.len() == 0 {
                    false
                } else if candidate_count_of(*dir, row_lens) == 0 {
                    true
                } else {
                    candidate_fits(*dir, *robot, row_lens, 0)
                }
            },
            ExplorationStage::LookingSideways { .. } => true,
            _ => false,
        },
        ExplorationEvent::PathResult { steps } => match stage {
            ExplorationStage::Probing { dir, robot, row_lens, next, .. } => {
                if row_lens.len() == 0 {
                    false
                } else if *next >= candidate_count_of(*dir, row_lens) {
                    false
                } else if steps.is_some() {
                    true
                } else {
                    let count = candidate_count_of(*dir, row_lens);
                    if count - *next < 2 {
                        true
                    } else {
                        candidate_fits(*dir, *robot, row_lens, *next + 1)
                    }
                }
            },
            _ => false,
        },
        ExplorationEvent::Walked => matches!(stage, ExplorationStage::Walking { .. }),
        ExplorationEvent::Explored { .. } => matches!(stage, ExplorationStage::Measuring),
    }
}

fn candidate_fits(dir: Direction, robot: Position, row_lens: &Vec<usize>, i: usize) -> (b: bool)
    requires
        row_lens@.len() >= 1,
        i < candidate_count(dir, row_lens@),
    ensures
        b == candidate_ok(dir, robot, row_lens@, i as int),
{
    let rows = row_lens.len();
    match dir {
        Direction::Up => robot.row >= rows && robot.col >= i,
        Direction::Down => robot.row <= usize::MAX - rows && robot.col >= i,
        Direction::Left => row_lens[i] >= 1 && robot.row >= i && robot.col >= row_lens[i] - 1,
        Direction::Right => row_lens[i] >= 1 && robot.row >= i && robot.col <= usize::MAX - (
        row_lens[i] - 1),
    }
}

impl DistributorRobot {
    /// Advances the exploration round on `event` and says what to do next.
    /// The robot's world size is learnt from the first survey; the
    /// exploration counts as finished once a measurement reports enough.
    pub fn exploration_phase(&mut self, event: ExplorationEvent) -> (action: ExplorationAction)
        requires
            accepts(old(self).exploration, event),
        ensures
            step_result(
                old(self).exploration,
                old(self).world_size,
                event,
                final(self).exploration,
                action,
            ),
            final(self).world_size == match event {
                ExplorationEvent::Surveyed { map_size } => surveyed_size(
                    old(self).world_size,
                    map_size,
                ),
                _ => old(self).world_size,
            },
            final(self).exploration_finished == (old(self).exploration_finished
                || event == ExplorationEvent::Explored { enough: true }),
            final(self).tick_counter == old(self).tick_counter,
            final(self).desired_content@ == old(self).desired_content@,
            final(self).partitioning_solved == old(self).partitioning_solved,
            final(self).targets@ == old(self).targets@,
            final(self).markets@ == old(self).markets@,
            final(self).banks@ == old(self).banks@,
            explored(*old(self), *final(self)),
    {
        let mut stage = ExplorationStage::Idle;
        std::mem::swap(&mut stage, &mut self.exploration);
        let world_size = self.world_size;
        let (new_stage, action) = match event {
            ExplorationEvent::Start => (ExplorationStage::Surveying, ExplorationAction::LookAround),
            ExplorationEvent::Surveyed { map_size } => {
                if self.world_size == 0 {
                    self.world_size = map_size;
                }
                (
                    ExplorationStage::Viewing { dir: Direction::Up, first: None },
                    ExplorationAction::View { dir: Direction::Up, distance: self.world_size },
                )
            },
            ExplorationEvent::Viewed { row_lens, robot } => match stage {
                ExplorationStage::Viewing { dir, first } => probe_from(
                    dir,
                    first,
                    robot,
                    row_lens,
                    0,
                    world_size,
                ),
                ExplorationStage::LookingSideways { up, down, right_pending } => {
                    if !right_pending {
                        (
                            ExplorationStage::LookingSideways { up, down, right_pending: true },
                            ExplorationAction::View { dir: Direction::Right, distance: world_size },
                        )
                    } else {
                        column_walks_exec(up, down)
                    }
                },
                // Not accepted in this stage (see `accepts`).
                other => (other, ExplorationAction::LookAround),
            },
            ExplorationEvent::PathResult { steps } => match stage {
                ExplorationStage::Probing { dir, first, robot, row_lens, next, target } => {
                    match steps {
                        Some(n) => after_direction_exec(
                            dir,
                            first,
                            Some(Found { position: target, steps: n }),
                            world_size,
                        ),
                        None => {
                            let count = candidate_count_of(dir, &row_lens);
                            if count - next >= 2 {
                                probe_from(dir, first, robot, row_lens, next + 1, world_size)
                            } else {
                                after_direction_exec(dir, first, None, world_size)
                            }
                        },
                    }
                },
                // Not accepted in this stage (see `accepts`).
                other => (other, ExplorationAction::LookAround),
            },
            ExplorationEvent::Walked => match stage {
                ExplorationStage::Walking { then, first_look, second_look } => match then {
                    Some(p) => (
                        ExplorationStage::Walking { then: None, first_look, second_look },
                        ExplorationAction::Walk { to: p, first_look, second_look },
                    ),
                    None => (ExplorationStage::Measuring, ExplorationAction::MeasureExplored),
                },
                // Not accepted in this stage (see `accepts`).
                other => (other, ExplorationAction::LookAround),
            },
            ExplorationEvent::Explored { enough } => {
                if enough {
                    self.exploration_finished = true;
                }
                (ExplorationStage::Idle, ExplorationAction::Finished { explored: enough })
            },
        };
        self.exploration = new_stage;
        action
    }
}

} // verus!
