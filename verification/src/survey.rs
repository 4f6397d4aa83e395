//! Reading the robot's map of the world: which cells are known, which hold
//! content to collect, and where the markets and banks are.

use vstd::prelude::*;
use vstd::multiset::Multiset;
use crate::geometry::Position;
use crate::storage::{sorted, StorageInfo};
use crate::robot::{explored, DistributorRobot};

verus! {

/// What the robot knows of one cell: the index of its content kind, the
/// amount of that content, where the content carries an amount, and the worth
/// of one unit of that content kind.
#[derive(Clone, Copy, Debug, PartialEq, Eq, Structural)]
pub struct KnownTile {
    pub content: usize,
    pub value: Option<usize>,
    pub coefficient: u32,
}

/// The target, if any, that a known cell at row `i`, column `j` gives: a cell
/// of a desired content kind with an amount of at least one.
pub open spec fn cell_target(cell: Option<KnownTile>, i: int, j: int, desired: Seq<usize>) -> Seq<
    StorageInfo,
> {
    match cell {
        Some(t) => if desired.contains(t.content) && t.value is Some && t.value->0 >= 1 {
            seq![
                StorageInfo {
                    position: Position { row: i as usize, col: j as usize },
                    content: t.content,
                    quantity: t.value->0,
                    coefficient: t.coefficient,
                    market_index: 0,
                },
            ]
        } else {
            Seq::empty()
        },
        None => Seq::empty(),
    }
}

/// The targets of row `i`, left to right.
pub open spec fn row_targets(row: Seq<Option<KnownTile>>, i: int, desired: Seq<usize>) -> Seq<
    StorageInfo,
>
    decreases row.len(),
{
    if row.len() == 0 {
        Seq::empty()
    } else {
        row_targets(row.drop_last(), i, desired) + cell_target(
            row.last(),
            i,
            row.len() - 1,
            desired,
        )
    }
}

/// The targets of a map, row by row.
pub open spec fn map_targets(map: Seq<Vec<Option<KnownTile>>>, desired: Seq<usize>) -> Seq<
    StorageInfo,
>
    decreases map.len(),
{
    if map.len() == 0 {
        Seq::empty()
    } else {
        map_targets(map.drop_last(), desired) + row_targets(map.last()@, map.len() - 1, desired)
    }
}

/// A known cell that is a market (`want_market`) or a bank (otherwise): its
/// content is not desired, and a bank is only a bank if it is not a market.
pub open spec fn is_landmark(
    t: KnownTile,
    desired: Seq<usize>,
    market: usize,
    bank: usize,
    want_market: bool,
) -> bool {
    &&& !desired.contains(t.content)
    &&& if want_market {
        t.content == market
    } else {
        t.content != market && t.content == bank
    }
}

pub open spec fn cell_landmark(
    cell: Option<KnownTile>,
    i: int,
    j: int,
    desired: Seq<usize>,
    market: usize,
    bank: usize,
    want_market: bool,
) -> Seq<Position> {
    match cell {
        Some(t) => if is_landmark(t, desired, market, bank, want_market) {
            seq![Position { row: i as usize, col: j as usize }]
        } else {
            Seq::empty()
        },
        None => Seq::empty(),
    }
}

/// Positions of the markets (or banks) of row `i`, left to right.
pub open spec fn row_landmarks(
    row: Seq<Option<KnownTile>>,
    i: int,
    desired: Seq<usize>,
    market: usize,
    bank: usize,
    want_market: bool,
) -> Seq<Position>
    decreases row.len(),
{
    if row.len() == 0 {
        Seq::empty()
    } else {
        row_landmarks(row.drop_last(), i, desired, market, bank, want_market) + cell_landmark(
            row.last(),
            i,
            row.len() - 1,
            desired,
            market,
            bank,
            want_market,
        )
    }
}

/// Positions of the markets (or banks) of a map, row by row.
pub open spec fn map_landmarks(
    map: Seq<Vec<Option<KnownTile>>>,
    desired: Seq<usize>,
    market: usize,
    bank: usize,
    want_market: bool,
) -> Seq<Position>
    decreases map.len(),
{
    if map.len() == 0 {
        Seq::empty()
    } else {
        map_landmarks(map.drop_last(), desired, market, bank, want_market) + row_landmarks(
            map.last()@,
            map.len() - 1,
            desired,
            market,
            bank,
            want_market,
        )
    }
}

/// `existing` followed by each position of `found` that is not already there,
/// in the order found.
pub open spec fn add_missing(existing: Seq<Position>, found: Seq<Position>) -> Seq<Position>
    decreases found.len(),
{
    if found.len() == 0 {
        existing
    } else {
        let e = add_missing(existing, found.drop_last());
        if e.contains(found.last()) {
            e
        } else {
            e.push(found.last())
        }
    }
}

/// Number of known cells in a row.
pub open spec fn row_known(row: Seq<Option<KnownTile>>) -> nat
    decreases row.len(),
{
    if row.len() == 0 {
        0
    } else {
        row_known(row.drop_last()) + if row.last() is Some {
            1nat
        } else {
            0nat
        }
    }
}

/// Number of known cells in a map.
pub open spec fn map_known(map: Seq<Vec<Option<KnownTile>>>) -> nat
    decreases map.len(),
{
    if map.len() == 0 {
        0
    } else {
        map_known(map.drop_last()) + row_known(map.last()@)
    }
}

/// Every known cell of a desired content kind carries an amount.
pub open spec fn desired_tiles_have_value(map: Seq<Vec<Option<KnownTile>>>, desired: Seq<usize>) -> bool {
    forall|i: int, j: int|
        0 <= i < map.len() && 0 <= j < map[i]@.len() ==> match #[trigger] map[i]@[j] {
            Some(t) => desired.contains(t.content) ==> t.value is Some,
            None => true,
        }
}

/// Adding found positions keeps the known ones first and in order, lists
/// every found position, lists nothing else, and lists every position once if
/// the known ones were listed once: the robot's markets and banks never
/// repeat.
pub proof fn lemma_add_missing(existing: Seq<Position>, found: Seq<Position>)
    ensures
        add_missing(existing, found).len() >= existing.len(),
        forall|i: int| 0 <= i < existing.len() ==> add_missing(existing, found)[i] == existing[i],
        forall|p: Position| found.contains(p) ==> add_missing(existing, found).contains(p),
        forall|p: Position|
            add_missing(existing, found).contains(p) ==> existing.contains(p) || found.contains(p),
        existing.no_duplicates() ==> add_missing(existing, found).no_duplicates(),
    decreases found.len(),
{
    if found.len() > 0 {
        let f = found.drop_last();
        let x = found.last();
        lemma_add_missing(existing, f);
        let e = add_missing(existing, f);
        assert forall|p: Position| found.contains(p) implies add_missing(existing, found).contains(p) by {
            let k = choose|k: int| 0 <= k < found.len() && found[k] == p;
            if k < found.len() - 1 {
                assert(f[k] == p);
                assert(f.contains(p));
            }
            if !e.contains(x) {
                assert(e.push(x)[e.len() as int] == x);
                if e.contains(p) {
                    let m = choose|m: int| 0 <= m < e.len() && e[m] == p;
                    assert(e.push(x)[m] == p);
                }
            }
        }
        assert forall|p: Position| add_missing(existing, found).contains(p) implies existing.contains(p)
            || found.contains(p) by {
            if e.contains(p) {
                if f.contains(p) {
                    let k = choose|k: int| 0 <= k < f.len() && f[k] == p;
                    assert(found[k] == p);
                }
            } else {
                assert(p == x);
                assert(found[found.len() - 1] == p);
            }
        }
    }
}


/// The target that a known cell stands for, at row `i`, column `j`: its
/// content, its amount as quantity, its worth as coefficient, market 0.
pub open spec fn target_of_cell(t: KnownTile, i: int, j: int) -> StorageInfo {
    StorageInfo {
        position: Position { row: i as usize, col: j as usize },
        content: t.content,
        quantity: t.value->0,
        coefficient: t.coefficient,
        market_index: 0,
    }
}

/// A known cell of a desired content kind, with an amount of at least 1.
pub open spec fn is_target_cell(cell: Option<KnownTile>, desired: Seq<usize>) -> bool {
    &&& cell is Some
    &&& desired.contains(cell->0.content)
    &&& cell->0.value is Some
    &&& cell->0.value->0 >= 1
}

proof fn lemma_row_target_of_cell(row: Seq<Option<KnownTile>>, i: int, desired: Seq<usize>, j: int)
    requires
        0 <= j < row.len(),
        is_target_cell(row[j], desired),
    ensures
        row_targets(row, i, desired).contains(target_of_cell(row[j]->0, i, j)),
    decreases row.len(),
{
    let x = target_of_cell(row[j]->0, i, j);
    let pre = row_targets(row.drop_last(), i, desired);
    let cell = cell_target(row.last(), i, row.len() - 1, desired);
    if j == row.len() - 1 {
        assert(cell =~= seq![x]);
        assert((pre + cell)[pre.len() as int] == x);
    } else {
        assert(row.drop_last()[j] == row[j]);
        lemma_row_target_of_cell(row.drop_last(), i, desired, j);
        let k = choose|k: int| 0 <= k < pre.len() && pre[k] == x;
        assert((pre + cell)[k] == x);
    }
}

proof fn lemma_row_target_has_cell(row: Seq<Option<KnownTile>>, i: int, desired: Seq<usize>, x: StorageInfo)
    requires
        row_targets(row, i, desired).contains(x),
    ensures
        exists|j: int|
            0 <= j < row.len() && is_target_cell(#[trigger] row[j], desired) && x == target_of_cell(
                row[j]->0,
                i,
                j,
            ),
    decreases row.len(),
{
    let pre = row_targets(row.drop_last(), i, desired);
    let cell = cell_target(row.last(), i, row.len() - 1, desired);
    let s = pre + cell;
    let k = choose|k: int| 0 <= k < s.len() && s[k] == x;
    if k < pre.len() {
        assert(pre[k] == x);
        lemma_row_target_has_cell(row.drop_last(), i, desired, x);
        let j = choose|j: int|
            0 <= j < row.drop_last().len() && is_target_cell(#[trigger] row.drop_last()[j], desired)
                && x == target_of_cell(row.drop_last()[j]->0, i, j);
        assert(row[j] == row.drop_last()[j]);
    } else {
        let j = row.len() - 1;
        assert(row[j] == row.last());
    }
}

/// The targets of a survey: every known cell at row `i`, column `j` whose
/// content kind is desired and whose amount is at least 1 (a pile of a single
/// unit included) gives the target at `(i, j)` with that content, its amount
/// as quantity, its worth as coefficient and market 0; and every target comes
/// from such a cell.
pub proof fn lemma_survey_targets(map: Seq<Vec<Option<KnownTile>>>, desired: Seq<usize>)
    ensures
        forall|i: int, j: int|
            0 <= i < map.len() && 0 <= j < map[i]@.len() && is_target_cell(
                #[trigger] map[i]@[j],
                desired,
            ) ==> map_targets(map, desired).contains(target_of_cell(map[i]@[j]->0, i, j)),
        forall|x: StorageInfo|
            #[trigger] map_targets(map, desired).contains(x) ==> exists|i: int, j: int|
                0 <= i < map.len() && 0 <= j < map[i]@.len() && is_target_cell(
                    #[trigger] map[i]@[j],
                    desired,
                ) && x == target_of_cell(map[i]@[j]->0, i, j),
    decreases map.len(),
{
    if map.len() > 0 {
        let m1 = map.drop_last();
        let last = map.len() - 1;
        lemma_survey_targets(m1, desired);
        let pre = map_targets(m1, desired);
        let row = row_targets(map.last()@, last, desired);
        assert forall|i: int, j: int|
            0 <= i < map.len() && 0 <= j < map[i]@.len() && is_target_cell(
                #[trigger] map[i]@[j],
                desired,
            ) implies map_targets(map, desired).contains(target_of_cell(map[i]@[j]->0, i, j)) by {
            let x = target_of_cell(map[i]@[j]->0, i, j);
            if i < last {
                assert(m1[i] == map[i]);
                assert(is_target_cell(m1[i]@[j], desired));
                let k = choose|k: int| 0 <= k < pre.len() && pre[k] == x;
                assert((pre + row)[k] == x);
            } else {
                lemma_row_target_of_cell(map.last()@, last, desired, j);
                let k = choose|k: int| 0 <= k < row.len() && row[k] == x;
                assert((pre + row)[pre.len() + k] == x);
            }
        }
        assert forall|x: StorageInfo| #[trigger] map_targets(map, desired).contains(x) implies exists|
            i: int,
            j: int,
        |
            0 <= i < map.len() && 0 <= j < map[i]@.len() && is_target_cell(
                #[trigger] map[i]@[j],
                desired,
            ) && x == target_of_cell(map[i]@[j]->0, i, j) by {
            let s = pre + row;
            let k = choose|k: int| 0 <= k < s.len() && s[k] == x;
            if k < pre.len() {
                assert(pre[k] == x);
                assert(pre.contains(x));
                let (i, j) = choose|i: int, j: int|
                    0 <= i < m1.len() && 0 <= j < m1[i]@.len() && is_target_cell(
                        #[trigger] m1[i]@[j],
                        desired,
                    ) && x == target_of_cell(m1[i]@[j]->0, i, j);
                assert(map[i] == m1[i]);
                assert(is_target_cell(map[i]@[j], desired));
            } else {
                assert(row[k - pre.len()] == x);
                lemma_row_target_has_cell(map.last()@, last, desired, x);
                let j = choose|j: int|
                    0 <= j < map.last()@.len() && is_target_cell(#[trigger] map.last()@[j], desired)
                        && x == target_of_cell(map.last()@[j]->0, last, j);
                assert(map[last] == map.last());
                assert(is_target_cell(map[last]@[j], desired));
            }
        }
    }
}

/// Adding positions that are all listed already changes nothing.
pub proof fn lemma_add_missing_present(existing: Seq<Position>, found: Seq<Position>)
    requires
        forall|p: Position| found.contains(p) ==> existing.contains(p),
    ensures
        add_missing(existing, found) == existing,
    decreases found.len(),
{
    if found.len() > 0 {
        let f = found.drop_last();
        assert forall|p: Position| f.contains(p) implies existing.contains(p) by {
            let k = choose|k: int| 0 <= k < f.len() && f[k] == p;
            assert(found[k] == p);
        }
        lemma_add_missing_present(existing, f);
        assert(found.contains(found.last())) by {
            assert(found[found.len() - 1] == found.last());
        }
    }
}

/// Surveying the same map twice adds its markets and banks once: the second
/// survey leaves the lists as the first left them.
pub proof fn lemma_survey_twice(existing: Seq<Position>, found: Seq<Position>)
    ensures
        add_missing(add_missing(existing, found), found) == add_missing(existing, found),
{
    lemma_add_missing(existing, found);
    lemma_add_missing_present(add_missing(existing, found), found);
}

/// `later` is the map `earlier` once more cells are known: the same shape,
/// and every cell known in `earlier` known in `later`.
pub open spec fn knows_more(
    earlier: Seq<Vec<Option<KnownTile>>>,
    later: Seq<Vec<Option<KnownTile>>>,
) -> bool {
    &&& earlier.len() == later.len()
    &&& forall|i: int| 0 <= i < earlier.len() ==> (#[trigger] earlier[i])@.len() == later[i]@.len()
    &&& forall|i: int, j: int|
        0 <= i < earlier.len() && 0 <= j < earlier[i]@.len() && (#[trigger] earlier[i]@[j]) is Some
            ==> later[i]@[j] is Some
}

proof fn lemma_row_knows_more(a: Seq<Option<KnownTile>>, b: Seq<Option<KnownTile>>)
    requires
        a.len() == b.len(),
        forall|j: int| 0 <= j < a.len() && (#[trigger] a[j]) is Some ==> b[j] is Some,
    ensures
        row_known(a) <= row_known(b),
    decreases a.len(),
{
    if a.len() > 0 {
        let a1 = a.drop_last();
        let b1 = b.drop_last();
        assert forall|j: int| 0 <= j < a1.len() && (#[trigger] a1[j]) is Some implies b1[j] is Some by {
            assert(a[j] == a1[j]);
        }
        lemma_row_knows_more(a1, b1);
        assert(a[a.len() - 1] == a.last());
    }
}

/// The number of known cells never falls as more cells become known.
pub proof fn lemma_known_count_grows(
    earlier: Seq<Vec<Option<KnownTile>>>,
    later: Seq<Vec<Option<KnownTile>>>,
)
    requires
        knows_more(earlier, later),
    ensures
        map_known(earlier) <= map_known(later),
    decreases earlier.len(),
{
    if earlier.len() > 0 {
        let e1 = earlier.drop_last();
        let l1 = later.drop_last();
        assert(knows_more(e1, l1)) by {
            assert forall|i: int| 0 <= i < e1.len() implies (#[trigger] e1[i])@.len() == l1[i]@.len() by {
                assert(earlier[i] == e1[i]);
            }
            assert forall|i: int, j: int|
                0 <= i < e1.len() && 0 <= j < e1[i]@.len() && (#[trigger] e1[i]@[j]) is Some implies l1[i]@[j] is Some by {
                assert(earlier[i] == e1[i]);
                assert(earlier[i]@[j] is Some);
            }
        }
        lemma_known_count_grows(e1, l1);
        let n = earlier.len() - 1;
        let ra = earlier.last()@;
        let rb = later.last()@;
        assert(earlier[n]@.len() == later[n]@.len());
        assert forall|j: int| 0 <= j < ra.len() && (#[trigger] ra[j]) is Some implies rb[j] is Some by {
            assert(earlier[n]@[j] is Some);
        }
        lemma_row_knows_more(ra, rb);
    }
}

proof fn lemma_row_known_prefix(row: Seq<Option<KnownTile>>, j: int)
    requires
        0 <= j <= row.len(),
    ensures
        row_known(row.take(j)) <= row_known(row),
    decreases row.len() - j,
{
    if j < row.len() {
        lemma_row_known_prefix(row, j + 1);
        assert(row.take(j + 1).drop_last() =~= row.take(j));
    } else {
        assert(row.take(j) =~= row);
    }
}

proof fn lemma_map_known_prefix(map: Seq<Vec<Option<KnownTile>>>, i: int)
    requires
        0 <= i <= map.len(),
    ensures
        map_known(map.take(i)) <= map_known(map),
    decreases map.len() - i,
{
    if i < map.len() {
        lemma_map_known_prefix(map, i + 1);
        assert(map.take(i + 1).drop_last() =~= map.take(i));
    } else {
        assert(map.take(i) =~= map);
    }
}

proof fn lemma_add_empty(base: Multiset<StorageInfo>)
    ensures
        base.add(Seq::<StorageInfo>::empty().to_multiset()) == base,
{
    broadcast use vstd::seq_lib::group_to_multiset_ensures, vstd::multiset::group_multiset_axioms;

    assert(Seq::<StorageInfo>::empty().to_multiset() =~= Multiset::empty());
    assert(base.add(Multiset::empty()) =~= base);
}

proof fn lemma_add_push(base: Multiset<StorageInfo>, s: Seq<StorageInfo>, x: StorageInfo)
    ensures
        base.add(s.push(x).to_multiset()) == base.add(s.to_multiset()).insert(x),
{
    broadcast use vstd::seq_lib::group_to_multiset_ensures, vstd::multiset::group_multiset_axioms;

    assert(s.push(x).to_multiset() =~= s.to_multiset().insert(x));
    assert(base.add(s.to_multiset().insert(x)) =~= base.add(s.to_multiset()).insert(x));
}

/// Whether `v` holds `x`.
pub fn contains_usize(v: &Vec<usize>, x: usize) -> (b: bool)
    ensures
        b == v@.contains(x),
{
    let n = v.len();
    let mut k: usize = 0;
    while k < n
        invariant
            n == v@.len(),
            k <= n,
            forall|m: int| 0 <= m < k ==> v@[m] != x,
        decreases n - k,
    {
        if v[k] == x {
            return true;
        }
        k = k + 1;
    }
    false
}

/// Whether `v` holds `p`.
pub fn contains_position(v: &Vec<Position>, p: Position) -> (b: bool)
    ensures
        b == v@.contains(p),
{
    let n = v.len();
    let mut k: usize = 0;
    while k < n
        invariant
            n == v@.len(),
            k <= n,
            forall|m: int| 0 <= m < k ==> v@[m] != p,
        decreases n - k,
    {
        if v[k] == p {
            return true;
        }
        k = k + 1;
    }
    false
}

impl DistributorRobot {
    /// Whether `get_quantity_explored_world` can read `map`: its cell count
    /// and its number of known cells fit their counters, and every known cell
    /// of a desired content kind carries an amount.
    pub fn survey_accepts(&self, map: &Vec<Vec<Option<KnownTile>>>) -> (b: bool)
        ensures
            b == (map@.len() * map@.len() <= usize::MAX && map_known(map@) <= u32::MAX
                && desired_tiles_have_value(map@, self.desired_content@)),
    {
        let n = map.len();
        if n.checked_mul(n).is_none() {
            return false;
        }
        let mut known: u64 = 0;
        let mut i: usize = 0;
        while i < n
            invariant
                n == map@.len(),
                n * n <= usize::MAX,
                i <= n,
                known == map_known(map@.take(i as int)),
                known <= u32::MAX,
                forall|a: int, c: int|
                    0 <= a < i && 0 <= c < map@[a]@.len() ==> match #[trigger] map@[a]@[c] {
                        Some(t) => self.desired_content@.contains(t.content) ==> t.value is Some,
                        None => true,
                    },
            decreases n - i,
        {
            let row = &map[i];
            let m = row.len();
            let mut j: usize = 0;
            while j < m
                invariant
                    n == map@.len(),
                    n * n <= usize::MAX,
                    i < n,
                    row == &map@[i as int],
                    m == row@.len(),
                    j <= m,
                    known == map_known(map@.take(i as int)) + row_known(row@.take(j as int)),
                    known <= u32::MAX,
                    forall|a: int, c: int|
                        0 <= a < i && 0 <= c < map@[a]@.len() ==> match #[trigger] map@[a]@[c] {
                            Some(t) => self.desired_content@.contains(t.content) ==> t.value is Some,
                            None => true,
                        },
                    forall|c: int|
                        0 <= c < j ==> match #[trigger] map@[i as int]@[c] {
                            Some(t) => self.desired_content@.contains(t.content) ==> t.value is Some,
                            None => true,
                        },
                decreases m - j,
            {
                proof {
                    assert(row@.take(j + 1).drop_last() =~= row@.take(j as int));
                }
                match &row[j] {
                    None => {},
                    Some(tile) => {
                        known = known + 1;
                        if known > 0xffff_ffff {
                            proof {
                                lemma_row_known_prefix(row@, j + 1);
                                lemma_map_known_prefix(map@, i + 1);
                                assert(map@.take(i + 1).drop_last() =~= map@.take(i as int));
                            }
                            return false;
                        }
                        if tile.value.is_none() && contains_usize(&self.desired_content, tile.content) {
                            proof {
                                assert(map@[i as int]@[j as int] == Some(*tile));
                            }
                            return false;
                        }
                    },
                }
                j = j + 1;
            }
            proof {
                assert(row@.take(m as int) =~= row@);
                assert(map@.take(i + 1).drop_last() =~= map@.take(i as int));
            }
            i = i + 1;
        }
        proof {
            assert(map@.take(n as int) =~= map@);
        }
        true
    }

    /// Reads the robot's map (`map[i][j]` is row `i`, column `j`; `None` for
    /// a cell not seen yet): every known cell of a desired content kind with
    /// an amount of at least one becomes a new target, and every market and
    /// bank not yet known is added to the robot's lists. `market_content` and
    /// `bank_content` are the content indices of markets and banks. Returns
    /// the number of known cells and the number of cells of the world (the
    /// square of the map's side).
    pub fn get_quantity_explored_world(
        &mut self,
        map: &Vec<Vec<Option<KnownTile>>>,
        market_content: usize,
        bank_content: usize,
    ) -> (counts: (u32, usize))
        requires
            map@.len() * map@.len() <= usize::MAX,
            map_known(map@) <= u32::MAX,
            desired_tiles_have_value(map@, old(self).desired_content@),
        ensures
            counts.0 == map_known(map@),
            counts.1 == map@.len() * map@.len(),
            final(self).targets@.to_multiset() == old(self).targets@.to_multiset().add(
                map_targets(map@, old(self).desired_content@).to_multiset(),
            ),
            final(self).markets@ == add_missing(
                old(self).markets@,
                map_landmarks(map@, old(self).desired_content@, market_content, bank_content, true),
            ),
            final(self).banks@ == add_missing(
                old(self).banks@,
                map_landmarks(map@, old(self).desired_content@, market_content, bank_content, false),
            ),
            final(self).tick_counter == old(self).tick_counter,
            final(self).desired_content@ == old(self).desired_content@,
            final(self).exploration_finished == old(self).exploration_finished,
            final(self).partitioning_solved == old(self).partitioning_solved,
            final(self).world_size == old(self).world_size,
            final(self).exploration == old(self).exploration,
            explored(*old(self), *final(self)),
            sorted(final(self).targets@),
            forall|i: int, j: int|
                0 <= i < map@.len() && 0 <= j < map@[i]@.len() && is_target_cell(
                    #[trigger] map@[i]@[j],
                    old(self).desired_content@,
                ) ==> final(self).targets@.contains(target_of_cell(map@[i]@[j]->0, i, j)),
    {
        proof {
            use_type_invariant(&self.targets);
        }
        let ghost desired = self.desired_content@;
        let ghost old_targets = self.targets@;
        let ghost old_markets = self.markets@;
        let ghost old_banks = self.banks@;
        let n = map.len();
        let total: usize = n * n;
        let mut known: u32 = 0;
        let mut i: usize = 0;
        proof {
            assert(map@.take(0) =~= Seq::<Vec<Option<KnownTile>>>::empty());
            lemma_add_empty(old_targets.to_multiset());
        }
        while i < n
            invariant
                n == map@.len(),
                i <= n,
                total == n * n,
                map_known(map@) <= u32::MAX,
                desired_tiles_have_value(map@, desired),
                desired == self.desired_content@,
                sorted(self.targets@),
                known == map_known(map@.take(i as int)),
                self.targets@.to_multiset() == old_targets.to_multiset().add(
                    map_targets(map@.take(i as int), desired).to_multiset(),
                ),
                self.markets@ == add_missing(
                    old_markets,
                    map_landmarks(map@.take(i as int), desired, market_content, bank_content, true),
                ),
                self.banks@ == add_missing(
                    old_banks,
                    map_landmarks(map@.take(i as int), desired, market_content, bank_content, false),
                ),
                self.tick_counter == old(self).tick_counter,
                self.exploration_finished == old(self).exploration_finished,
                self.partitioning_solved == old(self).partitioning_solved,
                self.world_size == old(self).world_size,
                self.exploration == old(self).exploration,
            decreases n - i,
        {
            let row = &map[i];
            let m = row.len();
            let ghost prefix = map@.take(i as int);
            let mut j: usize = 0;
            proof {
                assert(row@.take(0) =~= Seq::<Option<KnownTile>>::empty());
                assert(map_targets(prefix, desired) + row_targets(row@.take(0), i as int, desired)
                    =~= map_targets(prefix, desired));
                assert(map_landmarks(prefix, desired, market_content, bank_content, true)
                    + row_landmarks(row@.take(0), i as int, desired, market_content, bank_content, true)
                    =~= map_landmarks(prefix, desired, market_content, bank_content, true));
                assert(map_landmarks(prefix, desired, market_content, bank_content, false)
                    + row_landmarks(row@.take(0), i as int, desired, market_content, bank_content, false)
                    =~= map_landmarks(prefix, desired, market_content, bank_content, false));
            }
            while j < m
                invariant
                    n == map@.len(),
                    i < n,
                    row == &map@[i as int],
                    m == row@.len(),
                    j <= m,
                    prefix == map@.take(i as int),
                    map_known(map@) <= u32::MAX,
                    desired_tiles_have_value(map@, desired),
                    desired == self.desired_content@,
                    sorted(self.targets@),
                    known == map_known(prefix) + row_known(row@.take(j as int)),
                    self.targets@.to_multiset() == old_targets.to_multiset().add(
                        (map_targets(prefix, desired) + row_targets(
                            row@.take(j as int),
                            i as int,
                            desired,
                        )).to_multiset(),
                    ),
                    self.markets@ == add_missing(
                        old_markets,
                        map_landmarks(prefix, desired, market_content, bank_content, true)
                            + row_landmarks(
                            row@.take(j as int),
                            i as int,
                            desired,
                            market_content,
                            bank_content,
                            true,
                        ),
                    ),
                    self.banks@ == add_missing(
                        old_banks,
                        map_landmarks(prefix, desired, market_content, bank_content, false)
                            + row_landmarks(
                            row@.take(j as int),
                            i as int,
                            desired,
                            market_content,
                            bank_content,
                            false,
                        ),
                    ),
                    self.tick_counter == old(self).tick_counter,
                    self.exploration_finished == old(self).exploration_finished,
                    self.partitioning_solved == old(self).partitioning_solved,
                    self.world_size == old(self).world_size,
                    self.exploration == old(self).exploration,
                decreases m - j,
            {
                let ghost r = row@.take(j as int);
                let ghost r1 = row@.take(j + 1);
                proof {
                    assert(r1.drop_last() =~= r);
                    assert(r1.last() == row@[j as int]);
                }
                let ghost tmap = map_targets(prefix, desired);
                let ghost mk = map_landmarks(prefix, desired, market_content, bank_content, true);
                let ghost bk = map_landmarks(prefix, desired, market_content, bank_content, false);
                let ghost mrow = row_landmarks(r, i as int, desired, market_content, bank_content, true);
                let ghost brow = row_landmarks(r, i as int, desired, market_content, bank_content, false);
                match &row[j] {
                    None => {
                        proof {
                            assert(row_targets(r1, i as int, desired) =~= row_targets(r, i as int, desired));
                            assert(row_landmarks(r1, i as int, desired, market_content, bank_content, true) =~= mrow);
                            assert(row_landmarks(r1, i as int, desired, market_content, bank_content, false) =~= brow);
                        }
                    },
                    Some(tile) => {
                        proof {
                            lemma_row_known_prefix(row@, j + 1);
                            lemma_map_known_prefix(map@, i + 1);
                            assert(map@.take(i + 1).drop_last() =~= prefix);
                            assert(map@.take(i + 1).last() == map@[i as int]);
                        }
                        known = known + 1;
                        let content = tile.content;
                        if contains_usize(&self.desired_content, content) {
                            proof {
                                assert(map@[i as int]@[j as int] == Some(*tile));
                            }
                            let value = tile.value.unwrap();
                            if value >= 1 {
                                let target = StorageInfo::new(Position::new(i, j), content, value, tile.coefficient);
                                self.targets.push(target);
                                proof {
                                    assert(cell_target(row@[j as int], i as int, j as int, desired) =~= seq![target]);
                                    let before = tmap + row_targets(r, i as int, desired);
                                    assert(tmap + row_targets(r1, i as int, desired) =~= before.push(target));
                                    lemma_add_push(old_targets.to_multiset(), before, target);
                                }
                            } else {
                                proof {
                                    assert(row_targets(r1, i as int, desired) =~= row_targets(r, i as int, desired));
                                }
                            }
                            proof {
                                assert(row_landmarks(r1, i as int, desired, market_content, bank_content, true) =~= mrow);
                                assert(row_landmarks(r1, i as int, desired, market_content, bank_content, false) =~= brow);
                            }
                        } else if content == market_content {
                            let p = Position::new(i, j);
                            if !contains_position(&self.markets, p) {
                                self.markets.push(p);
                            }
                            proof {
                                assert(row_targets(r1, i as int, desired) =~= row_targets(r, i as int, desired));
                                assert(row_landmarks(r1, i as int, desired, market_content, bank_content, true) =~= mrow.push(p));
                                assert(mk + mrow.push(p) =~= (mk + mrow).push(p));
                                assert((mk + mrow.push(p)).drop_last() =~= mk + mrow);
                                assert(row_landmarks(r1, i as int, desired, market_content, bank_content, false) =~= brow);
                            }
                        } else if content == bank_content {
                            let p = Position::new(i, j);
                            if !contains_position(&self.banks, p) {
                                self.banks.push(p);
                            }
                            proof {
                                assert(row_targets(r1, i as int, desired) =~= row_targets(r, i as int, desired));
                                assert(row_landmarks(r1, i as int, desired, market_content, bank_content, false) =~= brow.push(p));
                                assert(bk + brow.push(p) =~= (bk + brow).push(p));
                                assert((bk + brow.push(p)).drop_last() =~= bk + brow);
                                assert(row_landmarks(r1, i as int, desired, market_content, bank_content, true) =~= mrow);
                            }
                        } else {
                            proof {
                                assert(row_targets(r1, i as int, desired) =~= row_targets(r, i as int, desired));
                                assert(row_landmarks(r1, i as int, desired, market_content, bank_content, true) =~= mrow);
                                assert(row_landmarks(r1, i as int, desired, market_content, bank_content, false) =~= brow);
                            }
                        }
                    },
                }
                j = j + 1;
            }
            proof {
                assert(row@.take(m as int) =~= row@);
                let p1 = map@.take(i + 1);
                assert(p1.drop_last() =~= prefix);
                assert(p1.last() == map@[i as int]);
            }
            i = i + 1;
        }
        proof {
            assert(map@.take(n as int) =~= map@);
            lemma_survey_targets(map@, desired);
            assert forall|a: int, c: int|
                0 <= a < map@.len() && 0 <= c < map@[a]@.len() && is_target_cell(
                    #[trigger] map@[a]@[c],
                    desired,
                ) implies self.targets@.contains(target_of_cell(map@[a]@[c]->0, a, c)) by {
                let x = target_of_cell(map@[a]@[c]->0, a, c);
                let found = map_targets(map@, desired);
                found.to_multiset_ensures();
                self.targets@.to_multiset_ensures();
                assert(found.to_multiset().count(x) > 0);
                assert(self.targets@.to_multiset().count(x) > 0);
            }
            lemma_add_missing(
                old_markets,
                map_landmarks(map@, desired, market_content, bank_content, true),
            );
            lemma_add_missing(
                old_banks,
                map_landmarks(map@, desired, market_content, bank_content, false),
            );
        }
        (known, total)
    }
}

} // verus!
