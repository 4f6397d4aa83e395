//! The targets the robot has found: what lies where, how much of it, and to
//! which market it is to be delivered; and the priority queue that holds them.

use vstd::prelude::*;
use crate::geometry::Position;

verus! {

broadcast use vstd::seq_lib::group_to_multiset_ensures;

/// One pile of content to be collected and delivered.
#[derive(Clone, Copy, Debug, PartialEq, Eq, Structural)]
pub struct StorageInfo {
    pub position: Position,
    /// Index of the kind of content.
    pub content: usize,
    /// How much of the content lies there.
    pub quantity: usize,
    /// Worth of one unit of the content in the distribution; each content
    /// kind has its own, given with the cells that the robot surveys.
    pub coefficient: u32,
    /// The market that the content is to be delivered to.
    pub market_index: usize,
}

/// Total weight that a target contributes to the market it is assigned to.
pub open spec fn weight(t: StorageInfo) -> int {
    t.quantity * t.coefficient
}

/// The priority order of targets, this library's own choice: the heaviest
/// target is assigned and delivered first; the other fields only break ties
/// between equal weights, so that two targets compare equal only when they
/// are equal.
pub open spec fn storage_le(a: StorageInfo, b: StorageInfo) -> bool {
    if weight(a) != weight(b) {
        weight(a) < weight(b)
    } else if a.content != b.content {
        a.content < b.content
    } else if a.position.row != b.position.row {
        a.position.row < b.position.row
    } else if a.position.col != b.position.col {
        a.position.col < b.position.col
    } else if a.quantity != b.quantity {
        a.quantity < b.quantity
    } else if a.coefficient != b.coefficient {
        a.coefficient < b.coefficient
    } else {
        a.market_index <= b.market_index
    }
}

/// A sequence of targets in ascending priority order.
pub open spec fn sorted(s: Seq<StorageInfo>) -> bool {
    forall|i: int, j: int| 0 <= i <= j < s.len() ==> storage_le(#[trigger] s[i], #[trigger] s[j])
}

impl StorageInfo {
    /// A target of `quantity` units of `content` at `position`, each unit
    /// worth `coefficient`, not yet assigned to a market (market 0).
    pub fn new(position: Position, content: usize, quantity: usize, coefficient: u32) -> (s: StorageInfo)
        ensures
            s.position == position,
            s.content == content,
            s.quantity == quantity,
            s.coefficient == coefficient,
            s.market_index == 0,
    {
        StorageInfo { position, content, quantity, coefficient, market_index: 0 }
    }

    pub fn get_position(&self) -> (p: Position)
        ensures
            p == self.position,
    {
        self.position
    }

    pub fn get_content(&self) -> (c: usize)
        ensures
            c == self.content,
    {
        self.content
    }

    pub fn get_quantity(&self) -> (q: usize)
        ensures
            q == self.quantity,
    {
        self.quantity
    }

    pub fn get_coefficient(&self) -> (c: u32)
        ensures
            c == self.coefficient,
    {
        self.coefficient
    }

    pub fn get_market_index(&self) -> (m: usize)
        ensures
            m == self.market_index,
    {
        self.market_index
    }

    pub fn set_market_index(&mut self, market_index: usize)
        ensures
            *final(self) == (StorageInfo { market_index, ..*old(self) }),
    {
        self.market_index = market_index;
    }

    /// Whether `self` comes no later than `other` in the priority order.
    pub fn precedes(&self, other: &StorageInfo) -> (b: bool)
        ensures
            b == storage_le(*self, *other),
    {
        proof {
            lemma_weight_fits(*self);
            lemma_weight_fits(*other);
        }
        let wa: u128 = (self.quantity as u128) * (self.coefficient as u128);
        let wb: u128 = (other.quantity as u128) * (other.coefficient as u128);
        assert(wa == weight(*self)) by (nonlinear_arith)
            requires
                wa == (self.quantity as u128) * (self.coefficient as u128),
                self.quantity <= usize::MAX,
                self.coefficient <= u32::MAX,
        ;
        assert(wb == weight(*other)) by (nonlinear_arith)
            requires
                wb == (other.quantity as u128) * (other.coefficient as u128),
                other.quantity <= usize::MAX,
                other.coefficient <= u32::MAX,
        ;
        if wa != wb {
            wa < wb
        } else if self.content != other.content {
            self.content < other.content
        } else if self.position.row != other.position.row {
            self.position.row < other.position.row
        } else if self.position.col != other.position.col {
            self.position.col < other.position.col
        } else if self.quantity != other.quantity {
            self.quantity < other.quantity
        } else if self.coefficient != other.coefficient {
            self.coefficient < other.coefficient
        } else {
            self.market_index <= other.market_index
        }
    }
}

proof fn lemma_weight_fits(t: StorageInfo)
    ensures
        0 <= (t.quantity as u128) * (t.coefficient as u128) <= u128::MAX,
{
    assert(0 <= (t.quantity as u128) * (t.coefficient as u128) <= 0xffff_ffff_ffff_ffff * 0xffff_ffff)
        by (nonlinear_arith)
        requires
            t.quantity <= usize::MAX,
            usize::MAX <= 0xffff_ffff_ffff_ffffu64,
            t.coefficient <= 0xffff_ffffu32,
    ;
}

/// The priority order is total.
pub proof fn lemma_storage_le_total(a: StorageInfo, b: StorageInfo)
    ensures
        storage_le(a, b) || storage_le(b, a),
{
}

/// The priority order is transitive.
pub proof fn lemma_storage_le_transitive(a: StorageInfo, b: StorageInfo, c: StorageInfo)
    requires
        storage_le(a, b),
        storage_le(b, c),
    ensures
        storage_le(a, c),
{
}

/// Two targets that precede each other are equal.
pub proof fn lemma_storage_le_antisymmetric(a: StorageInfo, b: StorageInfo)
    requires
        storage_le(a, b),
        storage_le(b, a),
    ensures
        a == b,
{
}

/// In a sorted sequence, the last target has the highest priority.
proof fn lemma_last_is_max(s: Seq<StorageInfo>, x: StorageInfo)
    requires
        sorted(s),
        s.contains(x),
    ensures
        storage_le(x, s.last()),
{
    let i = choose|i: int| 0 <= i < s.len() && s[i] == x;
    assert(storage_le(s[i], s[s.len() - 1]));
}

/// Two sorted sequences of the same targets are equal: the order of the
/// queue is determined by its targets alone, whatever the order in which
/// they were pushed.
pub proof fn lemma_sorted_unique(a: Seq<StorageInfo>, b: Seq<StorageInfo>)
    requires
        sorted(a),
        sorted(b),
        a.to_multiset() == b.to_multiset(),
    ensures
        a == b,
    decreases a.len(),
{
    a.to_multiset_ensures();
    b.to_multiset_ensures();
    if a.len() == 0 {
        assert(b.len() == 0);
        assert(a =~= b);
    } else {
        assert(b.len() == a.len());
        let x = a.last();
        let y = b.last();
        assert(a.to_multiset().count(x) > 0);
        assert(b.contains(x));
        assert(a.contains(y)) by {
            assert(b.to_multiset().count(y) > 0);
        }
        lemma_last_is_max(b, x);
        lemma_last_is_max(a, y);
        lemma_storage_le_antisymmetric(x, y);
        let a1 = a.drop_last();
        let b1 = b.drop_last();
        assert(a.remove(a.len() - 1) =~= a1);
        assert(b.remove(b.len() - 1) =~= b1);
        assert(a1.to_multiset() == a.to_multiset().remove(x));
        assert(b1.to_multiset() == b.to_multiset().remove(y));
        assert(sorted(a1)) by {
            assert forall|i: int, j: int| 0 <= i <= j < a1.len() implies storage_le(
                #[trigger] a1[i],
                #[trigger] a1[j],
            ) by {
                assert(a1[i] == a[i] && a1[j] == a[j]);
            }
        }
        assert(sorted(b1)) by {
            assert forall|i: int, j: int| 0 <= i <= j < b1.len() implies storage_le(
                #[trigger] b1[i],
                #[trigger] b1[j],
            ) by {
                assert(b1[i] == b[i] && b1[j] == b[j]);
            }
        }
        lemma_sorted_unique(a1, b1);
        assert(a =~= b) by {
            assert(a =~= a1.push(x));
            assert(b =~= b1.push(y));
        }
    }
}

/// A target pushed with a priority at least that of every target in the
/// queue is the next one popped, and popping it gives the queue back.
pub proof fn lemma_pop_undoes_push(before: Seq<StorageInfo>, after: Seq<StorageInfo>, item: StorageInfo)
    requires
        sorted(before),
        sorted(after),
        after.to_multiset() == before.to_multiset().insert(item),
        forall|i: int| 0 <= i < before.len() ==> storage_le(#[trigger] before[i], item),
    ensures
        after.len() > 0,
        after.last() == item,
        after.drop_last() == before,
{
    let t = before.push(item);
    assert(sorted(t)) by {
        assert forall|i: int, j: int| 0 <= i <= j < t.len() implies storage_le(
            #[trigger] t[i],
            #[trigger] t[j],
        ) by {
            if j == before.len() {
                if i == j {
                    lemma_storage_le_total(item, item);
                }
            } else {
                assert(t[i] == before[i] && t[j] == before[j]);
            }
        }
    }
    assert(t.to_multiset() == before.to_multiset().insert(item));
    lemma_sorted_unique(after, t);
    assert(t.drop_last() =~= before);
}

/// A priority queue of targets: `pop` hands out a target of highest priority.
pub struct TargetQueue {
    items: Vec<StorageInfo>,
}

impl View for TargetQueue {
    type V = Seq<StorageInfo>;

    /// The targets in ascending priority order.
    closed spec fn view(&self) -> Seq<StorageInfo> {
        self.items@
    }
}

impl TargetQueue {
    /// The queue's targets are always in ascending priority order.
    #[verifier::type_invariant]
    pub(crate) open spec fn ordered(self) -> bool {
        sorted(self@)
    }

    pub fn new() -> (q: TargetQueue)
        ensures
            q@ == Seq::<StorageInfo>::empty(),
            sorted(q@),
    {
        TargetQueue { items: Vec::new() }
    }

    pub fn len(&self) -> (n: usize)
        ensures
            n == self@.len(),
            sorted(self@),
    {
        proof {
            use_type_invariant(self);
        }
        self.items.len()
    }

    /// The target at `i` in ascending priority order.
    pub fn get(&self, i: usize) -> (t: StorageInfo)
        requires
            i < self@.len(),
        ensures
            t == self@[i as int],
    {
        self.items[i]
    }

    /// The target that `pop` would hand out, if any.
    pub fn peek(&self) -> (t: Option<StorageInfo>)
        ensures
            self@.len() == 0 ==> t is None,
            self@.len() > 0 ==> t == Some(self@.last()),
            self@.len() > 0 ==> forall|i: int|
                0 <= i < self@.len() ==> storage_le(#[trigger] self@[i], self@.last()),
            sorted(self@),
    {
        proof {
            use_type_invariant(self);
        }
        let n = self.items.len();
        if n == 0 {
            None
        } else {
            Some(self.items[n - 1])
        }
    }

    /// A queue with the same targets.
    pub fn copy(&self) -> (q: TargetQueue)
        ensures
            q@ == self@,
            sorted(q@),
    {
        proof {
            use_type_invariant(self);
        }
        let n = self.items.len();
        let mut items: Vec<StorageInfo> = Vec::new();
        let mut k: usize = 0;
        while k < n
            invariant
                n == self.items@.len(),
                k <= n,
                items@ == self.items@.take(k as int),
            decreases n - k,
        {
            items.push(self.items[k]);
            k = k + 1;
            assert(items@ =~= self.items@.take(k as int));
        }
        assert(items@ =~= self.items@);
        TargetQueue { items }
    }

    /// Adds a target; the queue stays ordered.
    pub fn push(&mut self, item: StorageInfo)
        ensures
            final(self)@.to_multiset() == old(self)@.to_multiset().insert(item),
            sorted(final(self)@),
            final(self)@.len() == old(self)@.len() + 1,
    {
        proof {
            use_type_invariant(&*self);
        }
        let n = self.items.len();
        let mut k: usize = n;
        // Find the first position, from the back, whose predecessor precedes `item`.
        while k > 0
            invariant_except_break
                k <= n,
                n == self.items@.len(),
                forall|j: int| k <= j < n ==> !storage_le(#[trigger] self.items@[j], item),
            ensures
                k <= n,
                n == self.items@.len(),
                forall|j: int| k <= j < n ==> !storage_le(#[trigger] self.items@[j], item),
                k > 0 ==> storage_le(self.items@[k - 1], item),
            decreases k,
        {
            if self.items[k - 1].precedes(&item) {
                break;
            }
            k = k - 1;
        }
        proof {
            let s = self.items@;
            assert(k > 0 ==> storage_le(s[k - 1], item));
            assert forall|i: int| 0 <= i < k implies storage_le(#[trigger] s[i], item) by {
                lemma_storage_le_transitive(s[i], s[k - 1], item);
            }
            assert forall|j: int| k <= j < n implies storage_le(item, #[trigger] s[j]) by {
                lemma_storage_le_total(item, s[j]);
            }
            let t = s.insert(k as int, item);
            assert(sorted(t)) by {
                assert forall|i: int, j: int| 0 <= i <= j < t.len() implies storage_le(
                    #[trigger] t[i],
                    #[trigger] t[j],
                ) by {
                    if i < k && j < k {
                        assert(t[i] == s[i] && t[j] == s[j]);
                    } else if i < k && j == k {
                    } else if i < k && j > k {
                        assert(t[j] == s[j - 1]);
                        lemma_storage_le_transitive(s[i], item, s[j - 1]);
                    } else if i == k && j == k {
                        lemma_storage_le_total(item, item);
                    } else if i == k {
                        assert(t[j] == s[j - 1]);
                    } else {
                        assert(t[i] == s[i - 1] && t[j] == s[j - 1]);
                    }
                }
            }
            assert(t.remove(k as int) =~= s);
            assert(t.to_multiset().remove(item) == s.to_multiset());
            assert(t.to_multiset().count(item) > 0);
            assert(t.to_multiset() =~= s.to_multiset().insert(item));
        }
        let mut items: Vec<StorageInfo> = Vec::new();
        std::mem::swap(&mut items, &mut self.items);
        items.insert(k, item);
        self.items = items;
    }

    /// Removes and hands out a target of highest priority, if there is one.
    pub fn pop(&mut self) -> (t: Option<StorageInfo>)
        ensures
            old(self)@.len() == 0 ==> t is None && final(self)@ == old(self)@,
            old(self)@.len() > 0 ==> {
                &&& t == Some(old(self)@.last())
                &&& final(self)@ == old(self)@.drop_last()
                &&& forall|i: int|
                    0 <= i < old(self)@.len() ==> storage_le(#[trigger] old(self)@[i], t->0)
            },
            sorted(final(self)@),
    {
        proof {
            use_type_invariant(&*self);
        }
        let mut items: Vec<StorageInfo> = Vec::new();
        std::mem::swap(&mut items, &mut self.items);
        let r = items.pop();
        proof {
            assert(sorted(items@)) by {
                assert forall|i: int, j: int| 0 <= i <= j < items@.len() implies storage_le(
                    #[trigger] items@[i],
                    #[trigger] items@[j],
                ) by {
                    assert(items@[i] == old(self).items@[i]);
                    assert(items@[j] == old(self).items@[j]);
                }
            }
        }
        self.items = items;
        r
    }
}

} // verus!
