//! A sorted set of queue positions.
//!
//! The reassembly engine records which positions of the scanned queue a logical
//! message was assembled from. The positions are kept in a strictly increasing
//! vector, so that the smallest one is at hand without a search and membership
//! is decided by bisection.

use vstd::prelude::*;

verus! {

/// `s` holds its items in strictly increasing order.
pub open spec fn strictly_increasing(s: Seq<usize>) -> bool {
    forall|i: int, j: int| 0 <= i < j < s.len() ==> s[i] < s[j]
}

/// The mathematical set of the items of `s`.
pub open spec fn items_set(s: Seq<usize>) -> Set<int> {
    Set::new(|x: int| exists|k: int| 0 <= k < s.len() && s[k] == x)
}

proof fn lemma_items_set_finite_len(s: Seq<usize>)
    requires
        strictly_increasing(s),
    ensures
        items_set(s).finite(),
        items_set(s).len() == s.len(),
    decreases s.len(),
{
    if s.len() == 0 {
        assert(items_set(s) =~= Set::<int>::empty());
    } else {
        let init = s.drop_last();
        let last = s.last();
        assert(strictly_increasing(init)) by {
            assert forall|i: int, j: int| 0 <= i < j < init.len() implies init[i] < init[j] by {
                assert(init[i] == s[i] && init[j] == s[j]);
            }
        }
        lemma_items_set_finite_len(init);
        assert(!items_set(init).contains(last as int)) by {
            if items_set(init).contains(last as int) {
                let k = choose|k: int| 0 <= k < init.len() && init[k] == last as int;
                assert(s[k] < s[s.len() - 1]);
            }
        }
        assert(items_set(s) =~= items_set(init).insert(last as int)) by {
            assert forall|x: int| items_set(s).contains(x) implies items_set(init).insert(
                last as int,
            ).contains(x) by {
                let k = choose|k: int| 0 <= k < s.len() && s[k] == x;
                if k < init.len() {
                    assert(init[k] == x);
                }
            }
            assert forall|x: int| items_set(init).insert(last as int).contains(
                x,
            ) implies items_set(s).contains(x) by {
                if x == last as int {
                    assert(s[s.len() - 1] == x);
                } else {
                    let k = choose|k: int| 0 <= k < init.len() && init[k] == x;
                    assert(s[k] == x);
                }
            }
        }
    }
}

/// A finite set of positions that takes up exactly `count` places from `start` on
/// is the whole range.
pub proof fn lemma_dense_range(s: Set<int>, start: int, count: int)
    requires
        s.finite(),
        s.len() == count,
        forall|x: int| s.contains(x) ==> start <= x < start + count,
    ensures
        s =~= vstd::set_lib::set_int_range(start, start + count),
{
    let range = vstd::set_lib::set_int_range(start, start + count);
    vstd::set_lib::lemma_int_range(start, start + count);
    assert(s.subset_of(range));
    vstd::set_lib::lemma_subset_equality(s, range);
}

/// A finite set of positions of a queue.
pub struct IndexSet {
    items: Vec<usize>,
}

impl View for IndexSet {
    type V = Set<int>;

    closed spec fn view(&self) -> Set<int> {
        items_set(self.items@)
    }
}

impl IndexSet {
    #[verifier::type_invariant]
    spec fn sorted(self) -> bool {
        strictly_increasing(self.items@)
    }

    /// The empty set.
    pub fn new() -> (s: Self)
        ensures
            s@ == Set::<int>::empty(),
    {
        let s = IndexSet { items: Vec::new() };
        assert(s@ =~= Set::<int>::empty());
        s
    }

    /// The number of positions in the set.
    pub fn len(&self) -> (n: usize)
        ensures
            self@.finite(),
            n == self@.len(),
    {
        proof {
            use_type_invariant(self);
            lemma_items_set_finite_len(self.items@);
        }
        self.items.len()
    }

    /// Whether the set holds no position.
    pub fn is_empty(&self) -> (b: bool)
        ensures
            b == (self@ == Set::<int>::empty()),
    {
        let b = self.items.len() == 0;
        proof {
            if b {
                assert(self@ =~= Set::<int>::empty());
            } else {
                assert(self.items@[0] == self.items@[0] as int);
                assert(self@.contains(self.items@[0] as int));
            }
        }
        b
    }

    /// The smallest position of the set, if it has one.
    pub fn first(&self) -> (r: Option<usize>)
        ensures
            r is None <==> self@ == Set::<int>::empty(),
            r matches Some(m) ==> self@.contains(m as int) && forall|x: int|
                self@.contains(x) ==> m <= x,
    {
        proof {
            use_type_invariant(self);
        }
        if self.items.len() == 0 {
            assert(self@ =~= Set::<int>::empty());
            None
        } else {
            let m = self.items[0];
            proof {
                assert(self.items@[0] == m as int);
                assert(self@.contains(m as int));
                assert forall|x: int| self@.contains(x) implies m <= x by {
                    let k = choose|k: int| 0 <= k < self.items@.len() && self.items@[k] == x;
                    if k > 0 {
                        assert(self.items@[0] < self.items@[k]);
                    }
                }
            }
            Some(m)
        }
    }

    /// Whether `index` is in the set.
    pub fn contains(&self, index: usize) -> (b: bool)
        ensures
            b == self@.contains(index as int),
    {
        proof {
            use_type_invariant(self);
        }
        let mut lo: usize = 0;
        let mut hi: usize = self.items.len();
        while lo < hi
            invariant
                0 <= lo <= hi <= self.items@.len(),
                strictly_increasing(self.items@),
                forall|k: int| 0 <= k < lo ==> self.items@[k] < index,
                forall|k: int| hi <= k < self.items@.len() ==> self.items@[k] > index,
            decreases hi - lo,
        {
            let mid: usize = lo + (hi - lo) / 2;
            let at: usize = self.items[mid];
            if at == index {
                assert(self.items@[mid as int] == index as int);
                return true;
            } else if at < index {
                assert forall|k: int| 0 <= k < mid + 1 implies self.items@[k] < index by {
                    if k < mid {
                        assert(self.items@[k] < self.items@[mid as int]);
                    }
                }
                lo = mid + 1;
            } else {
                assert forall|k: int| mid <= k < self.items@.len() implies self.items@[k]
                    > index by {
                    if mid < k {
                        assert(self.items@[mid as int] < self.items@[k]);
                    }
                }
                hi = mid;
            }
        }
        proof {
            if self@.contains(index as int) {
                let k = choose|k: int| 0 <= k < self.items@.len() && self.items@[k] == index as int;
                assert(k < lo || hi <= k);
            }
        }
        false
    }

    /// Adds `index` to the set. Returns whether it was new.
    pub fn insert(&mut self, index: usize) -> (fresh: bool)
        ensures
            final(self)@ == old(self)@.insert(index as int),
            fresh == !old(self)@.contains(index as int),
    {
        proof {
            use_type_invariant(&*self);
        }
        let n: usize = self.items.len();
        let mut pos: usize = n;
        while pos > 0 && self.items[pos - 1] >= index
            invariant
                0 <= pos <= n,
                n == self.items@.len(),
                strictly_increasing(self.items@),
                forall|k: int| pos <= k < n ==> self.items@[k] >= index,
            decreases pos,
        {
            pos = pos - 1;
        }
        let ghost before = self.items@;
        if pos < n && self.items[pos] == index {
            proof {
                assert(before[pos as int] == index as int);
                assert(self@.contains(index as int));
                assert(self@ =~= self@.insert(index as int));
            }
            return false;
        }
        proof {
            assert forall|k: int| pos <= k < n implies before[k] > index by {
                if k > pos {
                    assert(before[pos as int] < before[k]);
                }
            }
            assert forall|k: int| 0 <= k < pos implies before[k] < index by {
                if k < pos - 1 {
                    assert(before[k] < before[pos - 1]);
                }
            }
            let after = before.insert(pos as int, index);
            assert(strictly_increasing(after)) by {
                assert forall|i: int, j: int| 0 <= i < j < after.len() implies after[i]
                    < after[j] by {
                    if j < pos {
                        assert(after[i] == before[i] && after[j] == before[j]);
                    } else if j == pos {
                        assert(after[i] == before[i]);
                    } else if i < pos {
                        assert(after[i] == before[i] && after[j] == before[j - 1]);
                    } else if i == pos {
                        assert(after[j] == before[j - 1]);
                    } else {
                        assert(after[i] == before[i - 1] && after[j] == before[j - 1]);
                    }
                }
            }
            assert(items_set(after) =~= items_set(before).insert(index as int)) by {
                assert forall|x: int| items_set(after).contains(x) implies items_set(
                    before,
                ).insert(index as int).contains(x) by {
                    let k = choose|k: int| 0 <= k < after.len() && after[k] == x;
                    if k < pos {
                        assert(before[k] == x);
                    } else if k > pos {
                        assert(before[k - 1] == x);
                    }
                }
                assert forall|x: int| items_set(before).insert(index as int).contains(
                    x,
                ) implies items_set(after).contains(x) by {
                    if x == index as int {
                        assert(after[pos as int] == x);
                    } else {
                        let k = choose|k: int| 0 <= k < before.len() && before[k] == x;
                        if k < pos {
                            assert(after[k] == x);
                        } else {
                            assert(after[k + 1] == x);
                        }
                    }
                }
            }
            assert(!items_set(before).contains(index as int)) by {
                if items_set(before).contains(index as int) {
                    let k = choose|k: int| 0 <= k < before.len() && before[k] == index as int;
                    assert(k < pos || k >= pos);
                }
            }
        }
        let mut items: Vec<usize> = Vec::new();
        std::mem::swap(&mut items, &mut self.items);
        items.insert(pos, index);
        self.items = items;
        true
    }

    /// Moves every position of `other` into the set and leaves `other` empty.
    pub fn append(&mut self, other: &mut IndexSet)
        ensures
            final(self)@ == old(self)@.union(old(other)@),
            final(other)@ == Set::<int>::empty(),
    {
        let ghost start = self@;
        let ghost added = other@;
        let n: usize = other.items.len();
        let mut i: usize = 0;
        while i < n
            invariant
                0 <= i <= n,
                n == other.items@.len(),
                added == items_set(other.items@),
                start.subset_of(self@),
                forall|k: int| 0 <= k < i ==> self@.contains(#[trigger] other.items@[k] as int),
                forall|x: int| self@.contains(x) ==> start.contains(x) || added.contains(x),
            decreases n - i,
        {
            let x: usize = other.items[i];
            proof {
                assert(other.items@[i as int] == x as int);
                assert(added.contains(x as int));
            }
            self.insert(x);
            i = i + 1;
        }
        proof {
            assert forall|x: int| added.contains(x) implies self@.contains(x) by {
                let k = choose|k: int| 0 <= k < other.items@.len() && other.items@[k] == x;
                assert(self@.contains(other.items@[k] as int));
            }
            assert(self@ =~= start.union(added));
        }
        other.items = Vec::new();
        proof {
            assert(other@ =~= Set::<int>::empty());
        }
    }

    /// The positions of the set, in increasing order.
    pub fn to_vec(&self) -> (positions: Vec<usize>)
        ensures
            strictly_increasing(positions@),
            items_set(positions@) == self@,
    {
        proof {
            use_type_invariant(self);
        }
        let positions = self.items.clone();
        assert(positions@ =~= self.items@);
        positions
    }
}

} // verus!
