//! The reassembly contexts of a scan.
//!
//! A scan keeps one context for each source that has a logical message in
//! progress. A source is named by the bytes of its key. The contexts are kept in
//! a list that is searched by key, in which no key is held twice.

use crate::index_set::IndexSet;
use vstd::prelude::*;

verus! {

/// The state of one logical message in progress.
pub struct MsgStepContext {
    /// The positions of the frames that the message has taken up so far.
    pub consumed_indexes: IndexSet,
    /// The total length that the first frame announced.
    pub message_len: u64,
    /// The bytes received so far.
    pub accumulated_stream: Vec<u8>,
}

pub struct ContextView {
    pub consumed_indexes: Set<int>,
    pub message_len: u64,
    pub accumulated_stream: Seq<u8>,
}

impl View for MsgStepContext {
    type V = ContextView;

    open spec fn view(&self) -> ContextView {
        ContextView {
            consumed_indexes: self.consumed_indexes@,
            message_len: self.message_len,
            accumulated_stream: self.accumulated_stream@,
        }
    }
}

/// The reassembly contexts of a scan, one for each source with a message in
/// progress.
pub struct ContextMap {
    entries: Vec<(Vec<u8>, MsgStepContext)>,
}

/// No key is held twice.
pub open spec fn distinct_keys(entries: Seq<(Vec<u8>, MsgStepContext)>) -> bool {
    forall|i: int, j: int|
        0 <= i < j < entries.len() ==> (#[trigger] entries[i]).0@ != (#[trigger] entries[j]).0@
}

/// Whether an entry is held under `key`.
pub open spec fn has_key(entries: Seq<(Vec<u8>, MsgStepContext)>, key: Seq<u8>) -> bool {
    exists|i: int| 0 <= i < entries.len() && (#[trigger] entries[i]).0@ == key
}

/// The position of an entry held under `key`.
pub open spec fn key_index(entries: Seq<(Vec<u8>, MsgStepContext)>, key: Seq<u8>) -> int {
    choose|i: int| 0 <= i < entries.len() && (#[trigger] entries[i]).0@ == key
}

/// The map that a list of entries stands for.
pub open spec fn entries_map(entries: Seq<(Vec<u8>, MsgStepContext)>) -> Map<
    Seq<u8>,
    ContextView,
> {
    Map::new(
        |key: Seq<u8>| has_key(entries, key),
        |key: Seq<u8>| entries[key_index(entries, key)].1@,
    )
}

proof fn lemma_key_index(entries: Seq<(Vec<u8>, MsgStepContext)>, i: int)
    requires
        distinct_keys(entries),
        0 <= i < entries.len(),
    ensures
        has_key(entries, entries[i].0@),
        key_index(entries, entries[i].0@) == i,
        entries_map(entries).contains_key(entries[i].0@),
        entries_map(entries)[entries[i].0@] == entries[i].1@,
{
    let key = entries[i].0@;
    assert(has_key(entries, key));
    let j = key_index(entries, key);
    assert(0 <= j < entries.len() && entries[j].0@ == key);
    if j < i {
        assert(entries[j].0@ != entries[i].0@);
    } else if i < j {
        assert(entries[i].0@ != entries[j].0@);
    }
}

/// A list of entries with distinct keys stands for a map of as many entries.
proof fn lemma_entries_count(entries: Seq<(Vec<u8>, MsgStepContext)>)
    requires
        distinct_keys(entries),
    ensures
        entries_map(entries).dom().finite(),
        entries_map(entries).dom().len() == entries.len(),
    decreases entries.len(),
{
    if entries.len() == 0 {
        assert(entries_map(entries).dom() =~= Set::<Seq<u8>>::empty());
    } else {
        let init = entries.drop_last();
        let last = entries.last();
        assert(distinct_keys(init)) by {
            assert forall|i: int, j: int| 0 <= i < j < init.len() implies (#[trigger] init[i]).0@
                != (#[trigger] init[j]).0@ by {
                assert(init[i] == entries[i] && init[j] == entries[j]);
            }
        }
        lemma_entries_count(init);
        assert(!has_key(init, last.0@)) by {
            if has_key(init, last.0@) {
                let i = key_index(init, last.0@);
                assert(init[i] == entries[i]);
                assert(entries[i].0@ != entries[entries.len() - 1].0@);
            }
        }
        assert(entries_map(entries).dom() =~= entries_map(init).dom().insert(last.0@)) by {
            assert forall|k: Seq<u8>| has_key(entries, k) implies has_key(init, k) || k
                == last.0@ by {
                let i = key_index(entries, k);
                if i < init.len() {
                    assert(init[i] == entries[i]);
                }
            }
            assert forall|k: Seq<u8>| has_key(init, k) || k == last.0@ implies has_key(
                entries,
                k,
            ) by {
                if has_key(init, k) {
                    let i = key_index(init, k);
                    assert(init[i] == entries[i]);
                } else {
                    assert(entries[entries.len() - 1].0@ == k);
                }
            }
        }
    }
}

impl View for ContextMap {
    type V = Map<Seq<u8>, ContextView>;

    closed spec fn view(&self) -> Map<Seq<u8>, ContextView> {
        entries_map(self.entries@)
    }
}

impl ContextMap {
    #[verifier::type_invariant]
    spec fn distinct(self) -> bool {
        distinct_keys(self.entries@)
    }

    /// A map without contexts.
    pub fn new() -> (map: Self)
        ensures
            map@ == Map::<Seq<u8>, ContextView>::empty(),
    {
        let map = ContextMap { entries: Vec::new() };
        assert(map@ =~= Map::<Seq<u8>, ContextView>::empty());
        map
    }

    /// The number of messages in progress.
    pub fn len(&self) -> (n: usize)
        ensures
            self@.dom().finite(),
            n == self@.dom().len(),
    {
        proof {
            use_type_invariant(self);
            lemma_entries_count(self.entries@);
        }
        self.entries.len()
    }

    /// The position of the entry held under `key`, if there is one.
    fn position(&self, key: &Vec<u8>) -> (r: Option<usize>)
        ensures
            r is None <==> !self@.contains_key(key@),
            r matches Some(p) ==> p < self.entries@.len() && self.entries@[p as int].0@ == key@,
    {
        let n: usize = self.entries.len();
        let mut i: usize = 0;
        while i < n
            invariant
                0 <= i <= n,
                n == self.entries@.len(),
                forall|k: int| 0 <= k < i ==> (#[trigger] self.entries@[k]).0@ != key@,
            decreases n - i,
        {
            if bytes_equal(&self.entries[i].0, key) {
                assert(has_key(self.entries@, key@));
                return Some(i);
            }
            i = i + 1;
        }
        None
    }

    /// Puts `context` under `key`, in place of the context that may be there, which
    /// is returned.
    pub fn insert(&mut self, key: Vec<u8>, context: MsgStepContext) -> (previous: Option<
        MsgStepContext,
    >)
        ensures
            final(self)@ == old(self)@.insert(key@, context@),
            previous is Some <==> old(self)@.contains_key(key@),
            previous matches Some(p) ==> p@ == old(self)@[key@],
    {
        proof {
            use_type_invariant(&*self);
        }
        let found = self.position(&key);
        let ghost before = self.entries@;
        let mut entries: Vec<(Vec<u8>, MsgStepContext)> = Vec::new();
        std::mem::swap(&mut entries, &mut self.entries);
        let ghost new_entry = (key, context);
        entries.push((key, context));
        let previous = match found {
            Some(p) => {
                let old_entry = entries.swap_remove(p);
                proof {
                    lemma_key_index(before, p as int);
                }
                Some(old_entry.1)
            },
            None => None,
        };
        proof {
            let after = entries@;
            assert(distinct_keys(after)) by {
                assert forall|i: int, j: int| 0 <= i < j < after.len() implies (
                #[trigger] after[i]).0@ != (#[trigger] after[j]).0@ by {
                    match found {
                        Some(p) => {
                            assert(after.len() == before.len());
                            if i == p {
                                assert(after[j] == before[j]);
                                assert(before[p as int].0@ != before[j].0@);
                            } else if j == p {
                                assert(after[i] == before[i]);
                                assert(before[i].0@ != before[p as int].0@);
                            } else {
                                assert(after[i] == before[i] && after[j] == before[j]);
                            }
                        },
                        None => {
                            if j == before.len() {
                                assert(after[i] == before[i]);
                                assert(!has_key(before, new_entry.0@));
                            } else {
                                assert(after[i] == before[i] && after[j] == before[j]);
                            }
                        },
                    }
                }
            }
            let at: int = match found {
                Some(p) => p as int,
                None => before.len() as int,
            };
            assert(after[at] == new_entry);
            lemma_key_index(after, at);
            assert(entries_map(after) =~= entries_map(before).insert(new_entry.0@, new_entry.1@))
                by {
                assert forall|k: Seq<u8>| #[trigger]
                    entries_map(after).contains_key(k) <==> entries_map(before).insert(
                        new_entry.0@,
                        new_entry.1@,
                    ).contains_key(k) by {
                    if has_key(after, k) && k != new_entry.0@ {
                        let i = key_index(after, k);
                        assert(after[i] == before[i]);
                        assert(has_key(before, k));
                    }
                    if has_key(before, k) && k != new_entry.0@ {
                        let i = key_index(before, k);
                        assert(after[i] == before[i]);
                        assert(has_key(after, k));
                    }
                }
                assert forall|k: Seq<u8>| #[trigger]
                    entries_map(after).contains_key(k) implies entries_map(after)[k]
                    == entries_map(before).insert(new_entry.0@, new_entry.1@)[k] by {
                    if k != new_entry.0@ {
                        let i = key_index(before, k);
                        assert(after[i] == before[i]);
                        lemma_key_index(before, i);
                        lemma_key_index(after, i);
                    }
                }
            }
        }
        self.entries = entries;
        previous
    }

    /// Takes out the context held under `key`, with its key, if there is one.
    pub fn remove_entry(&mut self, key: &Vec<u8>) -> (removed: Option<(Vec<u8>, MsgStepContext)>)
        ensures
            final(self)@ == old(self)@.remove(key@),
            removed is Some <==> old(self)@.contains_key(key@),
            removed matches Some(entry) ==> entry.0@ == key@ && entry.1@ == old(self)@[key@],
    {
        proof {
            use_type_invariant(&*self);
        }
        let ghost before = self.entries@;
        match self.position(key) {
            None => {
                assert(self@ =~= self@.remove(key@));
                None
            },
            Some(p) => {
                let mut entries: Vec<(Vec<u8>, MsgStepContext)> = Vec::new();
                std::mem::swap(&mut entries, &mut self.entries);
                let entry = entries.swap_remove(p);
                proof {
                    let after = entries@;
                    let last = before.len() - 1;
                    lemma_key_index(before, p as int);
                    assert(distinct_keys(after)) by {
                        assert forall|i: int, j: int| 0 <= i < j < after.len() implies (
                        #[trigger] after[i]).0@ != (#[trigger] after[j]).0@ by {
                            if i == p {
                                assert(after[i] == before[last] && after[j] == before[j]);
                            } else if j == p {
                                assert(after[j] == before[last] && after[i] == before[i]);
                            } else {
                                assert(after[i] == before[i] && after[j] == before[j]);
                            }
                        }
                    }
                    assert(entries_map(after) =~= entries_map(before).remove(key@)) by {
                        assert forall|k: Seq<u8>| #[trigger]
                            entries_map(after).contains_key(k) <==> entries_map(before).remove(
                                key@,
                            ).contains_key(k) by {
                            if has_key(after, k) {
                                let i = key_index(after, k);
                                if i == p {
                                    assert(after[i] == before[last]);
                                    assert(before[p as int].0@ != before[last].0@);
                                } else {
                                    assert(after[i] == before[i]);
                                    if k == key@ {
                                        if i < p {
                                            assert(before[i].0@ != before[p as int].0@);
                                        } else {
                                            assert(before[p as int].0@ != before[i].0@);
                                        }
                                    }
                                }
                                assert(has_key(before, k));
                            }
                            if has_key(before, k) && k != key@ {
                                let i = key_index(before, k);
                                if i == last {
                                    assert(after[p as int] == before[last]);
                                } else {
                                    assert(after[i] == before[i]);
                                }
                                assert(has_key(after, k));
                            }
                        }
                        assert forall|k: Seq<u8>| #[trigger]
                            entries_map(after).contains_key(k) implies entries_map(after)[k]
                            == entries_map(before).remove(key@)[k] by {
                            let i = key_index(after, k);
                            lemma_key_index(after, i);
                            if i == p {
                                assert(after[i] == before[last]);
                                lemma_key_index(before, last);
                            } else {
                                assert(after[i] == before[i]);
                                lemma_key_index(before, i);
                            }
                        }
                    }
                }
                self.entries = entries;
                Some(entry)
            },
        }
    }
}

/// Whether two byte strings are the same.
pub fn bytes_equal(a: &Vec<u8>, b: &Vec<u8>) -> (same: bool)
    ensures
        same == (a@ == b@),
{
    let same = a == b;
    proof {
        if same {
            assert(a@ =~= b@);
        }
    }
    same
}

} // verus!
