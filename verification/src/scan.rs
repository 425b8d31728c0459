//! What a scan of a queue of frames comes to.
//!
//! A scan takes the frames in their order and applies the stepping predicate to
//! each, with the contexts that the frames before it have left. What it hands
//! out, which frames it takes up and what stays behind are defined here, with
//! the facts about them that the extraction and its theorems rest on.

use crate::context_map::ContextView;
use crate::protocol::FrameView;
use crate::reassembly::{step_contexts, step_outcome, ExtractedView, OutcomeView, Selector};
use vstd::prelude::*;

verus! {

/// The messages in progress after a scan of the first `n` frames.
pub open spec fn contexts_after(selector: Selector, frames: Seq<FrameView>, n: int) -> Map<
    Seq<u8>,
    ContextView,
>
    decreases n,
{
    if n <= 0 {
        Map::empty()
    } else {
        step_contexts(selector, contexts_after(selector, frames, n - 1), frames[n - 1], n - 1)
    }
}

/// The outcome of the step on the frame at position `i` in a scan of `frames` from
/// their start.
pub open spec fn outcome_at(selector: Selector, frames: Seq<FrameView>, i: int) -> OutcomeView<
    ExtractedView,
> {
    step_outcome(selector, contexts_after(selector, frames, i), frames[i], i)
}

/// What a scan of the first `n` frames hands out, in the order in which the
/// completing frames are met.
pub open spec fn completions(selector: Selector, frames: Seq<FrameView>, n: int) -> Seq<
    ExtractedView,
>
    decreases n,
{
    if n <= 0 {
        Seq::empty()
    } else {
        let before = completions(selector, frames, n - 1);
        match outcome_at(selector, frames, n - 1) {
            OutcomeView::Complete(_, value) => before.push(value),
            _ => before,
        }
    }
}

/// The positions of the frames that a scan of the first `n` frames takes up in
/// what it hands out.
pub open spec fn consumed(selector: Selector, frames: Seq<FrameView>, n: int) -> Set<int>
    decreases n,
{
    if n <= 0 {
        Set::empty()
    } else {
        let before = consumed(selector, frames, n - 1);
        match outcome_at(selector, frames, n - 1) {
            OutcomeView::Complete(indexes, _) => before.union(indexes),
            _ => before,
        }
    }
}

/// The first `n` items without those at the positions in `dead`, in their order.
pub open spec fn remaining<T>(items: Seq<T>, dead: Set<int>, n: int) -> Seq<T>
    decreases n,
{
    if n <= 0 {
        Seq::empty()
    } else {
        let before = remaining(items, dead, n - 1);
        if dead.contains(n - 1) {
            before
        } else {
            before.push(items[n - 1])
        }
    }
}

/// Two sequences hold the same first `n` items.
pub open spec fn agree<T>(a: Seq<T>, b: Seq<T>, n: int) -> bool {
    &&& n <= a.len()
    &&& n <= b.len()
    &&& forall|i: int| 0 <= i < n ==> a[i] == b[i]
}

/// Every position recorded in a context lies before `n`.
pub open spec fn contexts_below(contexts: Map<Seq<u8>, ContextView>, n: int) -> bool {
    forall|source: Seq<u8>, x: int|
        contexts.contains_key(source) && #[trigger] contexts[source].consumed_indexes.contains(x)
            ==> 0 <= x < n
}

/// None of the first `n` frames completes anything.
pub open spec fn nothing_complete(selector: Selector, frames: Seq<FrameView>, n: int) -> bool {
    forall|i: int| 0 <= i < n ==> !(#[trigger] outcome_at(selector, frames, i) is Complete)
}

/// A scan of the first `n` frames sees nothing of what follows them.
pub proof fn lemma_scan_prefix(selector: Selector, a: Seq<FrameView>, b: Seq<FrameView>, n: int)
    requires
        agree(a, b, n),
    ensures
        contexts_after(selector, a, n) == contexts_after(selector, b, n),
        completions(selector, a, n) == completions(selector, b, n),
        consumed(selector, a, n) == consumed(selector, b, n),
        forall|i: int| 0 <= i < n ==> outcome_at(selector, a, i) == outcome_at(selector, b, i),
    decreases n,
{
    if n > 0 {
        lemma_scan_prefix(selector, a, b, n - 1);
        assert(a[n - 1] == b[n - 1]);
    }
}

/// One step records the position it is taken at, and no other new one.
pub proof fn lemma_step_bounds(
    selector: Selector,
    contexts: Map<Seq<u8>, ContextView>,
    frame: FrameView,
    index: int,
)
    requires
        0 <= index,
        contexts_below(contexts, index),
    ensures
        contexts_below(step_contexts(selector, contexts, frame, index), index + 1),
        step_outcome(selector, contexts, frame, index) matches OutcomeView::Complete(indexes, _)
            ==> indexes.contains(index) && forall|x: int| indexes.contains(x) ==> 0 <= x <= index,
{
    let after = step_contexts(selector, contexts, frame, index);
    assert forall|source: Seq<u8>, x: int|
        after.contains_key(source) && #[trigger] after[source].consumed_indexes.contains(
            x,
        ) implies 0 <= x < index + 1 by {
        if contexts.contains_key(source) && contexts[source].consumed_indexes.contains(x) {
        } else {
            assert(x == index);
        }
    }
}

/// What a scan has recorded lies among the frames it has seen, and what completes
/// takes up the completing frame.
pub proof fn lemma_scan_bounds(selector: Selector, frames: Seq<FrameView>, n: int)
    requires
        0 <= n,
    ensures
        contexts_below(contexts_after(selector, frames, n), n),
        forall|x: int| consumed(selector, frames, n).contains(x) ==> 0 <= x < n,
        forall|i: int|
            0 <= i < n ==> (#[trigger] outcome_at(selector, frames, i) matches OutcomeView::Complete(
                indexes,
                _,
            ) ==> indexes.contains(i) && forall|x: int| indexes.contains(x) ==> 0 <= x <= i),
    decreases n,
{
    if n > 0 {
        lemma_scan_bounds(selector, frames, n - 1);
        lemma_step_bounds(
            selector,
            contexts_after(selector, frames, n - 1),
            frames[n - 1],
            n - 1,
        );
        assert forall|x: int| consumed(selector, frames, n).contains(x) implies 0 <= x < n by {
            if !consumed(selector, frames, n - 1).contains(x) {
                assert(outcome_at(selector, frames, n - 1) is Complete);
            }
        }
    }
}

/// A scan for broadcasts or for direct messages hands out messages only, and a
/// scan for membership changes hands out changes only.
pub proof fn lemma_completion_kinds(selector: Selector, frames: Seq<FrameView>, n: int)
    ensures
        forall|j: int|
            0 <= j < completions(selector, frames, n).len() ==> (#[trigger] completions(
                selector,
                frames,
                n,
            )[j] is Change <==> selector == Selector::NetworkChanges),
        completions(selector, frames, n).len() <= (if n <= 0 {
            0
        } else {
            n
        }),
    decreases n,
{
    if n > 0 {
        lemma_completion_kinds(selector, frames, n - 1);
    }
}

/// Nothing is left out of a queue from which nothing is removed, and a queue
/// that loses exactly what was added to it is as it was.
pub proof fn lemma_remaining_tail<T>(items: Seq<T>, dead: Set<int>, kept: int, n: int)
    requires
        0 <= kept <= n <= items.len(),
        forall|x: int| 0 <= x < n ==> (dead.contains(x) <==> kept <= x),
    ensures
        remaining(items, dead, n) == items.take(kept),
    decreases n,
{
    if n > 0 {
        if n > kept {
            lemma_remaining_tail(items, dead, kept, n - 1);
        } else {
            lemma_remaining_tail(items, dead, kept - 1, n - 1);
            assert(items.take(kept - 1).push(items[n - 1]) =~= items.take(kept));
        }
    } else {
        assert(items.take(0) =~= Seq::<T>::empty());
    }
}

/// Removing from the first `n` items sees nothing of what follows them, nor of
/// positions from `n` on.
pub proof fn lemma_remaining_prefix<T>(a: Seq<T>, b: Seq<T>, dead: Set<int>, other: Set<int>, n: int)
    requires
        agree(a, b, n),
        forall|x: int| 0 <= x < n ==> (dead.contains(x) <==> other.contains(x)),
    ensures
        remaining(a, dead, n) == remaining(b, other, n),
    decreases n,
{
    if n > 0 {
        lemma_remaining_prefix(a, b, dead, other, n - 1);
    }
}

/// The number of positions before `n` that are not in `dead`.
pub open spec fn kept_before(dead: Set<int>, n: int) -> int
    decreases n,
{
    if n <= 0 {
        0
    } else if dead.contains(n - 1) {
        kept_before(dead, n - 1)
    } else {
        kept_before(dead, n - 1) + 1
    }
}

/// Removal keeps the order: every item that is not removed is kept, at the place
/// that counts the kept items before it, and nothing else is kept.
pub proof fn theorem_remaining_keeps_order<T>(items: Seq<T>, dead: Set<int>, n: int)
    requires
        0 <= n <= items.len(),
    ensures
        remaining(items, dead, n).len() == kept_before(dead, n),
        forall|i: int|
            0 <= i < n && !dead.contains(i) ==> 0 <= #[trigger] kept_before(dead, i) < kept_before(
                dead,
                n,
            ) && remaining(items, dead, n)[kept_before(dead, i)] == items[i],
    decreases n,
{
    if n > 0 {
        theorem_remaining_keeps_order(items, dead, n - 1);
        lemma_kept_before_grows(dead, 0, n - 1);
        assert forall|i: int| 0 <= i < n && !dead.contains(i) implies 0 <= #[trigger] kept_before(
            dead,
            i,
        ) < kept_before(dead, n) && remaining(items, dead, n)[kept_before(dead, i)]
            == items[i] by {
            lemma_kept_before_grows(dead, 0, i);
            if i < n - 1 {
                assert(kept_before(dead, i) < kept_before(dead, n - 1));
            }
        }
    }
}

proof fn lemma_kept_before_grows(dead: Set<int>, m: int, n: int)
    requires
        m <= n,
    ensures
        kept_before(dead, m) <= kept_before(dead, n),
        0 <= kept_before(dead, m),
    decreases n - m, n,
{
    if m < n {
        lemma_kept_before_grows(dead, m, n - 1);
    } else if m > 0 {
        lemma_kept_before_grows(dead, m - 1, m - 1);
    }
}

} // verus!
