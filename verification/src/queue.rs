//! Extraction of complete messages from the incoming queue.
//!
//! Frames that a consumer has looked at without taking them stay in a persistent
//! queue; new frames come from the channel that the background worker feeds. An
//! extraction scans the queue first and the newly received frames after it, in
//! the order of their arrival, and lifts out what the stepping predicate
//! completes. The caller holds the queue: it hands it in for the scan, and
//! hands it in again for writing only where the scan has taken something out of
//! it.

use crate::index_set::{lemma_dense_range, IndexSet};
use crate::protocol::{frames_view, Frame, FrameView, NetworkChange};
use crate::context_map::ContextMap;
use crate::reassembly::{step, Extracted, ExtractedView, MsgStepOutcome, OutcomeView, Selector};
use crate::scan::{
    completions, consumed, contexts_after, lemma_completion_kinds, lemma_scan_bounds,
    lemma_scan_prefix, nothing_complete, outcome_at, remaining,
};
use vstd::prelude::*;
use vstd::set_lib::{lemma_int_range, set_int_range};

verus! {

/// The view of a list of extracted values: the view of each, in order.
pub open spec fn extracted_view(values: Seq<Extracted>) -> Seq<ExtractedView> {
    values.map_values(|e: Extracted| e@)
}

/// The byte strings of a list as extracted messages.
pub open spec fn as_messages(values: Seq<Vec<u8>>) -> Seq<ExtractedView> {
    values.map_values(|bytes: Vec<u8>| ExtractedView::Message(bytes@))
}

/// The changes of a list as extracted changes.
pub open spec fn as_changes(values: Seq<NetworkChange>) -> Seq<ExtractedView> {
    values.map_values(|change: NetworkChange| ExtractedView::Change(change@))
}

/// What a scan of the queue and of the newly received frames has found.
pub struct Extraction<RET> {
    /// What was completed, in the order in which the completing frames were met.
    pub results: Vec<RET>,
    /// The positions, in the queue followed by the received frames, of the frames
    /// that the results take up.
    pub dead_indexes: IndexSet,
    /// Whether the queue stays as it is: nothing was taken out of it, and every
    /// received frame was taken up.
    pub unchanged: bool,
}

/// Whether the positions in `dead` are exactly those of the `received` frames that
/// follow a queue of `queued` frames.
fn takes_exactly_the_tail(dead: &IndexSet, queued: usize, received: usize) -> (unchanged: bool)
    requires
        queued + received <= usize::MAX,
        forall|x: int| dead@.contains(x) ==> 0 <= x < queued + received,
    ensures
        unchanged <==> dead@ == set_int_range(queued as int, queued + received),
{
    let ghost range = set_int_range(queued as int, queued + received);
    proof {
        lemma_int_range(queued as int, queued + received);
    }
    let count = dead.len();
    if dead.is_empty() && received == 0 {
        assert(range =~= Set::<int>::empty());
        true
    } else {
        match dead.first() {
            Some(first) => {
                let unchanged = first == queued && count == received;
                proof {
                    if unchanged {
                        lemma_dense_range(dead@, queued as int, received as int);
                    } else if dead@ == range {
                        assert(range.contains(first as int));
                        if received > 0 {
                            assert(range.contains(queued as int));
                        }
                    }
                }
                unchanged
            },
            None => {
                proof {
                    if dead@ == range {
                        assert(range.contains(queued as int));
                    }
                }
                false
            },
        }
    }
}

/// Scans the queue and then the frames just drained from the channel, and collects
/// what the stepping predicate of `selector` completes. Nothing blocks: with no
/// frame at all the result is empty.
///
/// The queue is only read. Where the result says that it does not stay
/// unchanged, [`remove_indexes`] builds the new queue.
pub fn remove_messages_from_queue(
    incoming_queue: &Vec<Frame>,
    temp_queue: &Vec<Frame>,
    selector: Selector,
) -> (extraction: Extraction<Extracted>)
    requires
        incoming_queue.len() + temp_queue.len() <= usize::MAX,
    ensures
        extracted_view(extraction.results@) == completions(
            selector,
            frames_view(incoming_queue@ + temp_queue@),
            incoming_queue.len() + temp_queue.len(),
        ),
        extraction.dead_indexes@ == consumed(
            selector,
            frames_view(incoming_queue@ + temp_queue@),
            incoming_queue.len() + temp_queue.len(),
        ),
        extraction.unchanged <==> extraction.dead_indexes@ == set_int_range(
            incoming_queue.len() as int,
            incoming_queue.len() + temp_queue.len(),
        ),
{
    let ghost all = frames_view(incoming_queue@ + temp_queue@);
    let queued: usize = incoming_queue.len();
    let received: usize = temp_queue.len();
    let total: usize = queued + received;
    let mut result: Vec<Extracted> = Vec::new();
    let mut context_map = ContextMap::new();
    let mut dead_indexes = IndexSet::new();
    let mut i: usize = 0;
    assert(extracted_view(result@) =~= Seq::<ExtractedView>::empty());
    while i < total
        invariant
            0 <= i <= total,
            total == queued + received,
            queued == incoming_queue@.len(),
            received == temp_queue@.len(),
            all == frames_view(incoming_queue@ + temp_queue@),
            context_map@ == contexts_after(selector, all, i as int),
            extracted_view(result@) == completions(selector, all, i as int),
            dead_indexes@ == consumed(selector, all, i as int),
        decreases total - i,
    {
        let msg: &Frame = if i < queued {
            &incoming_queue[i]
        } else {
            &temp_queue[i - queued]
        };
        assert(msg@ == all[i as int]);
        let ghost before = result@;
        match step(selector, msg, i, &mut context_map) {
            MsgStepOutcome::Complete(indexes, ret) => {
                let mut indexes = indexes;
                dead_indexes.append(&mut indexes);
                result.push(ret);
                assert(extracted_view(result@) =~= extracted_view(before).push(ret@));
            },
            _ => {},
        }
        i = i + 1;
    }
    proof {
        lemma_scan_bounds(selector, all, total as int);
    }
    let unchanged = takes_exactly_the_tail(&dead_indexes, queued, received);
    Extraction { results: result, dead_indexes, unchanged }
}

/// Rebuilds the queue after an extraction: the queue followed by the received
/// frames, without the frames at the positions in `indexes`, in their order.
pub fn remove_indexes(incoming_queue: &mut Vec<Frame>, temp_queue: Vec<Frame>, indexes: &IndexSet)
    requires
        old(incoming_queue).len() + temp_queue.len() <= usize::MAX,
    ensures
        final(incoming_queue)@ == remaining(
            old(incoming_queue)@ + temp_queue@,
            indexes@,
            old(incoming_queue).len() + temp_queue.len(),
        ),
{
    let mut queued: Vec<Frame> = Vec::new();
    std::mem::swap(&mut queued, incoming_queue);
    let ghost first = queued@;
    let ghost second = temp_queue@;
    let ghost all = first + second;
    let mut kept: Vec<Frame> = Vec::new();
    let mut i: usize = 0;
    for msg in it: queued.into_iter()
        invariant
            it.seq() == first,
            all == first + second,
            first.len() + second.len() <= usize::MAX,
            i == it.index(),
            kept@ == remaining(all, indexes@, i as int),
    {
        assert(all[i as int] == msg);
        if !indexes.contains(i) {
            kept.push(msg);
        }
        i = i + 1;
    }
    for msg in it: temp_queue.into_iter()
        invariant
            it.seq() == second,
            all == first + second,
            first.len() + second.len() <= usize::MAX,
            i == first.len() + it.index(),
            kept@ == remaining(all, indexes@, i as int),
    {
        assert(all[i as int] == msg);
        if !indexes.contains(i) {
            kept.push(msg);
        }
        i = i + 1;
    }
    *incoming_queue = kept;
}

/// The messages among extracted values.
fn into_messages(values: Vec<Extracted>) -> (messages: Vec<Vec<u8>>)
    requires
        forall|j: int| 0 <= j < values@.len() ==> #[trigger] values@[j]@ is Message,
    ensures
        as_messages(messages@) == extracted_view(values@),
{
    let ghost all = values@;
    let mut messages: Vec<Vec<u8>> = Vec::new();
    assert(as_messages(messages@) =~= extracted_view(all.take(0)));
    for value in it: values.into_iter()
        invariant
            it.seq() == all,
            forall|j: int| 0 <= j < all.len() ==> #[trigger] all[j]@ is Message,
            as_messages(messages@) == extracted_view(all.take(it.index())),
    {
        let ghost before = messages@;
        assert(all[it.index()] == value);
        assert(all[it.index()]@ is Message);
        match value {
            Extracted::Message(bytes) => {
                messages.push(bytes);
                assert(as_messages(messages@) =~= as_messages(before).push(value@));
            },
            Extracted::Change(_) => {},
        }
        assert(extracted_view(all.take(it.index() + 1)) =~= extracted_view(
            all.take(it.index()),
        ).push(value@));
    }
    assert(all.take(all.len() as int) =~= all);
    messages
}

/// The membership changes among extracted values.
fn into_changes(values: Vec<Extracted>) -> (changes: Vec<NetworkChange>)
    requires
        forall|j: int| 0 <= j < values@.len() ==> #[trigger] values@[j]@ is Change,
    ensures
        as_changes(changes@) == extracted_view(values@),
{
    let ghost all = values@;
    let mut changes: Vec<NetworkChange> = Vec::new();
    assert(as_changes(changes@) =~= extracted_view(all.take(0)));
    for value in it: values.into_iter()
        invariant
            it.seq() == all,
            forall|j: int| 0 <= j < all.len() ==> #[trigger] all[j]@ is Change,
            as_changes(changes@) == extracted_view(all.take(it.index())),
    {
        let ghost before = changes@;
        assert(all[it.index()] == value);
        assert(all[it.index()]@ is Change);
        match value {
            Extracted::Change(change) => {
                changes.push(change);
                assert(as_changes(changes@) =~= as_changes(before).push(value@));
            },
            Extracted::Message(_) => {},
        }
        assert(extracted_view(all.take(it.index() + 1)) =~= extracted_view(
            all.take(it.index()),
        ).push(value@));
    }
    assert(all.take(all.len() as int) =~= all);
    changes
}

/// All broadcasts that the queue and the received frames hold complete, each as
/// the bytes of the whole message. None where nothing is complete.
pub fn get_broadcasts(incoming_queue: &Vec<Frame>, temp_queue: &Vec<Frame>) -> (extraction:
    Extraction<Vec<u8>>)
    requires
        incoming_queue.len() + temp_queue.len() <= usize::MAX,
    ensures
        as_messages(extraction.results@) == completions(
            Selector::Broadcasts,
            frames_view(incoming_queue@ + temp_queue@),
            incoming_queue.len() + temp_queue.len(),
        ),
        extraction.dead_indexes@ == consumed(
            Selector::Broadcasts,
            frames_view(incoming_queue@ + temp_queue@),
            incoming_queue.len() + temp_queue.len(),
        ),
        extraction.unchanged <==> extraction.dead_indexes@ == set_int_range(
            incoming_queue.len() as int,
            incoming_queue.len() + temp_queue.len(),
        ),
{
    let found = remove_messages_from_queue(incoming_queue, temp_queue, Selector::Broadcasts);
    proof {
        lemma_completion_kinds(
            Selector::Broadcasts,
            frames_view(incoming_queue@ + temp_queue@),
            incoming_queue.len() + temp_queue.len(),
        );
        assert forall|j: int| 0 <= j < found.results@.len() implies #[trigger] found.results@[j]@
            is Message by {
            assert(extracted_view(found.results@)[j] == found.results@[j]@);
        }
    }
    Extraction {
        results: into_messages(found.results),
        dead_indexes: found.dead_indexes,
        unchanged: found.unchanged,
    }
}

/// All direct messages that the queue and the received frames hold complete, each
/// as the bytes of the whole message. None where nothing is complete.
pub fn get_direct_messages(incoming_queue: &Vec<Frame>, temp_queue: &Vec<Frame>) -> (extraction:
    Extraction<Vec<u8>>)
    requires
        incoming_queue.len() + temp_queue.len() <= usize::MAX,
    ensures
        as_messages(extraction.results@) == completions(
            Selector::Directs,
            frames_view(incoming_queue@ + temp_queue@),
            incoming_queue.len() + temp_queue.len(),
        ),
        extraction.dead_indexes@ == consumed(
            Selector::Directs,
            frames_view(incoming_queue@ + temp_queue@),
            incoming_queue.len() + temp_queue.len(),
        ),
        extraction.unchanged <==> extraction.dead_indexes@ == set_int_range(
            incoming_queue.len() as int,
            incoming_queue.len() + temp_queue.len(),
        ),
{
    let found = remove_messages_from_queue(incoming_queue, temp_queue, Selector::Directs);
    proof {
        lemma_completion_kinds(
            Selector::Directs,
            frames_view(incoming_queue@ + temp_queue@),
            incoming_queue.len() + temp_queue.len(),
        );
        assert forall|j: int| 0 <= j < found.results@.len() implies #[trigger] found.results@[j]@
            is Message by {
            assert(extracted_view(found.results@)[j] == found.results@[j]@);
        }
    }
    Extraction {
        results: into_messages(found.results),
        dead_indexes: found.dead_indexes,
        unchanged: found.unchanged,
    }
}

/// All membership changes that the queue and the received frames hold. None where
/// there is none.
pub fn get_network_changes(incoming_queue: &Vec<Frame>, temp_queue: &Vec<Frame>) -> (extraction:
    Extraction<NetworkChange>)
    requires
        incoming_queue.len() + temp_queue.len() <= usize::MAX,
    ensures
        as_changes(extraction.results@) == completions(
            Selector::NetworkChanges,
            frames_view(incoming_queue@ + temp_queue@),
            incoming_queue.len() + temp_queue.len(),
        ),
        extraction.dead_indexes@ == consumed(
            Selector::NetworkChanges,
            frames_view(incoming_queue@ + temp_queue@),
            incoming_queue.len() + temp_queue.len(),
        ),
        extraction.unchanged <==> extraction.dead_indexes@ == set_int_range(
            incoming_queue.len() as int,
            incoming_queue.len() + temp_queue.len(),
        ),
{
    let found = remove_messages_from_queue(incoming_queue, temp_queue, Selector::NetworkChanges);
    proof {
        lemma_completion_kinds(
            Selector::NetworkChanges,
            frames_view(incoming_queue@ + temp_queue@),
            incoming_queue.len() + temp_queue.len(),
        );
        assert forall|j: int| 0 <= j < found.results@.len() implies #[trigger] found.results@[j]@
            is Change by {
            assert(extracted_view(found.results@)[j] == found.results@[j]@);
        }
    }
    Extraction {
        results: into_changes(found.results),
        dead_indexes: found.dead_indexes,
        unchanged: found.unchanged,
    }
}


/// A blocking extraction that has found nothing complete so far: the state it
/// keeps while it waits for the next frame.
pub struct NextMessage {
    selector: Selector,
    context_map: ContextMap,
    temp_queue: Vec<Frame>,
    temp_start_index: usize,
    buffer: Ghost<Seq<FrameView>>,
}

/// What a blocking extraction has lifted out.
pub struct Completion {
    /// The completed value.
    pub ret: Extracted,
    /// The positions, in the queue followed by the received frames, of the frames
    /// that the value takes up.
    pub indexes: IndexSet,
    /// The frames received before the completing one, which is not among them.
    pub temp_queue: Vec<Frame>,
    /// Whether the queue stays as it is: the value takes up every received frame,
    /// and nothing of the queue.
    pub unchanged: bool,
}

/// Where a blocking extraction stands.
pub enum NextStep {
    /// Nothing is complete: the extraction needs the next frame of the channel.
    Pending(NextMessage),
    /// A value is complete.
    Complete(Completion),
}

impl NextMessage {
    #[verifier::type_invariant]
    spec fn consistent(self) -> bool {
        &&& self.buffer@.len() == self.temp_start_index
        &&& self.temp_start_index + self.temp_queue@.len() <= usize::MAX
        &&& self.context_map@ == contexts_after(
            self.selector,
            self.buffer@ + frames_view(self.temp_queue@),
            self.temp_start_index + self.temp_queue@.len(),
        )
        &&& nothing_complete(
            self.selector,
            self.buffer@ + frames_view(self.temp_queue@),
            self.temp_start_index + self.temp_queue@.len(),
        )
    }

    /// The extraction that is under way.
    pub closed spec fn selector(&self) -> Selector {
        self.selector
    }

    /// The queue as the extraction found it.
    pub closed spec fn queued(&self) -> Seq<FrameView> {
        self.buffer@
    }

    /// The frames received so far, none of which completed anything.
    pub closed spec fn received(&self) -> Seq<Frame> {
        self.temp_queue@
    }

    /// All frames scanned so far: the queue, then the received frames.
    pub open spec fn scanned(&self) -> Seq<FrameView> {
        self.queued() + frames_view(self.received())
    }

    /// The number of frames scanned so far.
    pub fn scanned_len(&self) -> (n: usize)
        ensures
            n == self.scanned().len(),
    {
        proof {
            use_type_invariant(self);
        }
        self.temp_start_index + self.temp_queue.len()
    }

    /// Takes the next frame of the channel into the scan.
    ///
    /// Where the frame completes a value, the extraction ends with it. The
    /// completing frame is taken up by the value and is dropped; the frames
    /// received before it are handed back for [`remove_indexes`]. Else the frame
    /// joins the received ones and the extraction stays pending.
    pub fn receive(self, msg: Frame) -> (step: NextStep)
        requires
            self.scanned().len() < usize::MAX,
        ensures
            match outcome_at(
                self.selector(),
                self.scanned().push(msg@),
                self.scanned().len() as int,
            ) {
                OutcomeView::Complete(indexes, value) => {
                    &&& step matches NextStep::Complete(c)
                    &&& c.ret@ == value
                    &&& c.indexes@ == indexes
                    &&& c.temp_queue@ == self.received()
                    &&& (c.unchanged <==> indexes == set_int_range(
                        self.queued().len() as int,
                        self.scanned().len() as int + 1,
                    ))
                },
                _ => {
                    &&& step matches NextStep::Pending(next)
                    &&& next.selector() == self.selector()
                    &&& next.queued() == self.queued()
                    &&& next.received() == self.received().push(msg)
                    &&& nothing_complete(
                        next.selector(),
                        next.scanned(),
                        next.scanned().len() as int,
                    )
                },
            },
    {
        proof {
            use_type_invariant(&self);
        }
        let NextMessage { selector, context_map, temp_queue, temp_start_index, buffer } = self;
        let mut context_map = context_map;
        let mut temp_queue = temp_queue;
        let ghost before = buffer@ + frames_view(temp_queue@);
        let ghost all = before.push(msg@);
        let index: usize = temp_start_index + temp_queue.len();
        proof {
            lemma_scan_prefix(selector, before, all, index as int);
            lemma_scan_bounds(selector, all, index as int + 1);
        }
        match step(selector, &msg, index, &mut context_map) {
            MsgStepOutcome::Complete(indexes, ret) => {
                proof {
                    assert(outcome_at(selector, all, index as int) is Complete);
                }
                let unchanged = takes_exactly_the_tail(
                    &indexes,
                    temp_start_index,
                    temp_queue.len() + 1,
                );
                NextStep::Complete(Completion { ret, indexes, temp_queue, unchanged })
            },
            _ => {
                let ghost received = temp_queue@;
                temp_queue.push(msg);
                proof {
                    assert(frames_view(temp_queue@) =~= frames_view(received).push(msg@));
                    assert(buffer@ + frames_view(temp_queue@) =~= all);
                    assert forall|i: int| 0 <= i < index + 1 implies !(#[trigger] outcome_at(
                        selector,
                        all,
                        i,
                    ) is Complete) by {
                        if i < index {
                            assert(!(outcome_at(selector, before, i) is Complete));
                        }
                    }
                }
                NextStep::Pending(
                    NextMessage { selector, context_map, temp_queue, temp_start_index, buffer },
                )
            },
        }
    }

    /// Ends the extraction when the channel is closed and no frame will come: the
    /// received frames join the queue. Returns the length of the queue and the
    /// contexts of the messages left incomplete.
    pub fn channel_closed(self, incoming_queue: &mut Vec<Frame>) -> (failure: (usize, ContextMap))
        requires
            old(incoming_queue).len() + self.received().len() <= usize::MAX,
        ensures
            final(incoming_queue)@ == old(incoming_queue)@ + self.received(),
            failure.0 == final(incoming_queue).len(),
            failure.1@ == contexts_after(
                self.selector(),
                self.scanned(),
                self.scanned().len() as int,
            ),
    {
        proof {
            use_type_invariant(&self);
        }
        let NextMessage { selector, context_map, temp_queue, temp_start_index, buffer } = self;
        let mut temp_queue = temp_queue;
        incoming_queue.append(&mut temp_queue);
        (incoming_queue.len(), context_map)
    }
}

/// Begins a blocking extraction: scans the queue for the first value that the
/// stepping predicate of `selector` completes.
///
/// Where the queue holds one, the extraction ends with it. Else it is pending,
/// and goes on with each frame that the channel delivers
/// ([`NextMessage::receive`]) until one completes a value or the channel is
/// closed ([`NextMessage::channel_closed`]).
pub fn remove_next_message_from_queue(incoming_queue: &Vec<Frame>, selector: Selector) -> (step:
    NextStep)
    ensures
        match step {
            NextStep::Complete(c) => {
                &&& exists|i: int|
                    0 <= i < incoming_queue.len() && nothing_complete(
                        selector,
                        frames_view(incoming_queue@),
                        i,
                    ) && #[trigger] outcome_at(selector, frames_view(incoming_queue@), i)
                        == OutcomeView::Complete(c.indexes@, c.ret@)
                &&& c.temp_queue@.len() == 0
                &&& !c.unchanged
            },
            NextStep::Pending(next) => {
                &&& nothing_complete(
                    selector,
                    frames_view(incoming_queue@),
                    incoming_queue.len() as int,
                )
                &&& next.selector() == selector
                &&& next.queued() == frames_view(incoming_queue@)
                &&& next.received() == Seq::<Frame>::empty()
            },
        },
{
    let ghost all = frames_view(incoming_queue@);
    let mut context_map = ContextMap::new();
    let temp_start_index: usize = incoming_queue.len();
    let mut i: usize = 0;
    while i < temp_start_index
        invariant
            0 <= i <= temp_start_index,
            temp_start_index == incoming_queue@.len(),
            all == frames_view(incoming_queue@),
            context_map@ == contexts_after(selector, all, i as int),
            nothing_complete(selector, all, i as int),
        decreases temp_start_index - i,
    {
        let msg: &Frame = &incoming_queue[i];
        assert(msg@ == all[i as int]);
        match step(selector, msg, i, &mut context_map) {
            MsgStepOutcome::Complete(indexes, ret) => {
                proof {
                    lemma_scan_bounds(selector, all, i as int + 1);
                    assert(outcome_at(selector, all, i as int) == OutcomeView::Complete(
                        indexes@,
                        ret@,
                    ));
                    assert(indexes@.contains(i as int));
                    assert(!set_int_range(temp_start_index as int, temp_start_index as int).contains(
                        i as int,
                    ));
                }
                return NextStep::Complete(
                    Completion { ret, indexes, temp_queue: Vec::new(), unchanged: false },
                );
            },
            _ => {},
        }
        i = i + 1;
    }
    let temp_queue: Vec<Frame> = Vec::new();
    proof {
        assert(all + frames_view(temp_queue@) =~= all);
    }
    NextStep::Pending(
        NextMessage { selector, context_map, temp_queue, temp_start_index, buffer: Ghost(all) },
    )
}

/// Begins a blocking extraction of the next broadcast.
pub fn get_next_broadcast(incoming_queue: &Vec<Frame>) -> (step: NextStep)
    ensures
        match step {
            NextStep::Complete(c) => {
                &&& exists|i: int|
                    0 <= i < incoming_queue.len() && nothing_complete(
                        Selector::Broadcasts,
                        frames_view(incoming_queue@),
                        i,
                    ) && #[trigger] outcome_at(Selector::Broadcasts, frames_view(incoming_queue@), i)
                        == OutcomeView::Complete(c.indexes@, c.ret@)
                &&& c.ret@ is Message
                &&& c.temp_queue@.len() == 0
                &&& !c.unchanged
            },
            NextStep::Pending(next) => {
                &&& nothing_complete(
                    Selector::Broadcasts,
                    frames_view(incoming_queue@),
                    incoming_queue.len() as int,
                )
                &&& next.selector() == Selector::Broadcasts
                &&& next.queued() == frames_view(incoming_queue@)
                &&& next.received() == Seq::<Frame>::empty()
            },
        },
{
    remove_next_message_from_queue(incoming_queue, Selector::Broadcasts)
}

/// Begins a blocking extraction of the next direct message.
pub fn get_next_direct_message(incoming_queue: &Vec<Frame>) -> (step: NextStep)
    ensures
        match step {
            NextStep::Complete(c) => {
                &&& exists|i: int|
                    0 <= i < incoming_queue.len() && nothing_complete(
                        Selector::Directs,
                        frames_view(incoming_queue@),
                        i,
                    ) && #[trigger] outcome_at(Selector::Directs, frames_view(incoming_queue@), i)
                        == OutcomeView::Complete(c.indexes@, c.ret@)
                &&& c.ret@ is Message
                &&& c.temp_queue@.len() == 0
                &&& !c.unchanged
            },
            NextStep::Pending(next) => {
                &&& nothing_complete(
                    Selector::Directs,
                    frames_view(incoming_queue@),
                    incoming_queue.len() as int,
                )
                &&& next.selector() == Selector::Directs
                &&& next.queued() == frames_view(incoming_queue@)
                &&& next.received() == Seq::<Frame>::empty()
            },
        },
{
    remove_next_message_from_queue(incoming_queue, Selector::Directs)
}

} // verus!
