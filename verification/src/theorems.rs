//! What holds of the client over any course of events.

use crate::network::{broadcast_frame, direct_frame, InnerView};
use crate::protocol::{FrameView, FromServer, ToServerView};
use crate::context_map::ContextView;
use crate::reassembly::{step_contexts, step_outcome, ExtractedView, OutcomeView, Selector};
use crate::scan::{
    completions, consumed, contexts_after, lemma_remaining_prefix, lemma_scan_bounds,
    lemma_scan_prefix, nothing_complete, outcome_at, remaining,
};
use crate::worker::{inner_after, worker_action, WorkerActionView, WorkerEvent};
use vstd::prelude::*;

verus! {

/// A frame that carries a message whole completes by itself, whatever messages are
/// in progress, and leaves them as they are. This holds of the empty message too.
pub proof fn theorem_whole_frame_completes(
    contexts: Map<Seq<u8>, ContextView>,
    source: Seq<u8>,
    message: Seq<u8>,
    index: int,
)
    requires
        message.len() <= u64::MAX,
    ensures
        step_outcome(Selector::Broadcasts, contexts, broadcast_frame(source, message), index)
            == OutcomeView::Complete(set![index], ExtractedView::Message(message)),
        step_contexts(Selector::Broadcasts, contexts, broadcast_frame(source, message), index)
            == contexts,
        step_outcome(Selector::Directs, contexts, direct_frame(source, message), index)
            == OutcomeView::Complete(set![index], ExtractedView::Message(message)),
        step_contexts(Selector::Directs, contexts, direct_frame(source, message), index)
            == contexts,
{
}

/// The sender of a broadcast sees it exactly once. With the frame that the
/// broadcast puts on the channel of received frames, an extraction of
/// broadcasts hands out what it would hand out without it, and then the
/// message. It takes the frame up, so that what is left in the queue is what
/// would be left without the broadcast, and no later extraction meets the
/// frame again.
pub proof fn theorem_own_broadcast_is_seen_once(
    queue: Seq<FrameView>,
    received: Seq<FrameView>,
    own_key: Seq<u8>,
    message: Seq<u8>,
)
    requires
        message.len() <= u64::MAX,
    ensures
        ({
            let before = queue + received;
            let all = before.push(broadcast_frame(own_key, message));
            let n = before.len() as int;
            &&& completions(Selector::Broadcasts, all, n + 1) == completions(
                Selector::Broadcasts,
                before,
                n,
            ).push(ExtractedView::Message(message))
            &&& consumed(Selector::Broadcasts, all, n + 1) == consumed(
                Selector::Broadcasts,
                before,
                n,
            ).insert(n)
            &&& remaining(all, consumed(Selector::Broadcasts, all, n + 1), n + 1) == remaining(
                before,
                consumed(Selector::Broadcasts, before, n),
                n,
            )
        }),
{
    let selector = Selector::Broadcasts;
    let before = queue + received;
    let all = before.push(broadcast_frame(own_key, message));
    let n = before.len() as int;
    lemma_scan_prefix(selector, before, all, n);
    theorem_whole_frame_completes(contexts_after(selector, all, n), own_key, message, n);
    assert(consumed(selector, all, n + 1) =~= consumed(selector, before, n).insert(n));
    lemma_scan_bounds(selector, before, n);
    lemma_remaining_prefix(
        all,
        before,
        consumed(selector, all, n + 1),
        consumed(selector, before, n),
        n,
    );
}

/// A direct message to oneself is the next direct message, where no other one is
/// complete before it: the scan of the frames at hand, followed by the frame
/// that the message puts on the channel of received frames, first completes at
/// that frame, with the message.
pub proof fn theorem_self_direct_is_next(frames: Seq<FrameView>, own_key: Seq<u8>, message: Seq<u8>)
    requires
        message.len() <= u64::MAX,
        nothing_complete(Selector::Directs, frames, frames.len() as int),
    ensures
        ({
            let all = frames.push(direct_frame(own_key, message));
            &&& nothing_complete(Selector::Directs, all, frames.len() as int)
            &&& outcome_at(Selector::Directs, all, frames.len() as int) == OutcomeView::Complete(
                set![frames.len() as int],
                ExtractedView::Message(message),
            )
        }),
{
    let selector = Selector::Directs;
    let all = frames.push(direct_frame(own_key, message));
    let n = frames.len() as int;
    lemma_scan_prefix(selector, frames, all, n);
    theorem_whole_frame_completes(contexts_after(selector, all, n), own_key, message, n);
    assert forall|i: int| 0 <= i < n implies !(#[trigger] outcome_at(selector, all, i)
        is Complete) by {
        assert(!(outcome_at(selector, frames, i) is Complete));
    }
}

/// One thing that happens to the state of the client.
pub enum ClientStep {
    /// The background worker takes in an event.
    Worker(WorkerEvent),
    /// Someone asks for the number of connected clients.
    RequestClientCount(flume::Sender<usize>),
    /// A connection of the background worker ends.
    ConnectionClosed,
    /// The client is shut down.
    ShutDown,
}

/// The state after `step`.
pub open spec fn client_after(inner: InnerView, step: ClientStep) -> InnerView {
    match step {
        ClientStep::Worker(event) => inner_after(inner, event),
        ClientStep::RequestClientCount(sender) => InnerView {
            request_client_count_sender: inner.request_client_count_sender.push(sender),
            ..inner
        },
        ClientStep::ConnectionClosed => InnerView { connected: false, ..inner },
        ClientStep::ShutDown => InnerView { running: false, ..inner },
    }
}

/// The state after `steps`, taken in their order.
pub open spec fn client_after_all(inner: InnerView, steps: Seq<ClientStep>) -> InnerView
    decreases steps.len(),
{
    if steps.len() == 0 {
        inner
    } else {
        client_after(client_after_all(inner, steps.drop_last()), steps.last())
    }
}

/// A client that is shut down stays so: whatever happens after, it does not run,
/// and so the background worker, which connects again only while the client
/// runs, opens no further connection.
pub proof fn theorem_shut_down_is_final(inner: InnerView, steps: Seq<ClientStep>)
    ensures
        !client_after_all(client_after(inner, ClientStep::ShutDown), steps).running,
    decreases steps.len(),
{
    if steps.len() > 0 {
        theorem_shut_down_is_final(inner, steps.drop_last());
    }
}

/// Once the server has started the run, the run stays ready.
pub proof fn theorem_run_ready_latches(inner: InnerView, steps: Seq<ClientStep>)
    requires
        inner.run_ready,
    ensures
        client_after_all(inner, steps).run_ready,
    decreases steps.len(),
{
    if steps.len() > 0 {
        theorem_run_ready_latches(inner, steps.drop_last());
    }
}

/// No client count arrives in `steps`.
pub open spec fn no_client_count(steps: Seq<ClientStep>) -> bool {
    forall|i: int|
        0 <= i < steps.len() ==> !(#[trigger] steps[i] matches ClientStep::Worker(
            WorkerEvent::Header(FromServer::ClientCount(_)),
        ))
}

/// A request for the client count is sent again on every new connection until the
/// count arrives: whatever else happens after the request, connections lost and
/// made among it, the one who asked still waits, and the worker answers the
/// next naming of the client with the request.
pub proof fn theorem_client_count_is_requested_again(
    inner: InnerView,
    sender: flume::Sender<usize>,
    steps: Seq<ClientStep>,
)
    requires
        no_client_count(steps),
    ensures
        ({
            let asked = client_after(inner, ClientStep::RequestClientCount(sender));
            let later = client_after_all(asked, steps);
            &&& later.request_client_count_sender.len() > inner.request_client_count_sender.len()
            &&& forall|i: int|
                0 <= i <= inner.request_client_count_sender.len()
                    ==> later.request_client_count_sender[i]
                    == asked.request_client_count_sender[i]
            &&& worker_action(later, WorkerEvent::Identified) == WorkerActionView::Resend(
                ToServerView::RequestClientCount,
            )
        }),
    decreases steps.len(),
{
    if steps.len() > 0 {
        assert(no_client_count(steps.drop_last())) by {
            assert forall|i: int| 0 <= i < steps.drop_last().len() implies !(
            #[trigger] steps.drop_last()[i] matches ClientStep::Worker(
                WorkerEvent::Header(FromServer::ClientCount(_)),
            )) by {
                assert(steps.drop_last()[i] == steps[i]);
            }
        }
        theorem_client_count_is_requested_again(inner, sender, steps.drop_last());
        assert(!(steps[steps.len() - 1] matches ClientStep::Worker(
            WorkerEvent::Header(FromServer::ClientCount(_)),
        )));
        assert(steps.last() == steps[steps.len() - 1]);
    }
}

/// When the count arrives, it goes to everyone who has asked since the last one,
/// in the order of asking, and nobody is left waiting.
pub proof fn theorem_client_count_answers_all(inner: InnerView, count: usize)
    ensures
        worker_action(inner, WorkerEvent::Header(FromServer::ClientCount(count)))
            == (WorkerActionView::Notify { count, waiters: inner.request_client_count_sender }),
        inner_after(
            inner,
            WorkerEvent::Header(FromServer::ClientCount(count)),
        ).request_client_count_sender.len() == 0,
{
}

} // verus!
