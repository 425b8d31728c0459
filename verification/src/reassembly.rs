//! Reassembly of logical messages from the frames of interleaved streams.
//!
//! A logical message arrives as a header frame that announces its total length,
//! followed by as many continuation frames of the same source as it takes to
//! reach that length. Frames of different sources may be interleaved. The
//! stepping predicate looks at one frame at a time and threads one reassembly
//! context per source through the scan.

use crate::context_map::{ContextMap, ContextView, MsgStepContext};
use crate::index_set::IndexSet;
use crate::protocol::{Frame, FrameView, FromServer, FromServerView, NetworkChange, NetworkChangeView};
use vstd::prelude::*;

verus! {

/// Which frames an extraction lifts out of the queue.
#[derive(Debug, Clone, Copy, PartialEq, Eq)]
pub enum Selector {
    /// Broadcasts: `Broadcast` headers and their `BroadcastPayload` continuations.
    Broadcasts,
    /// Direct messages: `Direct` headers and their `DirectPayload` continuations.
    Directs,
    /// Membership changes: `NodeConnected` and `NodeDisconnected`.
    NetworkChanges,
}

/// What a frame is to an extraction.
pub enum Part {
    /// The first frame of a logical message of `message_len` bytes from `source`.
    Start { source: Seq<u8>, message_len: u64 },
    /// A continuation of the message that `source` has in progress.
    Fragment { source: Seq<u8> },
    /// A membership change, complete in itself.
    Change(NetworkChangeView),
    /// A frame that the extraction passes over.
    Unrelated,
}

/// What a frame with this header is to the extraction `selector`.
pub open spec fn part(selector: Selector, header: FromServerView) -> Part {
    match selector {
        Selector::Broadcasts => match header {
            FromServerView::Broadcast { source, message_len, .. } => Part::Start {
                source,
                message_len,
            },
            FromServerView::BroadcastPayload { source, .. } => Part::Fragment { source },
            _ => Part::Unrelated,
        },
        Selector::Directs => match header {
            FromServerView::Direct { source, message_len, .. } => Part::Start {
                source,
                message_len,
            },
            FromServerView::DirectPayload { source, .. } => Part::Fragment { source },
            _ => Part::Unrelated,
        },
        Selector::NetworkChanges => match header {
            FromServerView::NodeConnected { key } => Part::Change(
                NetworkChangeView::NodeConnected(key),
            ),
            FromServerView::NodeDisconnected { key } => Part::Change(
                NetworkChangeView::NodeDisconnected(key),
            ),
            _ => Part::Unrelated,
        },
    }
}

/// What an extraction hands out: the bytes of a logical message, or a membership
/// change.
#[derive(Debug, Clone, PartialEq, Eq)]
pub enum Extracted {
    Message(Vec<u8>),
    Change(NetworkChange),
}

pub enum ExtractedView {
    Message(Seq<u8>),
    Change(NetworkChangeView),
}

impl View for Extracted {
    type V = ExtractedView;

    open spec fn view(&self) -> ExtractedView {
        match *self {
            Extracted::Message(bytes) => ExtractedView::Message(bytes@),
            Extracted::Change(change) => ExtractedView::Change(change@),
        }
    }
}

/// What one step of a scan found.
pub enum MsgStepOutcome<RET> {
    /// The frame is none of the extraction's, or it is out of place.
    Skip,
    /// The frame is the first of a message of several frames.
    Begin,
    /// The frame continues a message that is still not complete.
    Continue,
    /// The frame completes a match made of the frames at these positions.
    Complete(IndexSet, RET),
}

pub enum OutcomeView<V> {
    Skip,
    Begin,
    Continue,
    Complete(Set<int>, V),
}

impl<RET: View> View for MsgStepOutcome<RET> {
    type V = OutcomeView<RET::V>;

    open spec fn view(&self) -> OutcomeView<RET::V> {
        match *self {
            MsgStepOutcome::Skip => OutcomeView::Skip,
            MsgStepOutcome::Begin => OutcomeView::Begin,
            MsgStepOutcome::Continue => OutcomeView::Continue,
            MsgStepOutcome::Complete(indexes, ret) => OutcomeView::Complete(indexes@, ret@),
        }
    }
}

/// The outcome of the step on `frame`, found at position `index`, when the messages
/// in progress are `contexts`.
pub open spec fn step_outcome(
    selector: Selector,
    contexts: Map<Seq<u8>, ContextView>,
    frame: FrameView,
    index: int,
) -> OutcomeView<ExtractedView> {
    match part(selector, frame.header) {
        Part::Start { source, message_len } => {
            if frame.payload.len() < message_len {
                OutcomeView::Begin
            } else if frame.payload.len() == message_len {
                OutcomeView::Complete(set![index], ExtractedView::Message(frame.payload))
            } else {
                OutcomeView::Skip
            }
        },
        Part::Fragment { source } => {
            if contexts.contains_key(source) {
                let context = contexts[source];
                let stream = context.accumulated_stream + frame.payload;
                if stream.len() < context.message_len {
                    OutcomeView::Continue
                } else if stream.len() == context.message_len {
                    OutcomeView::Complete(
                        context.consumed_indexes.insert(index),
                        ExtractedView::Message(stream),
                    )
                } else {
                    OutcomeView::Skip
                }
            } else {
                OutcomeView::Skip
            }
        },
        Part::Change(change) => OutcomeView::Complete(set![index], ExtractedView::Change(change)),
        Part::Unrelated => OutcomeView::Skip,
    }
}

/// The messages in progress after the step on `frame`, found at position `index`,
/// when they were `contexts` before it.
///
/// A first frame that falls short of its message opens a context for its source,
/// in place of one that the source may have had. A continuation extends the
/// context of its source, which is closed when the message is complete or has
/// grown beyond its announced length.
pub open spec fn step_contexts(
    selector: Selector,
    contexts: Map<Seq<u8>, ContextView>,
    frame: FrameView,
    index: int,
) -> Map<Seq<u8>, ContextView> {
    match part(selector, frame.header) {
        Part::Start { source, message_len } => {
            if frame.payload.len() < message_len {
                contexts.insert(
                    source,
                    ContextView {
                        consumed_indexes: set![index],
                        message_len,
                        accumulated_stream: frame.payload,
                    },
                )
            } else {
                contexts
            }
        },
        Part::Fragment { source } => {
            if contexts.contains_key(source) {
                let context = contexts[source];
                let stream = context.accumulated_stream + frame.payload;
                if stream.len() < context.message_len {
                    contexts.insert(
                        source,
                        ContextView {
                            consumed_indexes: context.consumed_indexes.insert(index),
                            message_len: context.message_len,
                            accumulated_stream: stream,
                        },
                    )
                } else {
                    contexts.remove(source)
                }
            } else {
                contexts
            }
        },
        _ => contexts,
    }
}

/// The step of a scan for logical messages on a first frame: `payload` came with a
/// header from `source` that announces `message_len` bytes.
fn step_start(
    source: &Vec<u8>,
    message_len: u64,
    payload: &Vec<u8>,
    index: usize,
    context_map: &mut ContextMap,
) -> (outcome: MsgStepOutcome<Extracted>)
    ensures
        outcome@ == (if payload@.len() < message_len {
            OutcomeView::Begin
        } else if payload@.len() == message_len {
            OutcomeView::Complete(set![index as int], ExtractedView::Message(payload@))
        } else {
            OutcomeView::Skip
        }),
        final(context_map)@ == (if payload@.len() < message_len {
            old(context_map)@.insert(
                source@,
                ContextView {
                    consumed_indexes: set![index as int],
                    message_len,
                    accumulated_stream: payload@,
                },
            )
        } else {
            old(context_map)@
        }),
{
    let mut consumed_indexes = IndexSet::new();
    consumed_indexes.insert(index);
    assert(consumed_indexes@ =~= set![index as int]);
    let payload_len: u64 = payload.len() as u64;
    if payload_len < message_len {
        context_map.insert(
            source.clone(),
            MsgStepContext { consumed_indexes, message_len, accumulated_stream: payload.clone() },
        );
        MsgStepOutcome::Begin
    } else if payload_len > message_len {
        MsgStepOutcome::Skip
    } else {
        MsgStepOutcome::Complete(consumed_indexes, Extracted::Message(payload.clone()))
    }
}

/// The step of a scan for logical messages on a continuation frame of `source`.
fn step_fragment(
    source: &Vec<u8>,
    payload: &Vec<u8>,
    index: usize,
    context_map: &mut ContextMap,
) -> (outcome: MsgStepOutcome<Extracted>)
    ensures
        outcome@ == (if old(context_map)@.contains_key(source@) {
            let context = old(context_map)@[source@];
            let stream = context.accumulated_stream + payload@;
            if stream.len() < context.message_len {
                OutcomeView::Continue
            } else if stream.len() == context.message_len {
                OutcomeView::Complete(
                    context.consumed_indexes.insert(index as int),
                    ExtractedView::Message(stream),
                )
            } else {
                OutcomeView::Skip
            }
        } else {
            OutcomeView::Skip
        }),
        final(context_map)@ == (if old(context_map)@.contains_key(source@) {
            let context = old(context_map)@[source@];
            let stream = context.accumulated_stream + payload@;
            if stream.len() < context.message_len {
                old(context_map)@.insert(
                    source@,
                    ContextView {
                        consumed_indexes: context.consumed_indexes.insert(index as int),
                        message_len: context.message_len,
                        accumulated_stream: stream,
                    },
                )
            } else {
                old(context_map)@.remove(source@)
            }
        } else {
            old(context_map)@
        }),
{
    let ghost before = context_map@;
    match context_map.remove_entry(source) {
        None => {
            assert(context_map@ =~= before);
            MsgStepOutcome::Skip
        },
        Some(entry) => {
            let key = entry.0;
            let mut context = entry.1;
            let ghost stream = before[source@].accumulated_stream + payload@;
            context.consumed_indexes.insert(index);
            if context.accumulated_stream.len() == 0 && context.message_len
                == payload.len() as u64 {
                assert(stream =~= payload@);
                MsgStepOutcome::Complete(
                    context.consumed_indexes,
                    Extracted::Message(payload.clone()),
                )
            } else {
                let mut rest = payload.clone();
                context.accumulated_stream.append(&mut rest);
                let stream_len: u64 = context.accumulated_stream.len() as u64;
                if stream_len < context.message_len {
                    context_map.insert(key, context);
                    assert(context_map@ =~= before.insert(
                        source@,
                        ContextView {
                            consumed_indexes: before[source@].consumed_indexes.insert(index as int),
                            message_len: before[source@].message_len,
                            accumulated_stream: stream,
                        },
                    ));
                    MsgStepOutcome::Continue
                } else if stream_len > context.message_len {
                    MsgStepOutcome::Skip
                } else {
                    MsgStepOutcome::Complete(
                        context.consumed_indexes,
                        Extracted::Message(context.accumulated_stream),
                    )
                }
            }
        },
    }
}

/// The position `index` alone.
fn single_index(index: usize) -> (indexes: IndexSet)
    ensures
        indexes@ == set![index as int],
{
    let mut indexes = IndexSet::new();
    indexes.insert(index);
    assert(indexes@ =~= set![index as int]);
    indexes
}

/// One step of a scan: looks at `msg`, found at position `index`, with the messages
/// in progress in `context_map`.
///
/// For broadcasts and direct messages, a first frame that carries its whole
/// message completes at once, one that carries less begins a context for its
/// source, and one that carries more is passed over. A continuation without a
/// context is passed over; with one, it extends it, and completes the message
/// when the announced length is reached. A message that grows beyond its
/// announced length is dropped with its context. For membership changes, every
/// `NodeConnected` and `NodeDisconnected` completes by itself.
pub fn step(selector: Selector, msg: &Frame, index: usize, context_map: &mut ContextMap) -> (outcome:
    MsgStepOutcome<Extracted>)
    ensures
        outcome@ == step_outcome(selector, old(context_map)@, msg@, index as int),
        final(context_map)@ == step_contexts(selector, old(context_map)@, msg@, index as int),
{
    match selector {
        Selector::Broadcasts => match &msg.header {
            FromServer::Broadcast { source, message_len, .. } => step_start(
                source,
                *message_len,
                &msg.payload,
                index,
                context_map,
            ),
            FromServer::BroadcastPayload { source, .. } => step_fragment(
                source,
                &msg.payload,
                index,
                context_map,
            ),
            _ => MsgStepOutcome::Skip,
        },
        Selector::Directs => match &msg.header {
            FromServer::Direct { source, message_len, .. } => step_start(
                source,
                *message_len,
                &msg.payload,
                index,
                context_map,
            ),
            FromServer::DirectPayload { source, .. } => step_fragment(
                source,
                &msg.payload,
                index,
                context_map,
            ),
            _ => MsgStepOutcome::Skip,
        },
        Selector::NetworkChanges => match &msg.header {
            FromServer::NodeConnected { key } => MsgStepOutcome::Complete(
                single_index(index),
                Extracted::Change(NetworkChange::NodeConnected(key.clone())),
            ),
            FromServer::NodeDisconnected { key } => MsgStepOutcome::Complete(
                single_index(index),
                Extracted::Change(NetworkChange::NodeDisconnected(key.clone())),
            ),
            _ => MsgStepOutcome::Skip,
        },
    }
}

} // verus!
