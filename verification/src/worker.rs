//! The decisions of the background worker.
//!
//! The worker owns the stream to the server. It names the client on every new
//! connection, writes what the client sends, and passes on what the server
//! sends. Reading, writing and waiting are the caller's: it reports what
//! happened as an event and carries out the action that the worker answers
//! with.

use crate::error::{Error, StreamError};
use crate::network::{Inner, InnerView, Outgoing};
use crate::protocol::{Frame, FrameView, FromServer, FromServerView, ToServer, ToServerView};
use vstd::prelude::*;
use vstd::std_specs::convert::FromSpec;

verus! {

/// Why a connection cannot go on.
#[derive(Debug)]
pub enum Failure {
    /// Reading from the stream or writing to it failed.
    Stream(StreamError),
    /// The channel to the consumers is closed.
    InboundClosed,
    /// The queue of messages for the server is closed.
    OutboundClosed,
}

/// What happened on a connection.
#[derive(Debug)]
pub enum WorkerEvent {
    /// A stream to the server has been opened.
    Connected,
    /// The header that names the client has been written.
    Identified,
    /// The stream delivered a header.
    Header(FromServer),
    /// The stream delivered the raw bytes that `header` had announced.
    Payload { header: FromServer, payload: Vec<u8> },
    /// The queue delivered a message for the server.
    Outgoing(Outgoing),
    /// The connection failed.
    Failed(Failure),
}

/// What the caller is to do next.
#[derive(Debug)]
#[allow(inconsistent_fields)]
pub enum WorkerAction {
    /// Write the header that names the client, then report `Identified`.
    Identify(ToServer),
    /// Write this header, then wait for the stream and the queue.
    Resend(ToServer),
    /// Wait for the next header of the stream or the next message of the queue,
    /// whichever comes first.
    Wait,
    /// Read `len` raw bytes from the stream, then report them as the payload of
    /// `header`.
    ReadPayload { header: FromServer, len: u64 },
    /// Put the frame on the channel to the consumers, then wait.
    Forward(Frame),
    /// Send `count` to each of `waiters`, whether or not it still listens
    /// ([`notify_waiters`]), then wait.
    Notify { count: usize, waiters: Vec<flume::Sender<usize>> },
    /// Write the header, then the payload if there is one, then tell `confirm` if
    /// there is one, then wait.
    Write { header: ToServer, payload: Option<Vec<u8>>, confirm: Option<flume::Sender<()>> },
    /// Leave the connection.
    Exit(Error),
}

#[allow(inconsistent_fields)]
pub enum WorkerActionView {
    Identify(ToServerView),
    Resend(ToServerView),
    Wait,
    ReadPayload { header: FromServerView, len: u64 },
    Forward(FrameView),
    Notify { count: usize, waiters: Seq<flume::Sender<usize>> },
    Write { header: ToServerView, payload: Option<Seq<u8>>, confirm: Option<flume::Sender<()>> },
    Exit(Error),
}

impl View for WorkerAction {
    type V = WorkerActionView;

    open spec fn view(&self) -> WorkerActionView {
        match *self {
            WorkerAction::Identify(header) => WorkerActionView::Identify(header@),
            WorkerAction::Resend(header) => WorkerActionView::Resend(header@),
            WorkerAction::Wait => WorkerActionView::Wait,
            WorkerAction::ReadPayload { header, len } => WorkerActionView::ReadPayload {
                header: header@,
                len,
            },
            WorkerAction::Forward(frame) => WorkerActionView::Forward(frame@),
            WorkerAction::Notify { count, waiters } => WorkerActionView::Notify {
                count,
                waiters: waiters@,
            },
            WorkerAction::Write { header, payload, confirm } => WorkerActionView::Write {
                header: header@,
                payload: match payload {
                    Some(bytes) => Some(bytes@),
                    None => None,
                },
                confirm,
            },
            WorkerAction::Exit(error) => WorkerActionView::Exit(error),
        }
    }
}

/// The error that ends a connection after `failure`.
pub open spec fn exit_error(failure: Failure) -> Error {
    match failure {
        Failure::Stream(e) => Error::from_spec(e),
        Failure::InboundClosed => Error::FailedToReceive,
        Failure::OutboundClosed => Error::FailedToSend,
    }
}

/// The action with which the worker answers `event` in the state `inner`.
///
/// A new connection begins with the header that names the client. Once that is
/// written, the request for the client count is sent again if anyone still
/// waits for the count. A header of a message that announces raw bytes is
/// completed by reading them; one that announces none, and every membership
/// change, goes on to the consumers at once, with an empty payload. A client
/// count goes to all who wait for it. The configuration is ignored here, and
/// the start signal only changes the state.
pub open spec fn worker_action(inner: InnerView, event: WorkerEvent) -> WorkerActionView {
    match event {
        WorkerEvent::Connected => WorkerActionView::Identify(
            ToServerView::Identify { key: inner.own_key },
        ),
        WorkerEvent::Identified => if inner.request_client_count_sender.len() > 0 {
            WorkerActionView::Resend(ToServerView::RequestClientCount)
        } else {
            WorkerActionView::Wait
        },
        WorkerEvent::Header(header) => match header {
            FromServer::NodeConnected { .. } | FromServer::NodeDisconnected { .. } => {
                WorkerActionView::Forward(FrameView { header: header@, payload: Seq::empty() })
            },
            FromServer::Broadcast { .. }
            | FromServer::Direct { .. }
            | FromServer::BroadcastPayload { .. }
            | FromServer::DirectPayload { .. } => if header@.has_payload() {
                WorkerActionView::ReadPayload { header: header@, len: header@.payload_len() }
            } else {
                WorkerActionView::Forward(FrameView { header: header@, payload: Seq::empty() })
            },
            FromServer::ClientCount(count) => WorkerActionView::Notify {
                count,
                waiters: inner.request_client_count_sender,
            },
            FromServer::Config { .. } => WorkerActionView::Wait,
            FromServer::Start => WorkerActionView::Wait,
        },
        WorkerEvent::Payload { header, payload } => WorkerActionView::Forward(
            FrameView { header: header@, payload: payload@ },
        ),
        WorkerEvent::Outgoing(outgoing) => WorkerActionView::Write {
            header: outgoing.header@,
            payload: if outgoing.payload@.len() > 0 {
                Some(outgoing.payload@)
            } else {
                None
            },
            confirm: outgoing.confirm,
        },
        WorkerEvent::Failed(failure) => WorkerActionView::Exit(exit_error(failure)),
    }
}

/// The state in which `event` leaves the client that was in the state `inner`.
///
/// The client is connected once it has named itself. A client count answers
/// all who wait for one. The start signal makes the run ready, and nothing
/// unmakes it.
pub open spec fn inner_after(inner: InnerView, event: WorkerEvent) -> InnerView {
    match event {
        WorkerEvent::Identified => InnerView { connected: true, ..inner },
        WorkerEvent::Header(FromServer::ClientCount(_)) => InnerView {
            request_client_count_sender: Seq::empty(),
            ..inner
        },
        WorkerEvent::Header(FromServer::Start) => InnerView { run_ready: true, ..inner },
        _ => inner,
    }
}

/// One step of the background worker on a connection: takes in `event` and
/// answers with what is to be done next.
pub fn run_background(event: WorkerEvent, connection: &mut Inner) -> (action: WorkerAction)
    ensures
        action@ == worker_action(old(connection)@, event),
        final(connection)@ == inner_after(old(connection)@, event),
{
    match event {
        WorkerEvent::Connected => WorkerAction::Identify(
            ToServer::Identify { key: connection.own_key.clone() },
        ),
        WorkerEvent::Identified => {
            connection.connected = true;
            if connection.request_client_count_sender.len() > 0 {
                WorkerAction::Resend(ToServer::RequestClientCount)
            } else {
                WorkerAction::Wait
            }
        },
        WorkerEvent::Header(header) => match header {
            FromServer::NodeConnected { .. } | FromServer::NodeDisconnected { .. } => {
                WorkerAction::Forward(Frame { header, payload: Vec::new() })
            },
            FromServer::Broadcast { .. }
            | FromServer::Direct { .. }
            | FromServer::BroadcastPayload { .. }
            | FromServer::DirectPayload { .. } => {
                if header.has_payload() {
                    let len = header.payload_len();
                    WorkerAction::ReadPayload { header, len }
                } else {
                    WorkerAction::Forward(Frame { header, payload: Vec::new() })
                }
            },
            FromServer::ClientCount(count) => {
                let mut waiters: Vec<flume::Sender<usize>> = Vec::new();
                std::mem::swap(&mut waiters, &mut connection.request_client_count_sender);
                WorkerAction::Notify { count, waiters }
            },
            FromServer::Config { .. } => WorkerAction::Wait,
            FromServer::Start => {
                connection.run_ready = true;
                WorkerAction::Wait
            },
        },
        WorkerEvent::Payload { header, payload } => WorkerAction::Forward(
            Frame { header, payload },
        ),
        WorkerEvent::Outgoing(outgoing) => {
            let Outgoing { header, payload, confirm } = outgoing;
            let payload = if payload.len() > 0 {
                Some(payload)
            } else {
                None
            };
            WorkerAction::Write { header, payload, confirm }
        },
        WorkerEvent::Failed(failure) => WorkerAction::Exit(
            match failure {
                Failure::Stream(e) => Error::from(e),
                Failure::InboundClosed => Error::FailedToReceive,
                Failure::OutboundClosed => Error::FailedToSend,
            },
        ),
    }
}

/// `flume::Sender::try_send`: offers `count` to the channel of `waiter` without
/// waiting. Whether the channel takes it depends on its receiver, which may be
/// gone or not have taken an earlier value, so nothing is said of the result.
#[verifier::external_body]
fn try_send(waiter: &flume::Sender<usize>, count: usize) -> (taken: bool) {
    waiter.try_send(count).is_ok()
}

/// Sends `count` to each of `waiters`, in their order, whether or not it still
/// listens. Returns how many of them took it.
pub fn notify_waiters(count: usize, waiters: Vec<flume::Sender<usize>>) -> (taken: usize)
    ensures
        taken <= waiters@.len(),
{
    let mut taken: usize = 0;
    let n: usize = waiters.len();
    let mut i: usize = 0;
    while i < n
        invariant
            0 <= i <= n,
            n == waiters@.len(),
            taken <= i,
        decreases n - i,
    {
        if try_send(&waiters[i], count) {
            taken = taken + 1;
        }
        i = i + 1;
    }
    taken
}

} // verus!
