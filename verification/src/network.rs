//! The client of the central server: its state and its operations.
//!
//! The operations here decide and compute; they touch no socket and no channel.
//! An operation that sends hands back what is to be put on the queue for the
//! server or on the channel of received frames, and the caller puts it there.

use crate::error::NetworkError;
use crate::protocol::{
    keys_view, Frame, FrameView, FromServer, FromServerView, NetworkConfig, Run, ToServer,
    ToServerView,
};
use crate::context_map::bytes_equal;
use vstd::prelude::*;

verus! {

/// `flume::Sender`, the sending end of a channel. The library keeps such ends for
/// those who wait for an answer and hands them back when the answer is there; it
/// never sends on one.
#[verifier::external_type_specification]
#[verifier::external_body]
#[verifier::reject_recursive_types(T)]
pub struct ExSender<T>(flume::Sender<T>);

/// The seconds to wait before a failed attempt to reach the server is repeated.
pub const RETRY_SECS: u64 = 5;

/// The seconds between two looks at whether the client is connected.
pub const READY_POLL_SECS: u64 = 1;

/// A message for the server, as it lies on the queue to the background worker.
#[derive(Debug)]
pub struct Outgoing {
    /// The header to write.
    pub header: ToServer,
    /// The raw bytes to write after the header; none where it is empty.
    pub payload: Vec<u8>,
    /// Whom to tell when the message is written.
    pub confirm: Option<flume::Sender<()>>,
}

pub struct OutgoingView {
    pub header: ToServerView,
    pub payload: Seq<u8>,
    pub confirm: Option<flume::Sender<()>>,
}

impl View for Outgoing {
    type V = OutgoingView;

    open spec fn view(&self) -> OutgoingView {
        OutgoingView { header: self.header@, payload: self.payload@, confirm: self.confirm }
    }
}

/// What a broadcast puts where.
#[derive(Debug)]
pub struct Broadcast {
    /// For the queue to the server. It goes there first.
    pub to_server: Outgoing,
    /// For the channel of received frames, so that the sender sees its own
    /// broadcast.
    pub loopback: Frame,
}

/// What a direct message puts where.
#[derive(Debug)]
pub enum DirectMessage {
    /// The message is for the sender itself: it goes on the channel of received
    /// frames, and nothing goes to the server.
    Loopback(Frame),
    /// The message goes on the queue to the server.
    ToServer(Outgoing),
}

/// The frame in which a broadcast of `source` comes whole.
pub open spec fn broadcast_frame(source: Seq<u8>, message: Seq<u8>) -> FrameView {
    FrameView {
        header: FromServerView::Broadcast {
            source,
            message_len: message.len() as u64,
            payload_len: message.len() as u64,
        },
        payload: message,
    }
}

/// The frame in which a direct message of `source` comes whole.
pub open spec fn direct_frame(source: Seq<u8>, message: Seq<u8>) -> FrameView {
    FrameView {
        header: FromServerView::Direct {
            source,
            message_len: message.len() as u64,
            payload_len: message.len() as u64,
        },
        payload: message,
    }
}

/// The state that the operations of the client and its background worker share.
#[derive(Debug)]
pub struct Inner {
    /// The key that names this client to the server.
    pub own_key: Vec<u8>,
    /// The keys of all nodes of the network.
    pub known_nodes: Vec<Vec<u8>>,
    /// Whether the stream to the server stands.
    pub connected: bool,
    /// Whether the client is still running.
    pub running: bool,
    /// Those who wait for the number of connected clients, in the order in which
    /// they asked.
    pub request_client_count_sender: Vec<flume::Sender<usize>>,
    /// Whether the server has said that the run may begin.
    pub run_ready: bool,
}

pub struct InnerView {
    pub own_key: Seq<u8>,
    pub known_nodes: Seq<Seq<u8>>,
    pub connected: bool,
    pub running: bool,
    pub request_client_count_sender: Seq<flume::Sender<usize>>,
    pub run_ready: bool,
}

impl View for Inner {
    type V = InnerView;

    open spec fn view(&self) -> InnerView {
        InnerView {
            own_key: self.own_key@,
            known_nodes: keys_view(self.known_nodes@),
            connected: self.connected,
            running: self.running,
            request_client_count_sender: self.request_client_count_sender@,
            run_ready: self.run_ready,
        }
    }
}

/// A copy of a list of keys.
pub fn clone_keys(keys: &Vec<Vec<u8>>) -> (copy: Vec<Vec<u8>>)
    ensures
        keys_view(copy@) == keys_view(keys@),
{
    let mut copy: Vec<Vec<u8>> = Vec::new();
    let n: usize = keys.len();
    let mut i: usize = 0;
    while i < n
        invariant
            0 <= i <= n,
            n == keys@.len(),
            copy@.len() == i,
            forall|j: int| 0 <= j < i ==> (#[trigger] copy@[j])@ == keys@[j]@,
        decreases n - i,
    {
        copy.push(keys[i].clone());
        i = i + 1;
    }
    assert(keys_view(copy@) =~= keys_view(keys@));
    copy
}

impl Inner {
    /// Sends a broadcast: the message goes to the server, and a frame that carries
    /// it whole, with this client as its source, goes on the channel of received
    /// frames.
    pub fn broadcast(&self, message: Vec<u8>) -> (sent: Broadcast)
        ensures
            sent.to_server@ == (OutgoingView {
                header: ToServerView::Broadcast { message_len: message@.len() as u64 },
                payload: message@,
                confirm: None,
            }),
            sent.loopback@ == broadcast_frame(self.own_key@, message@),
    {
        let message_len: u64 = message.len() as u64;
        Broadcast {
            to_server: Outgoing {
                header: ToServer::Broadcast { message_len },
                payload: message.clone(),
                confirm: None,
            },
            loopback: Frame {
                header: FromServer::Broadcast {
                    source: self.own_key.clone(),
                    message_len,
                    payload_len: message_len,
                },
                payload: message,
            },
        }
    }

    /// Sends a direct message to `target`. One for this client itself goes on the
    /// channel of received frames, whole, and not to the server; any other goes to
    /// the server.
    pub fn direct_message(&self, target: Vec<u8>, message: Vec<u8>) -> (sent: DirectMessage)
        ensures
            target@ == self.own_key@ ==> (sent matches DirectMessage::Loopback(frame) && frame@
                == direct_frame(self.own_key@, message@)),
            target@ != self.own_key@ ==> (sent matches DirectMessage::ToServer(outgoing)
                && outgoing@ == (OutgoingView {
                header: ToServerView::Direct { target: target@, message_len: message@.len() as u64 },
                payload: message@,
                confirm: None,
            })),
    {
        let message_len: u64 = message.len() as u64;
        if bytes_equal(&target, &self.own_key) {
            DirectMessage::Loopback(
                Frame {
                    header: FromServer::Direct {
                        source: self.own_key.clone(),
                        message_len,
                        payload_len: message_len,
                    },
                    payload: message,
                },
            )
        } else {
            DirectMessage::ToServer(
                Outgoing {
                    header: ToServer::Direct { target, message_len },
                    payload: message,
                    confirm: None,
                },
            )
        }
    }

    /// Asks the server for the number of connected clients: `sender` joins those
    /// who wait for the answer, and the request goes on the queue to the server.
    pub fn request_client_count(&mut self, sender: flume::Sender<usize>) -> (request: Outgoing)
        ensures
            final(self)@ == (InnerView {
                request_client_count_sender: old(self)@.request_client_count_sender.push(sender),
                ..old(self)@
            }),
            request@ == (OutgoingView {
                header: ToServerView::RequestClientCount,
                payload: Seq::empty(),
                confirm: None,
            }),
    {
        self.request_client_count_sender.push(sender);
        Outgoing { header: ToServer::RequestClientCount, payload: Vec::new(), confirm: None }
    }

    /// Ends a connection: the client is no longer connected. Returns whether the
    /// worker is to connect again, which it is as long as the client runs.
    pub fn connection_closed(&mut self) -> (reconnect: bool)
        ensures
            final(self)@ == (InnerView { connected: false, ..old(self)@ }),
            reconnect == old(self).running,
    {
        self.connected = false;
        self.running
    }
}

/// What came of one round of asking the server for its configuration.
#[derive(Debug)]
pub enum ConfigReply {
    /// The server could not be reached.
    ConnectFailed,
    /// The request could not be written.
    RequestFailed,
    /// No header could be read.
    ReceiveFailed,
    /// The server answered with this header.
    Received(FromServer),
}

/// How the dialog for the configuration goes on.
#[derive(Debug)]
pub enum ConfigStep {
    /// Wait for `secs` seconds, then connect and ask again.
    RetryAfter { secs: u64 },
    /// The server has sent its configuration and the index of the run.
    Configured { config: NetworkConfig, run: Run },
}

/// Whether the client can be used yet.
#[derive(Debug, Clone, Copy, PartialEq, Eq)]
pub enum Ready {
    /// The client is connected.
    Now,
    /// The client is not connected: look again after `secs` seconds.
    After { secs: u64 },
}

/// A client of the central server.
#[derive(Debug)]
pub struct CentralizedServerNetwork {
    /// The state shared with the background worker.
    pub inner: Inner,
}

impl CentralizedServerNetwork {
    /// One round of the dialog that fetches the configuration from the server: the
    /// client connects, asks for the configuration and reads one header. The
    /// dialog ends when that header is the configuration; after anything else the
    /// round is repeated, five seconds later.
    pub fn connect_with_server_config(reply: ConfigReply) -> (step: ConfigStep)
        ensures
            match reply {
                ConfigReply::Received(FromServer::Config { config, run }) => step
                    == (ConfigStep::Configured { config, run }),
                _ => step == (ConfigStep::RetryAfter { secs: RETRY_SECS }),
            },
    {
        match reply {
            ConfigReply::Received(FromServer::Config { config, run }) => ConfigStep::Configured {
                config,
                run,
            },
            _ => ConfigStep::RetryAfter { secs: RETRY_SECS },
        }
    }

    /// A client for the network of `known_nodes` that names itself by `key`.
    pub fn connect(known_nodes: Vec<Vec<u8>>, key: Vec<u8>) -> (network: Self)
        ensures
            network.inner@ == (InnerView {
                own_key: key@,
                known_nodes: keys_view(known_nodes@),
                connected: false,
                running: true,
                request_client_count_sender: Seq::empty(),
                run_ready: false,
            }),
    {
        Self::create(known_nodes, key)
    }

    /// The state of a new client: it runs, it is not connected, nobody waits for a
    /// client count, and the run has not been started.
    pub fn create(known_nodes: Vec<Vec<u8>>, key: Vec<u8>) -> (network: Self)
        ensures
            network.inner@ == (InnerView {
                own_key: key@,
                known_nodes: keys_view(known_nodes@),
                connected: false,
                running: true,
                request_client_count_sender: Seq::empty(),
                run_ready: false,
            }),
    {
        CentralizedServerNetwork {
            inner: Inner {
                own_key: key,
                known_nodes,
                connected: false,
                running: true,
                request_client_count_sender: Vec::new(),
                run_ready: false,
            },
        }
    }

    /// Sends the encoded results of a run to the server. `confirm` is told when
    /// they are written.
    pub fn send_results(&self, results: Vec<u8>, confirm: flume::Sender<()>) -> (sent: Outgoing)
        ensures
            sent@ == (OutgoingView {
                header: ToServerView::Results(results@),
                payload: Seq::empty(),
                confirm: Some(confirm),
            }),
    {
        Outgoing { header: ToServer::Results(results), payload: Vec::new(), confirm: Some(confirm) }
    }

    /// Whether the server has said that the run may begin.
    pub fn run_ready(&self) -> (ready: bool)
        ensures
            ready == self.inner.run_ready,
    {
        self.inner.run_ready
    }

    /// Asks for the number of clients that are connected to the server. The answer
    /// comes to the receiving end of `sender`.
    pub fn get_connected_client_count(&mut self, sender: flume::Sender<usize>) -> (request:
        Outgoing)
        ensures
            final(self).inner@ == (InnerView {
                request_client_count_sender: old(self).inner@.request_client_count_sender.push(
                    sender,
                ),
                ..old(self).inner@
            }),
            request@ == (OutgoingView {
                header: ToServerView::RequestClientCount,
                payload: Seq::empty(),
                confirm: None,
            }),
    {
        self.inner.request_client_count(sender)
    }

    /// Whether the client is connected; where it is not, the caller looks again a
    /// second later.
    pub fn ready(&self) -> (ready: Ready)
        ensures
            ready == (if self.inner.connected {
                Ready::Now
            } else {
                Ready::After { secs: READY_POLL_SECS }
            }),
    {
        if self.inner.connected {
            Ready::Now
        } else {
            Ready::After { secs: READY_POLL_SECS }
        }
    }

    /// Broadcasts a message, given what its encoder returned. A message that could
    /// not be encoded is not sent.
    pub fn broadcast_message(&self, message: Result<Vec<u8>, bincode::Error>) -> (sent: Result<
        Broadcast,
        NetworkError,
    >)
        ensures
            match message {
                Ok(bytes) => sent matches Ok(b) && b.to_server@ == (OutgoingView {
                    header: ToServerView::Broadcast { message_len: bytes@.len() as u64 },
                    payload: bytes@,
                    confirm: None,
                }) && b.loopback@ == broadcast_frame(self.inner.own_key@, bytes@),
                Err(source) => sent matches Err(e) && e == (NetworkError::FailedToSerialize {
                    source,
                }),
            },
    {
        match message {
            Ok(bytes) => Ok(self.inner.broadcast(bytes)),
            Err(source) => Err(NetworkError::FailedToSerialize { source }),
        }
    }

    /// Sends a message to `recipient`, given what its encoder returned. A message
    /// that could not be encoded is not sent.
    pub fn message_node(&self, message: Result<Vec<u8>, bincode::Error>, recipient: Vec<u8>) -> (sent:
        Result<DirectMessage, NetworkError>)
        ensures
            match message {
                Ok(bytes) => {
                    &&& recipient@ == self.inner.own_key@ ==> (sent matches Ok(
                        DirectMessage::Loopback(frame),
                    ) && frame@ == direct_frame(self.inner.own_key@, bytes@))
                    &&& recipient@ != self.inner.own_key@ ==> (sent matches Ok(
                        DirectMessage::ToServer(outgoing),
                    ) && outgoing@ == (OutgoingView {
                        header: ToServerView::Direct {
                            target: recipient@,
                            message_len: bytes@.len() as u64,
                        },
                        payload: bytes@,
                        confirm: None,
                    }))
                },
                Err(source) => sent matches Err(e) && e == (NetworkError::FailedToSerialize {
                    source,
                }),
            },
    {
        match message {
            Ok(bytes) => Ok(self.inner.direct_message(recipient, bytes)),
            Err(source) => Err(NetworkError::FailedToSerialize { source }),
        }
    }

    /// The decoded broadcasts of one extraction, or the first failure of the
    /// decoder, which fails the whole batch.
    pub fn broadcast_queue<M>(decoded: Vec<Result<M, bincode::Error>>) -> (batch: Result<
        Vec<M>,
        NetworkError,
    >)
        ensures
            all_decoded(decoded@, batch),
    {
        collect_decoded(decoded)
    }

    /// The decoded direct messages of one extraction, or the first failure of the
    /// decoder, which fails the whole batch.
    pub fn direct_queue<M>(decoded: Vec<Result<M, bincode::Error>>) -> (batch: Result<
        Vec<M>,
        NetworkError,
    >)
        ensures
            all_decoded(decoded@, batch),
    {
        collect_decoded(decoded)
    }

    /// The next broadcast, given what the decoder made of its bytes.
    pub fn next_broadcast<M>(decoded: Result<M, bincode::Error>) -> (message: Result<
        M,
        NetworkError,
    >)
        ensures
            match decoded {
                Ok(m) => message == Ok::<M, NetworkError>(m),
                Err(source) => message == Err::<M, NetworkError>(
                    NetworkError::FailedToDeserialize { source },
                ),
            },
    {
        match decoded {
            Ok(m) => Ok(m),
            Err(source) => Err(NetworkError::FailedToDeserialize { source }),
        }
    }

    /// The next direct message, given what the decoder made of its bytes.
    pub fn next_direct<M>(decoded: Result<M, bincode::Error>) -> (message: Result<M, NetworkError>)
        ensures
            match decoded {
                Ok(m) => message == Ok::<M, NetworkError>(m),
                Err(source) => message == Err::<M, NetworkError>(
                    NetworkError::FailedToDeserialize { source },
                ),
            },
    {
        match decoded {
            Ok(m) => Ok(m),
            Err(source) => Err(NetworkError::FailedToDeserialize { source }),
        }
    }

    /// What a blocking extraction fails with when the channel is closed.
    pub fn channel_disconnected<M>() -> (message: Result<M, NetworkError>)
        ensures
            message == Err::<M, NetworkError>(NetworkError::ChannelDisconnected),
    {
        Err(NetworkError::ChannelDisconnected)
    }

    /// The keys of all nodes of the network.
    pub fn known_nodes(&self) -> (nodes: Vec<Vec<u8>>)
        ensures
            keys_view(nodes@) == keys_view(self.inner.known_nodes@),
    {
        clone_keys(&self.inner.known_nodes)
    }

    /// Stops the client: the background worker opens no connection any more.
    pub fn shut_down(&mut self)
        ensures
            final(self).inner@ == (InnerView { running: false, ..old(self).inner@ }),
    {
        self.inner.running = false;
    }

    /// Storing a record always fails: a central server keeps none.
    pub fn put_record(&self) -> (stored: Result<(), NetworkError>)
        ensures
            stored == Err::<(), NetworkError>(NetworkError::DHTError),
    {
        Err(NetworkError::DHTError)
    }

    /// Looking up a record always fails: a central server keeps none.
    pub fn get_record<V>(&self) -> (found: Result<V, NetworkError>)
        ensures
            found == Err::<V, NetworkError>(NetworkError::DHTError),
    {
        Err(NetworkError::DHTError)
    }

    /// The number of messages under way, which a client of a central server does
    /// not know.
    pub fn in_flight_message_count(&self) -> (count: Option<usize>)
        ensures
            count is None,
    {
        None
    }
}

/// `batch` is what a list of decoded messages comes to: all of them, in their
/// order, where every one was decoded, and else the failure of the first that
/// was not.
pub open spec fn all_decoded<M>(
    decoded: Seq<Result<M, bincode::Error>>,
    batch: Result<Vec<M>, NetworkError>,
) -> bool {
    match batch {
        Ok(messages) => {
            &&& messages@.len() == decoded.len()
            &&& forall|i: int|
                0 <= i < decoded.len() ==> #[trigger] decoded[i] == Ok::<M, bincode::Error>(
                    messages@[i],
                )
        },
        Err(e) => exists|i: int|
            {
                &&& 0 <= i < decoded.len()
                &&& forall|j: int| 0 <= j < i ==> #[trigger] decoded[j] is Ok
                &&& #[trigger] decoded[i] matches Err(source)
                &&& e == (NetworkError::FailedToDeserialize { source })
            },
    }
}

/// Collects decoded messages up to the first that failed to decode.
fn collect_decoded<M>(decoded: Vec<Result<M, bincode::Error>>) -> (batch: Result<
    Vec<M>,
    NetworkError,
>)
    ensures
        all_decoded(decoded@, batch),
{
    let ghost all = decoded@;
    let mut messages: Vec<M> = Vec::new();
    for item in it: decoded.into_iter()
        invariant
            it.seq() == all,
            messages@.len() == it.index(),
            forall|i: int|
                0 <= i < it.index() ==> #[trigger] all[i] == Ok::<M, bincode::Error>(messages@[i]),
    {
        assert(all[it.index()] == item);
        match item {
            Ok(message) => {
                messages.push(message);
            },
            Err(source) => {
                let batch = Err(NetworkError::FailedToDeserialize { source });
                assert(all_decoded(all, batch)) by {
                    let i = it.index();
                    assert forall|j: int| 0 <= j < i implies #[trigger] all[j] is Ok by {
                        assert(all[j] == Ok::<M, bincode::Error>(messages@[j]));
                    }
                    assert(all[i] matches Err(s) && s == source);
                }
                return batch;
            },
        }
    }
    Ok(messages)
}

} // verus!
