//! The headers exchanged with the central server, and the frames built on them.
//!
//! A participant is named by the bytes of its public key. The wire encoding of a
//! header is the business of the framed stream; the values here are what the
//! client's logic reads of a header once it is decoded.

use vstd::prelude::*;

verus! {

/// The view of a list of keys: the byte string of each, in order.
pub open spec fn keys_view(keys: Seq<Vec<u8>>) -> Seq<Seq<u8>> {
    keys.map_values(|k: Vec<u8>| k@)
}

/// The index of a run on the server.
#[derive(Debug, Clone, Copy, PartialEq, Eq)]
pub struct Run(pub usize);

/// What the client reads of the configuration that the server hands out.
#[derive(Debug, Clone, PartialEq, Eq)]
pub struct NetworkConfig {
    /// The seed from which every node derives its signing key.
    pub seed: [u8; 32],
    /// The index of this node among the nodes of the run.
    pub node_index: u64,
    /// The keys of all nodes of the run.
    pub known_nodes: Vec<Vec<u8>>,
}

pub struct NetworkConfigView {
    pub seed: Seq<u8>,
    pub node_index: u64,
    pub known_nodes: Seq<Seq<u8>>,
}

impl View for NetworkConfig {
    type V = NetworkConfigView;

    open spec fn view(&self) -> NetworkConfigView {
        NetworkConfigView {
            seed: self.seed@,
            node_index: self.node_index,
            known_nodes: keys_view(self.known_nodes@),
        }
    }
}

/// A header sent by the server.
#[derive(Debug, Clone, PartialEq, Eq)]
pub enum FromServer {
    /// A node joined.
    NodeConnected { key: Vec<u8> },
    /// A node left.
    NodeDisconnected { key: Vec<u8> },
    /// Starts a broadcast of `message_len` bytes from `source`; `payload_len` of them
    /// follow this header.
    Broadcast { source: Vec<u8>, message_len: u64, payload_len: u64 },
    /// Continues the broadcast that `source` has in progress.
    BroadcastPayload { source: Vec<u8>, payload_len: u64 },
    /// Starts a direct message of `message_len` bytes from `source`; `payload_len` of
    /// them follow this header.
    Direct { source: Vec<u8>, message_len: u64, payload_len: u64 },
    /// Continues the direct message that `source` has in progress.
    DirectPayload { source: Vec<u8>, payload_len: u64 },
    /// The number of clients connected to the server.
    ClientCount(usize),
    /// The configuration of a run.
    Config { config: NetworkConfig, run: Run },
    /// The run may begin.
    Start,
}

pub enum FromServerView {
    NodeConnected { key: Seq<u8> },
    NodeDisconnected { key: Seq<u8> },
    Broadcast { source: Seq<u8>, message_len: u64, payload_len: u64 },
    BroadcastPayload { source: Seq<u8>, payload_len: u64 },
    Direct { source: Seq<u8>, message_len: u64, payload_len: u64 },
    DirectPayload { source: Seq<u8>, payload_len: u64 },
    ClientCount(usize),
    Config { config: NetworkConfigView, run: Run },
    Start,
}

impl View for FromServer {
    type V = FromServerView;

    open spec fn view(&self) -> FromServerView {
        match *self {
            FromServer::NodeConnected { key } => FromServerView::NodeConnected { key: key@ },
            FromServer::NodeDisconnected { key } => FromServerView::NodeDisconnected { key: key@ },
            FromServer::Broadcast { source, message_len, payload_len } => FromServerView::Broadcast {
                source: source@,
                message_len,
                payload_len,
            },
            FromServer::BroadcastPayload { source, payload_len } => FromServerView::BroadcastPayload {
                source: source@,
                payload_len,
            },
            FromServer::Direct { source, message_len, payload_len } => FromServerView::Direct {
                source: source@,
                message_len,
                payload_len,
            },
            FromServer::DirectPayload { source, payload_len } => FromServerView::DirectPayload {
                source: source@,
                payload_len,
            },
            FromServer::ClientCount(count) => FromServerView::ClientCount(count),
            FromServer::Config { config, run } => FromServerView::Config { config: config@, run },
            FromServer::Start => FromServerView::Start,
        }
    }
}

impl FromServerView {
    /// The number of raw bytes that the header announces; 0 where none follow.
    pub open spec fn payload_len(self) -> u64 {
        match self {
            FromServerView::Broadcast { payload_len, .. } => payload_len,
            FromServerView::BroadcastPayload { payload_len, .. } => payload_len,
            FromServerView::Direct { payload_len, .. } => payload_len,
            FromServerView::DirectPayload { payload_len, .. } => payload_len,
            _ => 0,
        }
    }

    /// Whether raw bytes follow the header on the wire.
    pub open spec fn has_payload(self) -> bool {
        self.payload_len() > 0
    }
}

impl FromServer {
    /// Whether raw bytes follow this header on the wire.
    pub fn has_payload(&self) -> (b: bool)
        ensures
            b == self@.has_payload(),
    {
        self.payload_len() > 0
    }

    /// The number of raw bytes that this header announces; 0 where none follow.
    pub fn payload_len(&self) -> (len: u64)
        ensures
            len == self@.payload_len(),
    {
        match self {
            FromServer::Broadcast { payload_len, .. } => *payload_len,
            FromServer::BroadcastPayload { payload_len, .. } => *payload_len,
            FromServer::Direct { payload_len, .. } => *payload_len,
            FromServer::DirectPayload { payload_len, .. } => *payload_len,
            _ => 0,
        }
    }
}

/// A header sent to the server.
#[derive(Debug, Clone, PartialEq, Eq)]
pub enum ToServer {
    /// Names the client; the first header on every connection.
    Identify { key: Vec<u8> },
    /// A broadcast of `message_len` bytes, which follow the header.
    Broadcast { message_len: u64 },
    /// A direct message of `message_len` bytes for `target`, which follow the header.
    Direct { target: Vec<u8>, message_len: u64 },
    /// Asks for the number of connected clients.
    RequestClientCount,
    /// Asks for the configuration of the run.
    GetConfig,
    /// The encoded results of a run.
    Results(Vec<u8>),
}

pub enum ToServerView {
    Identify { key: Seq<u8> },
    Broadcast { message_len: u64 },
    Direct { target: Seq<u8>, message_len: u64 },
    RequestClientCount,
    GetConfig,
    Results(Seq<u8>),
}

impl View for ToServer {
    type V = ToServerView;

    open spec fn view(&self) -> ToServerView {
        match *self {
            ToServer::Identify { key } => ToServerView::Identify { key: key@ },
            ToServer::Broadcast { message_len } => ToServerView::Broadcast { message_len },
            ToServer::Direct { target, message_len } => ToServerView::Direct {
                target: target@,
                message_len,
            },
            ToServer::RequestClientCount => ToServerView::RequestClientCount,
            ToServer::GetConfig => ToServerView::GetConfig,
            ToServer::Results(results) => ToServerView::Results(results@),
        }
    }
}

/// A change in the membership of the network.
#[derive(Debug, Clone, PartialEq, Eq)]
pub enum NetworkChange {
    /// The node with this key joined.
    NodeConnected(Vec<u8>),
    /// The node with this key left.
    NodeDisconnected(Vec<u8>),
}

pub enum NetworkChangeView {
    NodeConnected(Seq<u8>),
    NodeDisconnected(Seq<u8>),
}

impl View for NetworkChange {
    type V = NetworkChangeView;

    open spec fn view(&self) -> NetworkChangeView {
        match *self {
            NetworkChange::NodeConnected(key) => NetworkChangeView::NodeConnected(key@),
            NetworkChange::NodeDisconnected(key) => NetworkChangeView::NodeDisconnected(key@),
        }
    }
}

/// One header with the raw bytes that followed it on the wire.
#[derive(Debug, Clone, PartialEq, Eq)]
pub struct Frame {
    pub header: FromServer,
    pub payload: Vec<u8>,
}

pub struct FrameView {
    pub header: FromServerView,
    pub payload: Seq<u8>,
}

impl View for Frame {
    type V = FrameView;

    open spec fn view(&self) -> FrameView {
        FrameView { header: self.header@, payload: self.payload@ }
    }
}

/// The view of a queue of frames: the view of each, in order.
pub open spec fn frames_view(frames: Seq<Frame>) -> Seq<FrameView> {
    frames.map_values(|f: Frame| f@)
}

} // verus!
