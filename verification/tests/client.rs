use centralized_network::error::{Error, NetworkError, StreamError};
use centralized_network::network::{
    CentralizedServerNetwork, ConfigReply, ConfigStep, DirectMessage, Inner, Ready,
    READY_POLL_SECS, RETRY_SECS,
};
use centralized_network::protocol::{Frame, FromServer, NetworkConfig, Run, ToServer};
use centralized_network::queue::{
    get_broadcasts, get_next_broadcast, get_next_direct_message, remove_indexes,
    remove_next_message_from_queue, NextStep,
};
use centralized_network::reassembly::{Extracted, Selector};
use centralized_network::worker::{
    notify_waiters, run_background, Failure, WorkerAction, WorkerEvent,
};

fn client(key: u8) -> CentralizedServerNetwork {
    CentralizedServerNetwork::connect(vec![vec![1], vec![2], vec![3]], vec![key])
}

fn direct(source: u8, message_len: u64, payload: Vec<u8>) -> Frame {
    Frame {
        header: FromServer::Direct {
            source: vec![source],
            message_len,
            payload_len: payload.len() as u64,
        },
        payload,
    }
}

fn direct_payload(source: u8, payload: Vec<u8>) -> Frame {
    Frame {
        header: FromServer::DirectPayload { source: vec![source], payload_len: payload.len() as u64 },
        payload,
    }
}

fn encoded(value: u64) -> Result<Vec<u8>, bincode::Error> {
    bincode::serialize(&value)
}

fn decoding_failure() -> bincode::Error {
    bincode::deserialize::<u64>(&[1u8]).expect_err("one byte is no u64")
}

/// Feeds the frames of the channel to a blocking extraction until it completes.
fn drive(mut step: NextStep, channel: &mut Vec<Frame>) -> Option<centralized_network::queue::Completion> {
    loop {
        match step {
            NextStep::Complete(completion) => return Some(completion),
            NextStep::Pending(next) => {
                if channel.is_empty() {
                    return None;
                }
                step = next.receive(channel.remove(0));
            }
        }
    }
}

#[test]
fn new_client_runs_and_is_not_connected() {
    let network = client(2);
    assert_eq!(network.inner.own_key, vec![2]);
    assert_eq!(network.inner.known_nodes, vec![vec![1], vec![2], vec![3]]);
    assert!(network.inner.running);
    assert!(!network.inner.connected);
    assert!(!network.run_ready());
    assert!(network.inner.request_client_count_sender.is_empty());
    assert_eq!(network.known_nodes(), vec![vec![1], vec![2], vec![3]]);
    assert_eq!(network.in_flight_message_count(), None);
    assert_eq!(network.ready(), Ready::After { secs: 1 });
    assert_eq!(READY_POLL_SECS, 1);
}

#[test]
fn broadcast_goes_to_the_server_and_loops_back() {
    let network = client(2);
    let sent = network.inner.broadcast(vec![10, 20, 30]);
    assert_eq!(sent.to_server.header, ToServer::Broadcast { message_len: 3 });
    assert_eq!(sent.to_server.payload, vec![10, 20, 30]);
    assert!(sent.to_server.confirm.is_none());
    assert_eq!(
        sent.loopback,
        Frame {
            header: FromServer::Broadcast { source: vec![2], message_len: 3, payload_len: 3 },
            payload: vec![10, 20, 30],
        }
    );
}

#[test]
fn own_broadcast_is_seen_once_before_the_server_echoes() {
    let network = client(2);
    let message = encoded(77).expect("a number can be encoded");
    let sent = network.broadcast_message(Ok(message.clone())).expect("the message was encoded");
    // Only the loopback has arrived: nothing came from the socket yet.
    let mut queue: Vec<Frame> = Vec::new();
    let received = vec![sent.loopback];
    let found = get_broadcasts(&queue, &received);
    assert_eq!(found.results, vec![message]);
    let decoded: Vec<Result<u64, bincode::Error>> =
        found.results.iter().map(|bytes| bincode::deserialize(bytes)).collect();
    assert_eq!(
        CentralizedServerNetwork::broadcast_queue(decoded).expect("every message decodes"),
        vec![77]
    );
    if !found.unchanged {
        remove_indexes(&mut queue, received, &found.dead_indexes);
    }
    // The frame is taken up: the next extraction does not see it again.
    assert!(get_broadcasts(&queue, &Vec::new()).results.is_empty());
}

#[test]
fn direct_to_another_node_goes_to_the_server_only() {
    let network = client(2);
    match network.inner.direct_message(vec![3], vec![4, 5]) {
        DirectMessage::ToServer(outgoing) => {
            assert_eq!(outgoing.header, ToServer::Direct { target: vec![3], message_len: 2 });
            assert_eq!(outgoing.payload, vec![4, 5]);
            assert!(outgoing.confirm.is_none());
        }
        DirectMessage::Loopback(_) => panic!("node 3 is another node"),
    }
}

#[test]
fn direct_to_oneself_is_the_next_direct_and_never_leaves() {
    let network = client(2);
    let sent = network
        .message_node(encoded(5), vec![2])
        .expect("the message was encoded");
    let mut channel = match sent {
        DirectMessage::Loopback(frame) => vec![frame],
        DirectMessage::ToServer(_) => panic!("a message to oneself does not go to the server"),
    };
    let queue: Vec<Frame> = Vec::new();
    let completion =
        drive(get_next_direct_message(&queue), &mut channel).expect("the message is there");
    let bytes = match completion.ret {
        Extracted::Message(bytes) => bytes,
        Extracted::Change(_) => panic!("a direct message is a message"),
    };
    let message: Result<u64, NetworkError> =
        CentralizedServerNetwork::next_direct(bincode::deserialize(&bytes));
    assert_eq!(message.expect("the message decodes"), 5);
    assert_eq!(completion.indexes.to_vec(), vec![0]);
    assert!(completion.temp_queue.is_empty());
    assert!(completion.unchanged);
}

#[test]
fn next_direct_is_the_earlier_one_where_there_is_one() {
    let network = client(2);
    let own = match network.inner.direct_message(vec![2], vec![9]) {
        DirectMessage::Loopback(frame) => frame,
        DirectMessage::ToServer(_) => panic!("a message to oneself does not go to the server"),
    };
    let queue = vec![direct(1, 1, vec![4])];
    let mut channel = vec![own.clone()];
    let completion =
        drive(get_next_direct_message(&queue), &mut channel).expect("a message is there");
    assert_eq!(completion.ret, Extracted::Message(vec![4]));
    assert_eq!(completion.indexes.to_vec(), vec![0]);
    assert!(!completion.unchanged);
    assert_eq!(channel, vec![own]);
}

#[test]
fn next_broadcast_waits_for_frames_and_keeps_what_it_passes() {
    let mut queue = vec![direct(1, 1, vec![4])];
    let step = get_next_broadcast(&queue);
    let next = match step {
        NextStep::Pending(next) => next,
        NextStep::Complete(_) => panic!("the queue holds no broadcast"),
    };
    let first = Frame {
        header: FromServer::Broadcast { source: vec![1], message_len: 3, payload_len: 1 },
        payload: vec![1],
    };
    let passed = direct(3, 1, vec![0]);
    let last = Frame {
        header: FromServer::BroadcastPayload { source: vec![1], payload_len: 2 },
        payload: vec![2, 3],
    };
    let mut channel = vec![first.clone(), passed.clone(), last];
    let completion = drive(NextStep::Pending(next), &mut channel).expect("the broadcast completes");
    assert_eq!(completion.ret, Extracted::Message(vec![1, 2, 3]));
    assert_eq!(completion.indexes.to_vec(), vec![1, 3]);
    assert_eq!(completion.temp_queue, vec![first, passed.clone()]);
    assert!(!completion.unchanged);
    remove_indexes(&mut queue, completion.temp_queue, &completion.indexes);
    assert_eq!(queue, vec![direct(1, 1, vec![4]), passed]);
}

#[test]
fn blocking_extraction_leaves_the_queue_alone_when_it_takes_only_what_it_received() {
    let queue = vec![direct(1, 1, vec![4])];
    let mut channel = vec![
        Frame {
            header: FromServer::Broadcast { source: vec![1], message_len: 2, payload_len: 1 },
            payload: vec![1],
        },
        Frame {
            header: FromServer::BroadcastPayload { source: vec![1], payload_len: 1 },
            payload: vec![2],
        },
    ];
    let completion =
        drive(get_next_broadcast(&queue), &mut channel).expect("the broadcast completes");
    assert_eq!(completion.ret, Extracted::Message(vec![1, 2]));
    assert_eq!(completion.indexes.to_vec(), vec![1, 2]);
    assert!(completion.unchanged);
}

#[test]
fn blocking_extraction_takes_from_the_queue_first() {
    let mut queue = vec![
        direct(1, 2, vec![1]),
        direct(2, 1, vec![7]),
        direct_payload(1, vec![2]),
    ];
    let completion = match remove_next_message_from_queue(&queue, Selector::Directs) {
        NextStep::Complete(completion) => completion,
        NextStep::Pending(_) => panic!("the queue holds a whole direct message"),
    };
    assert_eq!(completion.ret, Extracted::Message(vec![7]));
    assert_eq!(completion.indexes.to_vec(), vec![1]);
    assert!(!completion.unchanged);
    remove_indexes(&mut queue, completion.temp_queue, &completion.indexes);
    assert_eq!(queue, vec![direct(1, 2, vec![1]), direct_payload(1, vec![2])]);
    let completion = match remove_next_message_from_queue(&queue, Selector::Directs) {
        NextStep::Complete(completion) => completion,
        NextStep::Pending(_) => panic!("the queue holds a whole direct message"),
    };
    assert_eq!(completion.ret, Extracted::Message(vec![1, 2]));
    assert_eq!(completion.indexes.to_vec(), vec![0, 1]);
}

#[test]
fn blocking_extraction_with_nothing_at_hand_stays_pending_until_the_channel_closes() {
    let mut queue: Vec<Frame> = Vec::new();
    let next = match get_next_broadcast(&queue) {
        NextStep::Pending(next) => next,
        NextStep::Complete(_) => panic!("there is nothing to complete"),
    };
    let next = match next.receive(direct(1, 1, vec![4])) {
        NextStep::Pending(next) => next,
        NextStep::Complete(_) => panic!("a direct message is no broadcast"),
    };
    let half = Frame {
        header: FromServer::Broadcast { source: vec![5], message_len: 2, payload_len: 1 },
        payload: vec![1],
    };
    let next = match next.receive(half.clone()) {
        NextStep::Pending(next) => next,
        NextStep::Complete(_) => panic!("half a broadcast is not complete"),
    };
    assert_eq!(next.scanned_len(), 2);
    let (size, contexts) = next.channel_closed(&mut queue);
    assert_eq!(size, 2);
    assert_eq!(contexts.len(), 1);
    assert_eq!(queue, vec![direct(1, 1, vec![4]), half]);
    let failed: Result<u64, NetworkError> = CentralizedServerNetwork::channel_disconnected();
    assert!(matches!(failed, Err(NetworkError::ChannelDisconnected)));
}

#[test]
fn message_that_cannot_be_encoded_is_not_sent() {
    let network = client(2);
    assert!(matches!(
        network.broadcast_message(Err(decoding_failure())),
        Err(NetworkError::FailedToSerialize { .. })
    ));
    assert!(matches!(
        network.message_node(Err(decoding_failure()), vec![3]),
        Err(NetworkError::FailedToSerialize { .. })
    ));
}

#[test]
fn one_undecodable_message_fails_the_batch() {
    let decoded: Vec<Result<u64, bincode::Error>> = vec![Ok(1), Err(decoding_failure()), Ok(3)];
    assert!(matches!(
        CentralizedServerNetwork::broadcast_queue(decoded),
        Err(NetworkError::FailedToDeserialize { .. })
    ));
    let decoded: Vec<Result<u64, bincode::Error>> = vec![Ok(1), Ok(2), Ok(3)];
    assert_eq!(
        CentralizedServerNetwork::direct_queue(decoded).expect("every message decodes"),
        vec![1, 2, 3]
    );
    let decoded: Vec<Result<u64, bincode::Error>> = Vec::new();
    assert!(CentralizedServerNetwork::direct_queue(decoded).expect("nothing fails").is_empty());
    let next: Result<u64, NetworkError> =
        CentralizedServerNetwork::next_broadcast(Err(decoding_failure()));
    assert!(matches!(next, Err(NetworkError::FailedToDeserialize { .. })));
    let next: Result<u64, NetworkError> = CentralizedServerNetwork::next_broadcast(Ok(8));
    assert_eq!(next.expect("the message decoded"), 8);
}

#[test]
fn records_are_never_stored() {
    let network = client(2);
    assert!(matches!(network.put_record(), Err(NetworkError::DHTError)));
    let found: Result<u64, NetworkError> = network.get_record();
    assert!(matches!(found, Err(NetworkError::DHTError)));
}

#[test]
fn worker_names_the_client_first() {
    let mut network = client(2);
    match run_background(WorkerEvent::Connected, &mut network.inner) {
        WorkerAction::Identify(header) => assert_eq!(header, ToServer::Identify { key: vec![2] }),
        other => panic!("unexpected action {:?}", other),
    }
    assert!(!network.inner.connected);
    assert!(matches!(
        run_background(WorkerEvent::Identified, &mut network.inner),
        WorkerAction::Wait
    ));
    assert!(network.inner.connected);
    assert_eq!(network.ready(), Ready::Now);
}

#[test]
fn pending_client_count_is_asked_again_after_a_reconnect() {
    let mut network = client(2);
    let (sender, receiver) = flume::bounded(1);
    let request = network.get_connected_client_count(sender);
    assert_eq!(request.header, ToServer::RequestClientCount);
    assert!(request.payload.is_empty());
    assert!(request.confirm.is_none());
    assert_eq!(network.inner.request_client_count_sender.len(), 1);

    // The socket fails before the server has answered.
    let failure = Failure::Stream(StreamError::Disconnected);
    assert!(matches!(
        run_background(WorkerEvent::Failed(failure), &mut network.inner),
        WorkerAction::Exit(Error::Disconnected)
    ));
    assert!(network.inner.connection_closed());
    assert!(!network.inner.connected);

    // On the next connection the question is put again.
    assert!(matches!(
        run_background(WorkerEvent::Connected, &mut network.inner),
        WorkerAction::Identify(_)
    ));
    match run_background(WorkerEvent::Identified, &mut network.inner) {
        WorkerAction::Resend(header) => assert_eq!(header, ToServer::RequestClientCount),
        other => panic!("unexpected action {:?}", other),
    }
    assert!(network.inner.connected);

    // The server answers, and the one who asked gets the count.
    match run_background(WorkerEvent::Header(FromServer::ClientCount(7)), &mut network.inner) {
        WorkerAction::Notify { count, waiters } => {
            assert_eq!(count, 7);
            assert_eq!(waiters.len(), 1);
            assert_eq!(notify_waiters(count, waiters), 1);
        }
        other => panic!("unexpected action {:?}", other),
    }
    assert_eq!(receiver.try_recv(), Ok(7));
    assert!(network.inner.request_client_count_sender.is_empty());
    assert!(matches!(
        run_background(WorkerEvent::Identified, &mut network.inner),
        WorkerAction::Wait
    ));
}

#[test]
fn client_count_goes_to_all_who_wait_in_their_order() {
    let mut network = client(2);
    let (first, first_receiver) = flume::bounded(1);
    let (second, second_receiver) = flume::bounded(1);
    network.inner.request_client_count(first);
    network.inner.request_client_count(second);
    match run_background(WorkerEvent::Header(FromServer::ClientCount(3)), &mut network.inner) {
        WorkerAction::Notify { count, waiters } => {
            assert_eq!(waiters.len(), 2);
            // Tell only the first: the order of the waiters is the order of asking.
            let _ = waiters[0].try_send(count);
        }
        other => panic!("unexpected action {:?}", other),
    }
    assert_eq!(first_receiver.try_recv(), Ok(3));
    assert!(second_receiver.try_recv().is_err());
}

#[test]
fn client_count_is_offered_to_those_who_left_too() {
    let (listening, receiver) = flume::bounded(1);
    let (gone, gone_receiver) = flume::bounded(1);
    drop(gone_receiver);
    let (busy, busy_receiver) = flume::bounded(1);
    busy.try_send(1).expect("the channel has room for one");
    assert_eq!(notify_waiters(4, vec![gone, listening, busy]), 1);
    assert_eq!(receiver.try_recv(), Ok(4));
    assert_eq!(busy_receiver.try_recv(), Ok(1));
    assert_eq!(notify_waiters(4, Vec::new()), 0);
}

#[test]
fn worker_reads_the_payload_that_a_header_announces() {
    let mut network = client(2);
    let header = FromServer::Broadcast { source: vec![1], message_len: 5, payload_len: 2 };
    let header = match run_background(WorkerEvent::Header(header.clone()), &mut network.inner) {
        WorkerAction::ReadPayload { header: announced, len } => {
            assert_eq!(announced, header);
            assert_eq!(len, 2);
            announced
        }
        other => panic!("unexpected action {:?}", other),
    };
    match run_background(WorkerEvent::Payload { header, payload: vec![8, 9] }, &mut network.inner) {
        WorkerAction::Forward(frame) => assert_eq!(
            frame,
            Frame {
                header: FromServer::Broadcast { source: vec![1], message_len: 5, payload_len: 2 },
                payload: vec![8, 9],
            }
        ),
        other => panic!("unexpected action {:?}", other),
    }
    for header in [
        FromServer::Direct { source: vec![1], message_len: 1, payload_len: 1 },
        FromServer::BroadcastPayload { source: vec![1], payload_len: 3 },
        FromServer::DirectPayload { source: vec![1], payload_len: u64::MAX },
    ] {
        let expected = header.payload_len();
        match run_background(WorkerEvent::Header(header), &mut network.inner) {
            WorkerAction::ReadPayload { len, .. } => assert_eq!(len, expected),
            other => panic!("unexpected action {:?}", other),
        }
    }
}

#[test]
fn worker_forwards_a_header_without_payload_at_once() {
    let mut network = client(2);
    for header in [
        FromServer::Broadcast { source: vec![1], message_len: 0, payload_len: 0 },
        FromServer::Direct { source: vec![1], message_len: 4, payload_len: 0 },
        FromServer::BroadcastPayload { source: vec![1], payload_len: 0 },
        FromServer::DirectPayload { source: vec![1], payload_len: 0 },
    ] {
        match run_background(WorkerEvent::Header(header.clone()), &mut network.inner) {
            WorkerAction::Forward(frame) => {
                assert_eq!(frame, Frame { header, payload: Vec::new() })
            }
            other => panic!("unexpected action {:?}", other),
        }
    }
}

#[test]
fn worker_forwards_membership_changes_without_payload() {
    let mut network = client(2);
    for header in
        [FromServer::NodeConnected { key: vec![4] }, FromServer::NodeDisconnected { key: vec![4] }]
    {
        match run_background(WorkerEvent::Header(header.clone()), &mut network.inner) {
            WorkerAction::Forward(frame) => {
                assert_eq!(frame, Frame { header, payload: Vec::new() })
            }
            other => panic!("unexpected action {:?}", other),
        }
    }
}

#[test]
fn start_makes_the_run_ready_for_good() {
    let mut network = client(2);
    assert!(!network.run_ready());
    assert!(matches!(
        run_background(WorkerEvent::Header(FromServer::Start), &mut network.inner),
        WorkerAction::Wait
    ));
    assert!(network.run_ready());
    let config =
        NetworkConfig { seed: [0u8; 32], node_index: 1, known_nodes: vec![vec![1], vec![2]] };
    assert!(matches!(
        run_background(
            WorkerEvent::Header(FromServer::Config { config, run: Run(0) }),
            &mut network.inner
        ),
        WorkerAction::Wait
    ));
    network.inner.connection_closed();
    run_background(WorkerEvent::Connected, &mut network.inner);
    run_background(WorkerEvent::Identified, &mut network.inner);
    assert!(network.run_ready());
}

#[test]
fn worker_writes_the_payload_only_where_there_is_one() {
    let mut network = client(2);
    let sent = network.inner.broadcast(vec![1, 2]);
    match run_background(WorkerEvent::Outgoing(sent.to_server), &mut network.inner) {
        WorkerAction::Write { header, payload, confirm } => {
            assert_eq!(header, ToServer::Broadcast { message_len: 2 });
            assert_eq!(payload, Some(vec![1, 2]));
            assert!(confirm.is_none());
        }
        other => panic!("unexpected action {:?}", other),
    }
    let (sender, receiver) = flume::bounded(1);
    let results = network.send_results(vec![3, 4, 5], sender);
    match run_background(WorkerEvent::Outgoing(results), &mut network.inner) {
        WorkerAction::Write { header, payload, confirm } => {
            assert_eq!(header, ToServer::Results(vec![3, 4, 5]));
            assert_eq!(payload, None);
            confirm.expect("the sender of the results waits").try_send(()).expect("it listens");
        }
        other => panic!("unexpected action {:?}", other),
    }
    assert_eq!(receiver.try_recv(), Ok(()));
}

#[test]
fn every_failure_ends_the_connection_with_its_error() {
    let mut network = client(2);
    let io = std::io::Error::new(std::io::ErrorKind::BrokenPipe, "broken");
    assert!(matches!(
        run_background(
            WorkerEvent::Failed(Failure::Stream(StreamError::Io { source: io })),
            &mut network.inner
        ),
        WorkerAction::Exit(Error::Stream { .. })
    ));
    assert!(matches!(
        run_background(
            WorkerEvent::Failed(Failure::Stream(StreamError::Decode { source: decoding_failure() })),
            &mut network.inner
        ),
        WorkerAction::Exit(Error::CouldNotDeserialize { .. })
    ));
    assert!(matches!(
        run_background(
            WorkerEvent::Failed(Failure::Stream(StreamError::Disconnected)),
            &mut network.inner
        ),
        WorkerAction::Exit(Error::Disconnected)
    ));
    assert!(matches!(
        run_background(WorkerEvent::Failed(Failure::InboundClosed), &mut network.inner),
        WorkerAction::Exit(Error::FailedToReceive)
    ));
    assert!(matches!(
        run_background(WorkerEvent::Failed(Failure::OutboundClosed), &mut network.inner),
        WorkerAction::Exit(Error::FailedToSend)
    ));
    assert!(matches!(Error::from(StreamError::Disconnected), Error::Disconnected));
}

#[test]
fn shut_down_client_does_not_connect_again() {
    let mut network = client(2);
    run_background(WorkerEvent::Connected, &mut network.inner);
    run_background(WorkerEvent::Identified, &mut network.inner);
    assert!(network.inner.connection_closed());
    network.shut_down();
    assert!(!network.inner.running);
    assert!(!network.inner.connection_closed());
    // The operations of the client still answer.
    let (sender, _receiver) = flume::bounded(1);
    network.get_connected_client_count(sender);
    run_background(WorkerEvent::Header(FromServer::Start), &mut network.inner);
    run_background(WorkerEvent::Identified, &mut network.inner);
    assert!(!network.inner.connection_closed());
    assert!(!network.inner.running);
    assert!(network.broadcast_message(encoded(1)).is_ok());
    assert!(matches!(network.put_record(), Err(NetworkError::DHTError)));
}

#[test]
fn configuration_dialog_repeats_until_the_configuration_comes() {
    for reply in [
        ConfigReply::ConnectFailed,
        ConfigReply::RequestFailed,
        ConfigReply::ReceiveFailed,
        ConfigReply::Received(FromServer::Start),
        ConfigReply::Received(FromServer::ClientCount(1)),
    ] {
        match CentralizedServerNetwork::connect_with_server_config(reply) {
            ConfigStep::RetryAfter { secs } => assert_eq!(secs, 5),
            ConfigStep::Configured { .. } => panic!("no configuration came"),
        }
    }
    let config =
        NetworkConfig { seed: [7u8; 32], node_index: 2, known_nodes: vec![vec![1], vec![2]] };
    let reply = ConfigReply::Received(FromServer::Config { config: config.clone(), run: Run(4) });
    match CentralizedServerNetwork::connect_with_server_config(reply) {
        ConfigStep::Configured { config: received, run } => {
            assert_eq!(received, config);
            assert_eq!(run, Run(4));
        }
        ConfigStep::RetryAfter { .. } => panic!("the configuration came"),
    }
    assert_eq!(RETRY_SECS, 5);
}

#[test]
fn inner_state_can_be_built_directly() {
    let inner = Inner {
        own_key: vec![9],
        known_nodes: Vec::new(),
        connected: true,
        running: true,
        request_client_count_sender: Vec::new(),
        run_ready: true,
    };
    let network = CentralizedServerNetwork { inner };
    assert_eq!(network.ready(), Ready::Now);
    assert!(network.run_ready());
    assert!(network.known_nodes().is_empty());
}
