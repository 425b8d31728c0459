use centralized_network::index_set::IndexSet;
use centralized_network::protocol::{Frame, FromServer, NetworkChange};
use centralized_network::queue::{
    get_broadcasts, get_direct_messages, get_network_changes, remove_indexes,
    remove_messages_from_queue,
};
use centralized_network::context_map::{ContextMap, MsgStepContext};
use centralized_network::reassembly::{step, Extracted, MsgStepOutcome, Selector};

fn broadcast(source: u8, message_len: u64, payload: Vec<u8>) -> Frame {
    Frame {
        header: FromServer::Broadcast {
            source: vec![source],
            message_len,
            payload_len: payload.len() as u64,
        },
        payload,
    }
}

fn broadcast_payload(source: u8, payload: Vec<u8>) -> Frame {
    Frame {
        header: FromServer::BroadcastPayload {
            source: vec![source],
            payload_len: payload.len() as u64,
        },
        payload,
    }
}

fn direct(source: u8, message_len: u64, payload: Vec<u8>) -> Frame {
    Frame {
        header: FromServer::Direct {
            source: vec![source],
            message_len,
            payload_len: payload.len() as u64,
        },
        payload,
    }
}

fn direct_payload(source: u8, payload: Vec<u8>) -> Frame {
    Frame {
        header: FromServer::DirectPayload { source: vec![source], payload_len: payload.len() as u64 },
        payload,
    }
}

fn node_connected(key: u8) -> Frame {
    Frame { header: FromServer::NodeConnected { key: vec![key] }, payload: Vec::new() }
}

fn node_disconnected(key: u8) -> Frame {
    Frame { header: FromServer::NodeDisconnected { key: vec![key] }, payload: Vec::new() }
}

/// Runs an extraction of broadcasts as a consumer does: scan, then rebuild the
/// queue where the scan asks for it.
fn all_broadcasts(queue: &mut Vec<Frame>, received: Vec<Frame>) -> Vec<Vec<u8>> {
    let found = get_broadcasts(queue, &received);
    if !found.unchanged {
        remove_indexes(queue, received, &found.dead_indexes);
    }
    found.results
}

fn all_directs(queue: &mut Vec<Frame>, received: Vec<Frame>) -> Vec<Vec<u8>> {
    let found = get_direct_messages(queue, &received);
    if !found.unchanged {
        remove_indexes(queue, received, &found.dead_indexes);
    }
    found.results
}

#[test]
fn single_frame_broadcast_from_channel() {
    let mut queue: Vec<Frame> = Vec::new();
    let received = vec![broadcast(1, 2, vec![0x01, 0x02])];
    let found = get_broadcasts(&queue, &received);
    assert_eq!(found.results, vec![vec![0x01, 0x02]]);
    assert_eq!(found.dead_indexes.to_vec(), vec![0]);
    assert!(found.unchanged);
    if !found.unchanged {
        remove_indexes(&mut queue, received, &found.dead_indexes);
    }
    assert!(queue.is_empty());
}

#[test]
fn multi_fragment_broadcast_is_joined() {
    let mut queue: Vec<Frame> = Vec::new();
    let received =
        vec![broadcast(1, 4, vec![0xAA, 0xBB]), broadcast_payload(1, vec![0xCC, 0xDD])];
    let found = get_broadcasts(&queue, &received);
    assert_eq!(found.results, vec![vec![0xAA, 0xBB, 0xCC, 0xDD]]);
    assert_eq!(found.dead_indexes.to_vec(), vec![0, 1]);
    if !found.unchanged {
        remove_indexes(&mut queue, received, &found.dead_indexes);
    }
    assert!(queue.is_empty());
}

#[test]
fn interleaved_broadcasts_complete_in_order_of_their_last_frame() {
    let mut queue: Vec<Frame> = Vec::new();
    let received = vec![
        broadcast(1, 4, vec![0xAA, 0xBB]),
        broadcast(2, 2, vec![0x01, 0x02]),
        broadcast_payload(1, vec![0xCC, 0xDD]),
    ];
    let found = get_broadcasts(&queue, &received);
    assert_eq!(found.results, vec![vec![0x01, 0x02], vec![0xAA, 0xBB, 0xCC, 0xDD]]);
    assert_eq!(found.dead_indexes.to_vec(), vec![0, 1, 2]);
    if !found.unchanged {
        remove_indexes(&mut queue, received, &found.dead_indexes);
    }
    assert!(queue.is_empty());
}

#[test]
fn two_sources_in_every_interleaving_give_both_messages() {
    let a = [broadcast(1, 3, vec![1]), broadcast_payload(1, vec![2]), broadcast_payload(1, vec![3])];
    let b = [broadcast(2, 2, vec![9]), broadcast_payload(2, vec![8])];
    // Every way to merge the two streams: a bit mask of five places, three of them for `a`.
    let mut seen = 0;
    for mask in 0u32..32 {
        if mask.count_ones() != 3 {
            continue;
        }
        let mut next_a = 0;
        let mut next_b = 0;
        let mut received = Vec::new();
        for place in 0..5 {
            if mask & (1 << place) != 0 {
                received.push(a[next_a].clone());
                next_a += 1;
            } else {
                received.push(b[next_b].clone());
                next_b += 1;
            }
        }
        let a_ends_last = mask & (1 << 4) != 0;
        let mut queue = Vec::new();
        let results = all_broadcasts(&mut queue, received);
        if a_ends_last {
            assert_eq!(results, vec![vec![9, 8], vec![1, 2, 3]]);
        } else {
            assert_eq!(results, vec![vec![1, 2, 3], vec![9, 8]]);
        }
        assert!(queue.is_empty());
        seen += 1;
    }
    assert_eq!(seen, 10);
}

#[test]
fn extraction_keeps_the_other_frames_in_their_order() {
    let mut queue = vec![node_connected(7), direct(3, 1, vec![5])];
    let received = vec![
        broadcast(1, 5, vec![1, 2]),
        node_disconnected(7),
        broadcast_payload(1, vec![]),
        direct(4, 2, vec![6]),
        broadcast_payload(1, vec![3, 4, 5]),
        node_connected(8),
    ];
    let found = get_broadcasts(&queue, &received);
    assert_eq!(found.results, vec![vec![1, 2, 3, 4, 5]]);
    assert_eq!(found.dead_indexes.to_vec(), vec![2, 4, 6]);
    assert!(!found.unchanged);
    remove_indexes(&mut queue, received, &found.dead_indexes);
    assert_eq!(
        queue,
        vec![
            node_connected(7),
            direct(3, 1, vec![5]),
            node_disconnected(7),
            direct(4, 2, vec![6]),
            node_connected(8),
        ]
    );
    // A later extraction of another kind still finds its frames.
    let changes = get_network_changes(&queue, &Vec::new());
    assert_eq!(
        changes.results,
        vec![
            NetworkChange::NodeConnected(vec![7]),
            NetworkChange::NodeDisconnected(vec![7]),
            NetworkChange::NodeConnected(vec![8]),
        ]
    );
    assert_eq!(changes.dead_indexes.to_vec(), vec![0, 2, 4]);
    remove_indexes(&mut queue, Vec::new(), &changes.dead_indexes);
    assert_eq!(all_directs(&mut queue, Vec::new()), vec![vec![5]]);
    assert_eq!(queue, vec![direct(4, 2, vec![6])]);
}

#[test]
fn empty_message_completes_in_one_step() {
    let mut queue = Vec::new();
    assert_eq!(all_broadcasts(&mut queue, vec![broadcast(1, 0, vec![])]), vec![Vec::<u8>::new()]);
    assert!(queue.is_empty());
    let mut contexts = ContextMap::new();
    match step(Selector::Directs, &direct(1, 0, vec![]), 3, &mut contexts) {
        MsgStepOutcome::Complete(indexes, Extracted::Message(bytes)) => {
            assert_eq!(indexes.to_vec(), vec![3]);
            assert!(bytes.is_empty());
        }
        _ => panic!("an empty message is complete at once"),
    }
    assert_eq!(contexts.len(), 0);
}

#[test]
fn first_frame_longer_than_announced_is_passed_over() {
    let mut queue = Vec::new();
    let received = vec![broadcast(1, 1, vec![1, 2]), broadcast(2, 1, vec![7])];
    let results = all_broadcasts(&mut queue, received);
    assert_eq!(results, vec![vec![7]]);
    assert_eq!(queue, vec![broadcast(1, 1, vec![1, 2])]);
}

#[test]
fn stream_longer_than_announced_loses_its_context() {
    let mut queue = Vec::new();
    let received = vec![
        broadcast(1, 3, vec![1, 2]),
        broadcast_payload(1, vec![3, 4]),
        // The context is gone: this one is an orphan, though it would have fitted.
        broadcast_payload(1, vec![3]),
        broadcast(2, 2, vec![8, 9]),
    ];
    let results = all_broadcasts(&mut queue, received);
    assert_eq!(results, vec![vec![8, 9]]);
    assert_eq!(
        queue,
        vec![
            broadcast(1, 3, vec![1, 2]),
            broadcast_payload(1, vec![3, 4]),
            broadcast_payload(1, vec![3]),
        ]
    );
}

#[test]
fn orphan_continuation_is_passed_over() {
    let mut queue = Vec::new();
    let received = vec![broadcast_payload(1, vec![1]), broadcast(1, 1, vec![2])];
    let results = all_broadcasts(&mut queue, received);
    assert_eq!(results, vec![vec![2]]);
    assert_eq!(queue, vec![broadcast_payload(1, vec![1])]);
    let mut contexts = ContextMap::new();
    assert!(matches!(
        step(Selector::Broadcasts, &broadcast_payload(1, vec![1]), 0, &mut contexts),
        MsgStepOutcome::Skip
    ));
    assert_eq!(contexts.len(), 0);
}

#[test]
fn nothing_to_scan_gives_nothing() {
    let mut queue: Vec<Frame> = Vec::new();
    let found = remove_messages_from_queue(&queue, &Vec::new(), Selector::Broadcasts);
    assert!(found.results.is_empty());
    assert!(found.dead_indexes.is_empty());
    assert!(found.unchanged);
    assert!(all_directs(&mut queue, Vec::new()).is_empty());
    assert!(get_network_changes(&queue, &Vec::new()).results.is_empty());
}

#[test]
fn a_new_first_frame_replaces_the_message_in_progress() {
    let mut queue = Vec::new();
    let received = vec![
        broadcast(1, 4, vec![1, 2]),
        broadcast(1, 3, vec![7]),
        broadcast_payload(1, vec![8, 9]),
    ];
    let found = get_broadcasts(&queue, &received);
    assert_eq!(found.results, vec![vec![7, 8, 9]]);
    assert_eq!(found.dead_indexes.to_vec(), vec![1, 2]);
    remove_indexes(&mut queue, received, &found.dead_indexes);
    assert_eq!(queue, vec![broadcast(1, 4, vec![1, 2])]);
}

#[test]
fn incomplete_message_waits_in_the_queue_for_its_rest() {
    let mut queue = Vec::new();
    assert!(all_broadcasts(&mut queue, vec![broadcast(1, 3, vec![1])]).is_empty());
    assert_eq!(queue, vec![broadcast(1, 3, vec![1])]);
    assert!(all_broadcasts(&mut queue, vec![broadcast_payload(1, vec![2])]).is_empty());
    assert_eq!(queue.len(), 2);
    assert_eq!(all_broadcasts(&mut queue, vec![broadcast_payload(1, vec![3])]), vec![vec![1, 2, 3]]);
    assert!(queue.is_empty());
}

#[test]
fn unchanged_only_when_exactly_the_received_frames_are_taken() {
    let queue = vec![direct(1, 1, vec![1])];
    // Everything received is taken, nothing of the queue.
    let found = get_broadcasts(&queue, &vec![broadcast(1, 1, vec![2]), broadcast(2, 1, vec![3])]);
    assert!(found.unchanged);
    // One received frame is left over.
    let found = get_broadcasts(&queue, &vec![broadcast(1, 1, vec![2]), direct(2, 1, vec![3])]);
    assert!(!found.unchanged);
    // A frame of the queue is taken.
    let found = get_direct_messages(&queue, &vec![direct(2, 1, vec![3])]);
    assert_eq!(found.dead_indexes.to_vec(), vec![0, 1]);
    assert!(!found.unchanged);
    // Nothing is taken, but a frame was received and has to be kept.
    let found = get_broadcasts(&queue, &vec![direct(2, 1, vec![3])]);
    assert!(found.dead_indexes.is_empty());
    assert!(!found.unchanged);
    // Nothing is taken and nothing was received.
    let found = get_broadcasts(&queue, &Vec::new());
    assert!(found.unchanged);
}

#[test]
fn direct_messages_are_reassembled_like_broadcasts() {
    let mut queue = Vec::new();
    let received = vec![
        direct(1, 4, vec![0xAA, 0xBB]),
        broadcast(1, 1, vec![0]),
        direct(2, 2, vec![0x01, 0x02]),
        direct_payload(1, vec![0xCC, 0xDD]),
    ];
    assert_eq!(
        all_directs(&mut queue, received),
        vec![vec![0x01, 0x02], vec![0xAA, 0xBB, 0xCC, 0xDD]]
    );
    assert_eq!(queue, vec![broadcast(1, 1, vec![0])]);
}

#[test]
fn broadcasts_and_directs_of_one_source_do_not_mix() {
    let mut queue = Vec::new();
    let received = vec![
        broadcast(1, 2, vec![1]),
        direct_payload(1, vec![2]),
        direct(1, 2, vec![3]),
        broadcast_payload(1, vec![4]),
    ];
    assert_eq!(all_broadcasts(&mut queue, received), vec![vec![1, 4]]);
    assert_eq!(queue, vec![direct_payload(1, vec![2]), direct(1, 2, vec![3])]);
}

#[test]
fn step_threads_the_context_of_each_source() {
    let mut contexts = ContextMap::new();
    assert!(matches!(
        step(Selector::Broadcasts, &broadcast(1, 3, vec![1]), 0, &mut contexts),
        MsgStepOutcome::Begin
    ));
    assert!(matches!(
        step(Selector::Broadcasts, &broadcast(2, 2, vec![5]), 1, &mut contexts),
        MsgStepOutcome::Begin
    ));
    assert_eq!(contexts.len(), 2);
    assert!(matches!(
        step(Selector::Broadcasts, &broadcast_payload(1, vec![2]), 2, &mut contexts),
        MsgStepOutcome::Continue
    ));
    assert!(matches!(
        step(Selector::Broadcasts, &node_connected(1), 3, &mut contexts),
        MsgStepOutcome::Skip
    ));
    match step(Selector::Broadcasts, &broadcast_payload(2, vec![6]), 4, &mut contexts) {
        MsgStepOutcome::Complete(indexes, value) => {
            assert_eq!(indexes.to_vec(), vec![1, 4]);
            assert_eq!(value, Extracted::Message(vec![5, 6]));
        }
        _ => panic!("the message of source 2 is complete"),
    }
    assert_eq!(contexts.len(), 1);
    match step(Selector::Broadcasts, &broadcast_payload(1, vec![3]), 5, &mut contexts) {
        MsgStepOutcome::Complete(indexes, value) => {
            assert_eq!(indexes.to_vec(), vec![0, 2, 5]);
            assert_eq!(value, Extracted::Message(vec![1, 2, 3]));
        }
        _ => panic!("the message of source 1 is complete"),
    }
    assert_eq!(contexts.len(), 0);
}

#[test]
fn membership_changes_complete_by_themselves() {
    let mut contexts = ContextMap::new();
    match step(Selector::NetworkChanges, &node_disconnected(4), 9, &mut contexts) {
        MsgStepOutcome::Complete(indexes, value) => {
            assert_eq!(indexes.to_vec(), vec![9]);
            assert_eq!(value, Extracted::Change(NetworkChange::NodeDisconnected(vec![4])));
        }
        _ => panic!("a membership change is complete by itself"),
    }
    assert!(matches!(
        step(Selector::NetworkChanges, &broadcast(4, 0, vec![]), 10, &mut contexts),
        MsgStepOutcome::Skip
    ));
}

#[test]
fn context_map_holds_one_context_for_each_key() {
    let context = |message_len: u64| MsgStepContext {
        consumed_indexes: IndexSet::new(),
        message_len,
        accumulated_stream: Vec::new(),
    };
    let mut contexts = ContextMap::new();
    assert!(contexts.insert(vec![1], context(10)).is_none());
    assert!(contexts.insert(vec![2], context(20)).is_none());
    assert_eq!(contexts.insert(vec![1], context(30)).map(|c| c.message_len), Some(10));
    assert_eq!(contexts.len(), 2);
    assert!(contexts.remove_entry(&vec![3]).is_none());
    let (key, removed) = contexts.remove_entry(&vec![1]).expect("the key is held");
    assert_eq!(key, vec![1]);
    assert_eq!(removed.message_len, 30);
    assert_eq!(contexts.len(), 1);
    assert_eq!(contexts.remove_entry(&vec![2]).map(|e| e.1.message_len), Some(20));
    assert_eq!(contexts.len(), 0);
}

#[test]
fn index_set_is_kept_in_order_without_repeats() {
    let mut set = IndexSet::new();
    assert!(set.is_empty());
    assert_eq!(set.first(), None);
    assert!(set.insert(5));
    assert!(set.insert(2));
    assert!(set.insert(9));
    assert!(!set.insert(5));
    assert_eq!(set.to_vec(), vec![2, 5, 9]);
    assert_eq!(set.len(), 3);
    assert_eq!(set.first(), Some(2));
    assert!(set.contains(9));
    assert!(!set.contains(3));
    let mut other = IndexSet::new();
    other.insert(3);
    other.insert(9);
    other.insert(0);
    set.append(&mut other);
    assert!(other.is_empty());
    assert_eq!(set.to_vec(), vec![0, 2, 3, 5, 9]);
    assert_eq!(set.first(), Some(0));
}

#[test]
fn headers_announce_their_payload() {
    let header = FromServer::Broadcast { source: vec![1], message_len: 9, payload_len: 4 };
    assert!(header.has_payload());
    assert_eq!(header.payload_len(), 4);
    let header = FromServer::DirectPayload { source: vec![1], payload_len: 0 };
    assert!(!header.has_payload());
    assert_eq!(header.payload_len(), 0);
    assert!(!FromServer::Start.has_payload());
    assert_eq!(FromServer::ClientCount(3).payload_len(), 0);
    assert!(!FromServer::NodeConnected { key: vec![1] }.has_payload());
}
