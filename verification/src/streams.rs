//! What a scan makes of the streams that a queue holds.
//!
//! A stream is the run of frames that carries one logical message: a first frame
//! and its continuations, all of one source. The theorems here say what the
//! extraction hands out for a queue in which whole streams lie, whatever the
//! order in which the frames of different sources are interleaved.

use crate::protocol::FrameView;
use crate::context_map::ContextView;
use crate::reassembly::{part, ExtractedView, OutcomeView, Part, Selector};
use crate::scan::{
    completions, consumed, contexts_after, lemma_remaining_tail, outcome_at, remaining,
};
use vstd::prelude::*;
use vstd::set_lib::set_int_range;

verus! {

/// Whether a frame with this header belongs to a logical message of `source` in the
/// extraction `selector`.
pub open spec fn concerns(selector: Selector, frame: FrameView, source: Seq<u8>) -> bool {
    match part(selector, frame.header) {
        Part::Start { source: s, .. } => s == source,
        Part::Fragment { source: s } => s == source,
        _ => false,
    }
}

/// The bytes that the frames at the first `n` positions of `at` carry, one after
/// the other.
pub open spec fn stream_bytes(frames: Seq<FrameView>, at: Seq<int>, n: int) -> Seq<u8>
    decreases n,
{
    if n <= 0 {
        Seq::empty()
    } else {
        stream_bytes(frames, at, n - 1) + frames[at[n - 1]].payload
    }
}

/// The first `n` positions of `at`, as a set.
pub open spec fn stream_indexes(at: Seq<int>, n: int) -> Set<int>
    decreases n,
{
    if n <= 0 {
        Set::empty()
    } else {
        stream_indexes(at, n - 1).insert(at[n - 1])
    }
}

/// The frames at the positions `at` are one whole stream of `source`: a first frame
/// that announces `message_len` bytes, then continuations, no other frame of the
/// source among them, `message_len` bytes in all, and the last continuation not
/// empty.
pub open spec fn is_stream(
    selector: Selector,
    frames: Seq<FrameView>,
    at: Seq<int>,
    source: Seq<u8>,
    message_len: u64,
) -> bool {
    &&& at.len() >= 1
    &&& forall|j: int| 0 <= j < at.len() ==> 0 <= #[trigger] at[j] < frames.len()
    &&& forall|j: int, k: int| 0 <= j < k < at.len() ==> at[j] < at[k]
    &&& part(selector, frames[at[0]].header) == (Part::Start { source, message_len })
    &&& forall|j: int|
        1 <= j < at.len() ==> part(selector, frames[#[trigger] at[j]].header) == (Part::Fragment {
            source,
        })
    &&& forall|i: int|
        at[0] < i < at.last() && !at.contains(i) ==> !#[trigger] concerns(
            selector,
            frames[i],
            source,
        )
    &&& stream_bytes(frames, at, at.len() as int).len() == message_len
    &&& (at.len() == 1 || frames[at.last()].payload.len() > 0)
}

/// The context that a stream has built when its first `n` frames are scanned.
pub open spec fn stream_context(
    frames: Seq<FrameView>,
    at: Seq<int>,
    message_len: u64,
    n: int,
) -> ContextView {
    ContextView {
        consumed_indexes: stream_indexes(at, n),
        message_len,
        accumulated_stream: stream_bytes(frames, at, n),
    }
}

proof fn lemma_stream_indexes(at: Seq<int>, n: int)
    requires
        0 <= n <= at.len(),
    ensures
        forall|x: int|
            stream_indexes(at, n).contains(x) <==> exists|j: int| 0 <= j < n && at[j] == x,
    decreases n,
{
    if n > 0 {
        lemma_stream_indexes(at, n - 1);
        assert forall|x: int| stream_indexes(at, n).contains(x) implies exists|j: int|
            0 <= j < n && at[j] == x by {
            if x == at[n - 1] {
            } else {
                assert(stream_indexes(at, n - 1).contains(x));
                let j = choose|j: int| 0 <= j < n - 1 && at[j] == x;
                assert(0 <= j < n && at[j] == x);
            }
        }
        assert forall|x: int| (exists|j: int| 0 <= j < n && at[j] == x) implies stream_indexes(
            at,
            n,
        ).contains(x) by {
            let j = choose|j: int| 0 <= j < n && at[j] == x;
            if j < n - 1 {
                assert(0 <= j < n - 1 && at[j] == x);
                assert(stream_indexes(at, n - 1).contains(x));
            }
        }
    }
}

/// The positions of a stream, as a set, are the items of `at`.
pub proof fn lemma_stream_indexes_are_positions(at: Seq<int>)
    ensures
        stream_indexes(at, at.len() as int) == at.to_set(),
{
    lemma_stream_indexes(at, at.len() as int);
    assert(stream_indexes(at, at.len() as int) =~= at.to_set());
}

proof fn lemma_stream_bytes_grow(frames: Seq<FrameView>, at: Seq<int>, m: int, n: int)
    requires
        0 <= m <= n,
    ensures
        stream_bytes(frames, at, m).len() <= stream_bytes(frames, at, n).len(),
    decreases n,
{
    if m < n {
        lemma_stream_bytes_grow(frames, at, m, n - 1);
    }
}

/// Before its last frame a whole stream is short of its announced length.
proof fn lemma_stream_short(
    selector: Selector,
    frames: Seq<FrameView>,
    at: Seq<int>,
    source: Seq<u8>,
    message_len: u64,
    n: int,
)
    requires
        is_stream(selector, frames, at, source, message_len),
        1 <= n < at.len(),
    ensures
        stream_bytes(frames, at, n).len() < message_len,
{
    lemma_stream_bytes_grow(frames, at, n, at.len() - 1);
    assert(at.last() == at[at.len() - 1]);
}

/// Between two neighbouring frames of a stream, the context of its source is what
/// the frames up to the earlier one have built.
proof fn lemma_stream_context(
    selector: Selector,
    frames: Seq<FrameView>,
    at: Seq<int>,
    source: Seq<u8>,
    message_len: u64,
    j: int,
    i: int,
)
    requires
        is_stream(selector, frames, at, source, message_len),
        0 <= j < at.len() - 1,
        at[j] < i <= at[j + 1],
    ensures
        contexts_after(selector, frames, i).contains_key(source),
        contexts_after(selector, frames, i)[source] == stream_context(
            frames,
            at,
            message_len,
            j + 1,
        ),
        !(outcome_at(selector, frames, at[j]) is Complete),
    decreases i,
{
    let before = contexts_after(selector, frames, i - 1);
    assert(at.last() == at[at.len() - 1]);
    if i - 1 == at[j] {
        lemma_stream_short(selector, frames, at, source, message_len, j + 1);
        if j == 0 {
            assert(stream_bytes(frames, at, 0) =~= Seq::<u8>::empty());
            assert(stream_bytes(frames, at, 1) =~= frames[at[0]].payload);
            assert(stream_indexes(at, 0) =~= Set::<int>::empty());
            assert(stream_indexes(at, 1) =~= set![at[0]]);
        } else {
            lemma_stream_context(selector, frames, at, source, message_len, j - 1, at[j]);
        }
    } else {
        assert(!at.contains(i - 1)) by {
            if at.contains(i - 1) {
                let m = choose|m: int| 0 <= m < at.len() && at[m] == i - 1;
                if m <= j {
                    if m < j {
                        assert(at[m] < at[j]);
                    }
                } else {
                    if j + 1 < m {
                        assert(at[j + 1] < at[m]);
                    }
                }
            }
        }
        assert(at[0] <= at[j]) by {
            if 0 < j {
                assert(at[0] < at[j]);
            }
        }
        assert(at[j + 1] <= at.last()) by {
            if j + 1 < at.len() - 1 {
                assert(at[j + 1] < at[at.len() - 1]);
            }
        }
        assert(!concerns(selector, frames[i - 1], source));
        lemma_stream_context(selector, frames, at, source, message_len, j, i - 1);
    }
}

/// A whole stream completes at its last frame, and nowhere before: the value is
/// the bytes of its frames in their order, made of exactly the frames of the
/// stream. This holds whatever frames of other sources, or of other kinds, lie
/// between those of the stream.
pub proof fn theorem_stream_completes(
    selector: Selector,
    frames: Seq<FrameView>,
    at: Seq<int>,
    source: Seq<u8>,
    message_len: u64,
)
    requires
        is_stream(selector, frames, at, source, message_len),
    ensures
        outcome_at(selector, frames, at.last()) == OutcomeView::Complete(
            at.to_set(),
            ExtractedView::Message(stream_bytes(frames, at, at.len() as int)),
        ),
        forall|j: int|
            0 <= j < at.len() - 1 ==> !(#[trigger] outcome_at(selector, frames, at[j]) is Complete),
{
    let k = at.len() - 1;
    assert(at.last() == at[k]);
    lemma_stream_indexes_are_positions(at);
    if k == 0 {
        assert(stream_bytes(frames, at, 0) =~= Seq::<u8>::empty());
        assert(stream_bytes(frames, at, 1) =~= frames[at[0]].payload);
        assert(stream_indexes(at, 0) =~= Set::<int>::empty());
        assert(stream_indexes(at, 1) =~= set![at[0]]);
    } else {
        lemma_stream_context(selector, frames, at, source, message_len, k - 1, at[k]);
        assert forall|j: int| 0 <= j < at.len() - 1 implies !(#[trigger] outcome_at(
            selector,
            frames,
            at[j],
        ) is Complete) by {
            lemma_stream_context(selector, frames, at, source, message_len, j, at[j + 1]);
        }
    }
}

/// Frames that complete nothing add nothing to what a scan hands out.
pub proof fn lemma_quiet_frames(selector: Selector, frames: Seq<FrameView>, from: int, to: int)
    requires
        from <= to,
        forall|i: int| from <= i < to ==> !(#[trigger] outcome_at(selector, frames, i) is Complete),
    ensures
        completions(selector, frames, to) == completions(selector, frames, from),
        consumed(selector, frames, to) == consumed(selector, frames, from),
    decreases to - from,
{
    if from < to {
        lemma_quiet_frames(selector, frames, from, to - 1);
        assert(!(outcome_at(selector, frames, to - 1) is Complete));
        if to - 1 < 0 {
            assert(completions(selector, frames, to) == completions(selector, frames, from));
        }
    }
    if to <= 0 {
        assert(completions(selector, frames, to) =~= completions(selector, frames, from));
        assert(consumed(selector, frames, to) =~= consumed(selector, frames, from));
    }
}

/// A queue that holds one whole stream, and besides it only frames that complete
/// nothing, yields exactly one value: the message of the stream. The extraction
/// takes up exactly the frames of the stream, and leaves all other frames in the
/// queue, in their order.
pub proof fn theorem_single_stream(
    selector: Selector,
    frames: Seq<FrameView>,
    at: Seq<int>,
    source: Seq<u8>,
    message_len: u64,
)
    requires
        is_stream(selector, frames, at, source, message_len),
        forall|i: int|
            0 <= i < frames.len() && !at.contains(i) ==> !(#[trigger] outcome_at(
                selector,
                frames,
                i,
            ) is Complete),
    ensures
        completions(selector, frames, frames.len() as int) == seq![
            ExtractedView::Message(stream_bytes(frames, at, at.len() as int)),
        ],
        consumed(selector, frames, frames.len() as int) == at.to_set(),
        remaining(
            frames,
            consumed(selector, frames, frames.len() as int),
            frames.len() as int,
        ) == remaining(frames, at.to_set(), frames.len() as int),
{
    let last = at.last();
    theorem_stream_completes(selector, frames, at, source, message_len);
    assert forall|i: int| 0 <= i < frames.len() && i != last implies !(#[trigger] outcome_at(
        selector,
        frames,
        i,
    ) is Complete) by {
        if at.contains(i) {
            let j = choose|j: int| 0 <= j < at.len() && at[j] == i;
            assert(!(outcome_at(selector, frames, at[j]) is Complete));
        }
    }
    assert(0 <= last < frames.len());
    lemma_quiet_frames(selector, frames, 0, last);
    lemma_quiet_frames(selector, frames, last + 1, frames.len() as int);
    assert(completions(selector, frames, 0) =~= Seq::<ExtractedView>::empty());
    assert(consumed(selector, frames, last + 1) =~= at.to_set());
    assert(completions(selector, frames, last + 1) =~= seq![
        ExtractedView::Message(stream_bytes(frames, at, at.len() as int)),
    ]);
}

/// A queue that holds the whole streams of two different sources, interleaved in
/// any order, and besides them only frames that complete nothing, yields two
/// values, one for each source, each the message of its stream. The one whose
/// last frame comes first is handed out first.
pub proof fn theorem_two_streams(
    selector: Selector,
    frames: Seq<FrameView>,
    at_a: Seq<int>,
    source_a: Seq<u8>,
    message_len_a: u64,
    at_b: Seq<int>,
    source_b: Seq<u8>,
    message_len_b: u64,
)
    requires
        source_a != source_b,
        is_stream(selector, frames, at_a, source_a, message_len_a),
        is_stream(selector, frames, at_b, source_b, message_len_b),
        forall|i: int|
            0 <= i < frames.len() && !at_a.contains(i) && !at_b.contains(i) ==> !(
            #[trigger] outcome_at(selector, frames, i) is Complete),
    ensures
        at_a.last() != at_b.last(),
        completions(selector, frames, frames.len() as int) == (if at_a.last() < at_b.last() {
            seq![
                ExtractedView::Message(stream_bytes(frames, at_a, at_a.len() as int)),
                ExtractedView::Message(stream_bytes(frames, at_b, at_b.len() as int)),
            ]
        } else {
            seq![
                ExtractedView::Message(stream_bytes(frames, at_b, at_b.len() as int)),
                ExtractedView::Message(stream_bytes(frames, at_a, at_a.len() as int)),
            ]
        }),
        consumed(selector, frames, frames.len() as int) == at_a.to_set().union(at_b.to_set()),
{
    let last_a = at_a.last();
    let last_b = at_b.last();
    theorem_stream_completes(selector, frames, at_a, source_a, message_len_a);
    theorem_stream_completes(selector, frames, at_b, source_b, message_len_b);
    assert(last_a != last_b) by {
        if last_a == last_b {
            lemma_frame_of_one_source(selector, frames, at_a, source_a, message_len_a);
            lemma_frame_of_one_source(selector, frames, at_b, source_b, message_len_b);
            assert(concerns(selector, frames[last_a], source_a));
            assert(concerns(selector, frames[last_b], source_b));
        }
    }
    assert forall|i: int|
        0 <= i < frames.len() && i != last_a && i != last_b implies !(#[trigger] outcome_at(
        selector,
        frames,
        i,
    ) is Complete) by {
        if at_a.contains(i) {
            let j = choose|j: int| 0 <= j < at_a.len() && at_a[j] == i;
            assert(!(outcome_at(selector, frames, at_a[j]) is Complete));
        } else if at_b.contains(i) {
            let j = choose|j: int| 0 <= j < at_b.len() && at_b[j] == i;
            assert(!(outcome_at(selector, frames, at_b[j]) is Complete));
        }
    }
    let first = if last_a < last_b {
        last_a
    } else {
        last_b
    };
    let second = if last_a < last_b {
        last_b
    } else {
        last_a
    };
    assert(0 <= first < second < frames.len());
    lemma_quiet_frames(selector, frames, 0, first);
    lemma_quiet_frames(selector, frames, first + 1, second);
    lemma_quiet_frames(selector, frames, second + 1, frames.len() as int);
    assert(completions(selector, frames, 0) =~= Seq::<ExtractedView>::empty());
    assert(consumed(selector, frames, 0) =~= Set::<int>::empty());
    assert(consumed(selector, frames, second + 1) =~= at_a.to_set().union(at_b.to_set()));
    if last_a < last_b {
        assert(completions(selector, frames, second + 1) =~= seq![
            ExtractedView::Message(stream_bytes(frames, at_a, at_a.len() as int)),
            ExtractedView::Message(stream_bytes(frames, at_b, at_b.len() as int)),
        ]);
    } else {
        assert(completions(selector, frames, second + 1) =~= seq![
            ExtractedView::Message(stream_bytes(frames, at_b, at_b.len() as int)),
            ExtractedView::Message(stream_bytes(frames, at_a, at_a.len() as int)),
        ]);
    }
}

/// Every frame of a stream is a frame of its source.
proof fn lemma_frame_of_one_source(
    selector: Selector,
    frames: Seq<FrameView>,
    at: Seq<int>,
    source: Seq<u8>,
    message_len: u64,
)
    requires
        is_stream(selector, frames, at, source, message_len),
    ensures
        forall|j: int| 0 <= j < at.len() ==> concerns(selector, frames[#[trigger] at[j]], source),
{
    assert forall|j: int| 0 <= j < at.len() implies concerns(
        selector,
        frames[#[trigger] at[j]],
        source,
    ) by {
        if j >= 1 {
            assert(part(selector, frames[at[j]].header) == (Part::Fragment { source }));
        }
    }
}

/// Where an extraction takes up every received frame and nothing of the queue, the
/// queue stays as it is.
pub proof fn theorem_unchanged_queue<T>(queue: Seq<T>, received: Seq<T>, dead: Set<int>)
    requires
        forall|x: int|
            0 <= x < queue.len() + received.len() ==> (dead.contains(x) <==> set_int_range(
                queue.len() as int,
                (queue.len() + received.len()) as int,
            ).contains(x)),
    ensures
        remaining(queue + received, dead, (queue.len() + received.len()) as int) == queue,
{
    lemma_remaining_tail(
        queue + received,
        dead,
        queue.len() as int,
        (queue.len() + received.len()) as int,
    );
    assert((queue + received).take(queue.len() as int) =~= queue);
}

} // verus!
