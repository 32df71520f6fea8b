//! Reassembly does not depend on the order of arrival.

use crate::receive_buffer::advance;
use crate::receive_buffer::ReceiveBufferView;
use crate::segment::is_segment_of;
use crate::segment::segment_count;
use crate::segment::segment_end;
use crate::segment::Segment;
use crate::sequence::half_space;
use crate::sequence::seq_add;
use crate::sequence::seq_gt;
use vstd::prelude::*;

verus! {

/// The number of bytes in the first `i` segments.
pub open spec fn stream_offset(segments: Seq<Seq<u8>>, i: int) -> int
    decreases i,
{
    if i <= 0 {
        0
    } else {
        stream_offset(segments, i - 1) + segments[i - 1].len()
    }
}

/// The bytes of the first `i` segments, one after the other.
pub open spec fn stream_prefix(segments: Seq<Seq<u8>>, i: int) -> Seq<u8>
    decreases i,
{
    if i <= 0 {
        Seq::<u8>::empty()
    } else {
        stream_prefix(segments, i - 1) + segments[i - 1]
    }
}

/// The sequence number of the first byte of segment `i` in a stream that
/// starts at `start`.
pub open spec fn segment_seq(start: u32, segments: Seq<Seq<u8>>, i: int) -> u32 {
    seq_add(start, advance(stream_offset(segments, i) as nat))
}

/// A stream cut into segments: none of them empty, and fewer than 2^31 bytes
/// in all, so that the order of any two of them can be told.
pub open spec fn is_stream(segments: Seq<Seq<u8>>) -> bool {
    &&& forall|i: int| 0 <= i < segments.len() ==> (#[trigger] segments[i]).len() > 0
    &&& stream_offset(segments, segments.len() as int) < half_space()
}

/// An order of arrival for `n` segments: each of them once.
pub open spec fn is_order(order: Seq<int>, n: int) -> bool {
    &&& order.len() == n
    &&& order.no_duplicates()
    &&& forall|j: int| 0 <= j < n ==> 0 <= #[trigger] order[j] < n
}

/// The buffer that expects `start` after the first `k` arrivals.
pub open spec fn delivered(
    start: u32,
    segments: Seq<Seq<u8>>,
    order: Seq<int>,
    k: int,
) -> ReceiveBufferView
    decreases k,
{
    if k <= 0 {
        ReceiveBufferView::empty(start)
    } else {
        delivered(start, segments, order, k - 1).receive(
            segment_seq(start, segments, order[k - 1]),
            segments[order[k - 1]],
        )
    }
}

/// The buffer that holds the whole stream, ready to be read, and nothing else.
pub open spec fn whole_stream(start: u32, segments: Seq<Seq<u8>>) -> ReceiveBufferView {
    ReceiveBufferView {
        ready: stream_prefix(segments, segments.len() as int),
        next_expected: segment_seq(start, segments, segments.len() as int),
        pending: Map::<u32, Seq<u8>>::empty(),
    }
}

/// What a buffer holds when the segments in `arrived` have come and the
/// first `g` segments are ready: those bytes, and the other arrived segments
/// waiting under their sequence numbers.
spec fn holds(
    view: ReceiveBufferView,
    start: u32,
    segments: Seq<Seq<u8>>,
    arrived: Set<int>,
    g: int,
) -> bool {
    &&& 0 <= g <= segments.len()
    &&& forall|i: int| 0 <= i < g ==> arrived.contains(i)
    &&& view.ready == stream_prefix(segments, g)
    &&& view.next_expected == segment_seq(start, segments, g)
    &&& view.pending.dom().finite()
    &&& forall|i: int|
        g <= i < segments.len() && #[trigger] arrived.contains(i) ==> view.pending.contains_key(
            segment_seq(start, segments, i),
        ) && view.pending[segment_seq(start, segments, i)] == segments[i]
    &&& forall|key: u32| #[trigger]
        view.pending.contains_key(key) ==> exists|i: int|
            g <= i < segments.len() && #[trigger] arrived.contains(i) && segment_seq(
                start,
                segments,
                i,
            ) == key
}

proof fn lemma_offsets_grow(segments: Seq<Seq<u8>>, i: int, j: int)
    requires
        is_stream(segments),
        0 <= i <= j <= segments.len(),
    ensures
        0 <= stream_offset(segments, i) <= stream_offset(segments, j) < half_space(),
        i < j ==> stream_offset(segments, i) < stream_offset(segments, j),
    decreases segments.len() - i,
{
    if i < segments.len() {
        assert(segments[i].len() > 0);
        assert(stream_offset(segments, i + 1) == stream_offset(segments, i) + segments[i].len());
        if i < j {
            lemma_offsets_grow(segments, i + 1, j);
        } else {
            lemma_offsets_grow(segments, i + 1, segments.len() as int);
        }
    }
    lemma_offsets_nonnegative(segments, i);
}

proof fn lemma_offsets_nonnegative(segments: Seq<Seq<u8>>, i: int)
    ensures
        0 <= stream_offset(segments, i),
    decreases i,
{
    if i > 0 {
        lemma_offsets_nonnegative(segments, i - 1);
    }
}

/// Two places of a stream shorter than 2^31 bytes have different sequence
/// numbers, the later place the later number, and going on from the earlier
/// by their distance reaches the later.
proof fn lemma_places(start: u32, a: int, b: int)
    requires
        0 <= a < b < half_space(),
    ensures
        seq_add(start, advance(a as nat)) != seq_add(start, advance(b as nat)),
        seq_gt(seq_add(start, advance(b as nat)), seq_add(start, advance(a as nat))),
        seq_add(seq_add(start, advance(a as nat)), advance((b - a) as nat)) == seq_add(
            start,
            advance(b as nat),
        ),
{
    assert(advance(a as nat) == a);
    assert(advance(b as nat) == b);
    assert(advance((b - a) as nat) == b - a);
    let from = seq_add(start, a as u32);
    let to = seq_add(start, b as u32);
    assert(from == if start + a < 0x1_0000_0000 {
        start + a
    } else {
        start + a - 0x1_0000_0000
    });
    assert(to == if start + b < 0x1_0000_0000 {
        start + b
    } else {
        start + b - 0x1_0000_0000
    });
}

/// Later segments have later sequence numbers, and no two share one.
proof fn lemma_segment_seqs(start: u32, segments: Seq<Seq<u8>>, i: int, j: int)
    requires
        is_stream(segments),
        0 <= i < j <= segments.len(),
    ensures
        segment_seq(start, segments, i) != segment_seq(start, segments, j),
        seq_gt(segment_seq(start, segments, j), segment_seq(start, segments, i)),
{
    lemma_offsets_grow(segments, i, j);
    lemma_places(start, stream_offset(segments, i), stream_offset(segments, j));
}

/// The segment after segment `i` starts where segment `i` ends.
proof fn lemma_next_segment_seq(start: u32, segments: Seq<Seq<u8>>, i: int)
    requires
        is_stream(segments),
        0 <= i < segments.len(),
    ensures
        seq_add(segment_seq(start, segments, i), advance(segments[i].len()))
            == segment_seq(start, segments, i + 1),
{
    lemma_offsets_grow(segments, i, i + 1);
    lemma_places(start, stream_offset(segments, i), stream_offset(segments, i + 1));
}

/// Draining moves every arrived segment that follows the ready ones without
/// a gap, and stops before the first one that has not arrived.
#[verifier::rlimit(50)]
proof fn lemma_drain(
    view: ReceiveBufferView,
    start: u32,
    segments: Seq<Seq<u8>>,
    arrived: Set<int>,
    g: int,
) -> (frontier: int)
    requires
        is_stream(segments),
        holds(view, start, segments, arrived, g),
    ensures
        g <= frontier,
        holds(view.drain(), start, segments, arrived, frontier),
        frontier == segments.len() || !arrived.contains(frontier),
    decreases segments.len() - g,
{
    let n = segments.len() as int;
    if g < n && arrived.contains(g) {
        let key = segment_seq(start, segments, g);
        assert(view.pending.contains_key(key));
        let next = view.take_pending();
        lemma_next_segment_seq(start, segments, g);
        assert forall|i: int| g + 1 <= i < n && #[trigger] arrived.contains(i) implies next.pending.contains_key(
            segment_seq(start, segments, i),
        ) && next.pending[segment_seq(start, segments, i)] == segments[i] by {
            lemma_segment_seqs(start, segments, g, i);
        }
        assert forall|k: u32| #[trigger] next.pending.contains_key(k) implies exists|i: int|
            g + 1 <= i < n && #[trigger] arrived.contains(i) && segment_seq(start, segments, i)
                == k by {
            assert(view.pending.contains_key(k));
            let i = choose|i: int|
                g <= i < n && #[trigger] arrived.contains(i) && segment_seq(start, segments, i)
                    == k;
            assert(i != g);
        }
        assert(holds(next, start, segments, arrived, g + 1));
        lemma_drain(next, start, segments, arrived, g + 1)
    } else {
        if view.pending.contains_key(view.next_expected) {
            let i = choose|i: int|
                g <= i < n && #[trigger] arrived.contains(i) && segment_seq(start, segments, i)
                    == view.next_expected;
            lemma_segment_seqs(start, segments, g, i);
        }
        g
    }
}

/// Where the first segment that has not arrived is the next one expected,
/// every waiting segment lies ahead: none is dropped as overtaken.
proof fn lemma_nothing_overtaken(
    view: ReceiveBufferView,
    start: u32,
    segments: Seq<Seq<u8>>,
    arrived: Set<int>,
    g: int,
)
    requires
        is_stream(segments),
        holds(view, start, segments, arrived, g),
        g == segments.len() || !arrived.contains(g),
    ensures
        view.wf(),
        view.discard_overtaken() == view,
{
    assert forall|key: u32| view.pending.contains_key(key) implies view.is_ahead(key) by {
        let i = choose|i: int|
            g <= i < segments.len() && #[trigger] arrived.contains(i) && segment_seq(
                start,
                segments,
                i,
            ) == key;
        lemma_segment_seqs(start, segments, g, i);
    }
    assert(view.discard_overtaken().pending =~= view.pending);
}

/// The segments that have arrived after the first `k` arrivals.
spec fn arrivals(order: Seq<int>, k: int) -> Set<int> {
    Set::new(|i: int| exists|j: int| 0 <= j < k && #[trigger] order[j] == i)
}

/// After any number of arrivals the buffer holds what has arrived: the
/// segments up to the first missing one ready, the others waiting.
#[verifier::rlimit(50)]
proof fn lemma_delivered(start: u32, segments: Seq<Seq<u8>>, order: Seq<int>, k: int) -> (frontier:
    int)
    requires
        is_stream(segments),
        is_order(order, segments.len() as int),
        0 <= k <= segments.len(),
    ensures
        holds(delivered(start, segments, order, k), start, segments, arrivals(order, k), frontier),
        frontier == segments.len() || !arrivals(order, k).contains(frontier),
    decreases k,
{
    let n = segments.len() as int;
    if k == 0 {
        let view = ReceiveBufferView::empty(start);
        assert(stream_offset(segments, 0) == 0);
        assert(holds(view, start, segments, arrivals(order, 0), 0));
        0
    } else {
        let g = lemma_delivered(start, segments, order, k - 1);
        let before = delivered(start, segments, order, k - 1);
        let was = arrivals(order, k - 1);
        let now = arrivals(order, k);
        let j = order[k - 1];
        let seq = segment_seq(start, segments, j);
        assert(0 <= j < n);
        assert(now.contains(j));
        assert(!was.contains(j)) by {
            if was.contains(j) {
                let earlier = choose|e: int| 0 <= e < k - 1 && #[trigger] order[e] == j;
                assert(order[earlier] == order[k - 1]);
            }
        }
        assert forall|i: int| was.contains(i) implies now.contains(i) by {
            let e = choose|e: int| 0 <= e < k - 1 && #[trigger] order[e] == i;
            assert(0 <= e < k && order[e] == i);
        }
        assert forall|i: int| now.contains(i) implies was.contains(i) || i == j by {
            let e = choose|e: int| 0 <= e < k && #[trigger] order[e] == i;
            if e < k - 1 {
                assert(was.contains(i));
            }
        }
        assert(g <= j);
        if j == g {
            lemma_next_segment_seq(start, segments, g);
            let extended = before.extend(segments[g]);
            assert forall|key: u32| #[trigger] extended.pending.contains_key(key) implies exists|
                i: int,
            |
                g + 1 <= i < n && #[trigger] now.contains(i) && segment_seq(start, segments, i)
                    == key by {
                let i = choose|i: int|
                    g <= i < n && #[trigger] was.contains(i) && segment_seq(start, segments, i)
                        == key;
                assert(now.contains(i));
            }
            assert(holds(extended, start, segments, now, g + 1));
            let frontier = lemma_drain(extended, start, segments, now, g + 1);
            lemma_nothing_overtaken(extended.drain(), start, segments, now, frontier);
            frontier
        } else {
            lemma_segment_seqs(start, segments, g, j);
            let after = before.receive(seq, segments[j]);
            assert(after.pending == before.pending.insert(seq, segments[j]));
            assert forall|i: int| g <= i < n && #[trigger] now.contains(i) implies after.pending.contains_key(
                segment_seq(start, segments, i),
            ) && after.pending[segment_seq(start, segments, i)] == segments[i] by {
                if i != j {
                    assert(was.contains(i));
                    if i < j {
                        lemma_segment_seqs(start, segments, i, j);
                    } else {
                        lemma_segment_seqs(start, segments, j, i);
                    }
                }
            }
            assert forall|key: u32| #[trigger] after.pending.contains_key(key) implies exists|
                i: int,
            |
                g <= i < n && #[trigger] now.contains(i) && segment_seq(start, segments, i)
                    == key by {
                if key == seq {
                    assert(now.contains(j));
                } else {
                    let i = choose|i: int|
                        g <= i < n && #[trigger] was.contains(i) && segment_seq(
                            start,
                            segments,
                            i,
                        ) == key;
                    assert(now.contains(i));
                }
            }
            assert(holds(after, start, segments, now, g));
            g
        }
    }
}

/// An order of arrival names every segment.
proof fn lemma_order_is_onto(order: Seq<int>, n: int, i: int)
    requires
        is_order(order, n),
        0 <= i < n,
    ensures
        arrivals(order, n).contains(i),
{
    let all = vstd::set_lib::set_int_range(0, n);
    let named = order.to_set();
    order.unique_seq_to_set();
    vstd::set_lib::lemma_int_range(0, n);
    assert forall|x: int| named.contains(x) implies all.contains(x) by {
        let j = choose|j: int| 0 <= j < order.len() && order[j] == x;
        assert(0 <= order[j] < n);
    }
    vstd::set_lib::lemma_subset_equality(named, all);
    assert(all.contains(i));
    assert(named.contains(i));
    let j = choose|j: int| 0 <= j < order.len() && order[j] == i;
    assert(0 <= j < n && order[j] == i);
}

/// Whatever the order in which the segments of a stream arrive, once all of
/// them have arrived the buffer holds the whole stream ready to be read, in
/// the order of the stream, and no segment waits. In particular every order
/// of arrival gives what arrival in the order of the stream gives.
pub proof fn lemma_any_order_reassembles(start: u32, segments: Seq<Seq<u8>>, order: Seq<int>)
    requires
        is_stream(segments),
        is_order(order, segments.len() as int),
    ensures
        delivered(start, segments, order, segments.len() as int) == whole_stream(start, segments),
{
    let n = segments.len() as int;
    let frontier = lemma_delivered(start, segments, order, n);
    let end = delivered(start, segments, order, n);
    if frontier < n {
        lemma_order_is_onto(order, n, frontier);
    }
    assert(end.pending =~= Map::<u32, Seq<u8>>::empty()) by {
        if exists|key: u32| end.pending.contains_key(key) {
            let key = choose|key: u32| end.pending.contains_key(key);
            assert(end.pending.contains_key(key));
        }
    }
}

/// The payloads of the segments of at most `mss` bytes that `data` is cut
/// into.
pub open spec fn cut(data: Seq<u8>, mss: nat) -> Seq<Seq<u8>> {
    Seq::new(
        segment_count(data.len(), mss),
        |i: int| data.subrange(i * mss, segment_end(data.len(), mss, i)),
    )
}

/// Every segment but the last is full, and the last is not empty: segment
/// `i` starts inside the data exactly if there is a segment `i`.
proof fn lemma_segment_starts(len: nat, mss: nat, i: int)
    requires
        mss > 0,
        0 <= i,
    ensures
        i < segment_count(len, mss) <==> i * mss < len,
        0 <= i * mss,
        (i + 1) * mss == i * mss + mss,
{
    let count = (len + mss - 1) / (mss as int);
    assert(i < count <==> i * mss < len) by (nonlinear_arith)
        requires
            mss > 0,
            0 <= i,
            count == (len + mss - 1) / (mss as int),
    ;
    assert(count >= 0) by (nonlinear_arith)
        requires
            mss > 0,
            count == (len + mss - 1) / (mss as int),
    ;
    assert(0 <= i * mss && (i + 1) * mss == i * mss + mss) by (nonlinear_arith)
        requires
            mss > 0,
            0 <= i,
    ;
}

/// The first `i` segments of cut data hold its first `i * mss` bytes, or all
/// of it.
proof fn lemma_cut_prefix(data: Seq<u8>, mss: nat, i: int)
    requires
        mss > 0,
        0 <= i <= segment_count(data.len(), mss),
    ensures
        stream_offset(cut(data, mss), i) == if i * mss <= data.len() {
            i * mss
        } else {
            data.len() as int
        },
        stream_prefix(cut(data, mss), i) == data.subrange(0, stream_offset(cut(data, mss), i)),
    decreases i,
{
    let segments = cut(data, mss);
    if i > 0 {
        lemma_cut_prefix(data, mss, i - 1);
        lemma_segment_starts(data.len(), mss, i - 1);
        lemma_segment_starts(data.len(), mss, i);
        let from = (i - 1) * mss;
        let to = segment_end(data.len(), mss, i - 1);
        assert(segments[i - 1] == data.subrange(from, to));
        assert(stream_offset(segments, i - 1) == from);
        assert(stream_prefix(segments, i) =~= data.subrange(0, to));
    } else {
        assert(0 * mss == 0) by (nonlinear_arith);
        assert(stream_prefix(segments, 0) =~= data.subrange(0, 0));
    }
}

/// Data of fewer than 2^31 bytes that is cut into segments is a stream, and
/// the stream is the data.
pub proof fn lemma_cut_is_stream(data: Seq<u8>, mss: nat)
    requires
        mss > 0,
        data.len() < half_space(),
    ensures
        is_stream(cut(data, mss)),
        stream_prefix(cut(data, mss), cut(data, mss).len() as int) == data,
{
    let segments = cut(data, mss);
    let count = segments.len() as int;
    assert forall|i: int| 0 <= i < count implies (#[trigger] segments[i]).len() > 0 by {
        lemma_segment_starts(data.len(), mss, i);
    }
    lemma_cut_prefix(data, mss, count);
    lemma_segment_starts(data.len(), mss, count);
    if count > 0 {
        lemma_segment_starts(data.len(), mss, count - 1);
    }
    assert(stream_offset(segments, count) == data.len());
    assert(data.subrange(0, data.len() as int) =~= data);
}

/// The segments that `segment_data` makes are the segments of the cut data,
/// each with the sequence number of its place in the stream.
pub proof fn lemma_segments_are_the_cut(
    made: Seq<Segment>,
    data: Seq<u8>,
    mss: nat,
    start: u32,
    i: int,
)
    requires
        mss > 0,
        made.len() == segment_count(data.len(), mss),
        0 <= i < made.len(),
        is_segment_of(made[i], data, mss, start, i),
    ensures
        made[i].data@ == cut(data, mss)[i],
        made[i].seq@ == segment_seq(start, cut(data, mss), i),
{
    lemma_cut_prefix(data, mss, i);
    lemma_segment_starts(data.len(), mss, i);
}

/// Data that is cut into segments and received in any order is read back as
/// it was written: once every segment has arrived, the ready bytes are the
/// data and nothing waits.
pub proof fn lemma_cut_data_reassembles(start: u32, data: Seq<u8>, mss: nat, order: Seq<int>)
    requires
        mss > 0,
        data.len() < half_space(),
        is_order(order, cut(data, mss).len() as int),
    ensures
        delivered(start, cut(data, mss), order, cut(data, mss).len() as int).ready == data,
        delivered(start, cut(data, mss), order, cut(data, mss).len() as int).pending
            == Map::<u32, Seq<u8>>::empty(),
{
    lemma_cut_is_stream(data, mss);
    lemma_any_order_reassembles(start, cut(data, mss), order);
}

} // verus!
