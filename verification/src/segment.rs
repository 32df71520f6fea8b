//! Segments: contiguous runs of the byte stream.

use crate::receive_buffer::advance;
use crate::receive_buffer::wrap_length;
use crate::sequence::seq_add;
use crate::sequence::seq_sub;
use crate::sequence::SequenceNumber;
use crate::tcp_header::append_bytes;
use vstd::prelude::*;

verus! {

/// The largest payload of a segment on Ethernet: 1500 bytes less an IP header
/// and a TCP header of 20 bytes each.
pub const DEFAULT_MSS: usize = 1460;

/// A run of the byte stream: the sequence number of its first byte, and its
/// bytes.
#[derive(Debug, Clone, PartialEq)]
pub struct Segment {
    pub seq: SequenceNumber,
    pub data: Vec<u8>,
}

/// The number of segments of at most `mss` bytes that `len` bytes make.
pub open spec fn segment_count(len: nat, mss: nat) -> nat
    recommends
        mss > 0,
{
    ((len + mss - 1) / (mss as int)) as nat
}

/// Where segment `i` ends in data of `len` bytes.
pub open spec fn segment_end(len: nat, mss: nat, i: int) -> int {
    if (i + 1) * mss <= len {
        (i + 1) * mss
    } else {
        len as int
    }
}

/// Segment `i` is the `i`-th run of `mss` bytes of `data`, the last run
/// being what is left, and starts `i * mss` after `start`.
pub open spec fn is_segment_of(segment: Segment, data: Seq<u8>, mss: nat, start: u32, i: int) -> bool {
    &&& segment.seq@ == seq_add(start, advance((i * mss) as nat))
    &&& segment.data@ == data.subrange(i * mss, segment_end(data.len(), mss, i))
}

/// Whether a segment that starts at `seq` lies in the window of `window_size`
/// sequence numbers that starts at `expected`.
pub open spec fn in_window(seq: u32, expected: u32, window_size: u32) -> bool {
    seq_sub(seq, expected) < window_size
}

impl Segment {
    pub fn new(seq: SequenceNumber, data: Vec<u8>) -> (r: Self)
        ensures
            r.seq == seq,
            r.data == data,
    {
        Self { seq, data }
    }

    /// The number of bytes.
    pub fn len(&self) -> (r: usize)
        ensures
            r == self.data@.len(),
    {
        self.data.len()
    }

    pub fn is_empty(&self) -> (r: bool)
        ensures
            r == (self.data@.len() == 0),
    {
        self.data.len() == 0
    }
}

/// Cuts `data` into segments of `mss` bytes, the last one shorter where the
/// length is no multiple of `mss`, and numbers them from `start_seq` on. No
/// data makes no segment.
pub fn segment_data(data: &[u8], mss: usize, start_seq: SequenceNumber) -> (r: Vec<Segment>)
    requires
        mss > 0,
    ensures
        r@.len() == segment_count(data@.len(), mss as nat),
        forall|i: int|
            0 <= i < r@.len() ==> is_segment_of(#[trigger] r@[i], data@, mss as nat, start_seq@, i),
{
    let mut segments: Vec<Segment> = Vec::new();
    let mut at: usize = 0;
    assert(0 == 0 * mss) by (nonlinear_arith);
    while at < data.len()
        invariant
            mss > 0,
            at <= data@.len(),
            at < data@.len() || segments@.len() == 0,
            at == segments@.len() * mss,
            forall|i: int|
                0 <= i < segments@.len() ==> is_segment_of(
                    #[trigger] segments@[i],
                    data@,
                    mss as nat,
                    start_seq@,
                    i,
                ),
        decreases data@.len() - at,
    {
        let ghost index = segments@.len() as int;
        let end = if data.len() - at >= mss {
            at + mss
        } else {
            data.len()
        };
        let mut bytes: Vec<u8> = Vec::new();
        append_bytes(&mut bytes, &data[at..end]);
        let segment = Segment::new(start_seq.wrapping_add(wrap_length(at)), bytes);
        proof {
            assert((index + 1) * mss == index * mss + mss) by (nonlinear_arith);
            assert(end == segment_end(data@.len(), mss as nat, index));
            assert(is_segment_of(segment, data@, mss as nat, start_seq@, index));
        }
        segments.push(segment);
        if end < data.len() {
            at = end;
        } else {
            proof {
                lemma_last_segment(data@.len(), mss as nat, index);
            }
            return segments;
        }
    }
    proof {
        assert(segments@.len() * mss == 0) by (nonlinear_arith)
            requires
                segments@.len() == 0,
        ;
        assert((mss - 1) / (mss as int) == 0) by (nonlinear_arith)
            requires
                mss > 0,
        ;
    }
    segments
}

/// The segment that ends with the data is the last of them.
proof fn lemma_last_segment(len: nat, mss: nat, index: int)
    requires
        mss > 0,
        0 <= index,
        index * mss < len <= (index + 1) * mss,
    ensures
        segment_count(len, mss) == index + 1,
{
    assert((len + mss - 1) / (mss as int) == index + 1) by (nonlinear_arith)
        requires
            mss > 0,
            0 <= index,
            index * mss < len <= (index + 1) * mss,
    ;
}

/// Whether `seg` starts inside the window of `window_size` sequence numbers
/// that starts at `expected_seq`.
pub fn validate_segment(seg: &Segment, expected_seq: SequenceNumber, window_size: u32) -> (r: bool)
    ensures
        r == in_window(seg.seq@, expected_seq@, window_size),
{
    seg.seq.wrapping_sub(expected_seq) < window_size
}

} // verus!
