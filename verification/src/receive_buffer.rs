//! The inbound byte stream: segments in, contiguous bytes out.

use crate::sequence::seq_add;
use crate::sequence::seq_gt;
use crate::sequence::sequence_space;
use crate::sequence::SequenceNumber;
use crate::tcp_header::append_bytes;
use std::collections::BTreeMap;
use vstd::prelude::*;

verus! {

/// What a receive buffer is: the bytes ready to be read, the sequence number
/// of the byte that would extend them, and the segments that arrived ahead of
/// it, each under the sequence number of its first byte.
pub struct ReceiveBufferView {
    pub ready: Seq<u8>,
    pub next_expected: u32,
    pub pending: Map<u32, Seq<u8>>,
}

/// How far `len` bytes move a sequence number.
pub open spec fn advance(len: nat) -> u32 {
    (len as int % sequence_space()) as u32
}

impl ReceiveBufferView {
    /// The buffer at the start: nothing ready, nothing waiting, the first
    /// byte expected numbered `initial`.
    pub open spec fn empty(initial: u32) -> ReceiveBufferView {
        ReceiveBufferView {
            ready: Seq::<u8>::empty(),
            next_expected: initial,
            pending: Map::<u32, Seq<u8>>::empty(),
        }
    }

    /// Whether a segment that starts at `seq` lies ahead of the bytes
    /// received so far: whether `seq` is after `next_expected` on the circle.
    pub open spec fn is_ahead(self, seq: u32) -> bool {
        seq_gt(seq, self.next_expected)
    }

    /// Finitely many segments wait, and each of them starts ahead of
    /// `next_expected`.
    pub open spec fn wf(self) -> bool {
        &&& self.pending.dom().finite()
        &&& forall|seq: u32| #[trigger] self.pending.contains_key(seq) ==> self.is_ahead(seq)
    }

    /// The buffer after `data` has been appended to the ready bytes.
    pub open spec fn extend(self, data: Seq<u8>) -> ReceiveBufferView {
        ReceiveBufferView {
            ready: self.ready + data,
            next_expected: seq_add(self.next_expected, advance(data.len())),
            pending: self.pending,
        }
    }

    /// The buffer after the waiting segment that starts at `next_expected`
    /// has been moved to the ready bytes.
    pub open spec fn take_pending(self) -> ReceiveBufferView {
        ReceiveBufferView {
            pending: self.pending.remove(self.next_expected),
            ..self.extend(self.pending[self.next_expected])
        }
    }

    /// The buffer after every waiting segment that has become contiguous has
    /// been moved to the ready bytes, one after the other.
    pub open spec fn drain(self) -> ReceiveBufferView
        decreases self.pending.dom().len(),
    {
        if self.pending.dom().finite() && self.pending.contains_key(self.next_expected) {
            self.take_pending().drain()
        } else {
            self
        }
    }

    /// The buffer without the waiting segments that the ready bytes have
    /// overtaken: those that no longer start ahead of `next_expected`. What
    /// they hold has arrived already or will be sent again.
    pub open spec fn discard_overtaken(self) -> ReceiveBufferView {
        ReceiveBufferView {
            pending: self.pending.restrict(Set::new(|seq: u32| self.is_ahead(seq))),
            ..self
        }
    }

    /// The buffer after the waiting segments have been looked through: those
    /// that have become contiguous are moved to the ready bytes, and of the
    /// rest only those stay that still lie ahead.
    pub open spec fn settle(self) -> ReceiveBufferView {
        self.drain().discard_overtaken()
    }

    /// The buffer after a segment of `data` that starts at `seq` has arrived.
    ///
    /// At `next_expected` it extends the ready bytes, and the waiting segments
    /// that have become contiguous follow it. After `next_expected` it waits,
    /// in the place of any segment that waited under the same number. Before
    /// `next_expected` it is a duplicate and is dropped.
    pub open spec fn receive(self, seq: u32, data: Seq<u8>) -> ReceiveBufferView {
        if seq == self.next_expected {
            self.extend(data).settle()
        } else if self.is_ahead(seq) {
            ReceiveBufferView { pending: self.pending.insert(seq, data), ..self }
        } else {
            self
        }
    }

    /// How many bytes a read of at most `size` takes.
    pub open spec fn taken(self, size: nat) -> nat {
        if size <= self.ready.len() {
            size
        } else {
            self.ready.len()
        }
    }

    /// The buffer after a read of at most `size` bytes.
    pub open spec fn read(self, size: nat) -> ReceiveBufferView {
        ReceiveBufferView {
            ready: self.ready.subrange(self.taken(size) as int, self.ready.len() as int),
            ..self
        }
    }
}

/// Moving on by `a` bytes and then by `b` is moving on by `a + b`.
pub proof fn lemma_advance_twice(from: u32, a: nat, b: nat)
    ensures
        seq_add(seq_add(from, advance(a)), advance(b)) == seq_add(from, advance(a + b)),
{
    let space = sequence_space();
    let x = advance(a) as int;
    let y = advance(b) as int;
    let z = advance(a + b) as int;
    assert(a == space * (a as int / space) + x);
    assert(b == space * (b as int / space) + y);
    assert(a + b == space * ((a + b) as int / space) + z);
    assert(z == if x + y < space {
        x + y
    } else {
        x + y - space
    }) by {
        let k = (a + b) as int / space - a as int / space - b as int / space;
        assert(x + y == space * k + z);
        assert(0 <= x + y < 2 * space);
        assert(k == 0 || k == 1) by (nonlinear_arith)
            requires
                x + y == space * k + z,
                0 <= x + y < 2 * space,
                0 <= z < space,
                space == 0x1_0000_0000,
        ;
    }
    let first = seq_add(from, advance(a)) as int;
    assert(first == if from + x < space {
        from + x
    } else {
        from + x - space
    });
}

/// Whatever arrives, the ready bytes only grow at their end, and
/// `next_expected` moves on by exactly as many bytes as they grow: it stays
/// the sequence number of the byte that would come behind them.
pub proof fn lemma_ready_grows_with_next_expected(
    buffer: ReceiveBufferView,
    seq: u32,
    data: Seq<u8>,
)
    ensures
        buffer.ready.is_prefix_of(buffer.receive(seq, data).ready),
        buffer.receive(seq, data).next_expected == seq_add(
            buffer.next_expected,
            advance((buffer.receive(seq, data).ready.len() - buffer.ready.len()) as nat),
        ),
{
    if seq == buffer.next_expected {
        let extended = buffer.extend(data);
        lemma_drain_grows(extended);
        let drained = extended.drain();
        assert(drained.discard_overtaken().ready == drained.ready);
        lemma_advance_twice(
            buffer.next_expected,
            data.len(),
            (drained.ready.len() - extended.ready.len()) as nat,
        );
    } else {
        assert(advance(0) == 0);
    }
}

proof fn lemma_drain_grows(buffer: ReceiveBufferView)
    ensures
        buffer.ready.is_prefix_of(buffer.drain().ready),
        buffer.drain().next_expected == seq_add(
            buffer.next_expected,
            advance((buffer.drain().ready.len() - buffer.ready.len()) as nat),
        ),
    decreases buffer.pending.dom().len(),
{
    if buffer.pending.dom().finite() && buffer.pending.contains_key(buffer.next_expected) {
        let taken = buffer.take_pending();
        lemma_drain_grows(taken);
        lemma_advance_twice(
            buffer.next_expected,
            buffer.pending[buffer.next_expected].len(),
            (taken.drain().ready.len() - taken.ready.len()) as nat,
        );
    } else {
        assert(advance(0) == 0);
    }
}

/// The inbound byte queue with the segments that wait for a gap to close.
pub struct ReceiveBuffer {
    buffer: Vec<u8>,
    next_expected: SequenceNumber,
    out_of_order: BTreeMap<u32, Vec<u8>>,
}

impl View for ReceiveBuffer {
    type V = ReceiveBufferView;

    closed spec fn view(&self) -> ReceiveBufferView {
        ReceiveBufferView {
            ready: self.buffer@,
            next_expected: self.next_expected@,
            pending: self.out_of_order@.map_values(|data: Vec<u8>| data@),
        }
    }
}

impl ReceiveBuffer {
    /// An empty buffer that expects the byte with the number `initial_seq`.
    pub fn new(initial_seq: SequenceNumber) -> (r: Self)
        ensures
            r@.wf(),
            r@ == ReceiveBufferView::empty(initial_seq@),
    {
        let r = Self { buffer: Vec::new(), next_expected: initial_seq, out_of_order: BTreeMap::new() };
        assert(r@.pending =~= Map::<u32, Seq<u8>>::empty());
        r
    }

    /// Takes a segment of `data` whose first byte has the number `seq`.
    /// Every segment is taken without error; what becomes of it depends on
    /// where it starts.
    pub fn receive(&mut self, seq: SequenceNumber, data: &[u8]) -> (r: Result<(), String>)
        requires
            old(self)@.wf(),
        ensures
            r is Ok,
            final(self)@.wf(),
            final(self)@ == old(self)@.receive(seq@, data@),
    {
        if seq.value() == self.next_expected.value() {
            append_bytes(&mut self.buffer, data);
            self.next_expected = self.next_expected.wrapping_add(wrap_length(data.len()));
            self.process_out_of_order();
        } else if seq.is_after(self.next_expected) {
            let mut held: Vec<u8> = Vec::new();
            append_bytes(&mut held, data);
            self.out_of_order.insert(seq.value(), held);
            assert(self@.pending =~= old(self)@.pending.insert(seq@, data@));
        }
        Ok(())
    }

    /// Removes up to `size` bytes from the front of the ready bytes and
    /// returns them.
    pub fn read(&mut self, size: usize) -> (r: Vec<u8>)
        requires
            old(self)@.wf(),
        ensures
            final(self)@.wf(),
            r@ == old(self)@.ready.subrange(0, old(self)@.taken(size as nat) as int),
            final(self)@ == old(self)@.read(size as nat),
    {
        let count = if size <= self.buffer.len() {
            size
        } else {
            self.buffer.len()
        };
        let mut taken = self.buffer.split_off(count);
        std::mem::swap(&mut self.buffer, &mut taken);
        taken
    }

    /// The number of bytes ready to be read.
    pub fn available(&self) -> (r: usize)
        ensures
            r == self@.ready.len(),
    {
        self.buffer.len()
    }

    /// Looks through the waiting segments. Every one that has become
    /// contiguous is moved to the ready bytes: the one that starts at
    /// `next_expected`, then the one that starts where that one ended, and so
    /// on until none does. Of the others, those that the ready bytes have
    /// overtaken are dropped.
    pub fn process_out_of_order(&mut self)
        ensures
            final(self)@ == old(self)@.settle(),
            final(self)@.wf(),
    {
        self.drain_contiguous();
        self.discard_overtaken();
    }

    #[verifier::rlimit(50)]
    fn drain_contiguous(&mut self)
        ensures
            final(self)@ == old(self)@.drain(),
    {
        proof {
            self.lemma_pending_domain();
        }
        loop
            invariant
                self@.drain() == old(self)@.drain(),
                self@.pending.dom().finite(),
            ensures
                self@ == old(self)@.drain(),
            decreases self@.pending.dom().len(),
        {
            let key = self.next_expected.value();
            let ghost before = self@;
            match self.out_of_order.remove(&key) {
                Some(data) => {
                    append_bytes(&mut self.buffer, data.as_slice());
                    self.next_expected = self.next_expected.wrapping_add(wrap_length(data.len()));
                    proof {
                        self.lemma_pending_domain();
                    }
                    assert(self@.pending =~= before.pending.remove(key));
                    assert(self@ == before.take_pending());
                },
                None => {
                    assert(self@.pending =~= before.pending);
                    break ;
                },
            }
        }
    }

    /// The sequence numbers of the waiting segments that do not lie ahead.
    #[verifier::rlimit(50)]
    fn overtaken_keys(&self) -> (r: Vec<u32>)
        ensures
            forall|seq: u32|
                r@.contains(seq) <==> self@.pending.contains_key(seq) && !self@.is_ahead(seq),
    {
        let mut out: Vec<u32> = Vec::new();
        let next = self.next_expected;
        proof {
            self.lemma_pending_domain();
        }
        for key in it: self.out_of_order.keys()
            invariant
                next == self.next_expected,
                it.seq().unref().to_set() == self.out_of_order@.dom(),
                forall|i: int|
                    0 <= i < out@.len() ==> self.out_of_order@.contains_key(#[trigger] out@[i])
                        && !seq_gt(out@[i], next@),
                forall|j: int|
                    0 <= j < it.index() && !seq_gt(*(#[trigger] it.seq()[j]), next@)
                        ==> out@.contains(*it.seq()[j]),
                it.index() == it.seq().len() ==> forall|seq: u32|
                    self.out_of_order@.contains_key(seq) && !seq_gt(seq, next@) ==> out@.contains(
                        seq,
                    ),
        {
            let ghost before = out@;
            assert(it.seq().unref()[it.index() as int] == *key);
            assert(it.seq().unref().to_set().contains(*key));
            if !SequenceNumber::new(*key).is_after(next) {
                out.push(*key);
                assert(out@[before.len() as int] == *key);
            }
            assert forall|j: int|
                0 <= j < it.index() + 1 && !seq_gt(*(#[trigger] it.seq()[j]), next@)
                    implies out@.contains(*it.seq()[j]) by {
                if j < it.index() {
                    assert(before.contains(*it.seq()[j]));
                    let i = choose|i: int| 0 <= i < before.len() && before[i] == *it.seq()[j];
                    assert(out@[i] == *it.seq()[j]);
                } else {
                    assert(out@[before.len() as int] == *key);
                }
            }
            assert forall|seq: u32|
                it.index() + 1 == it.seq().len() && self.out_of_order@.contains_key(seq)
                    && !seq_gt(seq, next@) implies out@.contains(seq) by {
                assert(it.seq().unref().to_set().contains(seq));
                let j = choose|j: int|
                    0 <= j < it.seq().unref().len() && it.seq().unref()[j] == seq;
                assert(*it.seq()[j] == seq);
            }
        }
        out
    }

    #[verifier::rlimit(50)]
    fn discard_overtaken(&mut self)
        ensures
            final(self)@ == old(self)@.discard_overtaken(),
            final(self)@.wf(),
    {
        let overtaken = self.overtaken_keys();
        let mut i: usize = 0;
        while i < overtaken.len()
            invariant
                i <= overtaken@.len(),
                self.buffer == old(self).buffer,
                self.next_expected == old(self).next_expected,
                forall|seq: u32|
                    overtaken@.contains(seq) <==> old(self)@.pending.contains_key(seq) && !old(
                        self,
                    )@.is_ahead(seq),
                forall|seq: u32| #[trigger]
                    self.out_of_order@.contains_key(seq) ==> old(self).out_of_order@.contains_key(
                        seq,
                    ) && self.out_of_order@[seq] == old(self).out_of_order@[seq],
                forall|seq: u32|
                    old(self).out_of_order@.contains_key(seq) && !self.out_of_order@.contains_key(
                        seq,
                    ) ==> overtaken@.contains(seq),
                forall|j: int|
                    0 <= j < i ==> !self.out_of_order@.contains_key(#[trigger] overtaken@[j]),
            decreases overtaken@.len() - i,
        {
            let key = overtaken[i];
            let ghost before = self.out_of_order@;
            self.out_of_order.remove(&key);
            assert(self.out_of_order@ == before.remove(key));
            assert(overtaken@.contains(key));
            i = i + 1;
        }
        proof {
            self.lemma_pending_domain();
            let expected = old(self)@.discard_overtaken().pending;
            assert forall|seq: u32| self@.pending.contains_key(seq) implies old(self)@.is_ahead(
                seq,
            ) by {
                if overtaken@.contains(seq) {
                    let j = choose|j: int| 0 <= j < overtaken@.len() && overtaken@[j] == seq;
                    assert(!self.out_of_order@.contains_key(overtaken@[j]));
                }
            }
            assert(self@.pending =~= expected);
        }
    }

    /// The waiting segments are those of the map, and finitely many.
    proof fn lemma_pending_domain(&self)
        ensures
            self@.pending.dom() == self.out_of_order@.dom(),
            self@.pending.dom().finite(),
    {
        assert(self@.pending.dom() =~= self.out_of_order@.dom());
    }

    /// Whether data is missing before a segment that has arrived: whether any
    /// segment waits.
    pub fn has_gap(&self) -> (r: bool)
        ensures
            r == (self@.pending.len() > 0),
            r == exists|seq: u32| self@.pending.contains_key(seq),
    {
        let r = !self.out_of_order.is_empty();
        proof {
            self.lemma_pending_domain();
            if self@.pending.len() > 0 {
                let k = self@.pending.dom().choose();
                assert(self@.pending.contains_key(k));
            }
        }
        r
    }

    /// The sequence number of the byte that would extend the ready bytes.
    pub fn next_expected(&self) -> (r: SequenceNumber)
        ensures
            r@ == self@.next_expected,
    {
        self.next_expected
    }
}

/// The length of a segment as a step in the sequence space.
pub fn wrap_length(len: usize) -> (r: u32)
    ensures
        r == advance(len as nat),
{
    (len as u64 % 0x1_0000_0000) as u32
}

} // verus!
