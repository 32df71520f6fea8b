//! The outbound byte stream: written, sent, acknowledged.

use crate::sequence::seq_add;
use crate::sequence::seq_gt;
use crate::sequence::seq_lt;
use crate::sequence::seq_sub;
use crate::sequence::SequenceNumber;
use crate::tcp_header::append_bytes;
use vstd::prelude::*;

verus! {

/// The size of a send buffer in bytes: the classic default window.
pub const SEND_BUFFER_CAPACITY: usize = 65536;

/// What a send buffer is: the bytes written and not yet acknowledged, the
/// first of which has the sequence number `unacked_seq`, and the sequence
/// number `next_seq` of the first byte not yet sent.
pub struct SendBufferView {
    pub queue: Seq<u8>,
    pub next_seq: u32,
    pub unacked_seq: u32,
    pub capacity: nat,
}

impl SendBufferView {
    /// The buffer at the start: nothing written, the first byte to come
    /// numbered `initial`.
    pub open spec fn empty(initial: u32) -> SendBufferView {
        SendBufferView {
            queue: Seq::<u8>::empty(),
            next_seq: initial,
            unacked_seq: initial,
            capacity: SEND_BUFFER_CAPACITY as nat,
        }
    }

    /// The number of bytes sent and not yet acknowledged.
    pub open spec fn in_flight(self) -> nat {
        seq_sub(self.next_seq, self.unacked_seq) as nat
    }

    /// The bytes in flight are among the bytes queued, which fit the
    /// capacity. So `unacked_seq` never passes `next_seq`.
    pub open spec fn wf(self) -> bool {
        &&& self.capacity == SEND_BUFFER_CAPACITY
        &&& self.queue.len() <= self.capacity
        &&& self.in_flight() <= self.queue.len()
    }

    /// The room left for writing.
    pub open spec fn space(self) -> nat {
        (self.capacity - self.queue.len()) as nat
    }

    /// The bytes written and not yet sent.
    pub open spec fn unsent(self) -> Seq<u8> {
        self.queue.subrange(self.in_flight() as int, self.queue.len() as int)
    }

    /// How many of `len` offered bytes a write takes: all that fit.
    pub open spec fn accepted(self, len: nat) -> nat {
        if len <= self.space() {
            len
        } else {
            self.space()
        }
    }

    /// The buffer after a write of `data`.
    pub open spec fn write(self, data: Seq<u8>) -> SendBufferView {
        SendBufferView {
            queue: self.queue + data.subrange(0, self.accepted(data.len()) as int),
            ..self
        }
    }

    /// How many bytes a call of `consume` with `size` marks as sent: `size`,
    /// but no more than are waiting.
    pub open spec fn consumed(self, size: nat) -> nat {
        if size <= self.unsent().len() {
            size
        } else {
            self.unsent().len()
        }
    }

    /// The buffer after `consume` with `size`.
    pub open spec fn consume(self, size: nat) -> SendBufferView {
        SendBufferView { next_seq: seq_add(self.next_seq, self.consumed(size) as u32), ..self }
    }

    /// An acknowledgment says something new if it lies after `unacked_seq`.
    pub open spec fn is_new_ack(self, ack: u32) -> bool {
        seq_gt(ack, self.unacked_seq)
    }

    /// The number of bytes from `unacked_seq` up to `ack`.
    pub open spec fn ack_distance(self, ack: u32) -> nat {
        seq_sub(ack, self.unacked_seq) as nat
    }

    /// A new acknowledgment is valid if it covers only bytes that were written.
    pub open spec fn is_valid_ack(self, ack: u32) -> bool {
        self.ack_distance(ack) <= self.queue.len()
    }

    /// The buffer after a new and valid acknowledgment: the bytes up to `ack`
    /// are gone from the head of the queue, and `next_seq` is not left behind.
    pub open spec fn acknowledge(self, ack: u32) -> SendBufferView {
        SendBufferView {
            queue: self.queue.subrange(self.ack_distance(ack) as int, self.queue.len() as int),
            unacked_seq: ack,
            next_seq: if self.ack_distance(ack) > self.in_flight() {
                ack
            } else {
                self.next_seq
            },
            capacity: self.capacity,
        }
    }
}

impl SendBufferView {
    /// What a write of `data` does to the buffer and returns. A full buffer
    /// refuses and stays as it is; any other takes what fits and returns how
    /// many bytes that was.
    pub open spec fn write_outcome(
        self,
        data: Seq<u8>,
        next: SendBufferView,
        result: Result<usize, String>,
    ) -> bool {
        if self.space() == 0 {
            &&& result matches Err(message)
            &&& message@ == "Send buffer full"@
            &&& next == self
        } else {
            &&& result == Ok::<usize, String>(self.accepted(data.len()) as usize)
            &&& next == self.write(data)
        }
    }

    /// How many bytes an acknowledgment of everything before `ack` removes:
    /// none unless it is new, and then those up to `ack`.
    pub open spec fn acknowledged(self, ack: u32) -> nat {
        if self.is_new_ack(ack) {
            self.ack_distance(ack)
        } else {
            0
        }
    }

    /// What an acknowledgment of everything before `ack` does to the buffer,
    /// and whether it is taken. One that is not after `unacked_seq` is taken
    /// and changes nothing. One that reaches beyond the bytes written is
    /// refused and changes nothing. Any other is taken and acted on.
    pub open spec fn acknowledge_outcome(
        self,
        ack: u32,
        next: SendBufferView,
        taken: bool,
        message: Seq<char>,
    ) -> bool {
        if !self.is_new_ack(ack) {
            taken && next == self
        } else if !self.is_valid_ack(ack) {
            !taken && message == "Acknowledgment of bytes never written"@ && next == self
        } else {
            taken && next == self.acknowledge(ack)
        }
    }
}

/// The text of a refusal, and the empty text of a success.
pub open spec fn refusal_text<T>(result: Result<T, String>) -> Seq<char> {
    match result {
        Ok(_) => Seq::<char>::empty(),
        Err(message) => message@,
    }
}

/// In a well-formed buffer `unacked_seq` never passes `next_seq`: the two are
/// equal or `unacked_seq` comes first on the circle, and the bytes between
/// them fit the capacity.
pub proof fn lemma_unacked_never_passes_next(buffer: SendBufferView)
    requires
        buffer.wf(),
    ensures
        buffer.unacked_seq == buffer.next_seq || seq_lt(buffer.unacked_seq, buffer.next_seq),
        !seq_gt(buffer.unacked_seq, buffer.next_seq),
        buffer.in_flight() + buffer.unsent().len() == buffer.queue.len(),
        buffer.space() + buffer.queue.len() == buffer.capacity,
{
}

/// The outbound byte queue with its two sequence numbers.
pub struct SendBuffer {
    buffer: Vec<u8>,
    next_seq: SequenceNumber,
    unacked_seq: SequenceNumber,
    max_buffer_size: usize,
}

impl View for SendBuffer {
    type V = SendBufferView;

    closed spec fn view(&self) -> SendBufferView {
        SendBufferView {
            queue: self.buffer@,
            next_seq: self.next_seq@,
            unacked_seq: self.unacked_seq@,
            capacity: self.max_buffer_size as nat,
        }
    }
}

impl SendBuffer {
    /// An empty buffer whose first byte will have the number `initial_seq`.
    pub fn new(initial_seq: SequenceNumber) -> (r: Self)
        ensures
            r@.wf(),
            r@ == SendBufferView::empty(initial_seq@),
    {
        Self {
            buffer: Vec::new(),
            next_seq: initial_seq,
            unacked_seq: initial_seq,
            max_buffer_size: SEND_BUFFER_CAPACITY,
        }
    }

    /// Appends as much of `data` as fits and says how many bytes that was;
    /// the caller may offer the rest again later. A full buffer takes nothing
    /// and refuses.
    pub fn write(&mut self, data: &[u8]) -> (r: Result<usize, String>)
        requires
            old(self)@.wf(),
        ensures
            final(self)@.wf(),
            old(self)@.write_outcome(data@, final(self)@, r),
    {
        let available = self.available_space();
        if available == 0 {
            return Err("Send buffer full".to_owned());
        }
        let count = if data.len() <= available {
            data.len()
        } else {
            available
        };
        append_bytes(&mut self.buffer, &data[0..count]);
        Ok(count)
    }

    /// The room left for writing.
    pub fn available_space(&self) -> (r: usize)
        requires
            self@.wf(),
        ensures
            r == self@.space(),
    {
        self.max_buffer_size - self.buffer.len()
    }

    /// The next bytes to send, at most `size` of them. Nothing changes.
    pub fn peek(&self, size: usize) -> (r: &[u8])
        requires
            self@.wf(),
        ensures
            r@ == self@.unsent().subrange(0, self@.consumed(size as nat) as int),
    {
        let start = self.unacked_data();
        let waiting = self.buffer.len() - start;
        let count = if size <= waiting {
            size
        } else {
            waiting
        };
        let bytes = self.buffer.as_slice();
        let r = &bytes[start..start + count];
        assert(r@ =~= self@.unsent().subrange(0, self@.consumed(size as nat) as int));
        r
    }

    /// Marks the next `size` bytes as sent, or all that are waiting if they
    /// are fewer: `next_seq` advances, the queue keeps the bytes until they
    /// are acknowledged.
    pub fn consume(&mut self, size: usize)
        requires
            old(self)@.wf(),
        ensures
            final(self)@.wf(),
            final(self)@ == old(self)@.consume(size as nat),
    {
        let waiting = self.buffer.len() - self.unacked_data();
        let count = if size <= waiting {
            size
        } else {
            waiting
        };
        self.next_seq = self.next_seq.wrapping_add(count as u32);
    }

    /// Takes an acknowledgment of every byte before `ack_seq`.
    ///
    /// One that is not after `unacked_seq` says nothing new: nothing changes
    /// and the count is zero. One that reaches beyond the bytes written is
    /// refused and nothing changes. Any other removes the acknowledged bytes
    /// from the head of the queue, moves `unacked_seq` to `ack_seq`, and
    /// `next_seq` too where it would be left behind; the count is the number
    /// of bytes removed.
    pub fn acknowledge(&mut self, ack_seq: SequenceNumber) -> (r: Result<usize, String>)
        requires
            old(self)@.wf(),
        ensures
            final(self)@.wf(),
            old(self)@.acknowledge_outcome(ack_seq@, final(self)@, r is Ok, refusal_text(r)),
            r matches Ok(count) ==> count == old(self)@.acknowledged(ack_seq@),
    {
        if !ack_seq.is_after(self.unacked_seq) {
            return Ok(0);
        }
        let count = ack_seq.wrapping_sub(self.unacked_seq) as usize;
        if count > self.buffer.len() {
            return Err("Acknowledgment of bytes never written".to_owned());
        }
        if count > self.unacked_data() {
            self.next_seq = ack_seq;
        }
        let rest = self.buffer.split_off(count);
        self.buffer = rest;
        self.unacked_seq = ack_seq;
        Ok(count)
    }

    /// The number of bytes sent and not yet acknowledged.
    pub fn unacked_data(&self) -> (r: usize)
        ensures
            r == self@.in_flight(),
    {
        self.next_seq.wrapping_sub(self.unacked_seq) as usize
    }

    /// The sequence number of the first byte not yet sent.
    pub fn next_seq(&self) -> (r: SequenceNumber)
        ensures
            r@ == self@.next_seq,
    {
        self.next_seq
    }

    /// The sequence number of the first byte not yet acknowledged.
    pub fn unacked_seq(&self) -> (r: SequenceNumber)
        ensures
            r@ == self@.unacked_seq,
    {
        self.unacked_seq
    }
}

} // verus!
