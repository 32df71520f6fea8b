//! A connection's two byte streams.

use crate::receive_buffer::ReceiveBuffer;
use crate::receive_buffer::ReceiveBufferView;
use crate::segment::in_window;
use crate::send_buffer::refusal_text;
use crate::send_buffer::SendBuffer;
use crate::send_buffer::SendBufferView;
use crate::sequence::SequenceNumber;
use vstd::prelude::*;

verus! {

/// The number of sequence numbers, counted from the next one expected, at
/// which a connection takes a segment.
pub const RECEIVE_WINDOW: u32 = 65536;

/// The send buffer and the receive buffer of one connection.
pub struct TcpConnection {
    send_buffer: SendBuffer,
    recv_buffer: ReceiveBuffer,
    local_seq: SequenceNumber,
    remote_seq: SequenceNumber,
}

impl TcpConnection {
    /// The outbound stream.
    pub closed spec fn outbound(&self) -> SendBufferView {
        self.send_buffer@
    }

    /// The inbound stream.
    pub closed spec fn inbound(&self) -> ReceiveBufferView {
        self.recv_buffer@
    }

    /// Both buffers are well formed.
    pub open spec fn wf(&self) -> bool {
        self.outbound().wf() && self.inbound().wf()
    }

    /// A connection with empty buffers that numbers its own bytes from
    /// `local_isn` and expects the peer's from `remote_isn`.
    pub fn new(local_isn: SequenceNumber, remote_isn: SequenceNumber) -> (r: Self)
        ensures
            r.wf(),
            r.outbound() == SendBufferView::empty(local_isn@),
            r.inbound() == ReceiveBufferView::empty(remote_isn@),
    {
        Self {
            send_buffer: SendBuffer::new(local_isn),
            recv_buffer: ReceiveBuffer::new(remote_isn),
            local_seq: local_isn,
            remote_seq: remote_isn,
        }
    }

    /// Writes `data` to the outbound stream, as `SendBuffer::write` does.
    pub fn send(&mut self, data: &[u8]) -> (r: Result<usize, String>)
        requires
            old(self).wf(),
        ensures
            final(self).wf(),
            final(self).inbound() == old(self).inbound(),
            old(self).outbound().write_outcome(data@, final(self).outbound(), r),
    {
        self.send_buffer.write(data)
    }

    /// Takes a segment from the peer. One that starts outside the window is
    /// refused and changes nothing; any other goes to the inbound stream, as
    /// `ReceiveBuffer::receive` says.
    pub fn receive(&mut self, seq: SequenceNumber, data: &[u8]) -> (r: Result<(), String>)
        requires
            old(self).wf(),
        ensures
            final(self).wf(),
            final(self).outbound() == old(self).outbound(),
            r is Ok <==> in_window(seq@, old(self).inbound().next_expected, RECEIVE_WINDOW),
            r is Ok ==> final(self).inbound() == old(self).inbound().receive(seq@, data@),
            r matches Err(message) ==> message@ == "Segment outside the receive window"@
                && final(self).inbound() == old(self).inbound(),
    {
        if seq.wrapping_sub(self.recv_buffer.next_expected()) >= RECEIVE_WINDOW {
            return Err("Segment outside the receive window".to_owned());
        }
        self.recv_buffer.receive(seq, data)
    }

    /// Removes up to `size` bytes from the front of the inbound stream and
    /// returns them.
    pub fn read(&mut self, size: usize) -> (r: Vec<u8>)
        requires
            old(self).wf(),
        ensures
            final(self).wf(),
            final(self).outbound() == old(self).outbound(),
            r@ == old(self).inbound().ready.subrange(
                0,
                old(self).inbound().taken(size as nat) as int,
            ),
            final(self).inbound() == old(self).inbound().read(size as nat),
    {
        self.recv_buffer.read(size)
    }

    /// The acknowledgment to send: the next sequence number expected.
    pub fn generate_ack(&self) -> (r: SequenceNumber)
        ensures
            r@ == self.inbound().next_expected,
    {
        self.recv_buffer.next_expected()
    }

    /// Takes the peer's acknowledgment, as `SendBuffer::acknowledge` does.
    pub fn process_ack(&mut self, ack_seq: SequenceNumber) -> (r: Result<(), String>)
        requires
            old(self).wf(),
        ensures
            final(self).wf(),
            final(self).inbound() == old(self).inbound(),
            old(self).outbound().acknowledge_outcome(
                ack_seq@,
                final(self).outbound(),
                r is Ok,
                refusal_text(r),
            ),
    {
        match self.send_buffer.acknowledge(ack_seq) {
            Ok(_) => Ok(()),
            Err(message) => Err(message),
        }
    }

    pub fn send_buffer(&self) -> (r: &SendBuffer)
        ensures
            r@ == self.outbound(),
    {
        &self.send_buffer
    }

    pub fn recv_buffer(&self) -> (r: &ReceiveBuffer)
        ensures
            r@ == self.inbound(),
    {
        &self.recv_buffer
    }
}

} // verus!
