//! The three-way handshake of the side that connects: SYN out, SYN/ACK in,
//! ACK out.
//!
//! The controller decides and builds segments; it neither sends nor receives.
//! Its caller puts the segments on the wire and hands back what arrives.

use crate::checksum::verifies;
use crate::ip::decode_ip_header;
use crate::ip::ip_header_bytes;
use crate::ip::new_ip_header;
use crate::ip::parse_ip_header;
use crate::ip::parse_ip_result;
use crate::ip::IpError;
use crate::ip::IpHeader;
use crate::ip::MAX_IP_PAYLOAD;
use crate::sequence::seq_add;
use crate::sequence::seq_sub;
use crate::state_machine::invalid_transition_text;
use crate::state_machine::is_walk;
use crate::state_machine::end_state;
use crate::state_machine::TcpEvent;
use crate::state_machine::TcpState;
use crate::state_machine::TcpStateMachine;
use crate::state_machine::Transition;
use crate::tcp_flags::ACK;
use crate::tcp_flags::RST;
use crate::tcp_flags::SYN;
use crate::tcp_header::append_bytes;
use crate::tcp_header::checksum_data;
use crate::tcp_header::decode_tcp_header;
use crate::tcp_header::new_tcp_header;
use crate::tcp_header::tcp_header_bytes;
use crate::tcp_header::with_checksum;
use crate::tcp_header::TcpHeader;
use vstd::prelude::*;

verus! {

/// The window that the handshake's segments announce.
pub const HANDSHAKE_WINDOW: u16 = 8192;

/// The first port of the range that is free for private use.
pub const FIRST_DYNAMIC_PORT: u16 = 49152;

/// Where a handshake stands.
#[derive(Debug, Clone, Copy, PartialEq, Eq, Structural)]
pub enum HandshakePhase {
    /// No SYN has been sent.
    Idle,
    /// The SYN is out and its answer awaited.
    AwaitingSynAck,
    /// The final ACK is out.
    Established,
    /// The attempt was given up.
    Failed,
}

/// Why a handshake gave up.
#[derive(Debug, Clone, Copy, PartialEq, Eq, Structural)]
pub enum HandshakeError {
    /// No answer is awaited: no SYN is out.
    NotStarted,
    /// The deadline passed before the peer's SYN/ACK came.
    Timeout,
    /// The peer answered the SYN with a reset.
    Reset,
}

/// Why a received datagram is no segment for this connection.
#[derive(Debug, Clone, Copy, PartialEq, Eq, Structural)]
pub enum SegmentError {
    /// Its IP header was not accepted.
    Ip(IpError),
    /// It ends before the 20 bytes of a TCP header do.
    Truncated,
    /// It is addressed to another port.
    NotForThisConnection,
    /// The checksum of its TCP segment does not verify.
    ChecksumMismatch,
}

/// What the caller is to do next.
#[derive(Debug, PartialEq, Eq)]
pub enum HandshakeAction {
    /// Nothing yet: receive again after a short while.
    Wait,
    /// Send this segment, the final ACK: the connection is established.
    SendAck(Vec<u8>),
    /// Stop: the attempt has failed.
    Fail(HandshakeError),
}

/// What a received datagram, or the lack of one, means for a handshake that
/// awaits a SYN/ACK.
#[derive(Debug, Clone, Copy, PartialEq, Eq, Structural)]
pub enum Verdict {
    /// The datagram holds the peer's SYN/ACK, with this header.
    Accept(TcpHeader),
    /// The datagram holds the peer's reset.
    Reset,
    /// Nothing of use came and the deadline has passed.
    Timeout,
    /// Nothing of use came and there is still time.
    Wait,
}

/// What a handshake controller is.
pub struct HandshakeView {
    pub phase: HandshakePhase,
    /// The state of the connection's state machine.
    pub state: TcpState,
    /// The log of the connection's state machine.
    pub log: Seq<Transition>,
    /// The local initial sequence number; after the handshake, the number of
    /// the first byte of data.
    pub local_seq: u32,
    /// The peer's initial sequence number, once known.
    pub remote_seq: u32,
    pub local_ip: u32,
    pub local_port: u16,
    pub remote_ip: u32,
    pub remote_port: u16,
}

/// The header length that the first byte of an IP header announces, in bytes.
pub open spec fn ip_header_length(version_ihl: u8) -> int {
    (version_ihl % 16) * 4
}

/// What parsing a datagram gives for a connection on `local_port`: the TCP
/// header behind an accepted IP header, if all 20 bytes of it are there and
/// it is addressed to that port.
pub open spec fn parse_segment_result(local_port: u16, data: Seq<u8>) -> Result<
    TcpHeader,
    SegmentError,
> {
    match parse_ip_result(data) {
        Err(e) => Err(SegmentError::Ip(e)),
        Ok(ip) => {
            let offset = ip_header_length(ip.version_ihl);
            let header = decode_tcp_header(data.subrange(offset, data.len() as int));
            if data.len() < offset + 20 {
                Err(SegmentError::Truncated)
            } else if header.destination_port != local_port {
                Err(SegmentError::NotForThisConnection)
            } else {
                Ok(header)
            }
        },
    }
}

/// Whether the TCP segment in a datagram verifies: whether the sum over the
/// pseudo-header for the datagram's own addresses, the 20 bytes of the TCP
/// header and everything behind them folds to `0xFFFF`.
pub open spec fn segment_verifies(data: Seq<u8>) -> bool
    recommends
        parse_segment_result(0, data) !is Err || data.len() >= 40,
{
    let ip = decode_ip_header(data);
    let offset = ip_header_length(ip.version_ihl);
    let header = decode_tcp_header(data.subrange(offset, data.len() as int));
    verifies(
        checksum_data(
            header,
            ip.source,
            ip.destination,
            data.subrange(offset + 20, data.len() as int),
        ),
    )
}

/// What validating a datagram gives for a connection on `local_port`: the
/// TCP header that parsing gives, if the checksum of the segment verifies.
pub open spec fn validate_segment_result(local_port: u16, data: Seq<u8>) -> Result<
    TcpHeader,
    SegmentError,
> {
    match parse_segment_result(local_port, data) {
        Err(e) => Err(e),
        Ok(header) => if segment_verifies(data) {
            Ok(header)
        } else {
            Err(SegmentError::ChecksumMismatch)
        },
    }
}

/// The datagram that carries `payload` from `source` to `destination`: the
/// IP header and the payload behind it.
pub open spec fn datagram_bytes(source: u32, destination: u32, payload: Seq<u8>) -> Seq<u8> {
    ip_header_bytes(new_ip_header(source, destination, payload.len() as u16)) + payload
}

/// The port to use when the system names none, from the clock's seconds: one
/// of the range that is free for private use.
pub open spec fn fallback_port(secs: u64) -> u16 {
    (FIRST_DYNAMIC_PORT + (secs % 0x1_0000) % 16383) as u16
}

impl HandshakeView {
    /// The phase and the state machine agree, and the log is a walk that ends
    /// in the state.
    pub open spec fn wf(self) -> bool {
        &&& is_walk(self.log)
        &&& self.state == end_state(self.log)
        &&& match self.phase {
            HandshakePhase::Idle | HandshakePhase::Failed => self.state == TcpState::Closed,
            HandshakePhase::AwaitingSynAck => self.state == TcpState::SynSent,
            HandshakePhase::Established => self.state == TcpState::Established,
        }
    }

    /// The controller before its first SYN.
    pub open spec fn idle(local_ip: u32, local_port: u16, remote_ip: u32, remote_port: u16) -> HandshakeView {
        HandshakeView {
            phase: HandshakePhase::Idle,
            state: TcpState::Closed,
            log: Seq::<Transition>::empty(),
            local_seq: 0,
            remote_seq: 0,
            local_ip,
            local_port,
            remote_ip,
            remote_port,
        }
    }

    /// The header of a segment without data from this side to the peer, with
    /// its checksum.
    #[verifier::opaque]
    pub open spec fn header(self, seq: u32, ack: u32, flags: u8) -> TcpHeader {
        with_checksum(
            new_tcp_header(self.local_port, self.remote_port, seq, ack, flags, HANDSHAKE_WINDOW),
            self.local_ip,
            self.remote_ip,
            Seq::<u8>::empty(),
        )
    }

    /// The SYN: it carries the local sequence number and acknowledges nothing.
    pub open spec fn syn_header(self) -> TcpHeader {
        self.header(self.local_seq, 0, SYN)
    }

    /// The ACK that acknowledges everything before `ack_number`. The SYN took
    /// one sequence number, so the ACK carries the one after it.
    pub open spec fn ack_header(self, ack_number: u32) -> TcpHeader {
        self.header(seq_add(self.local_seq, 1), ack_number, ACK)
    }

    /// A header is the peer's SYN/ACK if it has both flags, acknowledges the
    /// local SYN, comes from the peer's port and goes to the local one.
    pub open spec fn accepts_syn_ack(self, h: TcpHeader) -> bool {
        &&& h.flags() & SYN != 0
        &&& h.flags() & ACK != 0
        &&& h.acknowledgment_number == seq_add(self.local_seq, 1)
        &&& h.source_port == self.remote_port
        &&& h.destination_port == self.local_port
    }

    /// A header is the peer's reset if it has that flag, acknowledges the
    /// local SYN, comes from the peer's port and goes to the local one.
    pub open spec fn is_reset(self, h: TcpHeader) -> bool {
        &&& h.flags() & RST != 0
        &&& h.acknowledgment_number == seq_add(self.local_seq, 1)
        &&& h.source_port == self.remote_port
        &&& h.destination_port == self.local_port
    }

    /// The controller with one more step of its state machine.
    pub open spec fn moved(self, phase: HandshakePhase, event: TcpEvent, target: TcpState) -> HandshakeView {
        HandshakeView {
            phase,
            state: target,
            log: self.log.push((self.state, target, event)),
            ..self
        }
    }

    /// After the SYN with the sequence number `isn` has been built.
    pub open spec fn started(self, isn: u32) -> HandshakeView {
        HandshakeView {
            local_seq: isn,
            ..self.moved(HandshakePhase::AwaitingSynAck, TcpEvent::Connect, TcpState::SynSent)
        }
    }

    /// After the peer's SYN/ACK: established, and the SYN's sequence number
    /// is spent.
    pub open spec fn completed(self) -> HandshakeView {
        HandshakeView {
            local_seq: seq_add(self.local_seq, 1),
            ..self.moved(
                HandshakePhase::Established,
                TcpEvent::ReceiveSynAck,
                TcpState::Established,
            )
        }
    }

    /// After the ACK of everything before `ack_number` has been built: the
    /// peer's sequence number is the one before it.
    pub open spec fn acked(self, ack_number: u32) -> HandshakeView {
        HandshakeView { remote_seq: seq_sub(ack_number, 1), ..self }
    }

    /// After the attempt was given up on `event`: closed again.
    pub open spec fn failed(self, event: TcpEvent) -> HandshakeView {
        self.moved(HandshakePhase::Failed, event, TcpState::Closed)
    }

    /// What to make of `datagram`, if one came, and of the deadline. A
    /// datagram that is no valid segment for this connection, or a segment
    /// that is neither the SYN/ACK nor a reset, counts as nothing.
    #[verifier::opaque]
    pub open spec fn verdict(self, datagram: Option<Seq<u8>>, deadline_passed: bool) -> Verdict {
        let idle = if deadline_passed {
            Verdict::Timeout
        } else {
            Verdict::Wait
        };
        match datagram {
            None => idle,
            Some(data) => match validate_segment_result(self.local_port, data) {
                Err(_) => idle,
                Ok(h) => if self.accepts_syn_ack(h) {
                    Verdict::Accept(h)
                } else if self.is_reset(h) {
                    Verdict::Reset
                } else {
                    idle
                },
            },
        }
    }

    /// What `poll` does to the controller and answers, by the verdict.
    pub open spec fn poll_outcome(
        self,
        datagram: Option<Seq<u8>>,
        deadline_passed: bool,
        next: HandshakeView,
        action: HandshakeAction,
    ) -> bool {
        if self.phase != HandshakePhase::AwaitingSynAck {
            action == HandshakeAction::Fail(HandshakeError::NotStarted) && next == self
        } else {
            match self.verdict(datagram, deadline_passed) {
                Verdict::Accept(h) => {
                    let ack_number = seq_add(h.sequence_number, 1);
                    &&& action matches HandshakeAction::SendAck(bytes)
                    &&& bytes@ == tcp_header_bytes(self.ack_header(ack_number))
                    &&& next == self.acked(ack_number).completed()
                },
                Verdict::Reset => {
                    &&& action == HandshakeAction::Fail(HandshakeError::Reset)
                    &&& next == self.failed(TcpEvent::ReceiveRst)
                },
                Verdict::Timeout => {
                    &&& action == HandshakeAction::Fail(HandshakeError::Timeout)
                    &&& next == self.failed(TcpEvent::Timeout)
                },
                Verdict::Wait => action == HandshakeAction::Wait && next == self,
            }
        }
    }
}

/// The bytes of a datagram, if there is one.
pub open spec fn datagram_view(datagram: Option<&[u8]>) -> Option<Seq<u8>> {
    match datagram {
        Some(data) => Some(data@),
        None => None,
    }
}

/// One side's part in opening a connection.
pub struct HandshakeController {
    machine: TcpStateMachine,
    phase: HandshakePhase,
    local_seq: u32,
    remote_seq: u32,
    local_ip: u32,
    local_port: u16,
    remote_ip: u32,
    remote_port: u16,
}

impl View for HandshakeController {
    type V = HandshakeView;

    closed spec fn view(&self) -> HandshakeView {
        HandshakeView {
            phase: self.phase,
            state: self.machine.state(),
            log: self.machine.history(),
            local_seq: self.local_seq,
            remote_seq: self.remote_seq,
            local_ip: self.local_ip,
            local_port: self.local_port,
            remote_ip: self.remote_ip,
            remote_port: self.remote_port,
        }
    }
}

impl HandshakeController {
    /// A controller for a connection between the two given endpoints, with
    /// no SYN sent yet.
    pub fn new(local_ip: u32, local_port: u16, remote_ip: u32, remote_port: u16) -> (r: Self)
        ensures
            r@.wf(),
            r@ == HandshakeView::idle(local_ip, local_port, remote_ip, remote_port),
    {
        Self {
            machine: TcpStateMachine::new(),
            phase: HandshakePhase::Idle,
            local_seq: 0,
            remote_seq: 0,
            local_ip,
            local_port,
            remote_ip,
            remote_port,
        }
    }

    fn segment(&self, seq: u32, ack: u32, flags: u8) -> (r: Vec<u8>)
        ensures
            r@ == tcp_header_bytes(self@.header(seq, ack, flags)),
    {
        let mut header = TcpHeader::new(
            self.local_port,
            self.remote_port,
            seq,
            ack,
            flags,
            HANDSHAKE_WINDOW,
        );
        let no_data: Vec<u8> = Vec::new();
        header.calculate_checksum(self.local_ip, self.remote_ip, no_data.as_slice());
        proof {
            reveal(HandshakeView::header);
            assert(no_data@ =~= Seq::<u8>::empty());
        }
        header.to_bytes()
    }

    /// The SYN segment for the local sequence number.
    pub fn create_syn_packet(&self) -> (r: Vec<u8>)
        ensures
            r@ == tcp_header_bytes(self@.syn_header()),
    {
        self.segment(self.local_seq, 0, SYN)
    }

    /// The ACK segment that acknowledges everything before `ack_number`.
    pub fn create_ack_packet(&self, ack_number: u32) -> (r: Vec<u8>)
        ensures
            r@ == tcp_header_bytes(self@.ack_header(ack_number)),
    {
        self.segment(self.local_seq.wrapping_add(1), ack_number, ACK)
    }

    /// Begins the handshake with `isn` as the local initial sequence number
    /// and returns the SYN segment for the caller to send. Where the
    /// connection is not closed, nothing begins and nothing changes.
    #[verifier::rlimit(50)]
    pub fn send_syn(&mut self, isn: u32) -> (r: Result<Vec<u8>, String>)
        requires
            old(self)@.wf(),
        ensures
            final(self)@.wf(),
            old(self)@.state == TcpState::Closed ==> (r matches Ok(bytes) && bytes@
                == tcp_header_bytes(final(self)@.syn_header())) && final(self)@ == old(self)@.started(isn),
            old(self)@.state != TcpState::Closed ==> (r matches Err(message) && message@
                == invalid_transition_text(old(self)@.state, TcpEvent::Connect)) && final(self)@
                == old(self)@,
    {
        match self.machine.active_open() {
            Err(message) => Err(message),
            Ok(_) => {
                self.local_seq = isn;
                self.phase = HandshakePhase::AwaitingSynAck;
                Ok(self.create_syn_packet())
            },
        }
    }

    /// Returns the ACK segment for the caller to send, and notes the peer's
    /// sequence number: the one before `ack_number`.
    pub fn send_ack(&mut self, ack_number: u32) -> (r: Vec<u8>)
        requires
            old(self)@.wf(),
        ensures
            final(self)@.wf(),
            final(self)@ == old(self)@.acked(ack_number),
            r@ == tcp_header_bytes(old(self)@.ack_header(ack_number)),
    {
        let packet = self.create_ack_packet(ack_number);
        self.remote_seq = ack_number.wrapping_sub(1);
        packet
    }

    /// The segment behind the IP header of a received datagram, if the
    /// datagram is TCP over IPv4, holds a whole TCP header and is addressed to
    /// the local port.
    #[verifier::rlimit(50)]
    pub fn parse_received_packet(&self, data: &[u8]) -> (r: Result<TcpHeader, SegmentError>)
        ensures
            r == parse_segment_result(self@.local_port, data@),
    {
        match parse_ip_header(data) {
            Err(e) => Err(SegmentError::Ip(e)),
            Ok(ip) => {
                let offset: usize = ip.header_length() as usize;
                if data.len() < offset + 20 {
                    return Err(SegmentError::Truncated);
                }
                match TcpHeader::from_bytes(&data[offset..data.len()]) {
                    Err(_) => Err(SegmentError::Truncated),
                    Ok(header) => {
                        if header.get_destination_port() != self.local_port {
                            Err(SegmentError::NotForThisConnection)
                        } else {
                            Ok(header)
                        }
                    },
                }
            },
        }
    }

    /// The segment of a received datagram as `parse_received_packet` gives
    /// it, if its checksum verifies too.
    pub fn validate_received_packet(&self, data: &[u8]) -> (r: Result<TcpHeader, SegmentError>)
        ensures
            r == validate_segment_result(self@.local_port, data@),
    {
        match self.parse_received_packet(data) {
            Err(e) => Err(e),
            Ok(header) => {
                if verify_received_checksum(data, &header) {
                    Ok(header)
                } else {
                    Err(SegmentError::ChecksumMismatch)
                }
            },
        }
    }

    /// Whether `tcp_header` is the peer's answer to the local SYN.
    pub fn is_correct_syn_ack(&self, tcp_header: &TcpHeader) -> (r: bool)
        ensures
            r == self@.accepts_syn_ack(*tcp_header),
    {
        let flags = tcp_header.get_flags();
        let has_syn_ack = (flags & SYN) != 0 && (flags & ACK) != 0;
        let has_correct_ack = tcp_header.get_ack_number() == self.local_seq.wrapping_add(1);
        let has_correct_ports = tcp_header.get_source_port() == self.remote_port
            && tcp_header.get_destination_port() == self.local_port;
        has_syn_ack && has_correct_ack && has_correct_ports
    }

    /// Whether `tcp_header` is the peer's refusal of the local SYN.
    pub fn is_reset(&self, tcp_header: &TcpHeader) -> (r: bool)
        ensures
            r == self@.is_reset(*tcp_header),
    {
        let flags = tcp_header.get_flags();
        (flags & RST) != 0 && tcp_header.get_ack_number() == self.local_seq.wrapping_add(1)
            && tcp_header.get_source_port() == self.remote_port
            && tcp_header.get_destination_port() == self.local_port
    }

    /// Ends the handshake: the connection is established and the sequence
    /// number of the SYN is spent. Where no SYN is out, nothing changes.
    #[verifier::rlimit(50)]
    pub fn complete_handshake(&mut self) -> (r: Result<(), String>)
        requires
            old(self)@.wf(),
        ensures
            final(self)@.wf(),
            old(self)@.state == TcpState::SynSent ==> r is Ok && final(self)@ == old(self)@.completed(),
            old(self)@.state != TcpState::SynSent ==> (r matches Err(message) && message@
                == invalid_transition_text(old(self)@.state, TcpEvent::ReceiveSynAck)) && final(self)@ == old(self)@,
    {
        match self.machine.complete_active_open() {
            Err(message) => Err(message),
            Ok(_) => {
                self.local_seq = self.local_seq.wrapping_add(1);
                self.phase = HandshakePhase::Established;
                Ok(())
            },
        }
    }

    /// One turn of the wait for the peer's SYN/ACK. The caller hands in the
    /// datagram that it received, if any, and whether the deadline has
    /// passed, and does what the answer says.
    ///
    /// The peer's SYN/ACK establishes the connection; the answer holds the
    /// final ACK. The peer's reset ends the attempt. Anything else is noise:
    /// the attempt goes on until the deadline passes, and then has failed.
    /// After a failure the connection is closed, as before the SYN, and a
    /// new attempt may begin.
    #[verifier::rlimit(50)]
    pub fn poll(&mut self, datagram: Option<&[u8]>, deadline_passed: bool) -> (r: HandshakeAction)
        requires
            old(self)@.wf(),
        ensures
            final(self)@.wf(),
            old(self)@.poll_outcome(datagram_view(datagram), deadline_passed, final(self)@, r),
    {
        if self.phase != HandshakePhase::AwaitingSynAck {
            return HandshakeAction::Fail(HandshakeError::NotStarted);
        }
        match self.classify(datagram, deadline_passed) {
            Verdict::Accept(header) => {
                let ack = self.send_ack(header.sequence_number.wrapping_add(1));
                let _ = self.complete_handshake();
                HandshakeAction::SendAck(ack)
            },
            Verdict::Reset => {
                self.give_up(TcpEvent::ReceiveRst);
                HandshakeAction::Fail(HandshakeError::Reset)
            },
            Verdict::Timeout => {
                self.give_up(TcpEvent::Timeout);
                HandshakeAction::Fail(HandshakeError::Timeout)
            },
            Verdict::Wait => HandshakeAction::Wait,
        }
    }

    /// What to make of `datagram`, if one came, and of the deadline.
    #[verifier::rlimit(50)]
    pub fn classify(&self, datagram: Option<&[u8]>, deadline_passed: bool) -> (r: Verdict)
        ensures
            r == self@.verdict(datagram_view(datagram), deadline_passed),
    {
        proof {
            reveal(HandshakeView::verdict);
        }
        if let Some(data) = datagram {
            if let Ok(header) = self.validate_received_packet(data) {
                if self.is_correct_syn_ack(&header) {
                    return Verdict::Accept(header);
                }
                if self.is_reset(&header) {
                    return Verdict::Reset;
                }
            }
        }
        if deadline_passed {
            Verdict::Timeout
        } else {
            Verdict::Wait
        }
    }

    #[verifier::rlimit(50)]
    fn give_up(&mut self, event: TcpEvent)
        requires
            old(self)@.wf(),
            old(self)@.phase == HandshakePhase::AwaitingSynAck,
            event == TcpEvent::ReceiveRst || event == TcpEvent::Timeout,
        ensures
            final(self)@.wf(),
            final(self)@ == old(self)@.failed(event),
    {
        match event {
            TcpEvent::Timeout => {
                let _ = self.machine.handle_timeout();
            },
            _ => {
                let _ = self.machine.handle_reset();
            },
        }
        self.phase = HandshakePhase::Failed;
    }

    /// The datagram that carries a TCP header and its data to the peer, or
    /// nothing where the two together are longer than a datagram can hold.
    pub fn build_packet(&self, tcp_header_bytes: &[u8], data: &[u8]) -> (r: Option<Vec<u8>>)
        ensures
            r is Some <==> tcp_header_bytes@.len() + data@.len() <= MAX_IP_PAYLOAD,
            r matches Some(packet) ==> packet@ == datagram_bytes(
                self@.local_ip,
                self@.remote_ip,
                tcp_header_bytes@ + data@,
            ),
    {
        let limit: usize = MAX_IP_PAYLOAD as usize;
        if tcp_header_bytes.len() > limit || data.len() > limit - tcp_header_bytes.len() {
            return None;
        }
        let length: u16 = (tcp_header_bytes.len() + data.len()) as u16;
        let ip_header = IpHeader::new(self.local_ip, self.remote_ip, length);
        let mut packet = ip_header.to_bytes();
        append_bytes(&mut packet, tcp_header_bytes);
        append_bytes(&mut packet, data);
        assert(packet@ =~= datagram_bytes(
            self@.local_ip,
            self@.remote_ip,
            tcp_header_bytes@ + data@,
        ));
        Some(packet)
    }

    /// Whether the handshake has been completed.
    pub fn is_connected(&self) -> (r: bool)
        ensures
            r == (self@.state == TcpState::Established),
    {
        self.machine.is_established()
    }

    pub fn phase(&self) -> (r: HandshakePhase)
        ensures
            r == self@.phase,
    {
        self.phase
    }

    /// The state of the connection.
    pub fn state(&self) -> (r: TcpState)
        ensures
            r == self@.state,
    {
        self.machine.current_state()
    }

    /// The log of the connection's state machine.
    pub fn state_history(&self) -> (r: &[Transition])
        ensures
            r@ == self@.log,
    {
        self.machine.get_state_history()
    }

    pub fn local_seq(&self) -> (r: u32)
        ensures
            r == self@.local_seq,
    {
        self.local_seq
    }

    pub fn remote_seq(&self) -> (r: u32)
        ensures
            r == self@.remote_seq,
    {
        self.remote_seq
    }

    pub fn local_ip(&self) -> (r: u32)
        ensures
            r == self@.local_ip,
    {
        self.local_ip
    }

    pub fn local_port(&self) -> (r: u16)
        ensures
            r == self@.local_port,
    {
        self.local_port
    }

    pub fn remote_ip(&self) -> (r: u32)
        ensures
            r == self@.remote_ip,
    {
        self.remote_ip
    }

    pub fn remote_port(&self) -> (r: u16)
        ensures
            r == self@.remote_port,
    {
        self.remote_port
    }
}

/// Whether the checksum of the TCP segment in `data` verifies, where `header`
/// is the TCP header that was parsed from `data`.
#[verifier::rlimit(50)]
fn verify_received_checksum(data: &[u8], header: &TcpHeader) -> (r: bool)
    requires
        parse_segment_result(header.destination_port, data@) == Ok::<TcpHeader, SegmentError>(
            *header,
        ),
    ensures
        r == segment_verifies(data@),
{
    match IpHeader::from_bytes(data) {
        Err(_) => false,
        Ok(ip) => {
            let offset: usize = ip.header_length() as usize;
            header.verify_checksum(ip.source, ip.destination, &data[offset + 20..data.len()])
        },
    }
}

/// The datagram that carries `payload` from `source` to `dest`, or nothing
/// where the payload is longer than a datagram can hold.
pub fn build_datagram(source: u32, dest: u32, payload: &[u8]) -> (r: Option<Vec<u8>>)
    ensures
        r is Some <==> payload@.len() <= MAX_IP_PAYLOAD,
        r matches Some(packet) ==> packet@ == datagram_bytes(source, dest, payload@),
{
    if payload.len() > MAX_IP_PAYLOAD as usize {
        return None;
    }
    let ip_header = IpHeader::new(source, dest, payload.len() as u16);
    let mut packet = ip_header.to_bytes();
    append_bytes(&mut packet, payload);
    Some(packet)
}

/// The local port to use when the system names none: the clock's seconds
/// pick one of the range that is free for private use.
pub fn fallback_local_port(secs: u64) -> (r: u16)
    ensures
        r == fallback_port(secs),
        r >= FIRST_DYNAMIC_PORT,
{
    let low: u16 = (secs % 0x1_0000) as u16;
    FIRST_DYNAMIC_PORT + low % (65535 - FIRST_DYNAMIC_PORT)
}

} // verus!
