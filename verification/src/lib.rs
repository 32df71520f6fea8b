//! A user-space TCP connection engine: header codec, RFC 9293 state machine,
//! sequence-number arithmetic and send/receive buffering, with machine-checked
//! contracts.
//!
//! The crate computes and decides; it performs no input or output. Its caller
//! owns the socket, hands received bytes in and sends the bytes it gets back.

pub mod checksum;
pub mod connection;
pub mod handshake;
pub mod ip;
pub mod isn;
pub mod reassembly;
pub mod receive_buffer;
pub mod segment;
pub mod send_buffer;
pub mod sequence;
pub mod state_machine;
pub mod tcp_flags;
pub mod tcp_header;
pub mod text;
pub mod wire;

pub use crate::checksum::calculate_1s_complement_sum;
pub use crate::checksum::calculate_checksum_rfc1071;
pub use crate::connection::TcpConnection;
pub use crate::handshake::HandshakeAction;
pub use crate::handshake::HandshakeController;
pub use crate::handshake::HandshakeError;
pub use crate::handshake::HandshakePhase;
pub use crate::handshake::SegmentError;
pub use crate::ip::parse_ip_header;
pub use crate::ip::IpError;
pub use crate::ip::IpHeader;
pub use crate::ip::IP_HEADER_SIZE;
pub use crate::ip::IP_PROTOCOL_TCP;
pub use crate::isn::generate_isn;
pub use crate::receive_buffer::ReceiveBuffer;
pub use crate::segment::segment_data;
pub use crate::segment::validate_segment;
pub use crate::segment::Segment;
pub use crate::segment::DEFAULT_MSS;
pub use crate::send_buffer::SendBuffer;
pub use crate::sequence::SequenceNumber;
pub use crate::state_machine::TcpEvent;
pub use crate::state_machine::TcpState;
pub use crate::state_machine::TcpStateMachine;
pub use crate::tcp_header::create_pseudo_header;
pub use crate::tcp_header::TcpHeader;
pub use crate::tcp_header::TCP_HEADER_SIZE;
