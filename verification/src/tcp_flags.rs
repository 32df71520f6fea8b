//! The flag bits of a TCP header (RFC 9293, section 3.1).

use vstd::prelude::*;

verus! {

/// No more data from the sender.
pub const FIN: u8 = 0x01;

/// Synchronize sequence numbers.
pub const SYN: u8 = 0x02;

/// Reset the connection.
pub const RST: u8 = 0x04;

/// Push function.
pub const PSH: u8 = 0x08;

/// The acknowledgment field is significant.
pub const ACK: u8 = 0x10;

/// The urgent pointer field is significant.
pub const URG: u8 = 0x20;

/// ECN echo.
pub const ECE: u8 = 0x40;

/// Congestion window reduced.
pub const CWR: u8 = 0x80;

} // verus!
