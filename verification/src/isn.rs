//! Initial sequence numbers from the clock.

use crate::sequence::sequence_space;
use crate::sequence::SequenceNumber;
use std::time::UNIX_EPOCH;
use vstd::prelude::*;

verus! {

/// What is added to the clock's reading.
pub const ISN_OFFSET: u32 = 12345;

/// The initial sequence number for a clock that reads `secs` seconds and
/// `nanos` nanoseconds: their sum and the offset, modulo 2^32.
pub open spec fn isn_value(secs: u64, nanos: u32) -> u32 {
    ((secs + nanos + ISN_OFFSET) % sequence_space()) as u32
}

/// Reads the system clock with `SystemTime::elapsed` on the Unix epoch: the
/// whole seconds since then and the nanoseconds of the second begun, or
/// nothing where the clock stands before the epoch. Nothing is claimed of the
/// reading.
#[verifier::external_body]
fn read_clock() -> (r: Option<(u64, u32)>) {
    match UNIX_EPOCH.elapsed() {
        Ok(since) => Some((since.as_secs(), since.subsec_nanos())),
        Err(_) => None,
    }
}

/// The initial sequence number for a given reading of the clock.
pub fn isn_from_clock(secs: u64, nanos: u32) -> (r: SequenceNumber)
    ensures
        r@ == isn_value(secs, nanos),
{
    let low: u32 = (secs % 0x1_0000_0000) as u32;
    SequenceNumber::new(low.wrapping_add(nanos).wrapping_add(ISN_OFFSET))
}

/// An initial sequence number from the system clock. A clock that cannot be
/// read counts as one that reads zero.
///
/// The number is predictable by whoever knows the time: it keeps old
/// segments apart from new ones, and is no defence against forgery.
pub fn generate_isn() -> SequenceNumber {
    match read_clock() {
        Some((secs, nanos)) => isn_from_clock(secs, nanos),
        None => isn_from_clock(0, 0),
    }
}

} // verus!
