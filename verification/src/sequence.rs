//! Wrap-aware 32-bit sequence numbers (RFC 9293, section 3.4).

use std::cmp::Ordering;
use vstd::prelude::*;

verus! {

/// Size of the sequence space, 2^32.
pub open spec fn sequence_space() -> int {
    0x1_0000_0000
}

/// Half of the sequence space, 2^31: the window inside which two sequence
/// numbers can be ordered.
pub open spec fn half_space() -> int {
    0x8000_0000
}

/// `(a + n) mod 2^32`.
pub open spec fn seq_add(a: u32, n: u32) -> u32 {
    ((a + n) % sequence_space()) as u32
}

/// `(a - b) mod 2^32`: the distance going forward from `b` to `a`.
pub open spec fn seq_sub(a: u32, b: u32) -> u32 {
    ((a - b) % sequence_space()) as u32
}

/// `a` precedes `b` on the circle: they differ, and going forward from `a`
/// reaches `b` in fewer than 2^31 steps.
pub open spec fn seq_lt(a: u32, b: u32) -> bool {
    a != b && seq_sub(b, a) < half_space()
}

/// `a` follows `b` on the circle: neither equal to it nor before it.
pub open spec fn seq_gt(a: u32, b: u32) -> bool {
    a != b && !seq_lt(a, b)
}

/// The circular order of RFC 793: equal values are `Equal`; otherwise `a` is
/// `Less` than `b` exactly when `seq_lt(a, b)`, and `Greater` in every other case.
pub open spec fn circular_order(a: u32, b: u32) -> Ordering {
    if a == b {
        Ordering::Equal
    } else if seq_lt(a, b) {
        Ordering::Less
    } else {
        Ordering::Greater
    }
}

/// A TCP sequence number.
#[derive(Debug, Clone, Copy, PartialEq, Eq, Structural)]
pub struct SequenceNumber(u32);

impl View for SequenceNumber {
    type V = u32;

    closed spec fn view(&self) -> u32 {
        self.0
    }
}

impl SequenceNumber {
    pub fn new(value: u32) -> (r: Self)
        ensures
            r@ == value,
    {
        Self(value)
    }

    pub fn value(&self) -> (r: u32)
        ensures
            r == self@,
    {
        self.0
    }

    /// Addition modulo 2^32.
    pub fn wrapping_add(&self, n: u32) -> (r: Self)
        ensures
            r@ == seq_add(self@, n),
    {
        Self(self.0.wrapping_add(n))
    }

    /// Subtraction modulo 2^32: how far `self` lies ahead of `other`.
    pub fn wrapping_sub(&self, other: Self) -> (r: u32)
        ensures
            r == seq_sub(self@, other@),
    {
        self.0.wrapping_sub(other.0)
    }

    /// Circular comparison.
    pub fn compare(&self, other: Self) -> (r: Ordering)
        ensures
            r == circular_order(self@, other@),
    {
        let ahead: u32 = other.0.wrapping_sub(self.0);
        if ahead == 0 {
            Ordering::Equal
        } else if ahead < 0x8000_0000 {
            Ordering::Less
        } else {
            Ordering::Greater
        }
    }

    /// Whether `self` follows `other` on the circle: whether `compare` gives
    /// `Greater`.
    pub fn is_after(&self, other: Self) -> (r: bool)
        ensures
            r == seq_gt(self@, other@),
    {
        match self.compare(other) {
            Ordering::Greater => true,
            _ => false,
        }
    }

    /// Whether `self` precedes `other` on the circle: whether `compare` gives
    /// `Less`.
    pub fn is_before(&self, other: Self) -> (r: bool)
        ensures
            r == seq_lt(self@, other@),
    {
        match self.compare(other) {
            Ordering::Less => true,
            _ => false,
        }
    }

    /// The comparison of `compare`, under the name that ordered types give it.
    pub fn cmp(&self, other: &Self) -> (r: Ordering)
        ensures
            r == circular_order(self@, other@),
    {
        self.compare(*other)
    }
}

impl PartialOrd for SequenceNumber {
    fn partial_cmp(&self, other: &Self) -> (r: Option<Ordering>) {
        Some(self.compare(*other))
    }
}

impl vstd::std_specs::cmp::PartialOrdSpecImpl for SequenceNumber {
    open spec fn obeys_partial_cmp_spec() -> bool {
        true
    }

    open spec fn partial_cmp_spec(&self, other: &Self) -> Option<Ordering> {
        Some(circular_order(self@, other@))
    }
}

/// Adding to a sequence number and taking the distance back gives the
/// addend. This holds of every addend; an addend below 2^31 other than zero
/// moreover leads to a later number.
pub proof fn lemma_add_then_sub(a: u32, n: u32)
    ensures
        seq_sub(seq_add(a, n), a) == n,
        0 < n < half_space() ==> seq_lt(a, seq_add(a, n)),
{
    let sum = seq_add(a, n);
    assert(sum == if a + n < sequence_space() {
        a + n
    } else {
        a + n - sequence_space()
    });
    assert(seq_sub(sum, a) == if sum - a >= 0 {
        sum - a
    } else {
        sum - a + sequence_space()
    });
}

} // verus!
