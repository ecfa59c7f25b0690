//! Sequence numbers: the signed 64-bit per-writer counter of RTPS.
//!
//! Sequence numbers start at 1 and grow monotonically; their ordering is
//! total. They are compared and manipulated here as plain `i64` values.

use vstd::prelude::*;

verus! {

/// A per-writer RTPS sequence number. Writers assign them starting at 1;
/// the value 0 never names a real change and may serve as a floor.
#[derive(Clone, Copy, Debug, PartialEq, Eq, Structural)]
pub struct SequenceNumber {
    pub value: i64,
}

impl SequenceNumber {
    /// Builds a sequence number from its raw 64-bit value.
    pub fn new(value: i64) -> (r: SequenceNumber)
        ensures
            r.value == value,
    {
        SequenceNumber { value }
    }
}

impl From<i64> for SequenceNumber {
    /// Same conversion as `SequenceNumber::new`.
    fn from(value: i64) -> (r: SequenceNumber)
        ensures
            r.value == value,
    {
        SequenceNumber { value }
    }
}

impl vstd::std_specs::convert::FromSpecImpl<i64> for SequenceNumber {
    open spec fn obeys_from_spec() -> bool {
        true
    }

    open spec fn from_spec(value: i64) -> SequenceNumber {
        SequenceNumber { value }
    }
}

} // verus!
