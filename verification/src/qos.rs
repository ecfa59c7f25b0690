//! The enforced Quality-of-Service subset: reliability, durability, history
//! depth, and the deadline period. Each policy is a tagged variant; engines
//! branch exhaustively on the tag.

use vstd::prelude::*;

verus! {

/// Whether losses are repaired through ACKNACK-driven retransmission.
#[derive(Clone, Copy, Debug, PartialEq, Eq, Structural)]
pub enum Reliability {
    /// At-most-once delivery; gaps are silently skipped.
    BestEffort,
    /// Exactly-once, in-order delivery; `write` may block up to the given
    /// time (in nanoseconds) when retention forbids eviction.
    Reliable { max_blocking_time_ns: i64 },
}

/// Whether a writer keeps past samples for late-joining readers.
#[derive(Clone, Copy, Debug, PartialEq, Eq, Structural)]
pub enum Durability {
    Volatile,
    TransientLocal,
}

/// How many changes a history cache retains per instance key.
#[derive(Clone, Copy, Debug, PartialEq, Eq, Structural)]
pub enum History {
    /// Retain until acknowledged or depth-exhausted.
    KeepAll,
    /// Evict the oldest change of a key once it holds more than `depth`.
    KeepLast { depth: usize },
}

/// The longest tolerated silence between samples of one instance, in
/// nanoseconds.
#[derive(Clone, Copy, Debug, PartialEq, Eq, Structural)]
pub struct Deadline {
    pub period_ns: i64,
}

/// The QoS bundle the engines enforce.
#[derive(Clone, Copy, Debug, PartialEq, Eq, Structural)]
pub struct QosPolicies {
    pub reliability: Reliability,
    pub durability: Durability,
    pub history: History,
    pub deadline: Option<Deadline>,
}

} // verus!
