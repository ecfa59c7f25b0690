//! Dispatch decisions of the participant reactor.
//!
//! The reactor is a single-threaded poll loop multiplexing UDP sockets,
//! internal command channels and timers. The loop itself performs I/O and
//! lives outside this library; the decision it takes on every wake — what a
//! readiness token means and which handler it goes to — is made here, on the
//! token's plain value.

use vstd::prelude::*;

verus! {

/// Shutdown signal: the loop returns at once, without draining.
pub const STOP_POLL_TOKEN: usize = 0;

/// Incoming UDP on the discovery traffic class.
pub const DISCOVERY_SENDER_TOKEN: usize = 1;

/// Incoming UDP on the user traffic class.
pub const USER_TRAFFIC_SENDER_TOKEN: usize = 2;

/// Command channel: register a new reader.
pub const ADD_READER_TOKEN: usize = 3;

/// Command channel: drop a reader.
pub const REMOVE_READER_TOKEN: usize = 4;

/// Command channel: register a new writer.
pub const ADD_WRITER_TOKEN: usize = 5;

/// Command channel: drop a writer.
pub const REMOVE_WRITER_TOKEN: usize = 6;

/// What the reactor does with one readiness event.
#[derive(Clone, Copy, Debug, PartialEq, Eq, Structural)]
pub enum EventAction {
    /// Return from the loop immediately.
    Stop,
    /// Drain the ready UDP listener and hand each datagram to the message
    /// receiver.
    HandleUdpTraffic,
    /// Drain the reader command channel and mutate the endpoint registry.
    HandleReaderAction,
    /// Drain the writer command channel and mutate the endpoint registry.
    HandleWriterAction,
    /// A token this participant did not register: skipped.
    Ignore,
}

/// The two UDP traffic classes a listener can carry.
#[derive(Clone, Copy, Debug, PartialEq, Eq, Structural)]
pub enum TrafficClass {
    Discovery,
    User,
}

/// Is the token one of the two UDP listener tokens?
pub fn is_udp_traffic(token: usize) -> (r: bool)
    ensures
        r == (token == DISCOVERY_SENDER_TOKEN || token == USER_TRAFFIC_SENDER_TOKEN),
{
    token == DISCOVERY_SENDER_TOKEN || token == USER_TRAFFIC_SENDER_TOKEN
}

/// Is the token one of the reader command channels?
pub fn is_reader_action(token: usize) -> (r: bool)
    ensures
        r == (token == ADD_READER_TOKEN || token == REMOVE_READER_TOKEN),
{
    token == ADD_READER_TOKEN || token == REMOVE_READER_TOKEN
}

/// Is the token one of the writer command channels?
pub fn is_writer_action(token: usize) -> (r: bool)
    ensures
        r == (token == ADD_WRITER_TOKEN || token == REMOVE_WRITER_TOKEN),
{
    token == ADD_WRITER_TOKEN || token == REMOVE_WRITER_TOKEN
}

/// The reactor's whole per-event decision: stop on the shutdown token, read
/// UDP on a listener token, apply commands on a command token, and skip
/// anything unknown.
pub fn classify_event(token: usize) -> (r: EventAction)
    ensures
        r == EventAction::Stop <==> token == STOP_POLL_TOKEN,
        r == EventAction::HandleUdpTraffic <==> (token == DISCOVERY_SENDER_TOKEN
            || token == USER_TRAFFIC_SENDER_TOKEN),
        r == EventAction::HandleReaderAction <==> (token == ADD_READER_TOKEN
            || token == REMOVE_READER_TOKEN),
        r == EventAction::HandleWriterAction <==> (token == ADD_WRITER_TOKEN
            || token == REMOVE_WRITER_TOKEN),
{
    if token == STOP_POLL_TOKEN {
        EventAction::Stop
    } else if is_udp_traffic(token) {
        EventAction::HandleUdpTraffic
    } else if is_reader_action(token) {
        EventAction::HandleReaderAction
    } else if is_writer_action(token) {
        EventAction::HandleWriterAction
    } else {
        EventAction::Ignore
    }
}

/// Which traffic class a ready UDP listener token carries, or `None` for a
/// token that is no listener.
pub fn traffic_class_of(token: usize) -> (r: Option<TrafficClass>)
    ensures
        r == Some(TrafficClass::Discovery) <==> token == DISCOVERY_SENDER_TOKEN,
        r == Some(TrafficClass::User) <==> token == USER_TRAFFIC_SENDER_TOKEN,
        r is None <==> !(token == DISCOVERY_SENDER_TOKEN || token == USER_TRAFFIC_SENDER_TOKEN),
{
    if token == DISCOVERY_SENDER_TOKEN {
        Some(TrafficClass::Discovery)
    } else if token == USER_TRAFFIC_SENDER_TOKEN {
        Some(TrafficClass::User)
    } else {
        None
    }
}

} // verus!
