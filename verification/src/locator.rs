//! Locators: where a remote endpoint can be reached. A locator is a transport
//! tag, an address (IPv4 mapped into the 16-octet form, or IPv6), and a UDP
//! port. Lists of locators may be empty, meaning that discovery-provided
//! defaults apply.

use vstd::prelude::*;

verus! {

/// Transport tag of a locator carrying UDP over IPv4.
pub const LOCATOR_KIND_UDPV4: u32 = 1;

/// Transport tag of a locator carrying UDP over IPv6.
pub const LOCATOR_KIND_UDPV6: u32 = 2;

/// One way to reach a remote endpoint.
#[derive(Clone, Copy, Debug)]
pub struct Locator {
    /// Transport tag, one of the `LOCATOR_KIND_*` constants.
    pub kind: u32,
    /// UDP port.
    pub port: u32,
    /// Address octets; an IPv4 address occupies the last four.
    pub address: [u8; 16],
}

/// The (possibly empty) list of locators kept for one remote endpoint.
pub type LocatorList = Vec<Locator>;

/// The port every participant of a domain joins for discovery multicast:
/// 7400 plus 250 per domain.
pub fn discovery_multicast_port(domain_id: u16) -> (r: u32)
    ensures
        r == 7400 + 250 * (domain_id as u32),
{
    7400 + 250 * (domain_id as u32)
}

/// The user-traffic multicast port of a domain: the discovery multicast
/// port plus 10.
pub fn user_multicast_port(domain_id: u16) -> (r: u32)
    ensures
        r == 7400 + 250 * (domain_id as u32) + 10,
{
    7400 + 250 * (domain_id as u32) + 10
}

/// The discovery unicast port of one participant of a domain: the domain
/// base plus 1, plus the participant index.
pub fn discovery_unicast_port(domain_id: u16, participant_index: u16) -> (r: u32)
    ensures
        r == 7400 + 250 * (domain_id as u32) + 1 + (participant_index as u32),
{
    7400 + 250 * (domain_id as u32) + 1 + (participant_index as u32)
}

/// The user-traffic unicast port of one participant of a domain: the
/// domain base plus 11, plus the participant index.
pub fn user_unicast_port(domain_id: u16, participant_index: u16) -> (r: u32)
    ensures
        r == 7400 + 250 * (domain_id as u32) + 11 + (participant_index as u32),
{
    7400 + 250 * (domain_id as u32) + 11 + (participant_index as u32)
}

} // verus!
