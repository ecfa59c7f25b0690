//! Endpoint identity: a 16-octet GUID split into a 12-octet participant-scoped
//! prefix and a 4-octet entity identifier within that participant.

use vstd::prelude::*;

verus! {

/// The participant-scoped part of a GUID: 12 octets shared by every endpoint
/// of one participant.
#[derive(Clone, Copy, Debug)]
pub struct GuidPrefix {
    pub bytes: [u8; 12],
}

impl GuidPrefix {
    /// The all-zero prefix, used before a real prefix is known.
    pub fn unknown() -> (r: GuidPrefix)
        ensures
            forall|i: int| 0 <= i < 12 ==> r.bytes[i] == 0,
    {
        GuidPrefix { bytes: [0; 12] }
    }

    /// Octet-wise equality of two prefixes.
    pub fn equals(&self, other: &GuidPrefix) -> (r: bool)
        ensures
            r == (self.bytes@ == other.bytes@),
    {
        let mut i: usize = 0;
        while i < 12
            invariant
                0 <= i <= 12,
                forall|j: int| 0 <= j < i ==> self.bytes[j] == other.bytes[j],
            decreases 12 - i,
        {
            if self.bytes[i] != other.bytes[i] {
                return false;
            }
            i += 1;
        }
        proof {
            assert(self.bytes@ =~= other.bytes@);
        }
        true
    }
}

/// The endpoint-scoped part of a GUID: 4 octets naming one reader or writer
/// inside a participant. The value 0 is the reserved `unknown` sentinel.
#[derive(Clone, Copy, Debug, PartialEq, Eq, Structural)]
pub struct EntityId {
    pub value: u32,
}

impl EntityId {
    /// The reserved sentinel entity identifier.
    pub fn unknown() -> (r: EntityId)
        ensures
            r.value == 0,
    {
        EntityId { value: 0 }
    }
}

/// A 16-octet globally unique endpoint identifier.
#[derive(Clone, Copy, Debug)]
pub struct Guid {
    pub prefix: GuidPrefix,
    pub entity_id: EntityId,
}

impl Guid {
    /// Deep equality of two GUIDs.
    pub fn equals(&self, other: &Guid) -> (r: bool)
        ensures
            r == (self.prefix.bytes@ == other.prefix.bytes@
                && self.entity_id.value == other.entity_id.value),
    {
        self.prefix.equals(&other.prefix) && self.entity_id.value == other.entity_id.value
    }
}

} // verus!
