//! The access-control admission layer: which participants may join which
//! domains, decided from a signed governance document (domain rules) and a
//! signed permissions document (grants bound to subject names and validity
//! windows).
//!
//! Reading, signature verification and XML parsing of those documents are
//! the business of outside collaborators; this module takes the already
//! verified, parsed documents as plain values and makes every admission
//! decision: rule selection by domain identifier, grant selection by subject
//! name and current time, join admission, and the derivation of the
//! participant security attributes. The one outside call made here is for
//! the current UTC time.

use vstd::prelude::*;

use crate::qos::QosPolicies;

verus! {

/// A UTC instant, as whole seconds since the Unix epoch.
#[derive(Clone, Copy, Debug, PartialEq, Eq, Structural)]
pub struct UtcTime {
    pub seconds: i64,
}

/// Relies on `chrono::Utc::now` (and `DateTime::timestamp`) for the current
/// wall-clock instant. Nothing is promised of the value: the clock may read
/// anything, and callers must hold for every outcome. `chrono::Utc::now`
/// panics only when the system clock reads before the Unix epoch.
#[verifier::external_body]
fn now_utc() -> (t: UtcTime) {
    UtcTime { seconds: chrono::Utc::now().timestamp() }
}

/// The structured security error of the admission layer; every failing step
/// names its reason, with no silent fallback.
#[derive(Clone, Copy, Debug, PartialEq, Eq, Structural)]
pub enum SecurityError {
    /// The governance document holds no rule for the requested domain.
    NoDomainRule,
    /// The permissions document holds no grant for the subject that is
    /// valid at the current time.
    NoValidGrant,
    /// The given permissions or identity handle was never issued here.
    UnknownHandle,
    /// The remote plugin class name or major version differs from the
    /// local one.
    PluginClassMismatch,
    /// The domain rule does not let this participant join any topic.
    NotAllowedByDomainRule,
}

/// How one traffic class of the domain is protected on the wire.
#[derive(Clone, Copy, Debug, PartialEq, Eq, Structural)]
pub enum ProtectionKind {
    NotProtected,
    Sign,
    Encrypt,
    SignWithOriginAuthentication,
    EncryptWithOriginAuthentication,
}

/// Is the traffic class protected at all?
pub open spec fn protection_is_protected(k: ProtectionKind) -> bool {
    k != ProtectionKind::NotProtected
}

/// Is the traffic class encrypted (not merely signed)?
pub open spec fn protection_is_encrypted(k: ProtectionKind) -> bool {
    k == ProtectionKind::Encrypt || k == ProtectionKind::EncryptWithOriginAuthentication
}

/// Does the traffic class carry origin authentication?
pub open spec fn protection_is_origin_authenticated(k: ProtectionKind) -> bool {
    k == ProtectionKind::SignWithOriginAuthentication
        || k == ProtectionKind::EncryptWithOriginAuthentication
}

impl ProtectionKind {
    /// The fixed table mapping a protection kind to the triple
    /// (protected, encrypted, origin-authenticated).
    pub fn to_security_attributes_format(&self) -> (r: (bool, bool, bool))
        ensures
            r.0 == protection_is_protected(*self),
            r.1 == protection_is_encrypted(*self),
            r.2 == protection_is_origin_authenticated(*self),
    {
        match self {
            ProtectionKind::NotProtected => (false, false, false),
            ProtectionKind::Sign => (true, false, false),
            ProtectionKind::Encrypt => (true, true, false),
            ProtectionKind::SignWithOriginAuthentication => (true, false, true),
            ProtectionKind::EncryptWithOriginAuthentication => (true, true, true),
        }
    }
}

/// Per-topic access-control switches inside a domain rule.
#[derive(Clone, Copy, Debug, PartialEq, Eq, Structural)]
pub struct TopicRule {
    pub enable_read_access_control: bool,
    pub enable_write_access_control: bool,
}

/// One rule of the governance document: the domains it covers and the
/// protections it demands.
#[derive(Debug)]
pub struct DomainRule {
    /// The domain identifiers this rule covers.
    pub domain_ids: Vec<u16>,
    pub allow_unauthenticated_participants: bool,
    pub enable_join_access_control: bool,
    pub discovery_protection_kind: ProtectionKind,
    pub liveliness_protection_kind: ProtectionKind,
    pub rtps_protection_kind: ProtectionKind,
    pub topic_access_rules: Vec<TopicRule>,
}

/// Does the rule cover the given domain identifier?
pub open spec fn rule_applies(r: DomainRule, domain_id: u16) -> bool {
    exists|i: int| 0 <= i < r.domain_ids@.len() && r.domain_ids@[i] == domain_id
}

/// Field-wise sameness of two domain rules.
pub open spec fn rule_equiv(a: DomainRule, b: DomainRule) -> bool {
    &&& a.domain_ids@ == b.domain_ids@
    &&& a.allow_unauthenticated_participants == b.allow_unauthenticated_participants
    &&& a.enable_join_access_control == b.enable_join_access_control
    &&& a.discovery_protection_kind == b.discovery_protection_kind
    &&& a.liveliness_protection_kind == b.liveliness_protection_kind
    &&& a.rtps_protection_kind == b.rtps_protection_kind
    &&& a.topic_access_rules@ == b.topic_access_rules@
}

/// May a participant governed by this rule join the domain at all? It may
/// unless join access control is on and every topic demands both read and
/// write access control.
pub open spec fn rule_allows_join(r: DomainRule) -> bool {
    !(r.enable_join_access_control && forall|i: int|
        0 <= i < r.topic_access_rules@.len() ==> (
            r.topic_access_rules@[i].enable_read_access_control
            && r.topic_access_rules@[i].enable_write_access_control))
}

/// An owned copy of a vector of copyable elements.
pub(crate) fn vec_dup<T: Copy>(v: &Vec<T>) -> (r: Vec<T>)
    ensures
        r@ == v@,
{
    let mut r: Vec<T> = Vec::new();
    let mut i: usize = 0;
    while i < v.len()
        invariant
            0 <= i <= v@.len(),
            r@ == v@.subrange(0, i as int),
        decreases v@.len() - i,
    {
        r.push(v[i]);
        proof {
            assert(r@ =~= v@.subrange(0, i + 1));
        }
        i += 1;
    }
    proof {
        assert(r@ =~= v@);
    }
    r
}

/// Byte-wise equality of two vectors.
fn bytes_eq(a: &Vec<u8>, b: &Vec<u8>) -> (r: bool)
    ensures
        r == (a@ == b@),
{
    if a.len() != b.len() {
        return false;
    }
    let mut i: usize = 0;
    while i < a.len()
        invariant
            0 <= i <= a@.len(),
            a@.len() == b@.len(),
            forall|j: int| 0 <= j < i ==> a@[j] == b@[j],
        decreases a@.len() - i,
    {
        if a[i] != b[i] {
            return false;
        }
        i += 1;
    }
    proof {
        assert(a@ =~= b@);
    }
    true
}

impl DomainRule {
    /// An owned copy of the rule, for caching under a fresh handle.
    pub fn duplicate(&self) -> (r: DomainRule)
        ensures
            rule_equiv(r, *self),
    {
        DomainRule {
            domain_ids: vec_dup(&self.domain_ids),
            allow_unauthenticated_participants: self.allow_unauthenticated_participants,
            enable_join_access_control: self.enable_join_access_control,
            discovery_protection_kind: self.discovery_protection_kind,
            liveliness_protection_kind: self.liveliness_protection_kind,
            rtps_protection_kind: self.rtps_protection_kind,
            topic_access_rules: vec_dup(&self.topic_access_rules),
        }
    }

    /// Does this rule cover the given domain identifier?
    pub fn covers(&self, domain_id: u16) -> (r: bool)
        ensures
            r == rule_applies(*self, domain_id),
    {
        let mut i: usize = 0;
        while i < self.domain_ids.len()
            invariant
                0 <= i <= self.domain_ids@.len(),
                forall|j: int| 0 <= j < i ==> self.domain_ids@[j] != domain_id,
            decreases self.domain_ids@.len() - i,
        {
            if self.domain_ids[i] == domain_id {
                return true;
            }
            i += 1;
        }
        false
    }

    /// Does this rule let a participant join the domain?
    pub fn allows_join(&self) -> (r: bool)
        ensures
            r == rule_allows_join(*self),
    {
        if !self.enable_join_access_control {
            return true;
        }
        let mut i: usize = 0;
        while i < self.topic_access_rules.len()
            invariant
                0 <= i <= self.topic_access_rules@.len(),
                forall|j: int| 0 <= j < i ==> (
                    self.topic_access_rules@[j].enable_read_access_control
                    && self.topic_access_rules@[j].enable_write_access_control),
            decreases self.topic_access_rules@.len() - i,
        {
            let t = self.topic_access_rules[i];
            if !t.enable_read_access_control || !t.enable_write_access_control {
                return true;
            }
            i += 1;
        }
        false
    }
}

/// The parsed, signature-verified governance document: its domain rules, in
/// document order.
#[derive(Debug)]
pub struct DomainGovernanceDocument {
    pub rules: Vec<DomainRule>,
}

/// Index of the first rule covering the domain, if any.
pub open spec fn is_first_rule_for(rules: Seq<DomainRule>, domain_id: u16, i: int) -> bool {
    &&& 0 <= i < rules.len()
    &&& rule_applies(rules[i], domain_id)
    &&& forall|j: int| 0 <= j < i ==> !rule_applies(rules[j], domain_id)
}

impl DomainGovernanceDocument {
    /// Does any rule cover the domain?
    pub open spec fn has_rule_for(self, domain_id: u16) -> bool {
        exists|i: int| 0 <= i < self.rules@.len() && rule_applies(self.rules@[i], domain_id)
    }

    /// The first rule covering the domain — rules are tried in document
    /// order — or `None` when the domain is ungoverned.
    pub fn find_rule(&self, domain_id: u16) -> (r: Option<usize>)
        ensures
            r is None <==> !self.has_rule_for(domain_id),
            r matches Some(i) ==> is_first_rule_for(self.rules@, domain_id, i as int),
    {
        let mut i: usize = 0;
        while i < self.rules.len()
            invariant
                0 <= i <= self.rules@.len(),
                forall|j: int| 0 <= j < i ==> !rule_applies(self.rules@[j], domain_id),
            decreases self.rules@.len() - i,
        {
            if self.rules[i].covers(domain_id) {
                return Some(i);
            }
            i += 1;
        }
        None
    }
}

/// An X.509 subject distinguished name, kept as its UTF-8 octets.
#[derive(Debug)]
pub struct DistinguishedName {
    pub name: Vec<u8>,
}

impl DistinguishedName {
    /// An owned copy of the name.
    pub fn duplicate(&self) -> (r: DistinguishedName)
        ensures
            r.name@ == self.name@,
    {
        DistinguishedName { name: vec_dup(&self.name) }
    }

    /// Byte-wise equality of two names.
    pub fn equals(&self, other: &DistinguishedName) -> (r: bool)
        ensures
            r == (self.name@ == other.name@),
    {
        bytes_eq(&self.name, &other.name)
    }
}

/// One grant of a permissions document: a subject and the closed validity
/// window in which it holds.
#[derive(Debug)]
pub struct Grant {
    pub subject_name: DistinguishedName,
    pub not_before: UtcTime,
    pub not_after: UtcTime,
}

/// Does the grant bind this subject and contain this instant?
pub open spec fn grant_valid(g: Grant, subject: Seq<u8>, t: int) -> bool {
    &&& g.subject_name.name@ == subject
    &&& g.not_before.seconds <= t <= g.not_after.seconds
}

/// Field-wise sameness of two grants.
pub open spec fn grant_equiv(a: Grant, b: Grant) -> bool {
    &&& a.subject_name.name@ == b.subject_name.name@
    &&& a.not_before == b.not_before
    &&& a.not_after == b.not_after
}

impl Grant {
    /// An owned copy of the grant, for caching under a fresh handle.
    pub fn duplicate(&self) -> (r: Grant)
        ensures
            grant_equiv(r, *self),
    {
        Grant {
            subject_name: self.subject_name.duplicate(),
            not_before: self.not_before,
            not_after: self.not_after,
        }
    }
}

/// The parsed, signature-verified permissions document: its grants, in
/// document order.
#[derive(Debug)]
pub struct DomainParticipantPermissions {
    pub grants: Vec<Grant>,
}

/// Index of the first grant for the subject valid at `t`, if any.
pub open spec fn is_first_grant_for(grants: Seq<Grant>, subject: Seq<u8>, t: int, i: int) -> bool {
    &&& 0 <= i < grants.len()
    &&& grant_valid(grants[i], subject, t)
    &&& forall|j: int| 0 <= j < i ==> !grant_valid(grants[j], subject, t)
}

impl DomainParticipantPermissions {
    /// Does any grant bind this subject at this instant?
    pub open spec fn has_grant_for(self, subject: Seq<u8>, t: int) -> bool {
        exists|i: int| 0 <= i < self.grants@.len() && grant_valid(self.grants@[i], subject, t)
    }

    /// The first grant whose subject matches and whose validity window
    /// contains `now`, or `None` when no grant applies.
    pub fn find_grant(&self, subject_name: &DistinguishedName, now: &UtcTime) -> (r: Option<
        usize,
    >)
        ensures
            r is None <==> !self.has_grant_for(subject_name.name@, now.seconds as int),
            r matches Some(i) ==> is_first_grant_for(
                self.grants@,
                subject_name.name@,
                now.seconds as int,
                i as int,
            ),
    {
        let mut i: usize = 0;
        while i < self.grants.len()
            invariant
                0 <= i <= self.grants@.len(),
                forall|j: int| 0 <= j < i ==> !grant_valid(
                    self.grants@[j],
                    subject_name.name@,
                    now.seconds as int,
                ),
            decreases self.grants@.len() - i,
        {
            let g = &self.grants[i];
            if g.subject_name.equals(subject_name) && g.not_before.seconds <= now.seconds
                && now.seconds <= g.not_after.seconds {
                return Some(i);
            }
            i += 1;
        }
        None
    }
}

/// The identifier of a security plugin implementation: its class name and
/// its version. Two plugins interoperate when the names and the major
/// versions agree.
#[derive(Debug)]
pub struct PluginClassId {
    pub class_name: Vec<u8>,
    pub major_version: u32,
    pub minor_version: u32,
}

impl PluginClassId {
    /// Checks interoperability: same class name and same major version;
    /// the minor version may differ.
    pub fn matches_up_to_major_version(&self, other: &PluginClassId) -> (r: Result<
        (),
        SecurityError,
    >)
        ensures
            r is Ok <==> (self.class_name@ == other.class_name@
                && self.major_version == other.major_version),
            r matches Err(e) ==> e == SecurityError::PluginClassMismatch,
    {
        if bytes_eq(&self.class_name, &other.class_name)
            && self.major_version == other.major_version {
            Ok(())
        } else {
            Err(SecurityError::PluginClassMismatch)
        }
    }
}

/// An opaque integer binding a validated identity to its cached
/// (domain rule, grant) pair.
pub type PermissionsHandle = u32;

/// An opaque integer naming a validated identity, issued by the
/// authentication plugin.
pub type IdentityHandle = u32;

/// What the admission layer caches under one permissions handle.
#[derive(Debug)]
pub struct PermissionsEntry {
    pub handle: PermissionsHandle,
    pub domain_rule: DomainRule,
    pub grant: Grant,
    /// The signed permissions document of a local validation, handed out
    /// again in the credential token; `None` for remote validations.
    pub permissions_document: Option<Vec<u8>>,
}

/// The plugin-independent security attributes of a participant, derived
/// from its domain rule.
#[derive(Clone, Copy, Debug, PartialEq, Eq, Structural)]
pub struct BuiltinPluginParticipantSecurityAttributes {
    pub is_discovery_encrypted: bool,
    pub is_discovery_origin_authenticated: bool,
    pub is_liveliness_encrypted: bool,
    pub is_liveliness_origin_authenticated: bool,
    pub is_rtps_encrypted: bool,
    pub is_rtps_origin_authenticated: bool,
}

/// The participant security attributes handed to the rest of the stack.
#[derive(Clone, Copy, Debug, PartialEq, Eq, Structural)]
pub struct ParticipantSecurityAttributes {
    pub allow_unauthenticated_participants: bool,
    pub is_access_protected: bool,
    pub is_discovery_protected: bool,
    pub is_liveliness_protected: bool,
    pub is_rtps_protected: bool,
    pub plugin_participant_attributes: BuiltinPluginParticipantSecurityAttributes,
}

/// The attributes a domain rule maps to, by the fixed protection-kind
/// table.
pub open spec fn attributes_of(r: DomainRule) -> ParticipantSecurityAttributes {
    ParticipantSecurityAttributes {
        allow_unauthenticated_participants: r.allow_unauthenticated_participants,
        is_access_protected: r.enable_join_access_control,
        is_discovery_protected: protection_is_protected(r.discovery_protection_kind),
        is_liveliness_protected: protection_is_protected(r.liveliness_protection_kind),
        is_rtps_protected: protection_is_protected(r.rtps_protection_kind),
        plugin_participant_attributes: BuiltinPluginParticipantSecurityAttributes {
            is_discovery_encrypted: protection_is_encrypted(r.discovery_protection_kind),
            is_discovery_origin_authenticated: protection_is_origin_authenticated(
                r.discovery_protection_kind,
            ),
            is_liveliness_encrypted: protection_is_encrypted(r.liveliness_protection_kind),
            is_liveliness_origin_authenticated: protection_is_origin_authenticated(
                r.liveliness_protection_kind,
            ),
            is_rtps_encrypted: protection_is_encrypted(r.rtps_protection_kind),
            is_rtps_origin_authenticated: protection_is_origin_authenticated(
                r.rtps_protection_kind,
            ),
        },
    }
}

/// The permissions token exchanged during discovery. The builtin plugin
/// leaves the optional fields unset.
#[derive(Debug)]
pub struct BuiltinPermissionsToken {
    pub permissions_ca_subject_name: Option<DistinguishedName>,
    pub permissions_ca_algorithm: Option<Vec<u8>>,
}

/// The credential token carrying the signed permissions document shown to
/// authenticated peers.
#[derive(Debug)]
pub struct BuiltinPermissionsCredentialToken {
    pub permissions_document: Vec<u8>,
}

/// The builtin access-control plugin: issues permissions handles and caches
/// what each handle stands for.
#[derive(Debug)]
pub struct AccessControlBuiltin {
    /// One entry per issued handle.
    pub entries: Vec<PermissionsEntry>,
    /// Which permissions handle a validated local identity received.
    pub identity_to_permissions: Vec<(IdentityHandle, PermissionsHandle)>,
    /// The next handle to issue.
    pub next_handle: u32,
}

impl AccessControlBuiltin {
    /// Was `handle` ever issued?
    pub open spec fn has_entry(self, handle: PermissionsHandle) -> bool {
        exists|i: int| 0 <= i < self.entries@.len() && self.entries@[i].handle == handle
    }

    /// Is `identity` bound to a permissions handle?
    pub open spec fn has_identity(self, identity: IdentityHandle) -> bool {
        exists|i: int| 0 <= i < self.identity_to_permissions@.len()
            && self.identity_to_permissions@[i].0 == identity
    }

    /// Well-formedness: handles are unique and below the issuance counter,
    /// and every identity binding names an issued handle. An identity
    /// validated more than once keeps its earliest binding for lookup.
    pub open spec fn wf(self) -> bool {
        &&& forall|i: int, j: int| 0 <= i < j < self.entries@.len()
            ==> self.entries@[i].handle != self.entries@[j].handle
        &&& forall|i: int| 0 <= i < self.entries@.len()
            ==> self.entries@[i].handle < self.next_handle
        &&& forall|i: int| 0 <= i < self.identity_to_permissions@.len()
            ==> self.has_entry(self.identity_to_permissions@[i].1)
    }

    /// A plugin with no handle issued yet.
    pub fn new() -> (r: AccessControlBuiltin)
        ensures
            r.wf(),
            r.entries@.len() == 0,
            r.identity_to_permissions@.len() == 0,
            r.next_handle == 0,
    {
        AccessControlBuiltin { entries: Vec::new(), identity_to_permissions: Vec::new(), next_handle: 0 }
    }

    /// Where `handle`'s entry sits, if it was issued.
    fn entry_index(&self, handle: PermissionsHandle) -> (r: Option<usize>)
        ensures
            r is None <==> !self.has_entry(handle),
            r matches Some(i) ==> 0 <= i < self.entries@.len()
                && self.entries@[i as int].handle == handle,
    {
        let mut i: usize = 0;
        while i < self.entries.len()
            invariant
                0 <= i <= self.entries@.len(),
                forall|j: int| 0 <= j < i ==> self.entries@[j].handle != handle,
            decreases self.entries@.len() - i,
        {
            if self.entries[i].handle == handle {
                return Some(i);
            }
            i += 1;
        }
        None
    }

    /// The permissions handle issued to a validated local identity, or
    /// the error naming the unknown identity.
    pub fn get_permissions_handle_(&self, identity_handle: IdentityHandle) -> (r: Result<
        PermissionsHandle,
        SecurityError,
    >)
        ensures
            r is Ok <==> self.has_identity(identity_handle),
            r matches Ok(h) ==> exists|i: int| 0 <= i < self.identity_to_permissions@.len()
                && self.identity_to_permissions@[i] == (identity_handle, h),
            r matches Err(e) ==> e == SecurityError::UnknownHandle,
    {
        let mut i: usize = 0;
        while i < self.identity_to_permissions.len()
            invariant
                0 <= i <= self.identity_to_permissions@.len(),
                forall|j: int| 0 <= j < i
                    ==> self.identity_to_permissions@[j].0 != identity_handle,
            decreases self.identity_to_permissions@.len() - i,
        {
            let pair = self.identity_to_permissions[i];
            if pair.0 == identity_handle {
                return Ok(pair.1);
            }
            i += 1;
        }
        Err(SecurityError::UnknownHandle)
    }

    /// Validates the local participant's permissions against already
    /// signature-checked, parsed documents, at a given instant: selects the
    /// domain rule for `domain_id` from the governance document (failing
    /// with `NoDomainRule` when the domain is ungoverned), selects the grant
    /// for the subject valid at `now` (failing with `NoValidGrant` when
    /// none holds), and on success issues a fresh handle, caches the pair
    /// together with the signed permissions document, and binds the
    /// identity to the handle. On failure nothing changes.
    pub fn validate_local_permissions_at(
        &mut self,
        identity_handle: IdentityHandle,
        domain_id: u16,
        governance: &DomainGovernanceDocument,
        subject_name: &DistinguishedName,
        permissions: &DomainParticipantPermissions,
        signed_permissions_document: &Vec<u8>,
        now: UtcTime,
    ) -> (r: Result<PermissionsHandle, SecurityError>)
        requires
            old(self).wf(),
            old(self).next_handle < u32::MAX,
        ensures
            final(self).wf(),
            r == Err::<PermissionsHandle, SecurityError>(SecurityError::NoDomainRule)
                <==> !governance.has_rule_for(domain_id),
            r == Err::<PermissionsHandle, SecurityError>(SecurityError::NoValidGrant)
                <==> (governance.has_rule_for(domain_id)
                    && !permissions.has_grant_for(subject_name.name@, now.seconds as int)),
            r is Err ==> *final(self) == *old(self),
            r is Ok <==> (governance.has_rule_for(domain_id)
                && permissions.has_grant_for(subject_name.name@, now.seconds as int)),
            r matches Ok(h) ==> {
                &&& h == old(self).next_handle
                &&& final(self).next_handle == old(self).next_handle + 1
                &&& final(self).entries@.len() == old(self).entries@.len() + 1
                &&& forall|i: int| 0 <= i < old(self).entries@.len()
                    ==> final(self).entries@[i] == old(self).entries@[i]
                &&& final(self).entries@.last().handle == h
                &&& exists|i: int| is_first_rule_for(governance.rules@, domain_id, i)
                    && rule_equiv(final(self).entries@.last().domain_rule, governance.rules@[i])
                &&& exists|i: int| is_first_grant_for(
                    permissions.grants@,
                    subject_name.name@,
                    now.seconds as int,
                    i,
                ) && grant_equiv(final(self).entries@.last().grant, permissions.grants@[i])
                &&& grant_valid(
                    final(self).entries@.last().grant,
                    subject_name.name@,
                    now.seconds as int,
                )
                &&& final(self).entries@.last().permissions_document matches Some(d)
                    && d@ == signed_permissions_document@
                &&& final(self).identity_to_permissions@
                    == old(self).identity_to_permissions@.push((identity_handle, h))
            },
    {
        let rule_index = match governance.find_rule(domain_id) {
            Option::Some(i) => i,
            Option::None => {
                return Err(SecurityError::NoDomainRule);
            },
        };
        let grant_index = match permissions.find_grant(subject_name, &now) {
            Option::Some(i) => i,
            Option::None => {
                return Err(SecurityError::NoValidGrant);
            },
        };
        let handle = self.next_handle;
        self.next_handle = self.next_handle + 1;
        let entry = PermissionsEntry {
            handle,
            domain_rule: governance.rules[rule_index].duplicate(),
            grant: permissions.grants[grant_index].duplicate(),
            permissions_document: Some(vec_dup(signed_permissions_document)),
        };
        self.entries.push(entry);
        self.identity_to_permissions.push((identity_handle, handle));
        proof {
            assert forall|i: int, j: int| 0 <= i < j < self.entries@.len()
                implies self.entries@[i].handle != self.entries@[j].handle by {
                if j < old(self).entries@.len() {
                    assert(old(self).entries@[i].handle != old(self).entries@[j].handle);
                } else {
                    assert(self.entries@[j].handle == handle);
                    assert(old(self).entries@[i].handle < old(self).next_handle);
                }
            }
            assert forall|i: int| 0 <= i < self.entries@.len()
                implies self.entries@[i].handle < self.next_handle by {
                if i < old(self).entries@.len() {
                    assert(old(self).entries@[i].handle < old(self).next_handle);
                }
            }
            assert forall|i: int| 0 <= i < self.identity_to_permissions@.len()
                implies self.has_entry(self.identity_to_permissions@[i].1) by {
                if i < old(self).identity_to_permissions@.len() {
                    assert(old(self).has_entry(old(self).identity_to_permissions@[i].1));
                    let k = choose|k: int| 0 <= k < old(self).entries@.len()
                        && old(self).entries@[k].handle
                            == old(self).identity_to_permissions@[i].1;
                    assert(self.entries@[k].handle == self.identity_to_permissions@[i].1);
                } else {
                    assert(self.entries@.last().handle == handle);
                }
            }
        }
        Ok(handle)
    }

    /// Validates the local participant's permissions at the current UTC
    /// time, as [`Self::validate_local_permissions_at`] does at a given
    /// one. Whether a grant is in its validity window depends on the
    /// clock, so which of `Ok` and `NoValidGrant` comes back does too; a
    /// missing domain rule is reported regardless of the time.
    pub fn validate_local_permissions(
        &mut self,
        identity_handle: IdentityHandle,
        domain_id: u16,
        governance: &DomainGovernanceDocument,
        subject_name: &DistinguishedName,
        permissions: &DomainParticipantPermissions,
        signed_permissions_document: &Vec<u8>,
    ) -> (r: Result<PermissionsHandle, SecurityError>)
        requires
            old(self).wf(),
            old(self).next_handle < u32::MAX,
        ensures
            final(self).wf(),
            r == Err::<PermissionsHandle, SecurityError>(SecurityError::NoDomainRule)
                <==> !governance.has_rule_for(domain_id),
            r matches Err(e) ==> (e == SecurityError::NoDomainRule
                || e == SecurityError::NoValidGrant),
            r is Err ==> *final(self) == *old(self),
            r matches Ok(h) ==> {
                &&& h == old(self).next_handle
                &&& final(self).next_handle == old(self).next_handle + 1
                &&& final(self).entries@.len() == old(self).entries@.len() + 1
                &&& final(self).entries@.last().handle == h
                &&& exists|i: int| is_first_rule_for(governance.rules@, domain_id, i)
                    && rule_equiv(final(self).entries@.last().domain_rule, governance.rules@[i])
                &&& exists|t: int| permissions.has_grant_for(subject_name.name@, t)
                    && grant_valid(final(self).entries@.last().grant, subject_name.name@, t)
                &&& final(self).identity_to_permissions@
                    == old(self).identity_to_permissions@.push((identity_handle, h))
            },
    {
        let now = now_utc();
        self.validate_local_permissions_at(
            identity_handle,
            domain_id,
            governance,
            subject_name,
            permissions,
            signed_permissions_document,
            now,
        )
    }

    /// Validates a remote participant's permissions at a given instant:
    /// the local identity must have been validated here (else
    /// `UnknownHandle`), the remote plugin class must match the local one
    /// up to its major version (else `PluginClassMismatch`), and the
    /// remote's permissions document — already re-verified against the
    /// local permissions CA — must hold a grant for the remote subject
    /// valid at `now` (else `NoValidGrant`). On success a fresh handle is
    /// issued caching the local domain rule and the remote grant; no
    /// identity binding is added. On failure nothing changes.
    pub fn validate_remote_permissions_at(
        &mut self,
        local_identity_handle: IdentityHandle,
        local_class_id: &PluginClassId,
        remote_class_id: &PluginClassId,
        remote_subject_name: &DistinguishedName,
        remote_permissions: &DomainParticipantPermissions,
        now: UtcTime,
    ) -> (r: Result<PermissionsHandle, SecurityError>)
        requires
            old(self).wf(),
            old(self).next_handle < u32::MAX,
        ensures
            final(self).wf(),
            r == Err::<PermissionsHandle, SecurityError>(SecurityError::UnknownHandle)
                <==> !old(self).has_identity(local_identity_handle),
            r == Err::<PermissionsHandle, SecurityError>(SecurityError::PluginClassMismatch)
                <==> (old(self).has_identity(local_identity_handle)
                    && !(local_class_id.class_name@ == remote_class_id.class_name@
                        && local_class_id.major_version == remote_class_id.major_version)),
            r == Err::<PermissionsHandle, SecurityError>(SecurityError::NoValidGrant)
                <==> (old(self).has_identity(local_identity_handle)
                    && local_class_id.class_name@ == remote_class_id.class_name@
                    && local_class_id.major_version == remote_class_id.major_version
                    && !remote_permissions.has_grant_for(
                        remote_subject_name.name@,
                        now.seconds as int,
                    )),
            r matches Err(e) ==> (e == SecurityError::UnknownHandle
                || e == SecurityError::PluginClassMismatch
                || e == SecurityError::NoValidGrant),
            r is Err ==> *final(self) == *old(self),
            r matches Ok(h) ==> {
                &&& h == old(self).next_handle
                &&& final(self).next_handle == old(self).next_handle + 1
                &&& final(self).entries@.len() == old(self).entries@.len() + 1
                &&& final(self).entries@.last().handle == h
                &&& grant_valid(
                    final(self).entries@.last().grant,
                    remote_subject_name.name@,
                    now.seconds as int,
                )
                &&& final(self).entries@.last().permissions_document is None
                &&& final(self).identity_to_permissions@ == old(self).identity_to_permissions@
            },
    {
        let local_handle = match self.get_permissions_handle_(local_identity_handle) {
            Result::Ok(h) => h,
            Result::Err(e) => {
                return Err(e);
            },
        };
        match local_class_id.matches_up_to_major_version(remote_class_id) {
            Result::Ok(u) => u,
            Result::Err(e) => {
                return Err(e);
            },
        };
        let grant_index = match remote_permissions.find_grant(remote_subject_name, &now) {
            Option::Some(i) => i,
            Option::None => {
                return Err(SecurityError::NoValidGrant);
            },
        };
        let local_entry = match self.entry_index(local_handle) {
            Option::Some(i) => i,
            Option::None => {
                // unreachable: well-formedness binds every identity to an
                // issued handle
                proof {
                    let k = choose|k: int| 0 <= k < self.identity_to_permissions@.len()
                        && self.identity_to_permissions@[k]
                            == (local_identity_handle, local_handle);
                    assert(self.has_entry(self.identity_to_permissions@[k].1));
                    assert(false);
                }
                return Err(SecurityError::UnknownHandle);
            },
        };
        let handle = self.next_handle;
        self.next_handle = self.next_handle + 1;
        let entry = PermissionsEntry {
            handle,
            domain_rule: self.entries[local_entry].domain_rule.duplicate(),
            grant: remote_permissions.grants[grant_index].duplicate(),
            permissions_document: None,
        };
        self.entries.push(entry);
        proof {
            assert forall|i: int, j: int| 0 <= i < j < self.entries@.len()
                implies self.entries@[i].handle != self.entries@[j].handle by {
                if j < old(self).entries@.len() {
                    assert(old(self).entries@[i].handle != old(self).entries@[j].handle);
                } else {
                    assert(self.entries@[j].handle == handle);
                    assert(old(self).entries@[i].handle < old(self).next_handle);
                }
            }
            assert forall|i: int| 0 <= i < self.entries@.len()
                implies self.entries@[i].handle < self.next_handle by {
                if i < old(self).entries@.len() {
                    assert(old(self).entries@[i].handle < old(self).next_handle);
                }
            }
            assert forall|i: int| 0 <= i < self.identity_to_permissions@.len()
                implies self.has_entry(self.identity_to_permissions@[i].1) by {
                assert(old(self).has_entry(old(self).identity_to_permissions@[i].1));
                let k = choose|k: int| 0 <= k < old(self).entries@.len()
                    && old(self).entries@[k].handle == old(self).identity_to_permissions@[i].1;
                assert(self.entries@[k].handle == self.identity_to_permissions@[i].1);
            }
        }
        Ok(handle)
    }

    /// Validates a remote participant's permissions at the current UTC
    /// time, as [`Self::validate_remote_permissions_at`] does at a given
    /// one. Whether the remote grant is in its window depends on the
    /// clock; the identity and plugin-class checks do not.
    pub fn validate_remote_permissions(
        &mut self,
        local_identity_handle: IdentityHandle,
        local_class_id: &PluginClassId,
        remote_class_id: &PluginClassId,
        remote_subject_name: &DistinguishedName,
        remote_permissions: &DomainParticipantPermissions,
    ) -> (r: Result<PermissionsHandle, SecurityError>)
        requires
            old(self).wf(),
            old(self).next_handle < u32::MAX,
        ensures
            final(self).wf(),
            r == Err::<PermissionsHandle, SecurityError>(SecurityError::UnknownHandle)
                <==> !old(self).has_identity(local_identity_handle),
            r == Err::<PermissionsHandle, SecurityError>(SecurityError::PluginClassMismatch)
                <==> (old(self).has_identity(local_identity_handle)
                    && !(local_class_id.class_name@ == remote_class_id.class_name@
                        && local_class_id.major_version == remote_class_id.major_version)),
            r matches Err(e) ==> (e == SecurityError::UnknownHandle
                || e == SecurityError::PluginClassMismatch
                || e == SecurityError::NoValidGrant),
            r is Err ==> *final(self) == *old(self),
            r matches Ok(h) ==> {
                &&& h == old(self).next_handle
                &&& final(self).next_handle == old(self).next_handle + 1
                &&& final(self).entries@.len() == old(self).entries@.len() + 1
                &&& final(self).entries@.last().handle == h
                &&& exists|t: int| grant_valid(
                    final(self).entries@.last().grant,
                    remote_subject_name.name@,
                    t,
                )
                &&& final(self).identity_to_permissions@ == old(self).identity_to_permissions@
            },
    {
        let now = now_utc();
        self.validate_remote_permissions_at(
            local_identity_handle,
            local_class_id,
            remote_class_id,
            remote_subject_name,
            remote_permissions,
            now,
        )
    }

    /// Admission of the local participant into the domain: passes iff the
    /// cached domain rule lets it join — join access control is off, or
    /// some topic forgoes read or write access control. The handle must
    /// have been issued here.
    #[allow(unused_variables)]
    pub fn check_create_participant(
        &self,
        permissions_handle: PermissionsHandle,
        domain_id: u16,
        qos: &QosPolicies,
    ) -> (r: Result<(), SecurityError>)
        requires
            self.wf(),
        ensures
            r == Err::<(), SecurityError>(SecurityError::UnknownHandle)
                <==> !self.has_entry(permissions_handle),
            r is Ok <==> exists|i: int| 0 <= i < self.entries@.len()
                && self.entries@[i].handle == permissions_handle
                && rule_allows_join(self.entries@[i].domain_rule),
            r matches Err(e) ==> (e == SecurityError::UnknownHandle
                || e == SecurityError::NotAllowedByDomainRule),
    {
        let i = match self.entry_index(permissions_handle) {
            Option::Some(i) => i,
            Option::None => {
                return Err(SecurityError::UnknownHandle);
            },
        };
        if self.entries[i].domain_rule.allows_join() {
            Ok(())
        } else {
            proof {
                assert forall|j: int|
                    0 <= j < self.entries@.len() && self.entries@[j].handle
                        == permissions_handle
                    implies !rule_allows_join(self.entries@[j].domain_rule) by {
                    if j < i as int {
                        assert(self.entries@[j].handle != self.entries@[i as int].handle);
                    }
                    if j > i as int {
                        assert(self.entries@[i as int].handle != self.entries@[j].handle);
                    }
                }
            }
            Err(SecurityError::NotAllowedByDomainRule)
        }
    }

    /// The permissions token of the builtin plugin; it carries no optional
    /// certificate details.
    #[allow(unused_variables)]
    pub fn get_permissions_token(&self, handle: PermissionsHandle) -> (r: Result<
        BuiltinPermissionsToken,
        SecurityError,
    >)
        ensures
            r matches Ok(t) ==> t.permissions_ca_subject_name is None
                && t.permissions_ca_algorithm is None,
            r is Ok,
    {
        Ok(
            BuiltinPermissionsToken {
                permissions_ca_subject_name: None,
                permissions_ca_algorithm: None,
            },
        )
    }

    /// The credential token of a locally validated participant: the signed
    /// permissions document cached when its handle was issued. Handles of
    /// remote validations carry no document and are refused.
    pub fn get_permissions_credential_token(&self, handle: PermissionsHandle) -> (r: Result<
        BuiltinPermissionsCredentialToken,
        SecurityError,
    >)
        requires
            self.wf(),
        ensures
            r is Ok <==> exists|i: int| 0 <= i < self.entries@.len()
                && self.entries@[i].handle == handle
                && self.entries@[i].permissions_document is Some,
            r matches Ok(t) ==> exists|i: int| 0 <= i < self.entries@.len()
                && self.entries@[i].handle == handle
                && (self.entries@[i].permissions_document matches Some(d)
                    && t.permissions_document@ == d@),
            r matches Err(e) ==> e == SecurityError::UnknownHandle,
    {
        let i = match self.entry_index(handle) {
            Option::Some(i) => i,
            Option::None => {
                proof {
                    assert forall|j: int|
                        0 <= j < self.entries@.len()
                        implies !(self.entries@[j].handle == handle
                            && self.entries@[j].permissions_document is Some) by {
                        assert(!self.has_entry(handle));
                    }
                }
                return Err(SecurityError::UnknownHandle);
            },
        };
        match &self.entries[i].permissions_document {
            Option::Some(doc) => Ok(
                BuiltinPermissionsCredentialToken { permissions_document: vec_dup(doc) },
            ),
            Option::None => {
                proof {
                    assert forall|j: int|
                        0 <= j < self.entries@.len() && self.entries@[j].handle == handle
                        implies !(self.entries@[j].permissions_document is Some) by {
                        if j < i as int {
                            assert(self.entries@[j].handle != self.entries@[i as int].handle);
                        }
                        if j > i as int {
                            assert(self.entries@[i as int].handle != self.entries@[j].handle);
                        }
                    }
                }
                Err(SecurityError::UnknownHandle)
            },
        }
    }

    /// The participant security attributes derived from the cached domain
    /// rule by the fixed protection-kind table; the handle must have been
    /// issued here.
    pub fn get_participant_sec_attributes(&self, permissions_handle: PermissionsHandle) -> (r:
        Result<ParticipantSecurityAttributes, SecurityError>)
        ensures
            r is Ok <==> self.has_entry(permissions_handle),
            r matches Ok(a) ==> exists|i: int| 0 <= i < self.entries@.len()
                && self.entries@[i].handle == permissions_handle
                && a == attributes_of(self.entries@[i].domain_rule),
            r matches Err(e) ==> e == SecurityError::UnknownHandle,
    {
        let i = match self.entry_index(permissions_handle) {
            Option::Some(i) => i,
            Option::None => {
                return Err(SecurityError::UnknownHandle);
            },
        };
        let rule = &self.entries[i].domain_rule;
        let (is_rtps_protected, is_rtps_encrypted, is_rtps_origin_authenticated) =
            rule.rtps_protection_kind.to_security_attributes_format();
        let (is_discovery_protected, is_discovery_encrypted, is_discovery_origin_authenticated) =
            rule.discovery_protection_kind.to_security_attributes_format();
        let (
            is_liveliness_protected,
            is_liveliness_encrypted,
            is_liveliness_origin_authenticated,
        ) = rule.liveliness_protection_kind.to_security_attributes_format();
        Ok(
            ParticipantSecurityAttributes {
                allow_unauthenticated_participants: rule.allow_unauthenticated_participants,
                is_access_protected: rule.enable_join_access_control,
                is_discovery_protected,
                is_liveliness_protected,
                is_rtps_protected,
                plugin_participant_attributes: BuiltinPluginParticipantSecurityAttributes {
                    is_discovery_encrypted,
                    is_discovery_origin_authenticated,
                    is_liveliness_encrypted,
                    is_liveliness_origin_authenticated,
                    is_rtps_encrypted,
                    is_rtps_origin_authenticated,
                },
            },
        )
    }
}

} // verus!
