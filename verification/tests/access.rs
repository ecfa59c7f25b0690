use rtps_core::access_control::{
    AccessControlBuiltin, DistinguishedName, DomainGovernanceDocument,
    DomainParticipantPermissions, DomainRule, Grant, PluginClassId, ProtectionKind,
    SecurityError, TopicRule, UtcTime,
};
use rtps_core::qos::{Deadline, Durability, History, QosPolicies, Reliability};

fn name(s: &str) -> DistinguishedName {
    DistinguishedName { name: s.as_bytes().to_vec() }
}

fn grant(subject: &str, not_before: i64, not_after: i64) -> Grant {
    Grant { subject_name: name(subject), not_before: UtcTime { seconds: not_before }, not_after: UtcTime { seconds: not_after } }
}

fn open_rule(domain_id: u16) -> DomainRule {
    DomainRule {
        domain_ids: vec![domain_id],
        allow_unauthenticated_participants: false,
        enable_join_access_control: false,
        discovery_protection_kind: ProtectionKind::Sign,
        liveliness_protection_kind: ProtectionKind::NotProtected,
        rtps_protection_kind: ProtectionKind::EncryptWithOriginAuthentication,
        topic_access_rules: vec![TopicRule { enable_read_access_control: true, enable_write_access_control: true }],
    }
}

fn default_qos() -> QosPolicies {
    QosPolicies {
        reliability: Reliability::BestEffort,
        durability: Durability::Volatile,
        history: History::KeepLast { depth: 1 },
        deadline: Some(Deadline { period_ns: 500_000_000 }),
    }
}

#[test]
fn local_validation_issues_handle_and_caches_grant() {
    let mut ac = AccessControlBuiltin::new();
    let governance = DomainGovernanceDocument { rules: vec![open_rule(0)] };
    let permissions = DomainParticipantPermissions { grants: vec![grant("CN=alice", 100, 200)] };
    let doc = b"signed permissions".to_vec();
    let h = ac
        .validate_local_permissions_at(11, 0, &governance, &name("CN=alice"), &permissions, &doc, UtcTime { seconds: 150 })
        .unwrap();
    assert_eq!(h, 0);
    assert_eq!(ac.next_handle, 1);
    let token = ac.get_permissions_credential_token(h).unwrap();
    assert_eq!(token.permissions_document, doc);
}

#[test]
fn expired_grant_is_no_valid_grant() {
    // the only grant expired an hour before the current time: validation
    // fails and no handle is issued
    let mut ac = AccessControlBuiltin::new();
    let governance = DomainGovernanceDocument { rules: vec![open_rule(0)] };
    let now: i64 = 1_700_000_000;
    let permissions = DomainParticipantPermissions { grants: vec![grant("CN=alice", now - 7200, now - 3600)] };
    let doc = Vec::new();
    let r = ac.validate_local_permissions_at(11, 0, &governance, &name("CN=alice"), &permissions, &doc, UtcTime { seconds: now });
    assert_eq!(r, Err(SecurityError::NoValidGrant));
    assert_eq!(ac.next_handle, 0);
    assert!(ac.entries.is_empty());
}

#[test]
fn wrong_subject_is_no_valid_grant() {
    let mut ac = AccessControlBuiltin::new();
    let governance = DomainGovernanceDocument { rules: vec![open_rule(0)] };
    let permissions = DomainParticipantPermissions { grants: vec![grant("CN=bob", 0, 1000)] };
    let doc = Vec::new();
    let r = ac.validate_local_permissions_at(11, 0, &governance, &name("CN=alice"), &permissions, &doc, UtcTime { seconds: 500 });
    assert_eq!(r, Err(SecurityError::NoValidGrant));
}

#[test]
fn ungoverned_domain_is_no_domain_rule() {
    let mut ac = AccessControlBuiltin::new();
    let governance = DomainGovernanceDocument { rules: vec![open_rule(3)] };
    let permissions = DomainParticipantPermissions { grants: vec![grant("CN=alice", 0, 1000)] };
    let doc = Vec::new();
    let r = ac.validate_local_permissions_at(11, 7, &governance, &name("CN=alice"), &permissions, &doc, UtcTime { seconds: 500 });
    assert_eq!(r, Err(SecurityError::NoDomainRule));
}

#[test]
fn join_admission_follows_the_domain_rule() {
    let mut ac = AccessControlBuiltin::new();
    let governance = DomainGovernanceDocument { rules: vec![open_rule(0)] };
    let permissions = DomainParticipantPermissions { grants: vec![grant("CN=alice", 0, 1000)] };
    let doc = Vec::new();
    let h = ac
        .validate_local_permissions_at(11, 0, &governance, &name("CN=alice"), &permissions, &doc, UtcTime { seconds: 500 })
        .unwrap();
    // join access control is off in the rule: admission passes
    assert!(ac.check_create_participant(h, 0, &default_qos()).is_ok());
    assert_eq!(ac.check_create_participant(h + 1, 0, &default_qos()), Err(SecurityError::UnknownHandle));

    // a rule with join access control on and every topic fully protected
    // admits nobody
    let mut closed = open_rule(1);
    closed.enable_join_access_control = true;
    let governance2 = DomainGovernanceDocument { rules: vec![closed] };
    let h2 = ac
        .validate_local_permissions_at(12, 1, &governance2, &name("CN=alice"), &permissions, &doc, UtcTime { seconds: 500 })
        .unwrap();
    assert_eq!(ac.check_create_participant(h2, 1, &default_qos()), Err(SecurityError::NotAllowedByDomainRule));

    // one topic without read access control opens the door again
    let mut half_open = open_rule(2);
    half_open.enable_join_access_control = true;
    half_open.topic_access_rules.push(TopicRule { enable_read_access_control: false, enable_write_access_control: true });
    let governance3 = DomainGovernanceDocument { rules: vec![half_open] };
    let h3 = ac
        .validate_local_permissions_at(13, 2, &governance3, &name("CN=alice"), &permissions, &doc, UtcTime { seconds: 500 })
        .unwrap();
    assert!(ac.check_create_participant(h3, 2, &default_qos()).is_ok());
}

#[test]
fn security_attributes_follow_the_fixed_table() {
    let mut ac = AccessControlBuiltin::new();
    let governance = DomainGovernanceDocument { rules: vec![open_rule(0)] };
    let permissions = DomainParticipantPermissions { grants: vec![grant("CN=alice", 0, 1000)] };
    let doc = Vec::new();
    let h = ac
        .validate_local_permissions_at(11, 0, &governance, &name("CN=alice"), &permissions, &doc, UtcTime { seconds: 500 })
        .unwrap();
    let a = ac.get_participant_sec_attributes(h).unwrap();
    // rtps: encrypt with origin authentication
    assert!(a.is_rtps_protected);
    assert!(a.plugin_participant_attributes.is_rtps_encrypted);
    assert!(a.plugin_participant_attributes.is_rtps_origin_authenticated);
    // discovery: sign only
    assert!(a.is_discovery_protected);
    assert!(!a.plugin_participant_attributes.is_discovery_encrypted);
    assert!(!a.plugin_participant_attributes.is_discovery_origin_authenticated);
    // liveliness: unprotected
    assert!(!a.is_liveliness_protected);
    assert!(!a.plugin_participant_attributes.is_liveliness_encrypted);
    assert!(!a.plugin_participant_attributes.is_liveliness_origin_authenticated);
    assert!(!a.allow_unauthenticated_participants);
    assert!(!a.is_access_protected);

    assert_eq!(ac.get_participant_sec_attributes(h + 1), Err(SecurityError::UnknownHandle));
}

#[test]
fn protection_kind_table_is_exact() {
    assert_eq!(ProtectionKind::NotProtected.to_security_attributes_format(), (false, false, false));
    assert_eq!(ProtectionKind::Sign.to_security_attributes_format(), (true, false, false));
    assert_eq!(ProtectionKind::Encrypt.to_security_attributes_format(), (true, true, false));
    assert_eq!(ProtectionKind::SignWithOriginAuthentication.to_security_attributes_format(), (true, false, true));
    assert_eq!(ProtectionKind::EncryptWithOriginAuthentication.to_security_attributes_format(), (true, true, true));
}

#[test]
fn remote_validation_checks_identity_class_and_grant() {
    let mut ac = AccessControlBuiltin::new();
    let governance = DomainGovernanceDocument { rules: vec![open_rule(0)] };
    let permissions = DomainParticipantPermissions { grants: vec![grant("CN=alice", 0, 1000)] };
    let doc = Vec::new();
    let local = PluginClassId { class_name: b"DDS:Access:Permissions".to_vec(), major_version: 1, minor_version: 0 };
    let same_major = PluginClassId { class_name: b"DDS:Access:Permissions".to_vec(), major_version: 1, minor_version: 3 };
    let other_major = PluginClassId { class_name: b"DDS:Access:Permissions".to_vec(), major_version: 2, minor_version: 0 };
    let remote_permissions = DomainParticipantPermissions { grants: vec![grant("CN=bob", 0, 1000)] };
    let now = UtcTime { seconds: 500 };

    // unknown local identity
    let r = ac.validate_remote_permissions_at(11, &local, &same_major, &name("CN=bob"), &remote_permissions, now);
    assert_eq!(r, Err(SecurityError::UnknownHandle));

    ac.validate_local_permissions_at(11, 0, &governance, &name("CN=alice"), &permissions, &doc, now).unwrap();

    // major version mismatch is fatal
    let r = ac.validate_remote_permissions_at(11, &local, &other_major, &name("CN=bob"), &remote_permissions, now);
    assert_eq!(r, Err(SecurityError::PluginClassMismatch));

    // expired remote grant
    let old_permissions = DomainParticipantPermissions { grants: vec![grant("CN=bob", 0, 100)] };
    let r = ac.validate_remote_permissions_at(11, &local, &same_major, &name("CN=bob"), &old_permissions, now);
    assert_eq!(r, Err(SecurityError::NoValidGrant));

    // all checks pass: a fresh handle, with no credential document
    let h = ac.validate_remote_permissions_at(11, &local, &same_major, &name("CN=bob"), &remote_permissions, now).unwrap();
    assert_eq!(h, 1);
    assert!(matches!(ac.get_permissions_credential_token(h), Err(SecurityError::UnknownHandle)));
    // attributes of the remote handle derive from the local domain rule
    let a = ac.get_participant_sec_attributes(h).unwrap();
    assert!(a.is_rtps_protected);
}

#[test]
fn permissions_token_carries_no_optional_fields() {
    let ac = AccessControlBuiltin::new();
    let t = ac.get_permissions_token(0).unwrap();
    assert!(t.permissions_ca_subject_name.is_none());
    assert!(t.permissions_ca_algorithm.is_none());
}

#[test]
fn first_matching_rule_and_grant_win() {
    let mut wide = open_rule(0);
    wide.domain_ids = vec![0, 1, 2];
    wide.rtps_protection_kind = ProtectionKind::NotProtected;
    let governance = DomainGovernanceDocument { rules: vec![wide, open_rule(1)] };
    assert_eq!(governance.find_rule(1), Some(0));
    assert_eq!(governance.find_rule(9), None);

    let permissions = DomainParticipantPermissions {
        grants: vec![grant("CN=alice", 0, 10), grant("CN=alice", 0, 1000)],
    };
    // the first grant is out of its window at t=500, the second applies
    assert_eq!(permissions.find_grant(&name("CN=alice"), &UtcTime { seconds: 500 }), Some(1));
    assert_eq!(permissions.find_grant(&name("CN=alice"), &UtcTime { seconds: 5 }), Some(0));
}
