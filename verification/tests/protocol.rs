use rtps_core::bit_set::BitSet;
use rtps_core::event_loop::{
    classify_event, is_reader_action, is_udp_traffic, is_writer_action, traffic_class_of,
    EventAction, TrafficClass, ADD_READER_TOKEN, ADD_WRITER_TOKEN, DISCOVERY_SENDER_TOKEN,
    REMOVE_READER_TOKEN, REMOVE_WRITER_TOKEN, STOP_POLL_TOKEN, USER_TRAFFIC_SENDER_TOKEN,
};
use rtps_core::guid::{EntityId, Guid, GuidPrefix};
use rtps_core::locator::{
    discovery_multicast_port, discovery_unicast_port, user_multicast_port, user_unicast_port,
};
use rtps_core::sequence_number::SequenceNumber;
use rtps_core::submessage::{AckNack, Heartbeat, ProtocolError};

fn heartbeat(first: i64, last: i64) -> Heartbeat {
    Heartbeat {
        reader_id: EntityId { value: 0 },
        writer_id: EntityId { value: 1 },
        first_sn: SequenceNumber::new(first),
        last_sn: SequenceNumber::new(last),
        count: 1,
        final_flag: false,
    }
}

#[test]
fn heartbeat_with_inverted_range_is_malformed() {
    // first_sn above last_sn is impossible and rejected
    assert_eq!(heartbeat(5, 3).validate(), Err(ProtocolError::MalformedHeartbeat));
}

#[test]
fn heartbeat_range_edges() {
    assert!(heartbeat(1, 1).validate().is_ok());
    assert!(heartbeat(3, 9).validate().is_ok());
    // sequence numbers start at 1
    assert_eq!(heartbeat(0, 4).validate(), Err(ProtocolError::MalformedHeartbeat));
    assert_eq!(heartbeat(-2, 4).validate(), Err(ProtocolError::MalformedHeartbeat));
}

#[test]
fn acknack_base_below_one_is_malformed() {
    let a = AckNack {
        reader_id: EntityId { value: 0 },
        writer_id: EntityId { value: 1 },
        base: SequenceNumber::new(0),
        set_bits: BitSet::new(),
        count: 1,
        final_flag: false,
    };
    assert_eq!(a.validate(), Err(ProtocolError::MalformedAckNack));
    let ok = AckNack { base: SequenceNumber::new(1), ..a };
    assert!(ok.validate().is_ok());
}

#[test]
fn bit_set_membership_and_bound() {
    let mut b = BitSet::new();
    assert_eq!(b.bound_usize(), 0);
    assert!(!b.contains(0));
    b.insert(4);
    b.insert(1);
    assert!(b.contains(4));
    assert!(b.contains(1));
    assert!(!b.contains(3));
    assert!(!b.contains(100));
    assert_eq!(b.bound_usize(), 5);
}

#[test]
fn token_classification_is_exhaustive() {
    assert_eq!(classify_event(STOP_POLL_TOKEN), EventAction::Stop);
    assert_eq!(classify_event(DISCOVERY_SENDER_TOKEN), EventAction::HandleUdpTraffic);
    assert_eq!(classify_event(USER_TRAFFIC_SENDER_TOKEN), EventAction::HandleUdpTraffic);
    assert_eq!(classify_event(ADD_READER_TOKEN), EventAction::HandleReaderAction);
    assert_eq!(classify_event(REMOVE_READER_TOKEN), EventAction::HandleReaderAction);
    assert_eq!(classify_event(ADD_WRITER_TOKEN), EventAction::HandleWriterAction);
    assert_eq!(classify_event(REMOVE_WRITER_TOKEN), EventAction::HandleWriterAction);
    assert_eq!(classify_event(999), EventAction::Ignore);
}

#[test]
fn udp_tokens_carry_their_traffic_class() {
    assert!(is_udp_traffic(DISCOVERY_SENDER_TOKEN));
    assert!(is_udp_traffic(USER_TRAFFIC_SENDER_TOKEN));
    assert!(!is_udp_traffic(STOP_POLL_TOKEN));
    assert!(is_reader_action(ADD_READER_TOKEN));
    assert!(is_reader_action(REMOVE_READER_TOKEN));
    assert!(!is_reader_action(ADD_WRITER_TOKEN));
    assert!(is_writer_action(ADD_WRITER_TOKEN));
    assert_eq!(traffic_class_of(DISCOVERY_SENDER_TOKEN), Some(TrafficClass::Discovery));
    assert_eq!(traffic_class_of(USER_TRAFFIC_SENDER_TOKEN), Some(TrafficClass::User));
    assert_eq!(traffic_class_of(ADD_READER_TOKEN), None);
}

#[test]
fn guid_equality_is_octet_wise() {
    let a = Guid { prefix: GuidPrefix { bytes: [1; 12] }, entity_id: EntityId { value: 3 } };
    let b = Guid { prefix: GuidPrefix { bytes: [1; 12] }, entity_id: EntityId { value: 3 } };
    let mut other = [1u8; 12];
    other[11] = 2;
    let c = Guid { prefix: GuidPrefix { bytes: other }, entity_id: EntityId { value: 3 } };
    let d = Guid { prefix: GuidPrefix { bytes: [1; 12] }, entity_id: EntityId { value: 4 } };
    assert!(a.equals(&b));
    assert!(!a.equals(&c));
    assert!(!a.equals(&d));
    assert_eq!(EntityId::unknown().value, 0);
    assert_eq!(GuidPrefix::unknown().bytes, [0u8; 12]);
}

#[test]
fn sequence_number_round_trips_its_value() {
    assert_eq!(SequenceNumber::new(42).value, 42);
    assert_eq!(SequenceNumber::from(-3).value, -3);
}

#[test]
fn port_formula_matches_the_wire_defaults() {
    assert_eq!(discovery_multicast_port(0), 7400);
    assert_eq!(user_multicast_port(0), 7410);
    assert_eq!(discovery_multicast_port(1), 7650);
    assert_eq!(discovery_unicast_port(0, 0), 7401);
    assert_eq!(user_unicast_port(0, 0), 7411);
    assert_eq!(user_unicast_port(2, 3), 7400 + 500 + 11 + 3);
}

#[test]
fn heartbeat_serializes_to_exact_octets() {
    let h = Heartbeat {
        reader_id: EntityId { value: 0x0102_0304 },
        writer_id: EntityId { value: 0x0A0B_0C0D },
        first_sn: SequenceNumber::new(1),
        last_sn: SequenceNumber::new(258),
        count: 7,
        final_flag: true,
    };
    let bytes = h.serialize();
    assert_eq!(
        bytes,
        vec![
            0x07, 0x03, 28, 0, // id, flags (little-endian + final), octets to next header
            0x04, 0x03, 0x02, 0x01, // reader entity
            0x0D, 0x0C, 0x0B, 0x0A, // writer entity
            1, 0, 0, 0, 0, 0, 0, 0, // first sequence number
            2, 1, 0, 0, 0, 0, 0, 0, // last sequence number
            7, 0, 0, 0, // count
        ]
    );
}

#[test]
fn heartbeat_round_trips_through_the_wire() {
    let h = Heartbeat {
        reader_id: EntityId { value: 9 },
        writer_id: EntityId { value: 0xFFFF_FFFF },
        first_sn: SequenceNumber::new(3),
        last_sn: SequenceNumber::new(1_000_000_007),
        count: 0xDEAD_BEEF,
        final_flag: false,
    };
    let bytes = h.serialize();
    let back = Heartbeat::deserialize(&bytes).unwrap();
    assert_eq!(back, h);
    // and serializing what was deserialized reproduces the octets
    assert_eq!(back.serialize(), bytes);
}

#[test]
fn malformed_heartbeat_octets_are_refused() {
    let h = Heartbeat {
        reader_id: EntityId { value: 1 },
        writer_id: EntityId { value: 2 },
        first_sn: SequenceNumber::new(1),
        last_sn: SequenceNumber::new(2),
        count: 1,
        final_flag: false,
    };
    let good = h.serialize();
    assert!(Heartbeat::deserialize(&good).is_some());

    let mut wrong_id = good.clone();
    wrong_id[0] = 0x06;
    assert!(Heartbeat::deserialize(&wrong_id).is_none());

    let mut wrong_flags = good.clone();
    wrong_flags[1] = 0; // big-endian is not emitted by this core
    assert!(Heartbeat::deserialize(&wrong_flags).is_none());

    let mut short = good.clone();
    short.pop();
    assert!(Heartbeat::deserialize(&short).is_none());
}
