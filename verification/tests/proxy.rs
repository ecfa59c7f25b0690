use rtps_core::bit_set::BitSet;
use rtps_core::rtps_reader_proxy::{ChangeForReaderStatusKind, RTPSChangeForReader};
use rtps_core::guid::{EntityId, Guid, GuidPrefix};
use rtps_core::rtps_reader_proxy::RtpsReaderProxy;
use rtps_core::sequence_number::SequenceNumber;

fn guid(tag: u8) -> Guid {
    Guid { prefix: GuidPrefix { bytes: [tag; 12] }, entity_id: EntityId { value: tag as u32 } }
}

fn sn(v: i64) -> SequenceNumber {
    SequenceNumber::new(v)
}

#[test]
fn new_proxy_is_empty_and_active() {
    let p = RtpsReaderProxy::new(guid(7));
    assert_eq!(p.remote_group_entity_id.value, 0);
    assert!(p.unicast_locator_list.is_empty());
    assert!(p.multicast_locator_list.is_empty());
    assert!(!p.expects_in_line_qos);
    assert!(p.is_active);
    assert!(p.requested_changes().is_empty());
    assert!(p.unsent_changes().is_empty());
    assert!(!p.can_send());
    assert!(p.next_unsent_change().is_none());
    assert!(p.next_requested_change().is_none());
}

#[test]
fn unsent_changes_are_served_lowest_first() {
    let mut p = RtpsReaderProxy::new(guid(1));
    p.unsend_changes_set(sn(5));
    p.unsend_changes_set(sn(2));
    p.unsend_changes_set(sn(9));
    p.unsend_changes_set(sn(2)); // duplicate is kept once
    assert_eq!(p.unsent_changes().len(), 3);
    assert!(p.can_send());
    assert_eq!(p.next_unsent_change().unwrap().value, 2);
    p.remove_unsend_change(sn(2));
    assert_eq!(p.next_unsent_change().unwrap().value, 5);
    p.remove_unsend_change(sn(5));
    p.remove_unsend_change(sn(9));
    assert!(!p.can_send());
}

#[test]
fn acknowledgement_floor_is_monotone() {
    // the floor only moves up, whatever order acknowledgements arrive in
    let mut p = RtpsReaderProxy::new(guid(1));
    assert!(!p.sequence_is_acked(sn(1)));
    p.acked_changes_set(sn(4));
    assert!(p.sequence_is_acked(sn(4)));
    assert!(p.sequence_is_acked(sn(1)));
    assert!(!p.sequence_is_acked(sn(5)));
    p.acked_changes_set(sn(2)); // late, lower acknowledgement does not lower the floor
    assert!(p.sequence_is_acked(sn(4)));
    p.acked_changes_set(sn(6));
    assert!(p.sequence_is_acked(sn(6)));
}

#[test]
fn acknowledged_changes_leave_the_unsent_set() {
    let mut p = RtpsReaderProxy::new(guid(1));
    p.unsend_changes_set(sn(1));
    p.unsend_changes_set(sn(2));
    p.unsend_changes_set(sn(3));
    p.acked_changes_set(sn(2));
    assert_eq!(p.unsent_changes().len(), 1);
    assert_eq!(p.next_unsent_change().unwrap().value, 3);
}

#[test]
fn add_requested_changes_collects_bit_set_members() {
    let mut p = RtpsReaderProxy::new(guid(1));
    let mut bits = BitSet::new();
    bits.insert(3);
    bits.insert(5);
    p.add_requested_changes(&bits);
    assert_eq!(p.requested_changes().len(), 2);
    assert_eq!(p.next_requested_change().unwrap().value, 3);
    p.add_requested_changes(&bits); // same bits again: no duplicates
    assert_eq!(p.requested_changes().len(), 2);
}

#[test]
fn acknack_bits_above_high_water_mark_are_ignored() {
    // bits above the writer's highest assigned number are ignored, bits
    // below are honored
    let mut p = RtpsReaderProxy::new(guid(1));
    let mut bits = BitSet::new();
    bits.insert(2);
    bits.insert(4);
    bits.insert(9); // above the high-water mark: ignored
    p.handle_acknack(1, sn(2), &bits, sn(5));
    let req: Vec<i64> = p.requested_changes().iter().map(|s| s.value).collect();
    assert!(req.contains(&2));
    assert!(req.contains(&4));
    assert!(!req.contains(&9));
    assert_eq!(req.len(), 2);
}

#[test]
fn acknack_advances_floor_to_base_minus_one() {
    let mut p = RtpsReaderProxy::new(guid(1));
    p.unsend_changes_set(sn(1));
    p.unsend_changes_set(sn(2));
    p.unsend_changes_set(sn(3));
    let bits = BitSet::new();
    p.handle_acknack(1, sn(3), &bits, sn(3));
    assert!(p.sequence_is_acked(sn(2)));
    assert!(!p.sequence_is_acked(sn(3)));
    // acknowledged changes left the unsent set
    assert_eq!(p.unsent_changes().len(), 1);
    assert_eq!(p.next_unsent_change().unwrap().value, 3);
}

#[test]
fn stale_acknack_is_discarded() {
    let mut p = RtpsReaderProxy::new(guid(1));
    let mut first = BitSet::new();
    first.insert(2);
    p.handle_acknack(5, sn(2), &first, sn(4));
    assert_eq!(p.requested_changes().len(), 1);

    // an older (or repeated) count changes nothing, whatever it carries
    let mut stale = BitSet::new();
    stale.insert(3);
    stale.insert(4);
    p.handle_acknack(5, sn(4), &stale, sn(4));
    assert_eq!(p.requested_changes().len(), 1);
    assert_eq!(p.next_requested_change().unwrap().value, 2);
    assert!(!p.sequence_is_acked(sn(2)));
}

#[test]
fn writer_state_follows_the_freshest_count() {
    // applying count 1 then count 2 leaves the same state as applying
    // count 2 alone
    let mut with_both = RtpsReaderProxy::new(guid(1));
    let mut only_second = RtpsReaderProxy::new(guid(1));
    for p in [&mut with_both, &mut only_second] {
        p.unsend_changes_set(sn(1));
        p.unsend_changes_set(sn(2));
        p.unsend_changes_set(sn(3));
        p.unsend_changes_set(sn(4));
    }

    let mut bits1 = BitSet::new();
    bits1.insert(1);
    let mut bits2 = BitSet::new();
    bits2.insert(3);

    with_both.handle_acknack(1, sn(2), &bits1, sn(4));
    with_both.handle_acknack(2, sn(4), &bits2, sn(4));
    only_second.handle_acknack(2, sn(4), &bits2, sn(4));

    let req_a: Vec<i64> = with_both.requested_changes().iter().map(|s| s.value).collect();
    let req_b: Vec<i64> = only_second.requested_changes().iter().map(|s| s.value).collect();
    assert_eq!(req_a, req_b);
    let unsent_a: Vec<i64> = with_both.unsent_changes().iter().map(|s| s.value).collect();
    let unsent_b: Vec<i64> = only_second.unsent_changes().iter().map(|s| s.value).collect();
    assert_eq!(unsent_a, unsent_b);
    assert_eq!(with_both.sequence_is_acked(sn(3)), only_second.sequence_is_acked(sn(3)));
    assert_eq!(with_both.sequence_is_acked(sn(4)), only_second.sequence_is_acked(sn(4)));
}

#[test]
fn change_for_reader_starts_unsent_and_relevant() {
    let c = RTPSChangeForReader::new();
    assert_eq!(c.kind, ChangeForReaderStatusKind::UNSENT);
    assert!(c.is_relevant);
}
