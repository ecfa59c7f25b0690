use rtps_core::guid::{EntityId, Guid, GuidPrefix};
use rtps_core::history_cache::{CacheChange, ChangeKind, HistoryCache, HistoryCacheError};
use rtps_core::rtps_reader_proxy::RtpsReaderProxy;
use rtps_core::sequence_number::SequenceNumber;

fn guid(tag: u8) -> Guid {
    Guid { prefix: GuidPrefix { bytes: [tag; 12] }, entity_id: EntityId { value: tag as u32 } }
}

fn change(writer: u8, sn: i64, key: u64) -> CacheChange {
    CacheChange {
        writer_guid: guid(writer),
        sequence_number: SequenceNumber::new(sn),
        kind: ChangeKind::Alive,
        instance_key: key,
        payload: vec![writer, sn as u8],
        source_timestamp_ns: 1_000 + sn,
    }
}

#[test]
fn insert_refuses_duplicate_identity() {
    let mut cache = HistoryCache::new();
    assert!(cache.insert(change(1, 5, 0)).is_ok());
    assert_eq!(cache.insert(change(1, 5, 9)), Err(HistoryCacheError::DuplicateChange));
    // the same sequence number from another writer is a different change
    assert!(cache.insert(change(2, 5, 0)).is_ok());
    assert_eq!(cache.changes.len(), 2);
}

#[test]
fn get_finds_by_writer_and_sequence_number() {
    let mut cache = HistoryCache::new();
    cache.insert(change(1, 5, 0)).unwrap();
    cache.insert(change(1, 6, 0)).unwrap();
    let i = cache.get(&guid(1), SequenceNumber::new(6)).unwrap();
    assert_eq!(cache.changes[i].sequence_number.value, 6);
    assert!(cache.get(&guid(1), SequenceNumber::new(7)).is_none());
    assert!(cache.get(&guid(2), SequenceNumber::new(5)).is_none());
}

#[test]
fn remove_up_to_evicts_only_that_writer() {
    let mut cache = HistoryCache::new();
    for s in 1..=4 {
        cache.insert(change(1, s, 0)).unwrap();
    }
    cache.insert(change(2, 2, 0)).unwrap();
    cache.remove_up_to(&guid(1), SequenceNumber::new(3));
    assert!(cache.get(&guid(1), SequenceNumber::new(3)).is_none());
    assert!(cache.get(&guid(1), SequenceNumber::new(4)).is_some());
    assert!(cache.get(&guid(2), SequenceNumber::new(2)).is_some());
    assert_eq!(cache.changes.len(), 2);
}

#[test]
fn keep_last_retains_the_newest_per_key() {
    // ten writes on one key under a depth of three: exactly the last three
    // sequence numbers stay
    let mut cache = HistoryCache::new();
    for s in 1..=10 {
        cache.insert(change(1, s, 42)).unwrap();
    }
    cache.trim_to_depth(42, 3);
    assert_eq!(cache.count_key(42), 3);
    for s in 1..=7 {
        assert!(cache.get(&guid(1), SequenceNumber::new(s)).is_none());
    }
    for s in 8..=10 {
        assert!(cache.get(&guid(1), SequenceNumber::new(s)).is_some());
    }
}

#[test]
fn keep_last_windows_are_independent_per_key() {
    let mut cache = HistoryCache::new();
    cache.insert(change(1, 1, 7)).unwrap();
    cache.insert(change(1, 2, 8)).unwrap();
    cache.insert(change(1, 3, 7)).unwrap();
    cache.insert(change(1, 4, 8)).unwrap();
    cache.trim_to_depth(7, 1);
    assert_eq!(cache.count_key(7), 1);
    assert_eq!(cache.count_key(8), 2);
    assert!(cache.get(&guid(1), SequenceNumber::new(1)).is_none());
    assert!(cache.get(&guid(1), SequenceNumber::new(3)).is_some());
    assert!(cache.get(&guid(1), SequenceNumber::new(2)).is_some());
    assert!(cache.get(&guid(1), SequenceNumber::new(4)).is_some());
}

#[test]
fn trim_below_depth_changes_nothing() {
    let mut cache = HistoryCache::new();
    cache.insert(change(1, 1, 7)).unwrap();
    cache.insert(change(1, 2, 7)).unwrap();
    cache.trim_to_depth(7, 5);
    assert_eq!(cache.count_key(7), 2);
}

#[test]
fn best_effort_eviction_ignores_acknowledgement() {
    // under KeepLast{1} a second write on the key evicts the first even
    // though nothing acknowledged it: the best-effort path
    let mut cache = HistoryCache::new();
    cache.insert(change(1, 1, 7)).unwrap();
    cache.insert(change(1, 2, 7)).unwrap();
    cache.trim_to_depth(7, 1);
    assert!(cache.get(&guid(1), SequenceNumber::new(1)).is_none());
    assert!(cache.get(&guid(1), SequenceNumber::new(2)).is_some());
}

#[test]
fn reliable_eviction_fails_on_unacknowledged_change() {
    // the reliable path refuses to evict the unacknowledged first write
    // and leaves the cache as it was
    let mut cache = HistoryCache::new();
    cache.insert(change(1, 1, 7)).unwrap();
    cache.insert(change(1, 2, 7)).unwrap();
    let r = cache.trim_to_depth_acknowledged(7, 1, SequenceNumber::new(0));
    assert_eq!(r, Err(HistoryCacheError::ResourceExhaustion));
    assert_eq!(cache.count_key(7), 2);
    assert!(cache.get(&guid(1), SequenceNumber::new(1)).is_some());
}

#[test]
fn reliable_eviction_proceeds_once_acknowledged() {
    let mut cache = HistoryCache::new();
    cache.insert(change(1, 1, 7)).unwrap();
    cache.insert(change(1, 2, 7)).unwrap();
    let r = cache.trim_to_depth_acknowledged(7, 1, SequenceNumber::new(1));
    assert_eq!(r, Ok(()));
    assert_eq!(cache.count_key(7), 1);
    assert!(cache.get(&guid(1), SequenceNumber::new(1)).is_none());
    assert!(cache.get(&guid(1), SequenceNumber::new(2)).is_some());
}

#[test]
fn late_joining_reader_is_seeded_with_retained_history() {
    // a writer published sequences 1..=5 before any reader was matched;
    // a late reader's fresh proxy is seeded with all retained changes
    let mut cache = HistoryCache::new();
    for s in 1..=5 {
        cache.insert(change(1, s, 0)).unwrap();
    }
    cache.insert(change(2, 9, 0)).unwrap(); // another writer's change is not seeded
    let mut proxy = RtpsReaderProxy::new(guid(3));
    proxy.seed_unsent_from_cache(&cache, &guid(1));
    let mut seeded: Vec<i64> = proxy.unsent_changes().iter().map(|s| s.value).collect();
    seeded.sort();
    assert_eq!(seeded, vec![1, 2, 3, 4, 5]);
    assert_eq!(proxy.next_unsent_change().unwrap().value, 1);
}
