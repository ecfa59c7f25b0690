//! The history cache: the ordered store of CacheChanges a writer has
//! produced or a reader has received, keyed by (writer GUID, sequence
//! number), with lookup by that pair and retention governed by the History
//! QoS. Under `KeepLast{depth}` the oldest changes of a key — oldest by
//! insertion — are evicted once the key holds more than `depth`; a Reliable
//! writer may evict only changes its readers have acknowledged.

use vstd::prelude::*;

use crate::access_control::vec_dup;
use crate::guid::Guid;
use crate::sequence_number::SequenceNumber;

verus! {

/// What a change says about its instance.
#[derive(Clone, Copy, Debug, PartialEq, Eq, Structural)]
pub enum ChangeKind {
    Alive,
    NotAliveDisposed,
    NotAliveUnregistered,
}

/// Why the cache refused an operation.
#[derive(Clone, Copy, Debug, PartialEq, Eq, Structural)]
pub enum HistoryCacheError {
    /// A change with this (writer GUID, sequence number) is already held.
    DuplicateChange,
    /// Reliable retention forbids evicting an unacknowledged change.
    ResourceExhaustion,
}

/// One immutable sample plus its metadata.
#[derive(Debug)]
pub struct CacheChange {
    pub writer_guid: Guid,
    pub sequence_number: SequenceNumber,
    pub kind: ChangeKind,
    /// The instance the sample belongs to, as the key's digest.
    pub instance_key: u64,
    /// The serialized sample, opaque to the cache.
    pub payload: Vec<u8>,
    /// The source timestamp, in nanoseconds since the Unix epoch.
    pub source_timestamp_ns: i64,
}

/// Do two GUIDs name the same endpoint?
pub open spec fn guid_matches(a: Guid, b: Guid) -> bool {
    a.prefix.bytes@ == b.prefix.bytes@ && a.entity_id.value == b.entity_id.value
}

/// Does the sequence hold a change of this writer with this sequence
/// number?
pub open spec fn cache_has(s: Seq<CacheChange>, w: Guid, v: i64) -> bool {
    exists|i: int| 0 <= i < s.len() && guid_matches(s[i].writer_guid, w)
        && s[i].sequence_number.value == v
}

/// Does the first `n` entries hold a change of this writer with this
/// sequence number?
pub open spec fn cache_has_upto(s: Seq<CacheChange>, n: int, w: Guid, v: i64) -> bool {
    exists|i: int| 0 <= i < n && i < s.len() && guid_matches(s[i].writer_guid, w)
        && s[i].sequence_number.value == v
}

/// No two entries share a (writer GUID, sequence number) pair.
pub open spec fn cache_ids_unique(s: Seq<CacheChange>) -> bool {
    forall|i: int, j: int| 0 <= i < j < s.len() ==> !(
        guid_matches(s[i].writer_guid, s[j].writer_guid)
        && s[i].sequence_number.value == s[j].sequence_number.value)
}

/// How many entries carry this instance key.
pub open spec fn key_count(s: Seq<CacheChange>, key: u64) -> int
    decreases s.len(),
{
    if s.len() == 0 {
        0
    } else {
        key_count(s.drop_last(), key) + if s.last().instance_key == key {
            1int
        } else {
            0int
        }
    }
}

/// A key's count lies between zero and the cache's size.
pub proof fn lemma_key_count_bounds(s: Seq<CacheChange>, key: u64)
    ensures
        0 <= key_count(s, key) <= s.len(),
    decreases s.len(),
{
    if s.len() > 0 {
        lemma_key_count_bounds(s.drop_last(), key);
    }
}

/// Membership and uniqueness facts about appending one change.
proof fn lemma_cache_push(s: Seq<CacheChange>, c: CacheChange)
    ensures
        forall|w: Guid, v: i64| cache_has(s.push(c), w, v) <==> (cache_has(s, w, v)
            || (guid_matches(c.writer_guid, w) && c.sequence_number.value == v)),
        (cache_ids_unique(s) && !cache_has(s, c.writer_guid, c.sequence_number.value))
            ==> cache_ids_unique(s.push(c)),
        key_count(s.push(c), key_witness(c)) == key_count(s, key_witness(c)) + 1,
        forall|k: u64| k != c.instance_key ==> key_count(s.push(c), k) == key_count(s, k),
{
    let t = s.push(c);
    assert(t.last() == c);
    assert(t.drop_last() =~= s);
    assert forall|w: Guid, v: i64|
        cache_has(t, w, v) <==> (cache_has(s, w, v)
            || (guid_matches(c.writer_guid, w) && c.sequence_number.value == v)) by {
        if cache_has(t, w, v) {
            let i = choose|i: int| 0 <= i < t.len() && guid_matches(t[i].writer_guid, w)
                && t[i].sequence_number.value == v;
            if i < s.len() {
                assert(guid_matches(s[i].writer_guid, w) && s[i].sequence_number.value == v);
            } else {
                assert(t[i] == c);
            }
        }
        if cache_has(s, w, v) {
            let i = choose|i: int| 0 <= i < s.len() && guid_matches(s[i].writer_guid, w)
                && s[i].sequence_number.value == v;
            assert(guid_matches(t[i].writer_guid, w) && t[i].sequence_number.value == v);
        }
        if guid_matches(c.writer_guid, w) && c.sequence_number.value == v {
            assert(guid_matches(t[s.len() as int].writer_guid, w)
                && t[s.len() as int].sequence_number.value == v);
        }
    }
    if cache_ids_unique(s) && !cache_has(s, c.writer_guid, c.sequence_number.value) {
        assert forall|i: int, j: int| 0 <= i < j < t.len() implies !(
            guid_matches(t[i].writer_guid, t[j].writer_guid)
            && t[i].sequence_number.value == t[j].sequence_number.value) by {
            if j < s.len() {
                assert(!(guid_matches(s[i].writer_guid, s[j].writer_guid)
                    && s[i].sequence_number.value == s[j].sequence_number.value));
            } else {
                assert(t[j] == c);
                if guid_matches(s[i].writer_guid, c.writer_guid)
                    && s[i].sequence_number.value == c.sequence_number.value {
                    assert(guid_matches(s[i].writer_guid, c.writer_guid));
                    assert(cache_has(s, c.writer_guid, c.sequence_number.value)) by {
                        assert(guid_matches(s[i].writer_guid, c.writer_guid)
                            && s[i].sequence_number.value == c.sequence_number.value);
                    }
                }
            }
        }
    }
}

/// The instance key of a change, for stating count changes on push.
pub open spec fn key_witness(c: CacheChange) -> u64 {
    c.instance_key
}

/// When a key is within its depth already, every entry stays and satisfies
/// the retention condition.
proof fn lemma_all_kept_when_under_depth(s: Seq<CacheChange>, key: u64, depth: int)
    requires
        key_count(s, key) <= depth,
    ensures
        forall|j: int| 0 <= j < s.len() ==> (
            cache_has(s, s[j].writer_guid, s[j].sequence_number.value)
            && (s[j].instance_key != key
                || key_count(s.subrange(0, j), key) >= key_count(s, key) - depth)),
{
    assert forall|j: int| 0 <= j < s.len() implies (
        cache_has(s, s[j].writer_guid, s[j].sequence_number.value)
        && (s[j].instance_key != key
            || key_count(s.subrange(0, j), key) >= key_count(s, key) - depth)) by {
        assert(guid_matches(s[j].writer_guid, s[j].writer_guid));
        lemma_key_count_bounds(s.subrange(0, j), key);
    }
}

/// What the eviction scan's invariants give at its end, shaped as the
/// retention contract.
proof fn lemma_trim_post(orig: Seq<CacheChange>, kept: Seq<CacheChange>, key: u64, depth: int, to_drop: int)
    requires
        to_drop == key_count(orig, key) - depth,
        to_drop >= 1,
        key_count(kept, key) == key_count(orig, key) - to_drop,
        forall|w: Guid, v: i64| cache_has(kept, w, v)
            ==> cache_has_upto(orig, orig.len() as int, w, v),
        forall|j: int| 0 <= j < orig.len() ==> (
            cache_has(kept, orig[j].writer_guid, orig[j].sequence_number.value)
            <==> (orig[j].instance_key != key
                || key_count(orig.subrange(0, j), key) >= to_drop)),
    ensures
        key_count(kept, key) == if key_count(orig, key) <= depth {
            key_count(orig, key)
        } else {
            depth
        },
        forall|w: Guid, v: i64| cache_has(kept, w, v) ==> cache_has(orig, w, v),
        forall|j: int| 0 <= j < orig.len() ==> (
            cache_has(kept, orig[j].writer_guid, orig[j].sequence_number.value)
            <==> (orig[j].instance_key != key
                || key_count(orig.subrange(0, j), key) >= key_count(orig, key) - depth)),
{
    assert forall|w: Guid, v: i64| cache_has(kept, w, v) implies cache_has(orig, w, v) by {
        assert(cache_has_upto(orig, orig.len() as int, w, v));
        let j = choose|j: int| 0 <= j < orig.len() && j < orig.len()
            && guid_matches(orig[j].writer_guid, w) && orig[j].sequence_number.value == v;
        assert(0 <= j < orig.len() && guid_matches(orig[j].writer_guid, w)
            && orig[j].sequence_number.value == v);
    }
}

impl CacheChange {
    /// An owned copy of the change.
    pub fn duplicate(&self) -> (r: CacheChange)
        ensures
            r.writer_guid == self.writer_guid,
            r.sequence_number == self.sequence_number,
            r.kind == self.kind,
            r.instance_key == self.instance_key,
            r.payload@ == self.payload@,
            r.source_timestamp_ns == self.source_timestamp_ns,
    {
        CacheChange {
            writer_guid: self.writer_guid,
            sequence_number: self.sequence_number,
            kind: self.kind,
            instance_key: self.instance_key,
            payload: vec_dup(&self.payload),
            source_timestamp_ns: self.source_timestamp_ns,
        }
    }
}

/// Does the cache hold, among the oldest `to_drop` changes of the key, one
/// with a sequence number above the acknowledged one?
fn find_unacked_surplus(
    changes: &Vec<CacheChange>,
    key: u64,
    to_drop: usize,
    acked_up_to: SequenceNumber,
) -> (r: bool)
    ensures
        r == exists|j: int| 0 <= j < changes@.len() && changes@[j].instance_key == key
            && key_count(changes@.subrange(0, j), key) < to_drop as int
            && changes@[j].sequence_number.value > acked_up_to.value,
{
    let ghost orig = changes@;
    let mut cnt: usize = 0;
    let mut i: usize = 0;
    while i < changes.len()
        invariant
            0 <= i <= orig.len(),
            orig == changes@,
            cnt as int == key_count(orig.subrange(0, i as int), key),
            cnt <= i,
            forall|j: int| 0 <= j < i ==> !(orig[j].instance_key == key
                && key_count(orig.subrange(0, j), key) < to_drop as int
                && orig[j].sequence_number.value > acked_up_to.value),
        decreases orig.len() - i,
    {
        proof {
            assert(orig.subrange(0, i + 1).drop_last() =~= orig.subrange(0, i as int));
            assert(orig.subrange(0, i + 1).last() == orig[i as int]);
        }
        if changes[i].instance_key == key {
            if cnt < to_drop && changes[i].sequence_number.value > acked_up_to.value {
                return true;
            }
            cnt += 1;
        }
        i += 1;
    }
    false
}

/// Scans the cache once, skipping the first `to_drop` changes of the key
/// and keeping everything else, in order.
#[verifier::rlimit(100)]
#[verifier::spinoff_prover]
fn drop_oldest_of_key(v: &Vec<CacheChange>, key: u64, to_drop: usize) -> (kept: Vec<
    CacheChange,
>)
    requires
        cache_ids_unique(v@),
        1 <= to_drop as int <= key_count(v@, key),
    ensures
        cache_ids_unique(kept@),
        key_count(kept@, key) == key_count(v@, key) - to_drop,
        forall|w: Guid, s: i64| cache_has(kept@, w, s) ==> cache_has(v@, w, s),
        forall|j: int| 0 <= j < v@.len() ==> (
            cache_has(kept@, v@[j].writer_guid, v@[j].sequence_number.value)
            <==> (v@[j].instance_key != key
                || key_count(v@.subrange(0, j), key) >= to_drop as int)),
{
    let ghost orig = v@;
    let mut kept: Vec<CacheChange> = Vec::new();
    let mut dropped: usize = 0;
    let mut i: usize = 0;
    while i < v.len()
        invariant
            0 <= i <= orig.len(),
            orig == v@,
            cache_ids_unique(orig),
            cache_ids_unique(kept@),
            1 <= to_drop as int <= key_count(orig, key),
            dropped <= to_drop,
            dropped as int == if key_count(orig.subrange(0, i as int), key) <= to_drop as int {
                key_count(orig.subrange(0, i as int), key)
            } else {
                to_drop as int
            },
            key_count(kept@, key) == key_count(orig.subrange(0, i as int), key)
                - dropped as int,
            forall|w: Guid, s: i64| cache_has(kept@, w, s)
                ==> cache_has_upto(orig, i as int, w, s),
            forall|j: int| 0 <= j < i ==> (
                cache_has(kept@, orig[j].writer_guid, orig[j].sequence_number.value)
                <==> (orig[j].instance_key != key
                    || key_count(orig.subrange(0, j), key) >= to_drop as int)),
        decreases orig.len() - i,
    {
        let ghost prev = kept@;
        let ghost prev_dropped = dropped as int;
        proof {
            assert(orig.subrange(0, i + 1).drop_last() =~= orig.subrange(0, i as int));
            assert(orig.subrange(0, i + 1).last() == orig[i as int]);
        }
        let is_key = v[i].instance_key == key;
        if is_key && dropped < to_drop {
            dropped += 1;
            proof {
                if cache_has(kept@, orig[i as int].writer_guid,
                    orig[i as int].sequence_number.value) {
                    let j = choose|j: int| 0 <= j < i && j < orig.len()
                        && guid_matches(orig[j].writer_guid, orig[i as int].writer_guid)
                        && orig[j].sequence_number.value
                            == orig[i as int].sequence_number.value;
                    assert(false);
                }
            }
        } else {
            let c = v[i].duplicate();
            proof {
                if cache_has(kept@, c.writer_guid, c.sequence_number.value) {
                    let j = choose|j: int| 0 <= j < i && j < orig.len()
                        && guid_matches(orig[j].writer_guid, c.writer_guid)
                        && orig[j].sequence_number.value == c.sequence_number.value;
                    assert(guid_matches(orig[j].writer_guid, orig[i as int].writer_guid));
                    assert(false);
                }
                lemma_cache_push(kept@, c);
                assert(key_witness(c) == orig[i as int].instance_key);
            }
            kept.push(c);
        }
        proof {
            assert forall|j: int| 0 <= j < i + 1 implies (
                cache_has(kept@, orig[j].writer_guid, orig[j].sequence_number.value)
                <==> (orig[j].instance_key != key
                    || key_count(orig.subrange(0, j), key) >= to_drop as int)) by {
                if j < i {
                    assert(cache_has(prev, orig[j].writer_guid,
                        orig[j].sequence_number.value)
                        <==> (orig[j].instance_key != key
                            || key_count(orig.subrange(0, j), key) >= to_drop as int));
                    if guid_matches(orig[j].writer_guid, orig[i as int].writer_guid)
                        && orig[j].sequence_number.value
                            == orig[i as int].sequence_number.value {
                        assert(false);
                    }
                } else {
                    assert(guid_matches(orig[i as int].writer_guid,
                        orig[i as int].writer_guid));
                    if orig[i as int].instance_key == key && prev_dropped < to_drop as int {
                        assert(key_count(orig.subrange(0, i as int), key) == prev_dropped);
                    }
                }
            }
            assert forall|w: Guid, s: i64|
                cache_has(kept@, w, s) implies cache_has_upto(orig, i + 1, w, s) by {
                if cache_has(prev, w, s) {
                    let j = choose|j: int| 0 <= j < i && j < orig.len()
                        && guid_matches(orig[j].writer_guid, w)
                        && orig[j].sequence_number.value == s;
                    assert(0 <= j < i + 1 && guid_matches(orig[j].writer_guid, w)
                        && orig[j].sequence_number.value == s);
                } else {
                    assert(guid_matches(orig[i as int].writer_guid, w)
                        && orig[i as int].sequence_number.value == s);
                }
            }
        }
        i += 1;
    }
    proof {
        assert(orig.subrange(0, orig.len() as int) =~= orig);
        assert forall|w: Guid, s: i64| cache_has(kept@, w, s) implies cache_has(orig, w, s) by {
            let j = choose|j: int| 0 <= j < i && j < orig.len()
                && guid_matches(orig[j].writer_guid, w) && orig[j].sequence_number.value == s;
            assert(0 <= j < orig.len() && guid_matches(orig[j].writer_guid, w)
                && orig[j].sequence_number.value == s);
        }
    }
    kept
}

/// An ordered collection of CacheChanges with lookup by (writer GUID,
/// sequence number); iteration order for transmission is the order of the
/// underlying vector, ascending by insertion.
#[derive(Debug)]
pub struct HistoryCache {
    pub changes: Vec<CacheChange>,
}

impl HistoryCache {
    /// Does the cache hold a change of this writer with this sequence
    /// number?
    pub open spec fn has(self, w: Guid, v: i64) -> bool {
        cache_has(self.changes@, w, v)
    }

    /// Well-formedness: (writer GUID, sequence number) identifies a change.
    pub open spec fn wf(self) -> bool {
        cache_ids_unique(self.changes@)
    }

    /// An empty cache.
    pub fn new() -> (r: HistoryCache)
        ensures
            r.wf(),
            r.changes@.len() == 0,
    {
        HistoryCache { changes: Vec::new() }
    }

    /// Where the change of this writer with this sequence number sits, or
    /// `None`.
    pub fn get(&self, writer: &Guid, sequence_number: SequenceNumber) -> (r: Option<usize>)
        ensures
            r is Some <==> self.has(*writer, sequence_number.value),
            r matches Some(i) ==> 0 <= i < self.changes@.len()
                && guid_matches(self.changes@[i as int].writer_guid, *writer)
                && self.changes@[i as int].sequence_number.value == sequence_number.value,
    {
        let mut i: usize = 0;
        while i < self.changes.len()
            invariant
                0 <= i <= self.changes@.len(),
                forall|j: int| 0 <= j < i ==> !(
                    guid_matches(self.changes@[j].writer_guid, *writer)
                    && self.changes@[j].sequence_number.value == sequence_number.value),
            decreases self.changes@.len() - i,
        {
            let c = &self.changes[i];
            if c.writer_guid.equals(writer) && c.sequence_number.value == sequence_number.value {
                return Some(i);
            }
            i += 1;
        }
        None
    }

    /// Stores a change; refuses a (writer GUID, sequence number) pair that
    /// is already present.
    pub fn insert(&mut self, change: CacheChange) -> (r: Result<(), HistoryCacheError>)
        requires
            old(self).wf(),
        ensures
            final(self).wf(),
            r is Ok <==> !old(self).has(change.writer_guid, change.sequence_number.value),
            r is Ok ==> final(self).changes@ == old(self).changes@.push(change),
            r is Ok ==> forall|w: Guid, v: i64| final(self).has(w, v) <==> (old(self).has(w, v)
                || (guid_matches(change.writer_guid, w) && change.sequence_number.value == v)),
            r is Err ==> *final(self) == *old(self),
            r matches Err(e) ==> e == HistoryCacheError::DuplicateChange,
    {
        if self.get(&change.writer_guid, change.sequence_number).is_some() {
            return Err(HistoryCacheError::DuplicateChange);
        }
        proof {
            lemma_cache_push(self.changes@, change);
        }
        self.changes.push(change);
        Ok(())
    }

    /// How many retained changes carry this instance key.
    pub fn count_key(&self, key: u64) -> (r: usize)
        ensures
            r as int == key_count(self.changes@, key),
    {
        let ghost orig = self.changes@;
        let mut cnt: usize = 0;
        let mut i: usize = 0;
        while i < self.changes.len()
            invariant
                0 <= i <= orig.len(),
                orig == self.changes@,
                cnt as int == key_count(orig.subrange(0, i as int), key),
                cnt <= i,
            decreases orig.len() - i,
        {
            proof {
                assert(orig.subrange(0, i + 1).drop_last() =~= orig.subrange(0, i as int));
                assert(orig.subrange(0, i + 1).last() == orig[i as int]);
            }
            if self.changes[i].instance_key == key {
                cnt += 1;
            }
            i += 1;
        }
        proof {
            assert(orig.subrange(0, orig.len() as int) =~= orig);
        }
        cnt
    }

    /// Evicts every change of this writer with sequence number at or below
    /// the given one; changes of other writers, and later changes of this
    /// one, stay.
    pub fn remove_up_to(&mut self, writer: &Guid, sequence_number: SequenceNumber)
        requires
            old(self).wf(),
        ensures
            final(self).wf(),
            forall|w: Guid, v: i64| final(self).has(w, v) <==> (old(self).has(w, v)
                && !(guid_matches(w, *writer) && v <= sequence_number.value)),
    {
        let ghost orig = self.changes@;
        let mut kept: Vec<CacheChange> = Vec::new();
        let mut i: usize = 0;
        while i < self.changes.len()
            invariant
                0 <= i <= orig.len(),
                orig == self.changes@,
                cache_ids_unique(orig),
                cache_ids_unique(kept@),
                forall|w: Guid, v: i64| cache_has(kept@, w, v) <==> (
                    cache_has_upto(orig, i as int, w, v)
                    && !(guid_matches(w, *writer) && v <= sequence_number.value)),
            decreases orig.len() - i,
        {
            let ghost prev = kept@;
            let keep = {
                let c = &self.changes[i];
                !(c.writer_guid.equals(writer)
                    && c.sequence_number.value <= sequence_number.value)
            };
            if keep {
                let c = self.changes[i].duplicate();
                proof {
                    if cache_has(kept@, c.writer_guid, c.sequence_number.value) {
                        let j = choose|j: int| 0 <= j < i && j < orig.len()
                            && guid_matches(orig[j].writer_guid, c.writer_guid)
                            && orig[j].sequence_number.value == c.sequence_number.value;
                        assert(guid_matches(orig[j].writer_guid, orig[i as int].writer_guid));
                        assert(false);
                    }
                    lemma_cache_push(kept@, c);
                }
                kept.push(c);
            }
            proof {
                assert forall|w: Guid, v: i64|
                    cache_has(kept@, w, v) <==> (cache_has_upto(orig, i + 1, w, v)
                        && !(guid_matches(w, *writer) && v <= sequence_number.value)) by {
                    assert(cache_has(prev, w, v) <==> (cache_has_upto(orig, i as int, w, v)
                        && !(guid_matches(w, *writer) && v <= sequence_number.value)));
                    if cache_has_upto(orig, i + 1, w, v)
                        && !(guid_matches(w, *writer) && v <= sequence_number.value) {
                        let j = choose|j: int| 0 <= j < i + 1 && j < orig.len()
                            && guid_matches(orig[j].writer_guid, w)
                            && orig[j].sequence_number.value == v;
                        if j == i {
                            assert(cache_has(kept@, w, v));
                        } else {
                            assert(cache_has_upto(orig, i as int, w, v));
                        }
                    }
                    if cache_has(kept@, w, v) && !cache_has(prev, w, v) {
                        assert(guid_matches(orig[i as int].writer_guid, w)
                            && orig[i as int].sequence_number.value == v);
                    }
                }
            }
            i += 1;
        }
        self.changes = kept;
        proof {
            assert forall|w: Guid, v: i64|
                cache_has(orig, w, v) implies cache_has_upto(orig, orig.len() as int, w, v) by {
                let j = choose|j: int| 0 <= j < orig.len() && guid_matches(orig[j].writer_guid, w)
                    && orig[j].sequence_number.value == v;
                assert(0 <= j < orig.len() && guid_matches(orig[j].writer_guid, w)
                    && orig[j].sequence_number.value == v);
            }
        }
    }

    /// Evicts the oldest surplus changes of one instance key — oldest by
    /// insertion — until the key retains at most `depth`; when several keys
    /// coexist, each key's window is independent, so changes of other keys
    /// stay untouched. An entry of the key is retained exactly when the
    /// entries of that key before it already cover the surplus. The
    /// retained count of the key never exceeds `depth`.
    pub fn trim_to_depth(&mut self, key: u64, depth: usize)
        requires
            old(self).wf(),
        ensures
            final(self).wf(),
            key_count(final(self).changes@, key) == if key_count(old(self).changes@, key)
                <= depth as int {
                key_count(old(self).changes@, key)
            } else {
                depth as int
            },
            forall|w: Guid, v: i64| final(self).has(w, v) ==> old(self).has(w, v),
            forall|j: int| 0 <= j < old(self).changes@.len() ==> (
                final(self).has(
                    old(self).changes@[j].writer_guid,
                    old(self).changes@[j].sequence_number.value,
                ) <==> (old(self).changes@[j].instance_key != key
                    || key_count(old(self).changes@.subrange(0, j), key)
                        >= key_count(old(self).changes@, key) - depth)),
    {
        let m = self.count_key(key);
        if m <= depth {
            proof {
                lemma_all_kept_when_under_depth(self.changes@, key, depth as int);
            }
            return;
        }
        let to_drop = m - depth;
        let kept = drop_oldest_of_key(&self.changes, key, to_drop);
        proof {
            lemma_trim_post(self.changes@, kept@, key, depth as int, to_drop as int);
        }
        self.changes = kept;
    }

    /// The Reliable writer's eviction path: trims the key to `depth` only
    /// if every change it would evict — the oldest surplus of the key — is
    /// at or below the acknowledged sequence number. Otherwise nothing is
    /// evicted and the call fails with `ResourceExhaustion`, for the
    /// producer to block or abort.
    pub fn trim_to_depth_acknowledged(
        &mut self,
        key: u64,
        depth: usize,
        acked_up_to: SequenceNumber,
    ) -> (r: Result<(), HistoryCacheError>)
        requires
            old(self).wf(),
        ensures
            final(self).wf(),
            r is Ok <==> forall|j: int| 0 <= j < old(self).changes@.len() ==> !(
                old(self).changes@[j].instance_key == key
                && key_count(old(self).changes@.subrange(0, j), key)
                    < key_count(old(self).changes@, key) - depth
                && old(self).changes@[j].sequence_number.value > acked_up_to.value),
            r is Err ==> *final(self) == *old(self),
            r matches Err(e) ==> e == HistoryCacheError::ResourceExhaustion,
            r is Ok ==> key_count(final(self).changes@, key) == if key_count(
                old(self).changes@,
                key,
            ) <= depth as int {
                key_count(old(self).changes@, key)
            } else {
                depth as int
            },
            r is Ok ==> forall|w: Guid, v: i64| final(self).has(w, v) ==> old(self).has(w, v),
            r is Ok ==> forall|j: int| 0 <= j < old(self).changes@.len() ==> (
                final(self).has(
                    old(self).changes@[j].writer_guid,
                    old(self).changes@[j].sequence_number.value,
                ) <==> (old(self).changes@[j].instance_key != key
                    || key_count(old(self).changes@.subrange(0, j), key)
                        >= key_count(old(self).changes@, key) - depth)),
    {
        let m = self.count_key(key);
        let to_drop: usize = if m > depth {
            m - depth
        } else {
            0
        };
        if find_unacked_surplus(&self.changes, key, to_drop, acked_up_to) {
            proof {
                let j = choose|j: int| 0 <= j < self.changes@.len()
                    && self.changes@[j].instance_key == key
                    && key_count(self.changes@.subrange(0, j), key) < to_drop as int
                    && self.changes@[j].sequence_number.value > acked_up_to.value;
                lemma_key_count_bounds(self.changes@.subrange(0, j), key);
                assert(self.changes@[j].instance_key == key
                    && key_count(self.changes@.subrange(0, j), key)
                        < key_count(self.changes@, key) - depth
                    && self.changes@[j].sequence_number.value > acked_up_to.value);
            }
            return Err(HistoryCacheError::ResourceExhaustion);
        }
        proof {
            assert forall|j: int| 0 <= j < self.changes@.len() implies !(
                self.changes@[j].instance_key == key
                && key_count(self.changes@.subrange(0, j), key)
                    < key_count(self.changes@, key) - depth
                && self.changes@[j].sequence_number.value > acked_up_to.value) by {
                lemma_key_count_bounds(self.changes@.subrange(0, j), key);
            }
        }
        self.trim_to_depth(key, depth);
        Ok(())
    }
}

} // verus!
