//! Per-remote-reader bookkeeping inside a stateful RTPS Writer.
//!
//! A `RtpsReaderProxy` records, for one matched remote reader, which sequence
//! numbers the reader has negatively acknowledged (`requested_changes`), which
//! newly produced changes have not yet been transmitted to it
//! (`unsent_changes`), and the highest sequence number it has positively
//! acknowledged (`largest_acked_change`).
//!
//! Two invariants govern the proxy for its whole lifetime:
//! - `largest_acked_change` is monotone non-decreasing, and
//! - no sequence number sits in `unsent_changes` while also being at or below
//!   `largest_acked_change`.

use vstd::prelude::*;

use crate::bit_set::BitSet;
use crate::guid::{EntityId, Guid};
use crate::history_cache::{cache_has, cache_has_upto, guid_matches, CacheChange, HistoryCache};
use crate::locator::LocatorList;
use crate::sequence_number::SequenceNumber;

verus! {

/// Does the sequence hold an entry with raw value `v`?
pub open spec fn seq_has(s: Seq<SequenceNumber>, v: i64) -> bool {
    exists|i: int| 0 <= i < s.len() && s[i].value == v
}

/// No two entries of the sequence share a raw value.
pub open spec fn seq_values_unique(s: Seq<SequenceNumber>) -> bool {
    forall|i: int, j: int| 0 <= i < j < s.len() ==> s[i].value != s[j].value
}

/// `a <= b` in the order where an absent acknowledgement floor is below
/// every present one.
pub open spec fn opt_le(a: Option<int>, b: Option<int>) -> bool {
    match a {
        Option::None => true,
        Option::Some(x) => b matches Option::Some(y) && x <= y,
    }
}

/// Raises an acknowledgement floor to at least `s`.
pub open spec fn acked_max(acked: Option<int>, s: int) -> Option<int> {
    match acked {
        Option::None => Option::Some(s),
        Option::Some(a) => if a >= s {
            Option::Some(a)
        } else {
            Option::Some(s)
        },
    }
}

/// The mathematical state of a reader proxy: what it has been asked to
/// resend, what it has not yet sent, how far the remote reader has
/// acknowledged, and the count of the freshest ACKNACK applied so far.
#[verifier::ext_equal]
pub struct ProxyState {
    pub requested: Set<i64>,
    pub unsent: Set<i64>,
    pub acked: Option<int>,
    pub last_count: int,
}

/// How one ACKNACK submessage `(count, base, bits)` moves a proxy state,
/// given the writer's current high-water mark (the highest sequence number
/// it has assigned).
///
/// A stale or duplicate ACKNACK (count at or below the freshest already
/// applied) changes nothing. A fresh one records its count, raises the
/// acknowledgement floor to `base - 1`, replaces the requested set by the
/// bits that name real changes (at most the high-water mark), and drops
/// every now-acknowledged number from the unsent set.
pub open spec fn acknack_transition(
    pre: ProxyState,
    count: int,
    base: int,
    bits: Set<i64>,
    high_water_mark: int,
) -> ProxyState {
    if count <= pre.last_count {
        pre
    } else {
        let acked = acked_max(pre.acked, base - 1);
        ProxyState {
            requested: Set::new(|v: i64| bits.contains(v) && 1 <= v <= high_water_mark),
            unsent: Set::new(
                |v: i64| pre.unsent.contains(v) && !(acked matches Option::Some(a) && v <= a),
            ),
            acked,
            last_count: count,
        }
    }
}

/// The acknowledgement floor never goes down under an ACKNACK, stale or
/// fresh: `largest_acked_change` is monotone non-decreasing across the
/// proxy's lifetime.
pub proof fn lemma_acknack_acked_monotone(
    pre: ProxyState,
    count: int,
    base: int,
    bits: Set<i64>,
    high_water_mark: int,
)
    ensures
        opt_le(pre.acked, acknack_transition(pre, count, base, bits, high_water_mark).acked),
{
}

/// Of two ACKNACKs from the same reader with counts `c1 < c2`, the proxy
/// state after applying the second is the same whether or not the first was
/// applied, provided the earlier acknowledgement base does not exceed the
/// later one (a reader's base, the highest contiguously received number plus
/// one, only grows with its count).
pub proof fn lemma_acknack_latest_count_governs(
    pre: ProxyState,
    c1: int,
    b1: int,
    s1: Set<i64>,
    c2: int,
    b2: int,
    s2: Set<i64>,
    high_water_mark: int,
)
    requires
        c1 < c2,
        pre.last_count < c1 ==> b1 <= b2,
    ensures
        acknack_transition(acknack_transition(pre, c1, b1, s1, high_water_mark), c2, b2, s2, high_water_mark)
            == acknack_transition(pre, c2, b2, s2, high_water_mark),
{
    let mid = acknack_transition(pre, c1, b1, s1, high_water_mark);
    let both = acknack_transition(mid, c2, b2, s2, high_water_mark);
    let direct = acknack_transition(pre, c2, b2, s2, high_water_mark);
    if c1 <= pre.last_count {
        assert(mid == pre);
    } else {
        assert(mid.last_count == c1 < c2);
        assert(acked_max(acked_max(pre.acked, b1 - 1), b2 - 1) == acked_max(pre.acked, b2 - 1));
        assert(both.requested =~= direct.requested);
        assert(both.unsent =~= direct.unsent);
        assert(both =~= direct);
    }
}

/// The information an RTPS stateful Writer maintains on one matched remote
/// RTPS Reader.
#[derive(Debug)]
pub struct RtpsReaderProxy {
    /// Identifies the remote matched RTPS Reader this proxy represents.
    pub remote_reader_guid: Guid,
    /// Identifies the group to which the matched Reader belongs.
    pub remote_group_entity_id: EntityId,
    /// Unicast locators on which the matched Reader can be reached; may be
    /// empty, meaning discovery-provided defaults apply.
    pub unicast_locator_list: LocatorList,
    /// Multicast locators on which the matched Reader can be reached; may be
    /// empty.
    pub multicast_locator_list: LocatorList,
    /// Whether the remote Reader expects in-line QoS with every DATA.
    pub expects_in_line_qos: bool,
    /// Whether the remote Reader is responsive to the Writer.
    pub is_active: bool,
    /// Sequence numbers the reader negatively acknowledged and now awaits.
    pub requested_changes: Vec<SequenceNumber>,
    /// Highest sequence number the reader has positively acknowledged.
    pub largest_acked_change: Option<SequenceNumber>,
    /// Sequence numbers newly produced and not yet transmitted to this
    /// reader.
    pub unsent_changes: Vec<SequenceNumber>,
    /// Count of the freshest ACKNACK applied; lower or equal counts are
    /// discarded as stale.
    pub last_acknack_count: u32,
}

/// The unsent list under seeding from a history cache: the original
/// entries plus every change of the writer among the cache's first `n`.
pub open spec fn seeded_upto(
    unsent: Seq<SequenceNumber>,
    orig_unsent: Seq<SequenceNumber>,
    cache: Seq<CacheChange>,
    writer: Guid,
    n: int,
) -> bool {
    forall|v: i64| seq_has(unsent, v) <==> (seq_has(orig_unsent, v)
        || cache_has_upto(cache, n, writer, v))
}

/// Does the first `n` entries of the sequence hold raw value `v`?
pub open spec fn seq_has_upto(s: Seq<SequenceNumber>, n: int, v: i64) -> bool {
    exists|i: int| 0 <= i < n && i < s.len() && s[i].value == v
}

/// The requested-changes list under construction while an ACKNACK is
/// applied: it holds exactly the bit-set members below `n` that name real
/// changes, that is, those in `[1, high_water_mark]`.
pub open spec fn requested_from_bits(
    s: Seq<SequenceNumber>,
    bits: BitSet,
    n: int,
    high_water_mark: i64,
) -> bool {
    forall|v: i64| seq_has(s, v) <==> (0 <= v && (v as int) < n
        && bits.contains_spec(v as int) && 1 <= v && v <= high_water_mark)
}

/// Membership and uniqueness facts about appending one entry.
proof fn lemma_seq_push(s: Seq<SequenceNumber>, x: SequenceNumber)
    ensures
        forall|v: i64| seq_has(s.push(x), v) <==> (seq_has(s, v) || v == x.value),
        (seq_values_unique(s) && !seq_has(s, x.value)) ==> seq_values_unique(s.push(x)),
{
    let t = s.push(x);
    assert(t[s.len() as int] == x);
    assert forall|v: i64| seq_has(t, v) <==> (seq_has(s, v) || v == x.value) by {
        if seq_has(t, v) {
            let i = choose|i: int| 0 <= i < t.len() && t[i].value == v;
            if i < s.len() {
                assert(s[i].value == v);
            } else {
                assert(t[i] == x);
            }
        }
        if seq_has(s, v) {
            let i = choose|i: int| 0 <= i < s.len() && s[i].value == v;
            assert(t[i].value == v);
        }
        if v == x.value {
            assert(t[s.len() as int].value == v);
        }
    }
    if seq_values_unique(s) && !seq_has(s, x.value) {
        assert forall|i: int, j: int| 0 <= i < j < t.len() implies t[i].value != t[j].value by {
            if j < s.len() {
                assert(s[i].value != s[j].value);
            } else {
                assert(t[j] == x);
                if s[i].value == x.value {
                    assert(seq_has(s, x.value));
                }
            }
        }
    }
}

/// The entries whose raw value is strictly above `floor`, in their original
/// order.
fn vec_keep_above(v: &Vec<SequenceNumber>, floor: i64) -> (r: Vec<SequenceNumber>)
    requires
        seq_values_unique(v@),
    ensures
        seq_values_unique(r@),
        forall|w: i64| seq_has(r@, w) <==> (seq_has(v@, w) && w > floor),
{
    let mut kept: Vec<SequenceNumber> = Vec::new();
    let mut i: usize = 0;
    while i < v.len()
        invariant
            0 <= i <= v@.len(),
            seq_values_unique(v@),
            seq_values_unique(kept@),
            forall|w: i64| seq_has(kept@, w) <==> (seq_has_upto(v@, i as int, w) && w > floor),
        decreases v@.len() - i,
    {
        let ghost prev = kept@;
        let cur = v[i];
        if cur.value > floor {
            proof {
                if seq_has(kept@, cur.value) {
                    let j = choose|j: int| 0 <= j < i && j < v@.len() && v@[j].value == cur.value;
                    assert(v@[j].value == v@[i as int].value);
                    assert(false);
                }
                lemma_seq_push(kept@, cur);
            }
            kept.push(cur);
        }
        proof {
            assert forall|w: i64|
                seq_has(kept@, w) <==> (seq_has_upto(v@, i + 1, w) && w > floor) by {
                if seq_has(kept@, w) {
                    if seq_has(prev, w) {
                        let j = choose|j: int| 0 <= j < i && j < v@.len() && v@[j].value == w;
                        assert(0 <= j < i + 1 && j < v@.len() && v@[j].value == w);
                    } else {
                        assert(w == cur.value);
                        assert(v@[i as int].value == w);
                    }
                }
                if seq_has_upto(v@, i + 1, w) && w > floor {
                    let j = choose|j: int| 0 <= j < i + 1 && j < v@.len() && v@[j].value == w;
                    if j == i {
                        assert(w == cur.value);
                        assert(seq_has(kept@, w));
                    } else {
                        assert(seq_has_upto(v@, i as int, w));
                        assert(seq_has(prev, w));
                        if !seq_has(kept@, w) {
                            assert(false);
                        }
                    }
                }
            }
        }
        i += 1;
    }
    proof {
        assert forall|w: i64| seq_has(v@, w) implies seq_has_upto(v@, v@.len() as int, w) by {
            let j = choose|j: int| 0 <= j < v@.len() && v@[j].value == w;
            assert(0 <= j < v@.len() && v@[j].value == w);
        }
    }
    kept
}

/// The entries whose raw value differs from `value`, in their original
/// order.
fn vec_remove_value(v: &Vec<SequenceNumber>, value: i64) -> (r: Vec<SequenceNumber>)
    requires
        seq_values_unique(v@),
    ensures
        seq_values_unique(r@),
        forall|w: i64| seq_has(r@, w) <==> (seq_has(v@, w) && w != value),
{
    let mut kept: Vec<SequenceNumber> = Vec::new();
    let mut i: usize = 0;
    while i < v.len()
        invariant
            0 <= i <= v@.len(),
            seq_values_unique(v@),
            seq_values_unique(kept@),
            forall|w: i64| seq_has(kept@, w) <==> (seq_has_upto(v@, i as int, w) && w != value),
        decreases v@.len() - i,
    {
        let ghost prev = kept@;
        let cur = v[i];
        if cur.value != value {
            proof {
                if seq_has(kept@, cur.value) {
                    let j = choose|j: int| 0 <= j < i && j < v@.len() && v@[j].value == cur.value;
                    assert(v@[j].value == v@[i as int].value);
                    assert(false);
                }
                lemma_seq_push(kept@, cur);
            }
            kept.push(cur);
        }
        proof {
            assert forall|w: i64|
                seq_has(kept@, w) <==> (seq_has_upto(v@, i + 1, w) && w != value) by {
                if seq_has(kept@, w) {
                    if seq_has(prev, w) {
                        let j = choose|j: int| 0 <= j < i && j < v@.len() && v@[j].value == w;
                        assert(0 <= j < i + 1 && j < v@.len() && v@[j].value == w);
                    } else {
                        assert(w == cur.value);
                        assert(v@[i as int].value == w);
                    }
                }
                if seq_has_upto(v@, i + 1, w) && w != value {
                    let j = choose|j: int| 0 <= j < i + 1 && j < v@.len() && v@[j].value == w;
                    if j == i {
                        assert(w == cur.value);
                        assert(seq_has(kept@, w));
                    } else {
                        assert(seq_has_upto(v@, i as int, w));
                        assert(seq_has(prev, w));
                        if !seq_has(kept@, w) {
                            assert(false);
                        }
                    }
                }
            }
        }
        i += 1;
    }
    proof {
        assert forall|w: i64| seq_has(v@, w) implies seq_has_upto(v@, v@.len() as int, w) by {
            let j = choose|j: int| 0 <= j < v@.len() && v@[j].value == w;
            assert(0 <= j < v@.len() && v@[j].value == w);
        }
    }
    kept
}

/// An owned copy of the vector.
fn vec_copy(v: &Vec<SequenceNumber>) -> (r: Vec<SequenceNumber>)
    ensures
        r@ == v@,
{
    let mut r: Vec<SequenceNumber> = Vec::new();
    let mut i: usize = 0;
    while i < v.len()
        invariant
            0 <= i <= v@.len(),
            r@ == v@.subrange(0, i as int),
        decreases v@.len() - i,
    {
        r.push(v[i]);
        proof {
            assert(r@ =~= v@.subrange(0, i + 1));
        }
        i += 1;
    }
    proof {
        assert(r@ =~= v@);
    }
    r
}

/// Does `v` hold an entry with raw value `value`?
fn vec_has(v: &Vec<SequenceNumber>, value: i64) -> (r: bool)
    ensures
        r == seq_has(v@, value),
{
    let mut i: usize = 0;
    while i < v.len()
        invariant
            0 <= i <= v@.len(),
            forall|j: int| 0 <= j < i ==> v@[j].value != value,
        decreases v@.len() - i,
    {
        if v[i].value == value {
            return true;
        }
        i += 1;
    }
    false
}

/// The entry with the least raw value, or `None` on an empty vector.
fn vec_min(v: &Vec<SequenceNumber>) -> (r: Option<SequenceNumber>)
    ensures
        r is None <==> v@.len() == 0,
        r matches Some(m) ==> seq_has(v@, m.value) && forall|j: int|
            0 <= j < v@.len() ==> m.value <= v@[j].value,
{
    let mut best: Option<SequenceNumber> = None;
    let mut i: usize = 0;
    while i < v.len()
        invariant
            0 <= i <= v@.len(),
            best is None <==> i == 0,
            best matches Some(m) ==> seq_has(v@, m.value) && forall|j: int|
                0 <= j < i ==> m.value <= v@[j].value,
        decreases v@.len() - i,
    {
        let cur = v[i];
        let replace = match best {
            Option::None => true,
            Option::Some(m) => cur.value < m.value,
        };
        if replace {
            best = Some(cur);
        }
        i += 1;
    }
    best
}

impl RtpsReaderProxy {
    /// The requested-changes list as it stands.
    pub closed spec fn requested_seq(self) -> Seq<SequenceNumber> {
        self.requested_changes@
    }

    /// The unsent-changes list as it stands.
    pub closed spec fn unsent_seq(self) -> Seq<SequenceNumber> {
        self.unsent_changes@
    }

    /// The acknowledgement floor, as a mathematical integer.
    pub closed spec fn acked_opt(self) -> Option<int> {
        match self.largest_acked_change {
            Option::Some(s) => Option::Some(s.value as int),
            Option::None => Option::None,
        }
    }

    /// The count of the freshest ACKNACK applied so far.
    pub closed spec fn count_spec(self) -> int {
        self.last_acknack_count as int
    }

    /// Has the reader negatively acknowledged (requested) `v`?
    pub open spec fn has_requested(self, v: i64) -> bool {
        seq_has(self.requested_seq(), v)
    }

    /// Is `v` still waiting for its first transmission to this reader?
    pub open spec fn has_unsent(self, v: i64) -> bool {
        seq_has(self.unsent_seq(), v)
    }

    /// Has the reader positively acknowledged everything up to and
    /// including `v`?
    pub open spec fn is_acked(self, v: i64) -> bool {
        self.acked_opt() matches Option::Some(a) && v <= a
    }

    /// Well-formedness: each list holds a value at most once, and nothing
    /// already acknowledged remains unsent.
    pub open spec fn wf(self) -> bool {
        &&& seq_values_unique(self.requested_seq())
        &&& seq_values_unique(self.unsent_seq())
        &&& forall|v: i64| self.has_unsent(v) ==> !self.is_acked(v)
    }

    /// The proxy's mathematical state.
    pub open spec fn state(self) -> ProxyState {
        ProxyState {
            requested: Set::new(|v: i64| self.has_requested(v)),
            unsent: Set::new(|v: i64| self.has_unsent(v)),
            acked: self.acked_opt(),
            last_count: self.count_spec(),
        }
    }

    /// The fields that name and describe the remote reader, which no
    /// sequence-number bookkeeping operation may touch.
    pub open spec fn same_identity(self, other: RtpsReaderProxy) -> bool {
        &&& self.remote_reader_guid == other.remote_reader_guid
        &&& self.remote_group_entity_id == other.remote_group_entity_id
        &&& self.unicast_locator_list == other.unicast_locator_list
        &&& self.multicast_locator_list == other.multicast_locator_list
        &&& self.expects_in_line_qos == other.expects_in_line_qos
        &&& self.is_active == other.is_active
    }

    /// A fresh proxy for a newly matched reader: nothing requested, nothing
    /// unsent, nothing acknowledged.
    pub fn new(remote_reader_guid: Guid) -> (r: RtpsReaderProxy)
        ensures
            r.wf(),
            r.remote_reader_guid == remote_reader_guid,
            r.remote_group_entity_id.value == 0,
            r.unicast_locator_list@.len() == 0,
            r.multicast_locator_list@.len() == 0,
            !r.expects_in_line_qos,
            r.is_active,
            forall|v: i64| !r.has_requested(v),
            forall|v: i64| !r.has_unsent(v),
            r.acked_opt() is None,
            r.count_spec() == 0,
    {
        RtpsReaderProxy {
            remote_reader_guid,
            remote_group_entity_id: EntityId::unknown(),
            unicast_locator_list: Vec::new(),
            multicast_locator_list: Vec::new(),
            expects_in_line_qos: false,
            is_active: true,
            requested_changes: Vec::new(),
            largest_acked_change: None,
            unsent_changes: Vec::new(),
            last_acknack_count: 0,
        }
    }

    /// Does this proxy have anything to transmit, either a repair the reader
    /// asked for or a change not yet sent?
    pub fn can_send(&self) -> (r: bool)
        ensures
            r == ((exists|v: i64| self.has_requested(v)) || (exists|v: i64| self.has_unsent(v))),
    {
        self.can_send_requested() || self.can_send_unsend()
    }

    /// Is any change still waiting for its first transmission?
    fn can_send_unsend(&self) -> (r: bool)
        ensures
            r == exists|v: i64| self.has_unsent(v),
    {
        if self.unsent_changes.len() > 0 {
            proof {
                assert(self.has_unsent(self.unsent_seq()[0].value));
            }
            true
        } else {
            false
        }
    }

    /// Has the reader requested any repair?
    fn can_send_requested(&self) -> (r: bool)
        ensures
            r == exists|v: i64| self.has_requested(v),
    {
        if self.requested_changes.len() > 0 {
            proof {
                assert(self.has_requested(self.requested_seq()[0].value));
            }
            true
        } else {
            false
        }
    }

    /// The sequence numbers the reader has requested by ACKNACK.
    pub fn requested_changes(&self) -> (r: &Vec<SequenceNumber>)
        ensures
            r@ == self.requested_seq(),
    {
        &self.requested_changes
    }

    /// The sequence numbers not yet transmitted to this reader.
    pub fn unsent_changes(&self) -> (r: &Vec<SequenceNumber>)
        ensures
            r@ == self.unsent_seq(),
    {
        &self.unsent_changes
    }

    /// The lowest requested sequence number: repairs are served in
    /// ascending order, requested changes first.
    pub fn next_requested_change(&self) -> (r: Option<SequenceNumber>)
        ensures
            r is None <==> !(exists|v: i64| self.has_requested(v)),
            r matches Some(m) ==> self.has_requested(m.value) && forall|v: i64|
                self.has_requested(v) ==> m.value <= v,
    {
        let r = vec_min(&self.requested_changes);
        proof {
            if self.requested_seq().len() > 0 {
                assert(self.has_requested(self.requested_seq()[0].value));
            }
        }
        r
    }

    /// The lowest unsent sequence number: first transmissions go out in
    /// ascending order.
    pub fn next_unsent_change(&self) -> (r: Option<SequenceNumber>)
        ensures
            r is None <==> !(exists|v: i64| self.has_unsent(v)),
            r matches Some(m) ==> self.has_unsent(m.value) && forall|v: i64|
                self.has_unsent(v) ==> m.value <= v,
    {
        let r = vec_min(&self.unsent_changes);
        proof {
            if self.unsent_seq().len() > 0 {
                assert(self.has_unsent(self.unsent_seq()[0].value));
            }
        }
        r
    }

    /// Adds every member of an ACKNACK bit set to the requested changes.
    /// Nothing else moves; in particular the acknowledgement floor stays
    /// put, so it remains monotone.
    pub fn add_requested_changes(&mut self, sequence_numbers: &BitSet)
        requires
            old(self).wf(),
            sequence_numbers.bound() <= 0x7fff_ffff_ffff_ffff,
        ensures
            final(self).wf(),
            final(self).same_identity(*old(self)),
            forall|v: i64| final(self).has_requested(v) <==> (old(self).has_requested(v)
                || sequence_numbers.value_set().contains(v)),
            final(self).unsent_seq() == old(self).unsent_seq(),
            final(self).acked_opt() == old(self).acked_opt(),
            final(self).count_spec() == old(self).count_spec(),
    {
        let ghost orig = self.requested_changes@;
        let mut req = vec_copy(&self.requested_changes);
        let bound = sequence_numbers.bound_usize();
        let mut n: usize = 0;
        while n < bound
            invariant
                n <= bound,
                bound == sequence_numbers.bound(),
                sequence_numbers.bound() <= 0x7fff_ffff_ffff_ffff,
                seq_values_unique(req@),
                forall|v: i64| seq_has(req@, v) <==> (seq_has(orig, v)
                    || (0 <= v && (v as int) < n && sequence_numbers.contains_spec(v as int))),
            decreases bound - n,
        {
            let ghost prev = req@;
            if sequence_numbers.contains(n) {
                let sn = SequenceNumber::new(n as i64);
                if !vec_has(&req, sn.value) {
                    proof {
                        lemma_seq_push(req@, sn);
                    }
                    req.push(sn);
                }
            }
            proof {
                assert forall|v: i64|
                    seq_has(req@, v) <==> (seq_has(orig, v)
                        || (0 <= v && (v as int) < n + 1
                            && sequence_numbers.contains_spec(v as int))) by {
                    assert(seq_has(prev, v) <==> (seq_has(orig, v)
                        || (0 <= v && (v as int) < n
                            && sequence_numbers.contains_spec(v as int))));
                    if 0 <= v && (v as int) == n && sequence_numbers.contains_spec(v as int) {
                        assert(seq_has(req@, v));
                    }
                }
            }
            n += 1;
        }
        self.requested_changes = req;
        proof {
            crate::bit_set::lemma_members_below_bound(*sequence_numbers);
            assert forall|v: i64|
                self.has_requested(v) <==> (old(self).has_requested(v)
                    || sequence_numbers.value_set().contains(v)) by {
                if sequence_numbers.value_set().contains(v) {
                    assert(sequence_numbers.contains_spec(v as int));
                    assert((v as int) < sequence_numbers.bound());
                }
                if 0 <= v && (v as int) < bound && sequence_numbers.contains_spec(v as int) {
                    assert(sequence_numbers.value_set().contains(v));
                }
            }
            assert forall|v: i64| self.has_unsent(v) implies !self.is_acked(v) by {
                if old(self).has_unsent(v) {
                    assert(!old(self).is_acked(v));
                }
            }
        }
    }

    /// Records a newly produced change as unsent for this reader. The
    /// writer assigns fresh sequence numbers above everything acknowledged,
    /// so the change must not already be acknowledged here.
    pub fn unsend_changes_set(&mut self, sequence_number: SequenceNumber)
        requires
            old(self).wf(),
            !old(self).is_acked(sequence_number.value),
        ensures
            final(self).wf(),
            final(self).same_identity(*old(self)),
            forall|v: i64| final(self).has_unsent(v) <==> (old(self).has_unsent(v)
                || v == sequence_number.value),
            final(self).requested_seq() == old(self).requested_seq(),
            final(self).acked_opt() == old(self).acked_opt(),
            final(self).count_spec() == old(self).count_spec(),
    {
        if !vec_has(&self.unsent_changes, sequence_number.value) {
            proof {
                lemma_seq_push(self.unsent_changes@, sequence_number);
            }
            self.unsent_changes.push(sequence_number);
        }
        proof {
            assert forall|v: i64| self.has_unsent(v) implies !self.is_acked(v) by {
                if old(self).has_unsent(v) {
                    assert(!old(self).is_acked(v));
                }
            }
        }
    }

    /// Forgets an unsent change once it has been transmitted to this
    /// reader.
    pub fn remove_unsend_change(&mut self, sequence_number: SequenceNumber)
        requires
            old(self).wf(),
        ensures
            final(self).wf(),
            final(self).same_identity(*old(self)),
            forall|v: i64| final(self).has_unsent(v) <==> (old(self).has_unsent(v)
                && v != sequence_number.value),
            final(self).requested_seq() == old(self).requested_seq(),
            final(self).acked_opt() == old(self).acked_opt(),
            final(self).count_spec() == old(self).count_spec(),
    {
        let kept = vec_remove_value(&self.unsent_changes, sequence_number.value);
        self.unsent_changes = kept;
        proof {
            assert forall|v: i64| self.has_unsent(v) implies !self.is_acked(v) by {
                if old(self).has_unsent(v) {
                    assert(!old(self).is_acked(v));
                }
            }
        }
    }

    /// Raises the acknowledgement floor: every change with sequence number
    /// at or below the given one is now acknowledged by this reader. The
    /// floor only moves up (it is monotone non-decreasing), and
    /// newly acknowledged numbers leave the unsent set.
    pub fn acked_changes_set(&mut self, sequence_number: SequenceNumber)
        requires
            old(self).wf(),
        ensures
            final(self).wf(),
            final(self).same_identity(*old(self)),
            final(self).acked_opt() == acked_max(old(self).acked_opt(), sequence_number.value as int),
            opt_le(old(self).acked_opt(), final(self).acked_opt()),
            forall|v: i64| final(self).has_unsent(v) <==> (old(self).has_unsent(v)
                && !final(self).is_acked(v)),
            final(self).requested_seq() == old(self).requested_seq(),
            final(self).count_spec() == old(self).count_spec(),
    {
        let new_acked = match self.largest_acked_change {
            Option::Some(a) => if a.value >= sequence_number.value {
                a
            } else {
                sequence_number
            },
            Option::None => sequence_number,
        };
        self.largest_acked_change = Some(new_acked);
        let kept = vec_keep_above(&self.unsent_changes, new_acked.value);
        self.unsent_changes = kept;
    }

    /// Seeds the unsent set with every change of the writer still retained
    /// in its history cache: what a TransientLocal writer does when a
    /// reader is matched late, so that the newcomer receives the retained
    /// history. The proxy is freshly matched, so nothing is acknowledged
    /// yet.
    pub fn seed_unsent_from_cache(&mut self, cache: &HistoryCache, writer: &Guid)
        requires
            old(self).wf(),
            old(self).acked_opt() is None,
        ensures
            final(self).wf(),
            final(self).same_identity(*old(self)),
            forall|v: i64| final(self).has_unsent(v) <==> (old(self).has_unsent(v)
                || cache.has(*writer, v)),
            final(self).requested_seq() == old(self).requested_seq(),
            final(self).acked_opt() == old(self).acked_opt(),
            final(self).count_spec() == old(self).count_spec(),
    {
        let ghost orig_cache = cache.changes@;
        let ghost orig_unsent = self.unsent_changes@;
        let mut unsent = vec_copy(&self.unsent_changes);
        let mut i: usize = 0;
        while i < cache.changes.len()
            invariant
                0 <= i <= orig_cache.len(),
                orig_cache == cache.changes@,
                seq_values_unique(unsent@),
                seeded_upto(unsent@, orig_unsent, orig_cache, *writer, i as int),
            decreases orig_cache.len() - i,
        {
            let ghost prev = unsent@;
            let c = &cache.changes[i];
            if c.writer_guid.equals(writer) {
                let sn = c.sequence_number;
                if !vec_has(&unsent, sn.value) {
                    proof {
                        lemma_seq_push(unsent@, sn);
                    }
                    unsent.push(sn);
                }
            }
            proof {
                assert forall|v: i64|
                    seq_has(unsent@, v) <==> (seq_has(orig_unsent, v)
                        || cache_has_upto(orig_cache, i + 1, *writer, v)) by {
                    assert(seq_has(prev, v) <==> (seq_has(orig_unsent, v)
                        || cache_has_upto(orig_cache, i as int, *writer, v)));
                    if cache_has_upto(orig_cache, i + 1, *writer, v)
                        && !cache_has_upto(orig_cache, i as int, *writer, v) {
                        let j = choose|j: int| 0 <= j < i + 1 && j < orig_cache.len()
                            && guid_matches(orig_cache[j].writer_guid, *writer)
                            && orig_cache[j].sequence_number.value == v;
                        assert(j == i);
                        assert(seq_has(unsent@, v));
                    }
                    if guid_matches(orig_cache[i as int].writer_guid, *writer)
                        && orig_cache[i as int].sequence_number.value == v {
                        assert(0 <= i < i + 1 && (i as int) < orig_cache.len()
                            && guid_matches(orig_cache[i as int].writer_guid, *writer)
                            && orig_cache[i as int].sequence_number.value == v);
                        assert(cache_has_upto(orig_cache, i + 1, *writer, v));
                    }
                }
                assert(seeded_upto(unsent@, orig_unsent, orig_cache, *writer, i + 1));
            }
            i += 1;
        }
        self.unsent_changes = unsent;
        proof {
            assert forall|v: i64|
                cache_has(orig_cache, *writer, v) implies cache_has_upto(
                orig_cache,
                orig_cache.len() as int,
                *writer,
                v,
            ) by {
                let j = choose|j: int| 0 <= j < orig_cache.len()
                    && guid_matches(orig_cache[j].writer_guid, *writer)
                    && orig_cache[j].sequence_number.value == v;
                assert(0 <= j < orig_cache.len()
                    && guid_matches(orig_cache[j].writer_guid, *writer)
                    && orig_cache[j].sequence_number.value == v);
            }
        }
    }

    /// Is everything up to and including this sequence number acknowledged
    /// by the remote reader?
    pub fn sequence_is_acked(&self, sequence_number: SequenceNumber) -> (r: bool)
        ensures
            r == self.is_acked(sequence_number.value),
    {
        match self.largest_acked_change {
            Option::None => false,
            Option::Some(a) => a.value >= sequence_number.value,
        }
    }

    /// Applies one whole ACKNACK submessage: count, acknowledgement base,
    /// and the bit set of requested sequence numbers, bounded by the
    /// writer's high-water mark (the highest sequence number it has
    /// assigned).
    ///
    /// A stale or duplicate ACKNACK (count not above the freshest already
    /// applied) leaves the proxy untouched. A fresh one acknowledges
    /// everything below `base`, replaces the requested set with the bits
    /// that name real changes — bits above the high-water mark are ignored,
    /// bits below are honored — and never lowers the acknowledgement floor.
    pub fn handle_acknack(
        &mut self,
        count: u32,
        base: SequenceNumber,
        bits: &BitSet,
        high_water_mark: SequenceNumber,
    )
        requires
            old(self).wf(),
            base.value >= 1,
            bits.bound() <= 0x7fff_ffff_ffff_ffff,
        ensures
            final(self).wf(),
            final(self).same_identity(*old(self)),
            final(self).state() == acknack_transition(
                old(self).state(),
                count as int,
                base.value as int,
                bits.value_set(),
                high_water_mark.value as int,
            ),
            opt_le(old(self).acked_opt(), final(self).acked_opt()),
            count as int <= old(self).count_spec() ==> *final(self) == *old(self),
            count as int > old(self).count_spec() ==> {
                &&& final(self).count_spec() == count as int
                &&& final(self).acked_opt() == acked_max(old(self).acked_opt(), base.value - 1)
                &&& forall|v: i64| final(self).has_requested(v) <==> (
                    bits.value_set().contains(v) && 1 <= v && v <= high_water_mark.value)
                &&& forall|v: i64| final(self).has_unsent(v) <==> (old(self).has_unsent(v)
                    && !final(self).is_acked(v))
            },
    {
        if count <= self.last_acknack_count {
            return;
        }
        self.acked_changes_set(SequenceNumber::new(base.value - 1));
        self.last_acknack_count = count;
        let ghost mid = *self;
        let mut req: Vec<SequenceNumber> = Vec::new();
        let bound = bits.bound_usize();
        let mut n: usize = 0;
        while n < bound
            invariant
                n <= bound,
                bound == bits.bound(),
                bits.bound() <= 0x7fff_ffff_ffff_ffff,
                seq_values_unique(req@),
                forall|k: int| 0 <= k < req@.len() ==> 1 <= req@[k].value
                    && (req@[k].value as int) < n,
                requested_from_bits(req@, *bits, n as int, high_water_mark.value),
            decreases bound - n,
        {
            let ghost prev = req@;
            if bits.contains(n) {
                let sn = SequenceNumber::new(n as i64);
                if sn.value >= 1 && sn.value <= high_water_mark.value {
                    proof {
                        if seq_has(req@, sn.value) {
                            let k = choose|k: int|
                                0 <= k < req@.len() && req@[k].value == sn.value;
                            assert(false);
                        }
                        lemma_seq_push(req@, sn);
                    }
                    req.push(sn);
                }
            }
            proof {
                assert forall|v: i64|
                    seq_has(req@, v) <==> (0 <= v && (v as int) < n + 1
                        && bits.contains_spec(v as int) && 1 <= v
                        && v <= high_water_mark.value) by {
                    assert(seq_has(prev, v) <==> (0 <= v && (v as int) < n
                        && bits.contains_spec(v as int) && 1 <= v
                        && v <= high_water_mark.value));
                    if 0 <= v && (v as int) == n {
                        assert(v == n as i64);
                    }
                }
                assert(requested_from_bits(req@, *bits, n + 1, high_water_mark.value));
            }
            n += 1;
        }
        self.requested_changes = req;
        proof {
            crate::bit_set::lemma_members_below_bound(*bits);
            let pre = old(self).state();
            let post = acknack_transition(
                pre,
                count as int,
                base.value as int,
                bits.value_set(),
                high_water_mark.value as int,
            );
            assert forall|v: i64| self.has_requested(v) <==> post.requested.contains(v) by {
                if bits.value_set().contains(v) && 1 <= v && v <= high_water_mark.value {
                    assert(bits.contains_spec(v as int));
                    assert((v as int) < bits.bound());
                }
                if self.has_requested(v) {
                    assert(bits.contains_spec(v as int));
                    assert(bits.value_set().contains(v));
                }
            }
            assert(self.state().requested =~= post.requested);
            assert forall|v: i64| self.has_unsent(v) <==> post.unsent.contains(v) by {
                assert(self.has_unsent(v) == mid.has_unsent(v));
                assert(mid.has_unsent(v) <==> (old(self).has_unsent(v) && !mid.is_acked(v)));
                assert(pre.unsent.contains(v) == old(self).has_unsent(v));
            }
            assert(self.state().unsent =~= post.unsent);
            assert(self.state().acked == post.acked);
            assert(self.state().last_count == post.last_count);
            assert(self.state() =~= post);
            assert forall|v: i64| self.has_unsent(v) implies !self.is_acked(v) by {
                assert(self.has_unsent(v) == mid.has_unsent(v));
                assert(mid.has_unsent(v) <==> (old(self).has_unsent(v) && !mid.is_acked(v)));
            }
        }
    }
}

/// Status of one cached change relative to the reader a proxy represents.
#[allow(non_camel_case_types)]
#[derive(Clone, Copy, Debug, PartialEq, Eq, Structural)]
pub enum ChangeForReaderStatusKind {
    UNSENT,
    NACKNOWLEDGED,
    REQUESTED,
    ACKNOWLEDGED,
    UNDERWAY,
}

/// Information on one CacheChange of the writer's history as it pertains to
/// the reader a proxy represents.
pub struct RTPSChangeForReader {
    /// The status of the change relative to that reader.
    pub kind: ChangeForReaderStatusKind,
    /// Whether the change is relevant to that reader.
    pub is_relevant: bool,
}

impl RTPSChangeForReader {
    /// A change starts unsent and relevant.
    pub fn new() -> (r: RTPSChangeForReader)
        ensures
            r.kind == ChangeForReaderStatusKind::UNSENT,
            r.is_relevant,
    {
        RTPSChangeForReader { kind: ChangeForReaderStatusKind::UNSENT, is_relevant: true }
    }
}

} // verus!
