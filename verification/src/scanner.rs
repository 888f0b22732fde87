//! Device discovery: decoding UDP broadcast datagrams (three candidate
//! keys, two wire formats, several encryption layers), the discovery
//! probes, the shared cache with its 30-minute TTL, and the single-flight
//! scan coordination.
//!
//! The sockets, timers and notification primitives live outside this
//! crate; they call these functions between receives and sends.
use vstd::prelude::*;

use crate::crypto::TuyaCipher;
use crate::device::ab;
use crate::error::TuyaError;
use crate::protocol::{TuyaMessage, Version, PREFIX_55AA, PREFIX_6699};

use vstd::pervasive::VecAdditionalExecFns;

use serde_json::Value;

verus! {

/// How long a cache entry satisfies lookups, in seconds.
pub const DISCOVERY_TTL_SECS: u64 = 1800;

/// The cooldown between forced scans, in seconds.
pub const SCAN_COOLDOWN_SECS: u64 = 300;

/// The 16-byte discovery key of version 3.3 broadcasts.
pub open spec fn spec_udp_key_33() -> Seq<u8> {
    ab("yG9shRKIBrIBUjc3"@)
}

/// The 16-byte discovery key of version 3.4 broadcasts.
pub open spec fn spec_udp_key_34() -> Seq<u8> {
    seq![
        0x6cu8,
        0x1eu8,
        0xc8u8,
        0xe2u8,
        0xbbu8,
        0x9bu8,
        0xb5u8,
        0x9au8,
        0xb5u8,
        0x0bu8,
        0x0du8,
        0xafu8,
        0x64u8,
        0x9bu8,
        0x41u8,
        0x0au8,
    ]
}

/// The discovery key of version 3.5 broadcasts, the same bytes as 3.4.
pub open spec fn spec_udp_key_35() -> Seq<u8> {
    spec_udp_key_34()
}

/// The version 3.3 discovery key.
pub fn udp_key_33() -> (r: Vec<u8>)
    ensures
        r@ == spec_udp_key_33(),
        r@.len() == 16,
{
    proof {
        reveal_strlit("yG9shRKIBrIBUjc3");
    }
    let mut out: Vec<u8> = Vec::new();
    crate::encoding::append_str(&mut out, "yG9shRKIBrIBUjc3");
    proof {
        assert(out@ =~= spec_udp_key_33());
    }
    out
}

/// The version 3.4 (and 3.5) discovery key.
pub fn udp_key_34() -> (r: Vec<u8>)
    ensures
        r@ == spec_udp_key_34(),
        r@.len() == 16,
{
    let v: Vec<u8> = vec![
        0x6cu8, 0x1eu8, 0xc8u8, 0xe2u8, 0xbbu8, 0x9bu8, 0xb5u8, 0x9au8, 0xb5u8, 0x0bu8, 0x0du8,
        0xafu8, 0x64u8, 0x9bu8, 0x41u8, 0x0au8,
    ];
    proof {
        assert(v@ =~= spec_udp_key_34());
    }
    v
}

/// What discovery learned of a device.
#[derive(Debug, Clone)]
pub struct DiscoveryResult {
    /// Device id.
    pub id: Vec<u8>,
    /// IP address, in its textual form.
    pub ip: Vec<u8>,
    /// Protocol version, where the broadcast named one.
    pub version: Option<Version>,
    /// Product key, where the broadcast named one.
    pub product_key: Option<Vec<u8>>,
    /// When the device was discovered, in seconds of the caller's clock.
    pub discovered_at: u64,
}

/// The mathematical model of a discovery result.
#[verifier::ext_equal]
pub struct SpecDiscovery {
    /// Device id bytes.
    pub id: Seq<u8>,
    /// IP address bytes.
    pub ip: Seq<u8>,
    /// Protocol version, if named.
    pub version: Option<Version>,
    /// Product key bytes, if named.
    pub product_key: Option<Seq<u8>>,
    /// Discovery time in seconds.
    pub discovered_at: u64,
}

impl DiscoveryResult {
    /// A field-for-field copy.
    pub fn duplicate(&self) -> (r: DiscoveryResult)
        ensures
            r@ == self@,
    {
        DiscoveryResult {
            id: vstd::slice::slice_to_vec(self.id.as_slice()),
            ip: vstd::slice::slice_to_vec(self.ip.as_slice()),
            version: self.version,
            product_key: match self.product_key {
                Some(ref p) => Some(vstd::slice::slice_to_vec(p.as_slice())),
                None => None,
            },
            discovered_at: self.discovered_at,
        }
    }
}

impl View for DiscoveryResult {
    type V = SpecDiscovery;

    open spec fn view(&self) -> SpecDiscovery {
        SpecDiscovery {
            id: self.id@,
            ip: self.ip@,
            version: self.version,
            product_key: match self.product_key {
                Some(ref p) => Some(p@),
                None => None,
            },
            discovered_at: self.discovered_at,
        }
    }
}

/// The position of the entry for `id`, if any.
pub open spec fn spec_find_entry(entries: Seq<SpecDiscovery>, id: Seq<u8>) -> Option<int>
    decreases entries.len(),
{
    if entries.len() == 0 {
        None
    } else if entries[0].id == id {
        Some(0)
    } else {
        match spec_find_entry(entries.drop_first(), id) {
            Some(i) => Some(i + 1),
            None => None,
        }
    }
}

/// An entry still satisfies lookups at time `now`.
pub open spec fn spec_fresh(e: SpecDiscovery, now: u64) -> bool {
    now - e.discovered_at < DISCOVERY_TTL_SECS
}

/// What a freshness-checked lookup yields: the entry for `id` while it is
/// younger than the TTL, nothing once it has gone stale (so the caller
/// refreshes it by scanning).
pub open spec fn spec_cache_lookup(entries: Seq<SpecDiscovery>, id: Seq<u8>, now: u64) -> Option<
    SpecDiscovery,
> {
    match spec_find_entry(entries, id) {
        Some(i) => {
            if spec_fresh(entries[i], now) {
                Some(entries[i])
            } else {
                None
            }
        },
        None => None,
    }
}

/// The discovery cache: at most one entry per device id.
pub struct DiscoveryCache {
    entries: Vec<DiscoveryResult>,
}

impl View for DiscoveryCache {
    type V = Seq<SpecDiscovery>;

    closed spec fn view(&self) -> Seq<SpecDiscovery> {
        Seq::new(self.entries@.len(), |i: int| self.entries@[i]@)
    }
}

impl DiscoveryCache {
    /// Each device id appears at most once.
    pub open spec fn wf(&self) -> bool {
        forall|i: int, j: int|
            0 <= i < j < self@.len() ==> self@[i].id != self@[j].id
    }

    /// An empty cache.
    pub fn new() -> (r: DiscoveryCache)
        ensures
            r@.len() == 0,
            r.wf(),
    {
        DiscoveryCache { entries: Vec::new() }
    }

    /// Find the index of the entry for `id`.
    fn find(&self, id: &[u8]) -> (r: Option<usize>)
        ensures
            match r {
                Some(i) => i < self@.len() && self@[i as int].id == id@ && spec_find_entry(
                    self@,
                    id@,
                ) == Some(i as int),
                None => spec_find_entry(self@, id@) is None,
            },
    {
        let n = self.entries.len();
        let mut i: usize = 0;
        while i < n
            invariant
                n == self@.len(),
                i <= n,
                forall|j: int| 0 <= j < i ==> self@[j].id != id@,
                spec_find_entry(self@.take(i as int), id@) is None,
            decreases n - i,
        {
            if crate::encoding::bytes_eq(self.entries[i].id.as_slice(), id) {
                proof {
                    lemma_find_entry_extend(self@, id@, i as int);
                }
                return Some(i);
            }
            i = i + 1;
            proof {
                lemma_find_entry_take_step(self@, id@, i as int);
            }
        }
        proof {
            assert(self@.take(n as int) =~= self@);
        }
        None
    }

    /// Insert or replace the entry for a device: afterwards the cache holds
    /// exactly this result under its id, and every other id is untouched.
    pub fn insert(&mut self, r: DiscoveryResult)
        requires
            old(self).wf(),
        ensures
            final(self).wf(),
            spec_find_entry(final(self)@, r@.id) matches Some(i) && final(self)@[i] == r@,
            forall|id2: Seq<u8>, now: u64|
                id2 != r@.id ==> #[trigger] spec_cache_lookup(final(self)@, id2, now)
                    == spec_cache_lookup(old(self)@, id2, now),
    {
        let pos = self.find(r.id.as_slice());
        match pos {
            Some(i) => {
                let ghost prev = self@;
                let ghost rv = r@;
                self.entries.set(i, r);
                proof {
                    assert(self@ =~= prev.update(i as int, rv));
                    lemma_find_entry_update(prev, i as int, rv);
                    assert forall|id2: Seq<u8>, now: u64| id2 != rv.id implies
                        #[trigger] spec_cache_lookup(self@, id2, now) == spec_cache_lookup(
                        prev,
                        id2,
                        now,
                    ) by {
                        assert(spec_find_entry(self@, id2) == spec_find_entry(prev, id2));
                        match spec_find_entry(prev, id2) {
                            Some(j) => {
                                lemma_find_entry_index(prev, id2);
                                assert(j != i as int);
                                assert(self@[j] == prev[j]);
                            },
                            None => {
                            },
                        }
                    }
                    assert forall|a: int, b: int| 0 <= a < b < self@.len() implies self@[a].id
                        != self@[b].id by {
                        assert(self@[a].id == prev[a].id);
                        assert(self@[b].id == prev[b].id);
                    }
                }
            },
            None => {
                let ghost prev = self@;
                let ghost rv = r@;
                self.entries.push(r);
                proof {
                    assert(self@ =~= prev + seq![rv]);
                    lemma_find_entry_push(prev, rv);
                    lemma_find_entry_none(prev, rv.id);
                    assert forall|id2: Seq<u8>, now: u64| id2 != rv.id implies
                        #[trigger] spec_cache_lookup(self@, id2, now) == spec_cache_lookup(
                        prev,
                        id2,
                        now,
                    ) by {
                        assert(spec_find_entry(self@, id2) == spec_find_entry(prev, id2));
                        match spec_find_entry(prev, id2) {
                            Some(j) => {
                                lemma_find_entry_index(prev, id2);
                                assert(self@[j] == prev[j]);
                            },
                            None => {
                            },
                        }
                    }
                    assert forall|a: int, b: int| 0 <= a < b < self@.len() implies self@[a].id
                        != self@[b].id by {
                        if b < prev.len() {
                            assert(self@[a] == prev[a]);
                            assert(self@[b] == prev[b]);
                        } else {
                            assert(self@[b] == rv);
                            assert(self@[a] == prev[a]);
                        }
                    }
                }
            },
        }
    }

    /// Look a device up, honouring the TTL: a stale entry satisfies no
    /// lookup, so the caller goes on to scan.
    pub fn lookup(&self, id: &[u8], now: u64) -> (r: Option<DiscoveryResult>)
        ensures
            match r {
                Some(d) => spec_cache_lookup(self@, id@, now) == Some(d@),
                None => spec_cache_lookup(self@, id@, now) is None,
            },
    {
        match self.find(id) {
            Some(i) => {
                let e = &self.entries[i];
                let fresh = if now >= e.discovered_at {
                    now - e.discovered_at < DISCOVERY_TTL_SECS
                } else {
                    true
                };
                if fresh {
                    Some(e.duplicate())
                } else {
                    None
                }
            },
            None => None,
        }
    }

    /// Look a device up regardless of age, as the cooldown path does.
    pub fn lookup_any(&self, id: &[u8]) -> (r: Option<DiscoveryResult>)
        ensures
            match r {
                Some(d) => spec_find_entry(self@, id@) matches Some(i) && self@[i] == d@,
                None => spec_find_entry(self@, id@) is None,
            },
    {
        match self.find(id) {
            Some(i) => Some(self.entries[i].duplicate()),
            None => None,
        }
    }

    /// Drop the entry for a device, so that the next lookup scans;
    /// reports whether one was there.
    pub fn invalidate(&mut self, id: &[u8]) -> (r: bool)
        requires
            old(self).wf(),
        ensures
            final(self).wf(),
            r == (spec_find_entry(old(self)@, id@) is Some),
            spec_find_entry(final(self)@, id@) is None,
            forall|id2: Seq<u8>, now: u64|
                id2 != id@ ==> #[trigger] spec_cache_lookup(final(self)@, id2, now)
                    == spec_cache_lookup(old(self)@, id2, now),
    {
        match self.find(id) {
            Some(i) => {
                let ghost prev = self@;
                self.entries.remove(i);
                proof {
                    assert(self@ =~= prev.remove(i as int));
                    lemma_find_entry_remove(prev, i as int, id@);
                }
                true
            },
            None => false,
        }
    }

    /// Every entry, oldest first.
    pub fn all(&self) -> (r: &Vec<DiscoveryResult>)
        ensures
            r@.len() == self@.len(),
            forall|i: int| 0 <= i < r@.len() ==> #[trigger] r@[i]@ == self@[i],
    {
        &self.entries
    }
}

/// The single-flight scan coordination: at most one active scan, and a
/// cooldown between forced scans.
pub struct ScanState {
    /// A scan is in progress.
    pub active: bool,
    /// When the last scan started, in seconds of the caller's clock.
    pub last_scan: Option<u64>,
}

/// What claiming the scanner yields.
#[derive(Debug, Clone, Copy, PartialEq, Eq, Structural)]
pub enum ScanDecision {
    /// The caller holds the single-flight claim and must scan.
    Start,
    /// Another scan is in progress; wait on the shared notification and
    /// poll the cache.
    Wait,
}

impl ScanState {
    /// No scan yet.
    pub fn new() -> (r: ScanState)
        ensures
            !r.active,
            r.last_scan is None,
    {
        ScanState { active: false, last_scan: None }
    }

    /// What claiming the scanner does to the state.
    pub open spec fn spec_try_begin(s: ScanState, now: u64) -> (ScanDecision, ScanState) {
        if s.active {
            (ScanDecision::Wait, s)
        } else {
            (ScanDecision::Start, ScanState { active: true, last_scan: Some(now) })
        }
    }

    /// Try to claim the scanner: exactly one caller gets `Start` while the
    /// claim stands; everyone else gets `Wait`.
    pub fn try_begin(&mut self, now: u64) -> (r: ScanDecision)
        ensures
            r == ScanState::spec_try_begin(*old(self), now).0,
            *final(self) == ScanState::spec_try_begin(*old(self), now).1,
            old(self).active ==> r is Wait && *final(self) == *old(self),
            !old(self).active ==> r is Start && *final(self) == (ScanState {
                active: true,
                last_scan: Some(now),
            }),
    {
        if self.active {
            ScanDecision::Wait
        } else {
            self.active = true;
            self.last_scan = Some(now);
            ScanDecision::Start
        }
    }

    /// Release the single-flight claim.
    pub fn finish(&mut self)
        ensures
            *final(self) == (ScanState { active: false, ..*old(self) }),
    {
        self.active = false;
    }

    /// Whether the cooldown still throttles forced scans.
    pub fn cooldown_active(&self, now: u64) -> (r: bool)
        ensures
            r == (self.last_scan matches Some(t) && now >= t && now - t < SCAN_COOLDOWN_SECS),
    {
        match self.last_scan {
            Some(t) => now >= t && now - t < SCAN_COOLDOWN_SECS,
            None => false,
        }
    }
}

/// At most one active scan at a time: of two claims made one after the
/// other without a release between them, at most one starts, and the
/// second claim leaves the state untouched.
pub proof fn lemma_single_flight(s0: ScanState, now0: u64, now1: u64)
    ensures
        !(ScanState::spec_try_begin(s0, now0).0 is Start && ScanState::spec_try_begin(
            ScanState::spec_try_begin(s0, now0).1,
            now1,
        ).0 is Start),
        ScanState::spec_try_begin(s0, now0).0 is Start ==> ScanState::spec_try_begin(
            ScanState::spec_try_begin(s0, now0).1,
            now1,
        ).1 == ScanState::spec_try_begin(s0, now0).1,
{
}

/// A stale cache entry satisfies no lookup: the caller refreshes it by
/// scanning.
pub proof fn lemma_stale_entry_misses(entries: Seq<SpecDiscovery>, id: Seq<u8>, now: u64)
    requires
        spec_find_entry(entries, id) matches Some(i) && !spec_fresh(entries[i], now),
    ensures
        spec_cache_lookup(entries, id, now) is None,
{
}

/// After invalidation the id has no entry at all, so any lookup misses and
/// the next resolution scans.
pub proof fn lemma_invalidate_forces_scan(entries: Seq<SpecDiscovery>, id: Seq<u8>, now: u64)
    requires
        spec_find_entry(entries, id) is None,
    ensures
        spec_cache_lookup(entries, id, now) is None,
{
}

/// `spec_find_entry` restricted to a prefix misses only if the prefix
/// holds no matching entry.
proof fn lemma_find_entry_take_step(entries: Seq<SpecDiscovery>, id: Seq<u8>, i: int)
    requires
        0 < i <= entries.len(),
        spec_find_entry(entries.take(i - 1), id) is None,
        entries[i - 1].id != id,
    ensures
        spec_find_entry(entries.take(i), id) is None,
    decreases i,
{
    if i == 1 {
        assert(entries.take(1).len() == 1);
        assert(entries.take(1)[0] == entries[0]);
    } else {
        assert(entries.take(i)[0] == entries[0]);
        if entries[0].id == id {
            assert(entries.take(i - 1)[0] == entries[0]);
            assert(spec_find_entry(entries.take(i - 1), id) is Some);
        } else {
            assert(entries.take(i).drop_first() =~= entries.drop_first().take(i - 1));
            assert(entries.take(i - 1).drop_first() =~= entries.drop_first().take(i - 2));
            lemma_find_entry_take_step(entries.drop_first(), id, i - 1);
        }
    }
}

/// A match at `i` past an unmatched prefix is the first match.
proof fn lemma_find_entry_extend(entries: Seq<SpecDiscovery>, id: Seq<u8>, i: int)
    requires
        0 <= i < entries.len(),
        spec_find_entry(entries.take(i), id) is None,
        entries[i].id == id,
    ensures
        spec_find_entry(entries, id) == Some(i),
    decreases i,
{
    if i == 0 {
    } else {
        assert(entries[0].id != id) by {
            assert(entries.take(i)[0] == entries[0]);
        }
        assert(entries.take(i).drop_first() =~= entries.drop_first().take(i - 1));
        lemma_find_entry_extend(entries.drop_first(), id, i - 1);
    }
}

/// Updating the entry at its own position moves the match there and leaves
/// every other id's entry alone.
proof fn lemma_find_entry_update(entries: Seq<SpecDiscovery>, i: int, r: SpecDiscovery)
    requires
        0 <= i < entries.len(),
        spec_find_entry(entries, entries[i].id) == Some(i),
        r.id == entries[i].id,
    ensures
        spec_find_entry(entries.update(i, r), r.id) == Some(i),
        forall|id2: Seq<u8>|
            id2 != r.id ==> #[trigger] spec_find_entry(entries.update(i, r), id2)
                == spec_find_entry(entries, id2),
    decreases entries.len(),
{
    let u = entries.update(i, r);
    if i == 0 {
        assert(u[0] == r);
        assert(u.drop_first() =~= entries.drop_first());
        assert forall|id2: Seq<u8>| id2 != r.id implies #[trigger] spec_find_entry(u, id2)
            == spec_find_entry(entries, id2) by {
            assert(spec_find_entry(u.drop_first(), id2) == spec_find_entry(
                entries.drop_first(),
                id2,
            ));
        }
    } else {
        assert(u[0] == entries[0]);
        assert(u.drop_first() =~= entries.drop_first().update(i - 1, r));
        lemma_find_entry_update(entries.drop_first(), i - 1, r);
        assert forall|id2: Seq<u8>| id2 != r.id implies #[trigger] spec_find_entry(u, id2)
            == spec_find_entry(entries, id2) by {
            assert(spec_find_entry(entries.drop_first().update(i - 1, r), id2)
                == spec_find_entry(entries.drop_first(), id2));
        }
    }
}

/// Appending a new id adds its match at the end and leaves every other
/// id's entry alone.
proof fn lemma_find_entry_push(entries: Seq<SpecDiscovery>, r: SpecDiscovery)
    requires
        spec_find_entry(entries, r.id) is None,
    ensures
        spec_find_entry(entries + seq![r], r.id) == Some(entries.len() as int),
        forall|id2: Seq<u8>|
            id2 != r.id ==> #[trigger] spec_find_entry(entries + seq![r], id2) == spec_find_entry(
                entries,
                id2,
            ) && (spec_find_entry(entries, id2) matches Some(j) ==> (entries + seq![r])[j]
                == entries[j]),
    decreases entries.len(),
{
    let u = entries + seq![r];
    if entries.len() == 0 {
        assert(u.len() == 1);
        assert(u[0] == r);
        assert(u.drop_first() =~= Seq::<SpecDiscovery>::empty());
        assert(spec_find_entry(u, r.id) == Some(0int));
        assert forall|id2: Seq<u8>| id2 != r.id implies #[trigger] spec_find_entry(u, id2)
            == spec_find_entry(entries, id2) && (spec_find_entry(entries, id2) matches Some(j)
            ==> u[j] == entries[j]) by {
            assert(u[0].id != id2);
            assert(spec_find_entry(u.drop_first(), id2) is None);
            assert(spec_find_entry(entries, id2) is None);
        }
    } else {
        assert(u[0] == entries[0]);
        assert(u.drop_first() =~= entries.drop_first() + seq![r]);
        lemma_find_entry_push(entries.drop_first(), r);
        assert forall|id2: Seq<u8>| id2 != r.id implies #[trigger] spec_find_entry(u, id2)
            == spec_find_entry(entries, id2) && (spec_find_entry(entries, id2) matches Some(j)
            ==> u[j] == entries[j]) by {
            assert(spec_find_entry(entries.drop_first() + seq![r], id2) == spec_find_entry(
                entries.drop_first(),
                id2,
            ));
            if entries[0].id != id2 {
                match spec_find_entry(entries.drop_first(), id2) {
                    Some(k) => {
                        lemma_find_entry_index(entries.drop_first(), id2);
                        assert((entries.drop_first() + seq![r])[k] == entries.drop_first()[k]);
                        assert(u[k + 1] == entries[k + 1]);
                    },
                    None => {
                    },
                }
            }
        }
    }
}

/// Removing the entry at the match removes the id and leaves every other
/// id's lookup alone.
proof fn lemma_find_entry_remove(entries: Seq<SpecDiscovery>, i: int, id: Seq<u8>)
    requires
        0 <= i < entries.len(),
        spec_find_entry(entries, id) == Some(i),
        entries[i].id == id,
        forall|a: int, b: int| 0 <= a < b < entries.len() ==> entries[a].id != entries[b].id,
    ensures
        spec_find_entry(entries.remove(i), id) is None,
        forall|id2: Seq<u8>, now: u64|
            id2 != id ==> #[trigger] spec_cache_lookup(entries.remove(i), id2, now)
                == spec_cache_lookup(entries, id2, now),
        forall|a: int, b: int|
            0 <= a < b < entries.remove(i).len() ==> entries.remove(i)[a].id != entries.remove(
                i,
            )[b].id,
    decreases entries.len(),
{
    let u = entries.remove(i);
    if i == 0 {
        assert(u =~= entries.drop_first());
        lemma_find_entry_absent_of_unique(entries, id);
        assert(spec_find_entry(u, id) is None);
        assert forall|id2: Seq<u8>, now: u64| id2 != id implies #[trigger] spec_cache_lookup(
            u,
            id2,
            now,
        ) == spec_cache_lookup(entries, id2, now) by {
            assert(entries[0].id == id);
            assert(entries[0].id != id2);
            match spec_find_entry(entries.drop_first(), id2) {
                Some(k) => {
                    lemma_find_entry_index(entries.drop_first(), id2);
                    assert(spec_find_entry(entries, id2) == Some(k + 1));
                    assert(u[k] == entries[k + 1]);
                },
                None => {
                    assert(spec_find_entry(entries, id2) is None);
                },
            }
        }
    } else {
        assert(u[0] == entries[0]);
        assert(u.drop_first() =~= entries.drop_first().remove(i - 1));
        assert(entries[0].id != id);
        assert(spec_find_entry(entries.drop_first(), id) == Some(i - 1));
        lemma_find_entry_remove(entries.drop_first(), i - 1, id);
        assert(spec_find_entry(u.drop_first(), id) is None);
        assert forall|id2: Seq<u8>, now: u64| id2 != id implies #[trigger] spec_cache_lookup(
            u,
            id2,
            now,
        ) == spec_cache_lookup(entries, id2, now) by {
            if entries[0].id == id2 {
                assert(spec_find_entry(u, id2) == Some(0int));
                assert(spec_find_entry(entries, id2) == Some(0int));
                assert(u[0] == entries[0]);
            } else {
                assert(spec_cache_lookup(entries.drop_first().remove(i - 1), id2, now)
                    == spec_cache_lookup(entries.drop_first(), id2, now));
                match spec_find_entry(entries.drop_first(), id2) {
                    Some(k) => {
                        lemma_find_entry_index(entries.drop_first(), id2);
                        assert(spec_find_entry(entries, id2) == Some(k + 1));
                        assert(entries[k + 1] == entries.drop_first()[k]);
                        match spec_find_entry(u.drop_first(), id2) {
                            Some(m) => {
                                lemma_find_entry_index(u.drop_first(), id2);
                                assert(spec_find_entry(u, id2) == Some(m + 1));
                                assert(u[m + 1] == u.drop_first()[m]);
                            },
                            None => {
                            },
                        }
                    },
                    None => {
                        lemma_find_entry_remove_none(entries.drop_first(), i - 1, id2);
                        assert(spec_find_entry(u.drop_first(), id2) is None);
                    },
                }
            }
        }
    }
}

/// In a cache with unique ids, dropping the head entry for `id` leaves no
/// entry for `id`.
proof fn lemma_find_entry_absent_of_unique(entries: Seq<SpecDiscovery>, id: Seq<u8>)
    requires
        entries.len() > 0,
        entries[0].id == id,
        forall|a: int, b: int| 0 <= a < b < entries.len() ==> entries[a].id != entries[b].id,
    ensures
        spec_find_entry(entries.drop_first(), id) is None,
    decreases entries.len(),
{
    lemma_find_entry_index(entries.drop_first(), id);
}

/// A found entry carries the id it was found under.
proof fn lemma_find_entry_index(entries: Seq<SpecDiscovery>, id: Seq<u8>)
    ensures
        spec_find_entry(entries, id) matches Some(i) ==> 0 <= i < entries.len() && entries[i].id
            == id,
    decreases entries.len(),
{
    if entries.len() > 0 {
        lemma_find_entry_index(entries.drop_first(), id);
    }
}

/// A missing id matches no entry at all.
proof fn lemma_find_entry_none(entries: Seq<SpecDiscovery>, id: Seq<u8>)
    requires
        spec_find_entry(entries, id) is None,
    ensures
        forall|j: int| 0 <= j < entries.len() ==> entries[j].id != id,
    decreases entries.len(),
{
    if entries.len() > 0 {
        lemma_find_entry_none(entries.drop_first(), id);
        assert forall|j: int| 0 <= j < entries.len() implies entries[j].id != id by {
            if j > 0 {
                assert(entries.drop_first()[j - 1] == entries[j]);
            }
        }
    }
}

/// Removing an entry never introduces an id.
proof fn lemma_find_entry_remove_none(entries: Seq<SpecDiscovery>, i: int, id: Seq<u8>)
    requires
        0 <= i < entries.len(),
        spec_find_entry(entries, id) is None,
    ensures
        spec_find_entry(entries.remove(i), id) is None,
    decreases entries.len(),
{
    let u = entries.remove(i);
    if i == 0 {
        assert(u =~= entries.drop_first());
    } else {
        assert(u[0] == entries[0]);
        assert(u.drop_first() =~= entries.drop_first().remove(i - 1));
        lemma_find_entry_remove_none(entries.drop_first(), i - 1, id);
    }
}

/// Whether a byte sequence parses as JSON: a function of the bytes alone.
pub uninterp spec fn json_is_valid(data: Seq<u8>) -> bool;

/// The bytes of the string at a top-level key of a JSON object encoded by
/// `data`, if the data is such an object and the key holds a string: a
/// function of the bytes and the key alone.
pub uninterp spec fn json_str_field(data: Seq<u8>, key: Seq<char>) -> Option<Seq<u8>>;

/// Relies on `serde_json::from_slice`: whether the bytes parse as JSON.
#[verifier::external_body]
pub fn json_valid(data: &[u8]) -> (r: bool)
    ensures
        r == json_is_valid(data@),
{
    serde_json::from_slice::<Value>(data).is_ok()
}

/// Relies on `serde_json::from_slice` and `Value::get`: the string under a
/// top-level key of a JSON object, as bytes.
#[verifier::external_body]
pub fn json_get_str(data: &[u8], key: &str) -> (r: Option<Vec<u8>>)
    ensures
        match r {
            Some(v) => json_str_field(data@, key@) == Some(v@),
            None => json_str_field(data@, key@) is None,
        },
{
    let val: Value = match serde_json::from_slice(data) {
        Ok(v) => v,
        Err(_) => {
            return None;
        },
    };
    let s = val.get(key)?.as_str()?;
    Some(s.as_bytes().to_vec())
}

/// What `parse_json` extracts from a JSON datagram: a result when it holds
/// both an id (under `gwId`, `devId` or `id`, in that order) and an `ip`,
/// with the optional version tag and product key.
pub open spec fn spec_parse_json(data: Seq<u8>, now: u64) -> Option<SpecDiscovery> {
    let id = if json_str_field(data, "gwId"@) is Some {
        json_str_field(data, "gwId"@)
    } else if json_str_field(data, "devId"@) is Some {
        json_str_field(data, "devId"@)
    } else {
        json_str_field(data, "id"@)
    };
    match (id, json_str_field(data, "ip"@)) {
        (Some(i), Some(p)) => Some(
            SpecDiscovery {
                id: i,
                ip: p,
                version: match json_str_field(data, "version"@) {
                    Some(vb) => Version::spec_from_tag(vb),
                    None => None,
                },
                product_key: json_str_field(data, "productKey"@),
                discovered_at: now,
            },
        ),
        _ => None,
    }
}

/// Extract device id, address, version and product key from a JSON
/// datagram, as `spec_parse_json` describes.
pub fn parse_json(data: &[u8], now: u64) -> (r: Option<DiscoveryResult>)
    ensures
        match r {
            Some(d) => spec_parse_json(data@, now) == Some(d@),
            None => spec_parse_json(data@, now) is None,
        },
{
    let id = match json_get_str(data, "gwId") {
        Some(v) => Some(v),
        None => match json_get_str(data, "devId") {
            Some(v) => Some(v),
            None => json_get_str(data, "id"),
        },
    };
    let ip = json_get_str(data, "ip");
    match (id, ip) {
        (Some(i), Some(p)) => {
            let version = match json_get_str(data, "version") {
                Some(vb) => Version::from_tag_bytes(vb.as_slice()),
                None => None,
            };
            let product_key = json_get_str(data, "productKey");
            Some(DiscoveryResult { id: i, ip: p, version, product_key, discovered_at: now })
        },
        _ => None,
    }
}

/// The candidate key of decode attempt `i`: three attempts each under the
/// 3.5 key, the 3.4 key and the 3.3 key, then three with none.
pub open spec fn spec_candidate_key(i: int) -> Option<Seq<u8>> {
    if i < 3 {
        Some(spec_udp_key_35())
    } else if i < 6 {
        Some(spec_udp_key_34())
    } else if i < 9 {
        Some(spec_udp_key_33())
    } else {
        None
    }
}

/// The return-code mode of decode attempt `i`: forced off, forced on, then
/// auto-detected.
pub open spec fn spec_candidate_nrc(i: int) -> Option<bool> {
    if i % 3 == 0 {
        Some(true)
    } else if i % 3 == 1 {
        Some(false)
    } else {
        None
    }
}

/// One ECB attempt on an unpacked payload: decided (with the JSON fields)
/// where the decryption succeeds and yields JSON, undecided otherwise.
pub open spec fn spec_ecb_try_one(key: Seq<u8>, payload: Seq<u8>, now: u64) -> Option<
    Option<SpecDiscovery>,
> {
    if key.len() == 16 {
        match crate::crypto::spec_ecb_decrypt(key, payload) {
            Some(d) => {
                if json_is_valid(d) {
                    Some(spec_parse_json(d, now))
                } else {
                    None
                }
            },
            None => None,
        }
    } else {
        None
    }
}

/// The ECB fallback on an unpacked payload: under the attempt's own key
/// where it had one, else under each discovery key in turn.
pub open spec fn spec_ecb_fallback(
    payload: Seq<u8>,
    key: Option<Seq<u8>>,
    now: u64,
) -> Option<Option<SpecDiscovery>> {
    match key {
        Some(k) => spec_ecb_try_one(k, payload, now),
        None => match spec_ecb_try_one(spec_udp_key_33(), payload, now) {
            Some(res) => Some(res),
            None => match spec_ecb_try_one(spec_udp_key_34(), payload, now) {
                Some(res) => Some(res),
                None => spec_ecb_try_one(spec_udp_key_35(), payload, now),
            },
        },
    }
}

/// Decode attempt `i`: unpack under the candidate key and return-code mode;
/// on a non-empty payload that is JSON the attempt decides, otherwise the
/// ECB fallback may decide.
pub open spec fn spec_try_stage(data: Seq<u8>, i: int, now: u64) -> Option<Option<SpecDiscovery>> {
    match crate::protocol::spec_unpack(data, spec_candidate_key(i), None, spec_candidate_nrc(i)) {
        Err(_) => None,
        Ok(m) => {
            if m.payload.len() == 0 {
                None
            } else if json_is_valid(m.payload) {
                Some(spec_parse_json(m.payload, now))
            } else {
                spec_ecb_fallback(m.payload, spec_candidate_key(i), now)
            }
        },
    }
}

/// The first decode attempt from `i` on that decides, if any.
pub open spec fn spec_stages(data: Seq<u8>, i: int, now: u64) -> Option<Option<SpecDiscovery>>
    decreases 12 - i,
{
    if i >= 12 {
        None
    } else {
        match spec_try_stage(data, i, now) {
            Some(res) => Some(res),
            None => spec_stages(data, i + 1, now),
        }
    }
}

/// The whole-packet ECB fallback, under the 3.3 key then the 3.4 key.
pub open spec fn spec_whole_ecb(data: Seq<u8>, now: u64) -> Option<Option<SpecDiscovery>> {
    match spec_ecb_try_one(spec_udp_key_33(), data, now) {
        Some(res) => Some(res),
        None => spec_ecb_try_one(spec_udp_key_34(), data, now),
    }
}

/// The first index of a byte in a sequence.
pub open spec fn spec_find_byte(data: Seq<u8>, b: u8) -> Option<int>
    decreases data.len(),
{
    if data.len() == 0 {
        None
    } else if data[0] == b {
        Some(0)
    } else {
        match spec_find_byte(data.drop_first(), b) {
            Some(i) => Some(i + 1),
            None => None,
        }
    }
}

/// The first index of a byte is characterized by first occurrence.
proof fn lemma_find_byte_char(data: Seq<u8>, b: u8)
    ensures
        match spec_find_byte(data, b) {
            Some(i) => 0 <= i < data.len() && data[i] == b && forall|j: int|
                0 <= j < i ==> data[j] != b,
            None => forall|j: int| 0 <= j < data.len() ==> data[j] != b,
        },
    decreases data.len(),
{
    if data.len() > 0 {
        lemma_find_byte_char(data.drop_first(), b);
        if data[0] != b {
            match spec_find_byte(data.drop_first(), b) {
                Some(k) => {
                    assert(data.drop_first()[k] == data[k + 1]);
                    assert forall|j: int| 0 <= j < k + 1 implies data[j] != b by {
                        if j > 0 {
                            assert(data.drop_first()[j - 1] == data[j]);
                        }
                    }
                },
                None => {
                    assert forall|j: int| 0 <= j < data.len() implies data[j] != b by {
                        if j > 0 {
                            assert(data.drop_first()[j - 1] == data[j]);
                        }
                    }
                },
            }
        }
    }
}

/// The brace fallback: from the first `{` on, where the rest is JSON.
pub open spec fn spec_brace_fallback(data: Seq<u8>, now: u64) -> Option<SpecDiscovery> {
    match spec_find_byte(data, 123) {
        Some(pos) => {
            if json_is_valid(data.skip(pos)) {
                spec_parse_json(data.skip(pos), now)
            } else {
                None
            }
        },
        None => None,
    }
}

/// What parsing a datagram yields, trying in order: the raw bytes as JSON;
/// unpacking as a frame under each candidate key and return-code mode, the
/// payload taken as JSON or ECB-decrypted; the whole datagram
/// ECB-decrypted; and finally the bytes from the first `{` on.
pub open spec fn spec_parse_packet(data: Seq<u8>, now: u64) -> Option<SpecDiscovery> {
    if json_is_valid(data) {
        spec_parse_json(data, now)
    } else {
        match spec_stages(data, 0, now) {
            Some(res) => res,
            None => match spec_whole_ecb(data, now) {
                Some(res) => res,
                None => spec_brace_fallback(data, now),
            },
        }
    }
}

/// One ECB attempt on a payload, as `spec_ecb_try_one` describes.
fn ecb_try_one(key: &[u8], payload: &[u8], now: u64) -> (r: Option<Option<DiscoveryResult>>)
    ensures
        match r {
            Some(res) => spec_ecb_try_one(key@, payload@, now) matches Some(sres) && (match res {
                Some(d) => sres == Some(d@),
                None => sres is None,
            }),
            None => spec_ecb_try_one(key@, payload@, now) is None,
        },
{
    let cipher = match TuyaCipher::new(key) {
        Ok(c) => c,
        Err(_) => {
            return None;
        },
    };
    match cipher.decrypt(payload, false, None, None) {
        Ok(d) => {
            if json_valid(d.as_slice()) {
                Some(parse_json(d.as_slice(), now))
            } else {
                None
            }
        },
        Err(_) => None,
    }
}

/// Parse a received UDP datagram into a discovery result, as
/// `spec_parse_packet` describes; `now` stamps the result.
pub fn parse_packet(data: &[u8], now: u64) -> (r: Option<DiscoveryResult>)
    ensures
        match r {
            Some(d) => spec_parse_packet(data@, now) == Some(d@),
            None => spec_parse_packet(data@, now) is None,
        },
{
    if json_valid(data) {
        return parse_json(data, now);
    }
    let k33 = udp_key_33();
    let k34 = udp_key_34();
    let mut i: usize = 0;
    while i < 12
        invariant
            i <= 12,
            k33@ == spec_udp_key_33(),
            k34@ == spec_udp_key_34(),
            spec_stages(data@, 0, now) == spec_stages(data@, i as int, now),
            !json_is_valid(data@),
        decreases 12 - i,
    {
        // The 3.5 discovery key holds the same bytes as the 3.4 key.
        let key: Option<&[u8]> = if i < 6 {
            Some(k34.as_slice())
        } else if i < 9 {
            Some(k33.as_slice())
        } else {
            None
        };
        let nrc: Option<bool> = if i % 3 == 0 {
            Some(true)
        } else if i % 3 == 1 {
            Some(false)
        } else {
            None
        };
        proof {
            assert(crate::protocol::okey(key) == spec_candidate_key(i as int));
        }
        match crate::protocol::unpack_message(data, key, None, nrc) {
            Err(_) => {},
            Ok(m) => {
                if m.payload.len() == 0 {
                } else if json_valid(m.payload.as_slice()) {
                    let res = parse_json(m.payload.as_slice(), now);
                    proof {
                        assert(spec_try_stage(data@, i as int, now) matches Some(_));
                    }
                    return res;
                } else {
                    match key {
                        Some(k) => {
                            match ecb_try_one(k, m.payload.as_slice(), now) {
                                Some(res) => {
                                    return res;
                                },
                                None => {},
                            }
                        },
                        None => {
                            match ecb_try_one(k33.as_slice(), m.payload.as_slice(), now) {
                                Some(res) => {
                                    return res;
                                },
                                None => {},
                            }
                            match ecb_try_one(k34.as_slice(), m.payload.as_slice(), now) {
                                Some(res) => {
                                    return res;
                                },
                                None => {},
                            }
                            match ecb_try_one(k34.as_slice(), m.payload.as_slice(), now) {
                                Some(res) => {
                                    return res;
                                },
                                None => {},
                            }
                        },
                    }
                }
            },
        }
        proof {
            assert(spec_try_stage(data@, i as int, now) is None);
        }
        i = i + 1;
    }
    match ecb_try_one(k33.as_slice(), data, now) {
        Some(res) => {
            return res;
        },
        None => {},
    }
    match ecb_try_one(k34.as_slice(), data, now) {
        Some(res) => {
            return res;
        },
        None => {},
    }
    proof {
        lemma_find_byte_char(data@, 123);
    }
    match crate::encoding::find_byte(data, 123) {
        Some(pos) => {
            let rest = &data[pos..data.len()];
            proof {
                assert(rest@ =~= data@.skip(pos as int));
                assert(spec_find_byte(data@, 123) == Some(pos as int)) by {
                    match spec_find_byte(data@, 123) {
                        Some(q) => {
                            if q < pos {
                            } else if q > pos {
                            }
                        },
                        None => {
                        },
                    }
                }
            }
            if json_valid(rest) {
                parse_json(rest, now)
            } else {
                None
            }
        },
        None => None,
    }
}

/// The discovery query sent on port 7000: the requester and its address.
pub open spec fn spec_probe_payload_7000(local_ip: Seq<u8>) -> Seq<u8> {
    ab("{\"from\":\"app\",\"ip\":\""@) + local_ip + ab("\"}"@)
}

/// The discovery query sent on ports 6666 and 6667: empty gateway and
/// device ids.
pub open spec fn spec_probe_payload_std() -> Seq<u8> {
    ab("{\"gwId\":\"\",\"devId\":\"\"}"@)
}

/// Build the discovery broadcast for a port: on 7000 a `0x6699`
/// `ReqDevInfo` frame under the 3.5 discovery key carrying the local
/// address, elsewhere a plain `0x55AA` `UdpNew` frame with a CRC footer.
pub fn build_discovery_probe(port: u16, local_ip: &[u8]) -> (r: Result<Vec<u8>, TuyaError>)
    requires
        local_ip@.len() <= 64,
    ensures
        port == 7000 ==> (r matches Ok(v) && exists|ivs: Seq<u8>|
            #![auto]
            ivs.len() == 12 && v@ == crate::protocol::spec_pack_6699(
                0u32,
                0x25u32,
                None,
                spec_probe_payload_7000(local_ip@),
                spec_udp_key_35(),
                ivs,
            )),
        port != 7000 ==> (r matches Ok(v) && v@ == crate::protocol::spec_pack_55aa(
            0u32,
            0x13u32,
            spec_probe_payload_std(),
            None,
        )),
{
    if port == 7000 {
        proof {
            reveal_strlit("{\"from\":\"app\",\"ip\":\"");
            reveal_strlit("\"}");
        }
        let mut payload: Vec<u8> = Vec::new();
        crate::encoding::append_str(&mut payload, "{\"from\":\"app\",\"ip\":\"");
        crate::encoding::append_bytes(&mut payload, local_ip);
        crate::encoding::append_str(&mut payload, "\"}");
        proof {
            assert(payload@ =~= spec_probe_payload_7000(local_ip@));
        }
        let msg = TuyaMessage {
            seqno: 0,
            cmd: 0x25,
            retcode: None,
            payload,
            prefix: PREFIX_6699,
            iv: None,
        };
        let key = udp_key_34();
        crate::protocol::pack_message(&msg, Some(key.as_slice()))
    } else {
        proof {
            reveal_strlit("{\"gwId\":\"\",\"devId\":\"\"}");
        }
        let mut payload: Vec<u8> = Vec::new();
        crate::encoding::append_str(&mut payload, "{\"gwId\":\"\",\"devId\":\"\"}");
        proof {
            assert(payload@ =~= spec_probe_payload_std());
        }
        let msg = TuyaMessage {
            seqno: 0,
            cmd: 0x13,
            retcode: None,
            payload,
            prefix: PREFIX_55AA,
            iv: None,
        };
        crate::protocol::pack_message(&msg, None)
    }
}

} // verus!
