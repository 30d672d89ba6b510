//! The keyed store: a mapping from derived key to token bucket, created
//! lazily on first sight of a key and swept of idle entries.
//!
//! The store is modelled as a `Map` from the key's character sequence to a
//! `Slot` (the key's bucket plus its last-access time). A check fetches or
//! inserts the key's slot, refreshes its last-access time and runs the
//! bucket decision; a sweep drops every slot whose last access lies further
//! in the past than a retention threshold.

use vstd::prelude::*;

use crate::bucket::Bucket;
use crate::quota::Quota;

verus! {

/// One key's state: its bucket and the time the key was last checked.
#[derive(Clone, Copy, Debug, PartialEq, Eq, Structural)]
pub struct Slot {
    pub bucket: Bucket,
    /// Time of the last check for this key (allowed or denied), nanoseconds.
    pub last_access: u64,
}

/// One stored key together with its slot.
#[derive(Debug)]
pub struct StoreEntry {
    pub key: String,
    pub slot: Slot,
}

/// The per-key bucket store of a keyed limiter.
#[derive(Debug)]
pub struct KeyedStore {
    /// The quota every bucket in the store is checked against.
    pub quota: Quota,
    /// The slots, at most one per key.
    pub entries: Vec<StoreEntry>,
}

/// No two stored entries share a key.
pub open spec fn unique_keys(s: Seq<StoreEntry>) -> bool {
    forall|i: int, j: int| 0 <= i < j < s.len() ==> s[i].key@ != s[j].key@
}

/// The mapping the entry sequence denotes: later entries win, though under
/// `unique_keys` every key occurs at most once.
pub open spec fn store_map(s: Seq<StoreEntry>) -> Map<Seq<char>, Slot>
    decreases s.len(),
{
    if s.len() == 0 {
        Map::empty()
    } else {
        store_map(s.drop_last()).insert(s.last().key@, s.last().slot)
    }
}

/// A slot is live at `now` when its last access is no further in the past
/// than `retention` nanoseconds; a last access in the future also counts as
/// live, to tolerate clock jitter.
pub open spec fn slot_live(slot: Slot, now: u64, retention: u64) -> bool {
    now as int <= slot.last_access as int + retention as int
}

/// The store after a sweep at `now`: exactly the live slots remain, each
/// unchanged.
pub open spec fn swept_map(m: Map<Seq<char>, Slot>, now: u64, retention: u64) -> Map<
    Seq<char>,
    Slot,
> {
    Map::new(
        |k: Seq<char>| m.dom().contains(k) && slot_live(m[k], now, retention),
        |k: Seq<char>| m[k],
    )
}

/// The slot a check at `now` operates on: the stored one, or a fresh full
/// bucket when the key has not been seen (or was evicted).
pub open spec fn effective_slot(m: Map<Seq<char>, Slot>, q: Quota, key: Seq<char>, now: u64) -> Slot {
    if m.dom().contains(key) {
        m[key]
    } else {
        Slot { bucket: Bucket::full_spec(q, now), last_access: now }
    }
}

/// Whether a keyed check at `now` admits the request for `key`.
pub open spec fn keyed_allows(m: Map<Seq<char>, Slot>, q: Quota, key: Seq<char>, now: u64) -> bool {
    effective_slot(m, q, key, now).bucket.allows(q, now)
}

/// The store after a keyed check at `now`: the key's bucket steps by one
/// bucket decision and its last access becomes `now`; no other key changes.
pub open spec fn keyed_after(m: Map<Seq<char>, Slot>, q: Quota, key: Seq<char>, now: u64) -> Map<
    Seq<char>,
    Slot,
> {
    let s = effective_slot(m, q, key, now);
    m.insert(key, Slot { bucket: s.bucket.after_check(q, now), last_access: now })
}

impl View for KeyedStore {
    type V = Map<Seq<char>, Slot>;

    open spec fn view(&self) -> Map<Seq<char>, Slot> {
        store_map(self.entries@)
    }
}

impl KeyedStore {
    /// The store's invariant: a usable quota, no duplicate keys, and no
    /// bucket above the burst capacity.
    pub open spec fn wf(self) -> bool {
        &&& self.quota.valid()
        &&& unique_keys(self.entries@)
        &&& forall|i: int|
            0 <= i < self.entries@.len() ==> (#[trigger] self.entries@[i]).slot.bucket.inv(
                self.quota,
            )
    }

    /// An empty store for `quota`.
    pub fn new(quota: Quota) -> (s: KeyedStore)
        ensures
            s.quota == quota,
            s@ == Map::<Seq<char>, Slot>::empty(),
            quota.valid() ==> s.wf(),
    {
        KeyedStore { quota, entries: Vec::new() }
    }

    /// Whether a slot for `key` is currently stored.
    pub fn contains_key(&self, key: &str) -> (found: bool)
        ensures
            self.wf() ==> found == self@.dom().contains(key@),
    {
        proof {
            lemma_store_map_domain(self.entries@);
        }
        let key_string: String = key.to_owned();
        let n = self.entries.len();
        let mut i: usize = 0;
        while i < n
            invariant
                i <= n,
                n == self.entries@.len(),
                key_string@ == key@,
                forall|j: int| 0 <= j < i ==> self.entries@[j].key@ != key@,
            decreases n - i,
        {
            if self.entries[i].key == key_string {
                proof {
                    lemma_store_map_domain(self.entries@);
                    assert(self.entries@[i as int].key@ == key@);
                    assert(exists|w: int|
                        0 <= w < self.entries@.len() && (#[trigger] self.entries@[w].key@) == key@);
                    assert(store_map(self.entries@).dom().contains(key@));
                }
                return true;
            }
            i += 1;
        }
        proof {
            if self.wf() && self@.dom().contains(key@) {
                let w = choose|w: int| 0 <= w < self.entries@.len() && (#[trigger] self.entries@[w].key@) == key@;
                assert(false);
            }
        }
        false
    }

    /// One keyed rate-limit decision: fetch or create the key's bucket,
    /// refresh its last-access time, and run the bucket check against it.
    pub fn check_key(&mut self, key: &str, now: u64) -> (allowed: bool)
        ensures
            old(self).wf() ==> allowed == keyed_allows(old(self)@, old(self).quota, key@, now),
            old(self).wf() ==> final(self)@ == keyed_after(old(self)@, old(self).quota, key@, now),
            old(self).wf() ==> final(self).wf(),
            final(self).quota == old(self).quota,
    {
        proof {
            lemma_store_map_domain(self.entries@);
        }
        let key_string: String = key.to_owned();
        let n = self.entries.len();
        let mut i: usize = 0;
        while i < n
            invariant
                i <= n,
                n == self.entries@.len(),
                key_string@ == key@,
                *self == *old(self),
                forall|j: int| 0 <= j < i ==> self.entries@[j].key@ != key@,
            decreases n - i,
        {
            if self.entries[i].key == key_string {
                proof {
                    lemma_store_map_domain(self.entries@);
                    assert(self.entries@[i as int].key@ == key@);
                    assert(exists|w: int|
                        0 <= w < self.entries@.len() && (#[trigger] self.entries@[w].key@) == key@);
                    assert(store_map(self.entries@).dom().contains(key@));
                }
                let slot = self.entries[i].slot;
                let mut b = slot.bucket;
                let allowed = b.check(&self.quota, now);
                let entry = StoreEntry { key: key_string, slot: Slot { bucket: b, last_access: now } };
                proof {
                    if old(self).wf() {
                        lemma_store_map_value(self.entries@, i as int);
                        lemma_store_map_update(
                            self.entries@,
                            i as int,
                            StoreEntry {
                                key: entry.key,
                                slot: Slot {
                                    bucket: slot.bucket.after_check(old(self).quota, now),
                                    last_access: now,
                                },
                            },
                        );
                    }
                }
                self.entries.set(i, entry);
                return allowed;
            }
            i += 1;
        }
        proof {
            if old(self).wf() && self@.dom().contains(key@) {
                let w = choose|w: int| 0 <= w < self.entries@.len() && (#[trigger] self.entries@[w].key@) == key@;
                assert(false);
            }
        }
        let mut b = Bucket::new_full(&self.quota, now);
        let allowed = b.check(&self.quota, now);
        let entry = StoreEntry { key: key_string, slot: Slot { bucket: b, last_access: now } };
        proof {
            lemma_store_map_push(self.entries@, entry);
        }
        self.entries.push(entry);
        allowed
    }

    /// Remove every slot whose last access lies more than `retention`
    /// nanoseconds before `now`; live slots are kept unchanged.
    pub fn sweep(&mut self, now: u64, retention: u64)
        ensures
            old(self).wf() ==> final(self)@ == swept_map(old(self)@, now, retention),
            old(self).wf() ==> final(self).wf(),
            final(self).quota == old(self).quota,
    {
        let mut src: Vec<StoreEntry> = Vec::new();
        core::mem::swap(&mut src, &mut self.entries);
        let ghost orig: Seq<StoreEntry> = src@;
        let mut kept: Vec<StoreEntry> = Vec::new();
        let ghost mut taken: int = 0;
        while src.len() > 0
            invariant
                0 <= taken <= orig.len(),
                src@ == orig.skip(taken),
                unique_keys(orig) ==> unique_keys(kept@),
                unique_keys(orig) ==> store_map(kept@) == swept_map(
                    store_map(orig.take(taken)),
                    now,
                    retention,
                ),
                forall|j: int|
                    0 <= j < kept@.len() ==> exists|j2: int|
                        0 <= j2 < taken && (#[trigger] kept@[j]) == (#[trigger] orig[j2]),
            decreases src@.len(),
        {
            let e = src.remove(0);
            proof {
                assert(e == orig[taken]);
                assert(src@ == orig.skip(taken + 1));
                if unique_keys(orig) {
                    lemma_sweep_step(orig, kept@, taken, now, retention);
                }
                taken = taken + 1;
            }
            if (e.slot.last_access as u128) + (retention as u128) >= (now as u128) {
                kept.push(e);
            }
        }
        proof {
            assert(orig.take(taken) == orig);
        }
        self.entries = kept;
    }
}

/// A key is in the denoted map exactly when some entry carries it.
proof fn lemma_store_map_domain(s: Seq<StoreEntry>)
    ensures
        forall|k: Seq<char>| #![trigger store_map(s).dom().contains(k)]
            store_map(s).dom().contains(k) <==> exists|i: int|
                0 <= i < s.len() && (#[trigger] s[i].key@) == k,
    decreases s.len(),
{
    if s.len() == 0 {
    } else {
        let pre = s.drop_last();
        lemma_store_map_domain(pre);
        assert forall|k: Seq<char>| #![trigger store_map(s).dom().contains(k)]
            store_map(s).dom().contains(k) <==> (exists|i: int|
            0 <= i < s.len() && (#[trigger] s[i].key@) == k) by {
            if store_map(s).dom().contains(k) {
                if k == s.last().key@ {
                    assert(s[s.len() - 1].key@ == k);
                } else {
                    assert(store_map(pre).dom().contains(k));
                    let i = choose|i: int| 0 <= i < pre.len() && (#[trigger] pre[i].key@) == k;
                    assert(s[i].key@ == k);
                }
            }
            if exists|i: int| 0 <= i < s.len() && (#[trigger] s[i].key@) == k {
                let i = choose|i: int| 0 <= i < s.len() && (#[trigger] s[i].key@) == k;
                if i == s.len() - 1 {
                    assert(store_map(s).dom().contains(k));
                } else {
                    assert(pre[i].key@ == k);
                    assert(exists|i2: int| 0 <= i2 < pre.len() && (#[trigger] pre[i2].key@) == k);
                    assert(store_map(pre).dom().contains(k));
                }
            }
        }
    }
}

/// Under unique keys, the denoted map sends each entry's key to its slot.
proof fn lemma_store_map_value(s: Seq<StoreEntry>, i: int)
    requires
        unique_keys(s),
        0 <= i < s.len(),
    ensures
        store_map(s).dom().contains(s[i].key@),
        store_map(s)[s[i].key@] == s[i].slot,
    decreases s.len(),
{
    let pre = s.drop_last();
    if i == s.len() - 1 {
    } else {
        assert(unique_keys(pre));
        lemma_store_map_value(pre, i);
        assert(s[i].key@ != s.last().key@);
    }
}

/// Appending an entry denotes inserting its key.
proof fn lemma_store_map_push(s: Seq<StoreEntry>, e: StoreEntry)
    ensures
        store_map(s.push(e)) == store_map(s).insert(e.key@, e.slot),
{
    assert(s.push(e).drop_last() == s);
    assert(s.push(e).last() == e);
}

/// Replacing the entry that holds a key denotes inserting at that key.
proof fn lemma_store_map_update(s: Seq<StoreEntry>, i: int, e: StoreEntry)
    requires
        unique_keys(s),
        0 <= i < s.len(),
        e.key@ == s[i].key@,
    ensures
        store_map(s.update(i, e)) == store_map(s).insert(e.key@, e.slot),
        unique_keys(s.update(i, e)),
    decreases s.len(),
{
    let s2 = s.update(i, e);
    assert forall|a: int, b: int| 0 <= a < b < s2.len() implies s2[a].key@ != s2[b].key@ by {
        assert(s[a].key@ != s[b].key@);
    }
    let pre = s.drop_last();
    assert(unique_keys(pre));
    if i == s.len() - 1 {
        assert(s2.drop_last() == pre);
        assert(s2.last() == e);
        assert(store_map(s2) == store_map(pre).insert(e.key@, e.slot));
        assert(store_map(s).insert(e.key@, e.slot) =~= store_map(pre).insert(e.key@, e.slot));
    } else {
        lemma_store_map_update(pre, i, e);
        assert(s2.drop_last() == pre.update(i, e));
        assert(s2.last() == s.last());
        assert(s.last().key@ != e.key@);
        assert(store_map(s2) == store_map(pre).insert(e.key@, e.slot).insert(
            s.last().key@,
            s.last().slot,
        ));
        assert(store_map(s).insert(e.key@, e.slot) =~= store_map(pre).insert(e.key@, e.slot).insert(
            s.last().key@,
            s.last().slot,
        ));
    }
}

/// One step of the sweep: processing the next entry keeps the kept-entries
/// map equal to the swept prefix map.
proof fn lemma_sweep_step(orig: Seq<StoreEntry>, kept: Seq<StoreEntry>, taken: int, now: u64, retention: u64)
    requires
        unique_keys(orig),
        unique_keys(kept),
        0 <= taken < orig.len(),
        store_map(kept) == swept_map(store_map(orig.take(taken)), now, retention),
        forall|j: int|
            0 <= j < kept.len() ==> exists|j2: int|
                0 <= j2 < taken && (#[trigger] kept[j]) == (#[trigger] orig[j2]),
    ensures
        slot_live(orig[taken].slot, now, retention) ==> store_map(kept.push(orig[taken]))
            == swept_map(store_map(orig.take(taken + 1)), now, retention),
        slot_live(orig[taken].slot, now, retention) ==> unique_keys(kept.push(orig[taken])),
        !slot_live(orig[taken].slot, now, retention) ==> store_map(kept) == swept_map(
            store_map(orig.take(taken + 1)),
            now,
            retention,
        ),
        forall|j: int|
            0 <= j < kept.push(orig[taken]).len() ==> exists|j2: int|
                0 <= j2 < taken + 1 && (#[trigger] kept.push(orig[taken])[j]) == (#[trigger] orig[j2]),
{
    let e = orig[taken];
    let prefix = orig.take(taken);
    let prefix1 = orig.take(taken + 1);
    assert(prefix1 == prefix.push(e));
    lemma_store_map_push(prefix, e);
    lemma_store_map_domain(prefix);
    lemma_store_map_domain(kept);
    // The processed key is new to the prefix, hence to the kept entries.
    assert(forall|j: int| 0 <= j < prefix.len() ==> prefix[j].key@ != e.key@);
    assert(!store_map(prefix).dom().contains(e.key@));
    assert forall|j: int| 0 <= j < kept.len() implies kept[j].key@ != e.key@ by {
        let j2 = choose|j2: int| 0 <= j2 < taken && kept[j] == orig[j2];
        assert(orig[j2].key@ != e.key@);
    }
    if slot_live(e.slot, now, retention) {
        lemma_store_map_push(kept, e);
        assert(store_map(kept).insert(e.key@, e.slot) =~= swept_map(
            store_map(prefix).insert(e.key@, e.slot),
            now,
            retention,
        ));
        assert forall|a: int, b: int|
            0 <= a < b < kept.push(e).len() implies kept.push(e)[a].key@ != kept.push(
            e,
        )[b].key@ by {
            if b == kept.len() {
                assert(kept.push(e)[a] == kept[a]);
            }
        }
    } else {
        assert(store_map(kept) =~= swept_map(
            store_map(prefix).insert(e.key@, e.slot),
            now,
            retention,
        ));
    }
    assert forall|j: int| 0 <= j < kept.push(e).len() implies exists|j2: int|
        0 <= j2 < taken + 1 && (#[trigger] kept.push(e)[j]) == (#[trigger] orig[j2]) by {
        if j < kept.len() {
            let j2 = choose|j2: int| 0 <= j2 < taken && kept[j] == orig[j2];
            assert(kept.push(e)[j] == orig[j2]);
        } else {
            assert(kept.push(e)[j] == orig[taken]);
        }
    }
}

} // verus!
