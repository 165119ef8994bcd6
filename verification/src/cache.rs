//! The metadata cache: recently-seen package definitions with TTL-based
//! expiry and access statistics.

use vstd::prelude::*;
use crate::package::Package;
use crate::package::PackageV;
use crate::strutil::str_eq;

verus! {

/// One cached definition snapshot.
#[derive(Debug)]
pub struct CacheEntry {
    pub package: Package,
    /// Unix seconds at which the entry was cached; never refreshed by reads.
    pub cached_at: i64,
    pub access_count: u64,
    /// Unix seconds of the most recent hit.
    pub last_accessed: i64,
}

/// The mathematical value of a `CacheEntry`.
pub ghost struct CacheEntryV {
    pub package: PackageV,
    pub cached_at: i64,
    pub access_count: u64,
    pub last_accessed: i64,
}

impl View for CacheEntry {
    type V = CacheEntryV;

    open spec fn view(&self) -> CacheEntryV {
        CacheEntryV {
            package: self.package@,
            cached_at: self.cached_at,
            access_count: self.access_count,
            last_accessed: self.last_accessed,
        }
    }
}

impl DeepView for CacheEntry {
    type V = CacheEntryV;

    open spec fn deep_view(&self) -> CacheEntryV {
        self.view()
    }
}

impl Clone for CacheEntry {
    fn clone(&self) -> (res: Self)
        ensures
            res@ == self@,
    {
        CacheEntry {
            package: self.package.clone(),
            cached_at: self.cached_at,
            access_count: self.access_count,
            last_accessed: self.last_accessed,
        }
    }
}

/// The persisted shape of the whole cache: entry map, format version and
/// creation time.
#[derive(Debug)]
pub struct CacheIndex {
    pub entries: Vec<CacheEntry>,
    pub version: String,
    pub created_at: i64,
}

impl CacheIndex {
    /// A fresh, empty index created at the given time.
    pub fn new(now: i64) -> (r: CacheIndex)
        ensures
            r.entries.deep_view() == Seq::<CacheEntryV>::empty(),
            r.version@ == "0.1.0"@,
            r.created_at == now,
    {
        let r = CacheIndex { entries: Vec::new(), version: "0.1.0".to_owned(), created_at: now };
        proof {
            assert(r.entries.deep_view() =~= Seq::<CacheEntryV>::empty());
        }
        r
    }
}

/// Whether an entry cached at `cached_at` still counts as fresh at `now`,
/// with a time-to-live in hours. The age in whole hours (rounded toward
/// zero) must stay below the TTL; the cache time is never refreshed by
/// reads, so entries do not renew themselves.
pub open spec fn entry_fresh(cached_at: i64, now: i64, ttl_hours: u64) -> bool {
    if now >= cached_at {
        (now - cached_at) / 3600 < ttl_hours
    } else if ttl_hours > 0 {
        true
    } else {
        !(cached_at - now >= 3600)
    }
}

/// An entry stored at some instant is immediately fresh exactly when the
/// time-to-live is positive: a just-written entry never expires on the very
/// read that follows it, unless the cache is configured to keep nothing.
pub proof fn lemma_fresh_at_store(now: i64, ttl_hours: u64)
    ensures
        entry_fresh(now, now, ttl_hours) <==> ttl_hours > 0,
{
}

/// Once a full TTL has elapsed, an entry is no longer fresh.
pub proof fn lemma_expired_after_ttl(cached_at: i64, now: i64, ttl_hours: u64)
    requires
        now >= cached_at,
        now - cached_at >= 3600 * ttl_hours,
    ensures
        !entry_fresh(cached_at, now, ttl_hours),
{
    assert((now - cached_at) / 3600 >= ttl_hours) by {
        vstd::arithmetic::div_mod::lemma_div_is_ordered(
            3600 * ttl_hours as int,
            now - cached_at,
            3600,
        );
        assert(3600 * ttl_hours as int / 3600 == ttl_hours as int) by {
            vstd::arithmetic::div_mod::lemma_div_multiples_vanish(ttl_hours as int, 3600);
        }
    }
}

/// Whether the cache holds an entry under this package name.
pub open spec fn cache_has(entries: Seq<CacheEntryV>, name: Seq<char>) -> bool {
    exists|i: int| 0 <= i < entries.len() && (#[trigger] entries[i]).package.name == name
}

/// Cached names are pairwise distinct and cache times are non-negative.
pub open spec fn cache_entries_wf(entries: Seq<CacheEntryV>) -> bool {
    &&& forall|i: int, j: int|
        0 <= i < j < entries.len() ==> (#[trigger] entries[i]).package.name != (
        #[trigger] entries[j]).package.name
    &&& forall|i: int| 0 <= i < entries.len() ==> (#[trigger] entries[i]).cached_at >= 0
}

/// The entry as it looks after one hit at `now`: the access count grows
/// (saturating), the last access time is refreshed, and the cache time is
/// deliberately left alone.
pub open spec fn touched(e: CacheEntryV, now: i64) -> CacheEntryV {
    CacheEntryV {
        package: e.package,
        cached_at: e.cached_at,
        access_count: if e.access_count < u64::MAX {
            (e.access_count + 1) as u64
        } else {
            e.access_count
        },
        last_accessed: now,
    }
}

/// Integer statistics over the cache.
#[derive(Debug)]
pub struct CacheStats {
    pub total_entries: usize,
    pub total_access_count: u64,
    /// Approximate hit rate in whole percent, derived from access counts
    /// against entry counts; not a true hit/miss ratio.
    pub hit_rate_percent: u64,
    /// A rough size estimate from the cached text fields.
    pub estimated_size_bytes: u64,
}

/// The total access count over all entries.
pub open spec fn sum_access(entries: Seq<CacheEntryV>) -> int
    decreases entries.len(),
{
    if entries.len() == 0 {
        0
    } else {
        sum_access(entries.drop_last()) + entries.last().access_count
    }
}

/// The rough per-entry size estimate: the lengths of the three text fields
/// that dominate a serialized entry, plus a fixed overhead.
pub open spec fn entry_size(e: CacheEntryV) -> int {
    e.package.name.len() + e.package.version.len() + e.package.description.len() + 64int
}

/// The rough size estimate over all entries.
pub open spec fn sum_size(entries: Seq<CacheEntryV>) -> int
    decreases entries.len(),
{
    if entries.len() == 0 {
        0
    } else {
        sum_size(entries.drop_last()) + entry_size(entries.last())
    }
}

/// Caps an unbounded count at the largest representable value.
pub open spec fn cap_u64(v: int) -> u64 {
    if v <= u64::MAX {
        v as u64
    } else {
        u64::MAX
    }
}

/// Holds cached definitions and enforces the freshness rule.
pub struct CacheManager {
    cache_dir: String,
    index: CacheIndex,
    max_size_mb: u64,
    ttl_hours: u64,
}

impl CacheManager {
    /// The cached entries, in insertion order.
    pub closed spec fn entries(&self) -> Seq<CacheEntryV> {
        self.index.entries.deep_view()
    }

    /// The configured time-to-live, in hours.
    pub closed spec fn ttl(&self) -> u64 {
        self.ttl_hours
    }

    /// The configured size budget, in megabytes.
    pub closed spec fn size_budget(&self) -> u64 {
        self.max_size_mb
    }

    /// Names unique, cache times non-negative.
    pub open spec fn wf(&self) -> bool {
        cache_entries_wf(self.entries())
    }

    /// An empty cache over the given directory.
    pub fn new(cache_dir: String, max_size_mb: u64, ttl_hours: u64, now: i64) -> (r: CacheManager)
        ensures
            r.entries() == Seq::<CacheEntryV>::empty(),
            r.ttl() == ttl_hours,
            r.size_budget() == max_size_mb,
            r.wf(),
    {
        let r = CacheManager { cache_dir, index: CacheIndex::new(now), max_size_mb, ttl_hours };
        proof {
            assert(r.entries() =~= Seq::<CacheEntryV>::empty());
        }
        r
    }

    /// A cache opened over an already-loaded index: the open-time sweep drops
    /// every expired entry at once.
    pub fn from_index(cache_dir: String, index: CacheIndex, max_size_mb: u64, ttl_hours: u64, now: i64) -> (r:
        CacheManager)
        requires
            cache_entries_wf(index.entries.deep_view()),
            now >= 0,
        ensures
            r.entries() == index.entries.deep_view().filter(
                |e: CacheEntryV| entry_fresh(e.cached_at, now, ttl_hours),
            ),
            r.ttl() == ttl_hours,
            r.size_budget() == max_size_mb,
            r.wf(),
    {
        let mut r = CacheManager { cache_dir, index, max_size_mb, ttl_hours };
        r.cleanup_expired(now);
        r
    }

    /// Drops every entry whose age has reached the time-to-live.
    fn cleanup_expired(&mut self, now: i64)
        requires
            cache_entries_wf(old(self).entries()),
            now >= 0,
        ensures
            final(self).entries() == old(self).entries().filter(
                |e: CacheEntryV| entry_fresh(e.cached_at, now, final(self).ttl()),
            ),
            final(self).ttl() == old(self).ttl(),
            final(self).size_budget() == old(self).size_budget(),
            final(self).wf(),
    {
        let ghost all = self.entries();
        let ghost ttl = self.ttl_hours;
        let mut kept: Vec<CacheEntry> = Vec::new();
        let mut i: usize = 0;
        proof {
            assert(kept.deep_view() =~= Seq::<CacheEntryV>::empty());
        }
        while i < self.index.entries.len()
            invariant
                i <= self.index.entries@.len(),
                self.ttl_hours == ttl,
                self.ttl_hours == old(self).ttl_hours,
                self.max_size_mb == old(self).max_size_mb,
                all == self.entries(),
                cache_entries_wf(all),
                kept.deep_view() =~= all.subrange(0, i as int).filter(
                    |e: CacheEntryV| entry_fresh(e.cached_at, now, ttl),
                ),
                cache_entries_wf(kept.deep_view()),
                forall|a: int|
                    0 <= a < kept.deep_view().len() ==> exists|ja: int|
                        0 <= ja < i && #[trigger] kept.deep_view()[a] == all[ja],
            decreases self.index.entries@.len() - i,
        {
            proof {
                assert(all.subrange(0, i + 1 as int).drop_last() =~= all.subrange(0, i as int));
                reveal_with_fuel(Seq::filter, 2);
            }
            let e = &self.index.entries[i];
            let ghost pre_kept = kept.deep_view();
            if Self::is_fresh(e.cached_at, now, self.ttl_hours) {
                kept.push(e.clone());
                proof {
                    let cur = kept.deep_view();
                    assert forall|a: int|
                        0 <= a < cur.len() implies exists|ja: int|
                        0 <= ja < i + 1 && #[trigger] cur[a] == all[ja] by {
                        if a < pre_kept.len() {
                            assert(cur[a] == pre_kept[a]);
                            let ja = choose|ja: int| 0 <= ja < i && pre_kept[a] == all[ja];
                            assert(cur[a] == all[ja]);
                        } else {
                            assert(cur[a] == all[i as int]);
                        }
                    }
                    assert forall|a: int, b: int|
                        0 <= a < b < cur.len() implies (#[trigger] cur[a]).package.name != (
                    #[trigger] cur[b]).package.name && cur[a].cached_at >= 0 by {
                        let ja = choose|ja: int| 0 <= ja < i + 1 && cur[a] == all[ja];
                        let jb = choose|jb: int| 0 <= jb < i + 1 && cur[b] == all[jb];
                        if b < pre_kept.len() {
                            assert(pre_kept[a].package.name != pre_kept[b].package.name);
                            assert(pre_kept[a].cached_at >= 0);
                        } else {
                            if ja < i {
                                assert(all[ja].package.name != all[i as int].package.name);
                            } else {
                                // both would be the same source entry, yet the
                                // prefix filter cannot hold it twice
                                assert(pre_kept[a] == all[ja]);
                                assert(ja < i);
                            }
                            assert(cur[a].cached_at >= 0);
                        }
                    }
                }
            }
            i = i + 1;
        }
        proof {
            assert(all.subrange(0, all.len() as int) =~= all);
        }
        self.index.entries = kept;
    }

    /// Whether an entry cached at `cached_at` is still fresh at `now`.
    fn is_fresh(cached_at: i64, now: i64, ttl_hours: u64) -> (r: bool)
        requires
            cached_at >= 0,
            now >= 0,
        ensures
            r == entry_fresh(cached_at, now, ttl_hours),
    {
        if now >= cached_at {
            let age_secs = (now - cached_at) as u64;
            let age_hours = age_secs / 3600;
            proof {
                assert(age_hours == (now - cached_at) / 3600);
            }
            age_hours < ttl_hours
        } else if ttl_hours > 0 {
            true
        } else {
            !(cached_at - now >= 3600)
        }
    }

    /// Looks up a definition: a fresh entry is a hit and has its access
    /// statistics bumped (but not its cache time); an expired entry is
    /// evicted and reported as absent.
    pub fn get_package(&mut self, name: &str, now: i64) -> (r: Option<Package>)
        requires
            old(self).wf(),
            now >= 0,
        ensures
            final(self).wf(),
            final(self).ttl() == old(self).ttl(),
            final(self).size_budget() == old(self).size_budget(),
            !cache_has(old(self).entries(), name@) ==> r is None && final(self).entries() == old(self).entries(),
            cache_has(old(self).entries(), name@) ==> exists|i: int|
                {
                    &&& 0 <= i < old(self).entries().len()
                    &&& (#[trigger] old(self).entries()[i]).package.name == name@
                    &&& if entry_fresh(old(self).entries()[i].cached_at, now, old(self).ttl()) {
                        r matches Some(p) && p@ == old(self).entries()[i].package && final(self).entries() == old(self).entries().update(
                            i,
                            touched(old(self).entries()[i], now),
                        )
                    } else {
                        r is None && final(self).entries() == old(self).entries().remove(i)
                    }
                },
    {
        let ghost pre = self.entries();
        let mut i: usize = 0;
        while i < self.index.entries.len()
            invariant
                i <= self.index.entries@.len(),
                pre == self.entries(),
                self.ttl_hours == old(self).ttl_hours,
                self.max_size_mb == old(self).max_size_mb,
                forall|j: int| 0 <= j < i ==> (#[trigger] pre[j]).package.name != name@,
            decreases self.index.entries@.len() - i,
        {
            if str_eq(self.index.entries[i].package.name.as_str(), name) {
                let ghost found = i as int;
                proof {
                    assert(pre[found].package.name == name@);
                }
                let entry = &self.index.entries[i];
                if Self::is_fresh(entry.cached_at, now, self.ttl_hours) {
                    let package = entry.package.clone();
                    let new_count = if entry.access_count < u64::MAX {
                        entry.access_count + 1
                    } else {
                        entry.access_count
                    };
                    let updated = CacheEntry {
                        package: entry.package.clone(),
                        cached_at: entry.cached_at,
                        access_count: new_count,
                        last_accessed: now,
                    };
                    self.index.entries.set(i, updated);
                    proof {
                        let cur = self.entries();
                        assert(cur =~= pre.update(found, touched(pre[found], now))) by {
                            assert forall|w: int| 0 <= w < cur.len() implies cur[w] == pre.update(
                                found,
                                touched(pre[found], now),
                            )[w] by {}
                        }
                        assert forall|a: int, b: int|
                            0 <= a < b < cur.len() implies (#[trigger] cur[a]).package.name != (
                        #[trigger] cur[b]).package.name && cur[a].cached_at >= 0 by {
                            assert(pre[a].package.name != pre[b].package.name);
                        }
                    }
                    return Option::Some(package);
                } else {
                    self.index.entries.remove(i);
                    proof {
                        let cur = self.entries();
                        assert(cur =~= pre.remove(found)) by {
                            assert forall|w: int| 0 <= w < cur.len() implies cur[w] == pre.remove(
                                found,
                            )[w] by {}
                        }
                        assert forall|a: int, b: int|
                            0 <= a < b < cur.len() implies (#[trigger] cur[a]).package.name != (
                        #[trigger] cur[b]).package.name && cur[a].cached_at >= 0 by {
                            let ra = if a < found {
                                a
                            } else {
                                a + 1
                            };
                            let rb = if b < found {
                                b
                            } else {
                                b + 1
                            };
                            assert(cur[a] == pre[ra] && cur[b] == pre[rb]);
                            assert(pre[ra].package.name != pre[rb].package.name);
                        }
                    }
                    return Option::None;
                }
            }
            i = i + 1;
        }
        Option::None
    }

    /// Stores a definition snapshot, cached as of `now`, replacing any
    /// earlier entry of the same name.
    pub fn store_package(&mut self, package: Package, now: i64)
        requires
            old(self).wf(),
            now >= 0,
        ensures
            final(self).wf(),
            final(self).ttl() == old(self).ttl(),
            final(self).size_budget() == old(self).size_budget(),
            cache_has(final(self).entries(), package@.name),
            !cache_has(old(self).entries(), package@.name) ==> final(self).entries() == old(self).entries().push(
                CacheEntryV {
                    package: package@,
                    cached_at: now,
                    access_count: 1,
                    last_accessed: now,
                },
            ),
            cache_has(old(self).entries(), package@.name) ==> exists|i: int|
                0 <= i < old(self).entries().len() && (#[trigger] old(self).entries()[i]).package.name == package@.name && final(self).entries() == old(self).entries().update(
                    i,
                    CacheEntryV {
                        package: package@,
                        cached_at: now,
                        access_count: 1,
                        last_accessed: now,
                    },
                ),
    {
        let ghost pre = self.entries();
        let ghost newv = CacheEntryV {
            package: package@,
            cached_at: now,
            access_count: 1,
            last_accessed: now,
        };
        let mut i: usize = 0;
        while i < self.index.entries.len()
            invariant
                i <= self.index.entries@.len(),
                pre == self.entries(),
                self.ttl_hours == old(self).ttl_hours,
                self.max_size_mb == old(self).max_size_mb,
                forall|j: int| 0 <= j < i ==> (#[trigger] pre[j]).package.name != package@.name,
            decreases self.index.entries@.len() - i,
        {
            if str_eq(self.index.entries[i].package.name.as_str(), package.name.as_str()) {
                let ghost found = i as int;
                proof {
                    assert(pre[found].package.name == package@.name);
                }
                let entry = CacheEntry {
                    package,
                    cached_at: now,
                    access_count: 1,
                    last_accessed: now,
                };
                self.index.entries.set(i, entry);
                proof {
                    let cur = self.entries();
                    assert(cur =~= pre.update(found, newv)) by {
                        assert forall|w: int| 0 <= w < cur.len() implies cur[w] == pre.update(
                            found,
                            newv,
                        )[w] by {}
                    }
                    assert(cur[found].package.name == package@.name);
                    assert forall|a: int, b: int|
                        0 <= a < b < cur.len() implies (#[trigger] cur[a]).package.name != (
                    #[trigger] cur[b]).package.name && cur[a].cached_at >= 0 by {
                        assert(pre[a].package.name != pre[b].package.name);
                    }
                }
                return ;
            }
            i = i + 1;
        }
        let entry = CacheEntry { package, cached_at: now, access_count: 1, last_accessed: now };
        self.index.entries.push(entry);
        proof {
            let cur = self.entries();
            assert(cur =~= pre.push(newv)) by {
                assert forall|w: int| 0 <= w < cur.len() implies cur[w] == pre.push(newv)[w] by {}
            }
            assert(cur[cur.len() - 1].package.name == package@.name);
            assert forall|a: int, b: int|
                0 <= a < b < cur.len() implies (#[trigger] cur[a]).package.name != (
            #[trigger] cur[b]).package.name && cur[a].cached_at >= 0 by {
                if b < pre.len() {
                    assert(pre[a].package.name != pre[b].package.name);
                } else {
                    assert(pre[a].package.name != package@.name);
                }
            }
        }
    }

    /// Drops the entry under this name, if any.
    pub fn invalidate(&mut self, name: &str)
        requires
            old(self).wf(),
        ensures
            final(self).wf(),
            final(self).ttl() == old(self).ttl(),
            final(self).size_budget() == old(self).size_budget(),
            !cache_has(final(self).entries(), name@),
            !cache_has(old(self).entries(), name@) ==> final(self).entries() == old(self).entries(),
            cache_has(old(self).entries(), name@) ==> exists|i: int|
                0 <= i < old(self).entries().len() && (#[trigger] old(self).entries()[i]).package.name == name@ && final(self).entries() == old(self).entries().remove(i),
    {
        let ghost pre = self.entries();
        let mut i: usize = 0;
        while i < self.index.entries.len()
            invariant
                i <= self.index.entries@.len(),
                pre == self.entries(),
                self.ttl_hours == old(self).ttl_hours,
                self.max_size_mb == old(self).max_size_mb,
                forall|j: int| 0 <= j < i ==> (#[trigger] pre[j]).package.name != name@,
            decreases self.index.entries@.len() - i,
        {
            if str_eq(self.index.entries[i].package.name.as_str(), name) {
                let ghost found = i as int;
                proof {
                    assert(pre[found].package.name == name@);
                }
                self.index.entries.remove(i);
                proof {
                    let cur = self.entries();
                    assert(cur =~= pre.remove(found)) by {
                        assert forall|w: int| 0 <= w < cur.len() implies cur[w] == pre.remove(
                            found,
                        )[w] by {}
                    }
                    assert forall|a: int, b: int|
                        0 <= a < b < cur.len() implies (#[trigger] cur[a]).package.name != (
                    #[trigger] cur[b]).package.name && cur[a].cached_at >= 0 by {
                        let ra = if a < found {
                            a
                        } else {
                            a + 1
                        };
                        let rb = if b < found {
                            b
                        } else {
                            b + 1
                        };
                        assert(cur[a] == pre[ra] && cur[b] == pre[rb]);
                        assert(pre[ra].package.name != pre[rb].package.name);
                    }
                    assert forall|w: int|
                        0 <= w < cur.len() implies (#[trigger] cur[w]).package.name != name@ by {
                        let rw = if w < found {
                            w
                        } else {
                            w + 1
                        };
                        assert(cur[w] == pre[rw]);
                        if rw != found {
                            assert(pre[rw].package.name != pre[found].package.name);
                        }
                    }
                }
                return ;
            }
            i = i + 1;
        }
    }

    /// Empties the whole cache.
    pub fn clear(&mut self)
        ensures
            final(self).wf(),
            final(self).ttl() == old(self).ttl(),
            final(self).size_budget() == old(self).size_budget(),
            final(self).entries() == Seq::<CacheEntryV>::empty(),
    {
        self.index.entries = Vec::new();
        proof {
            assert(self.entries() =~= Seq::<CacheEntryV>::empty());
        }
    }

    /// Integer statistics: the entry count, the total access count, a rough
    /// hit-rate percentage derived from those two, and a rough size estimate.
    /// Counts saturate at the largest representable value.
    pub fn get_statistics(&self) -> (r: CacheStats)
        requires
            self.wf(),
        ensures
            r.total_entries == self.entries().len(),
            r.total_access_count == cap_u64(sum_access(self.entries())),
            r.estimated_size_bytes == cap_u64(sum_size(self.entries())),
            r.total_access_count == 0 ==> r.hit_rate_percent == 0,
            r.total_access_count > 0 ==> r.hit_rate_percent == r.total_access_count * 100 / (
            r.total_access_count + self.entries().len()),
    {
        let total_entries = self.index.entries.len();
        let ghost all = self.entries();
        let mut total_access: u64 = 0;
        let mut total_size: u64 = 0;
        let mut i: usize = 0;
        while i < self.index.entries.len()
            invariant
                i <= self.index.entries@.len(),
                all == self.entries(),
                total_access == cap_u64(sum_access(all.subrange(0, i as int))),
                total_size == cap_u64(sum_size(all.subrange(0, i as int))),
                sum_access(all.subrange(0, i as int)) >= 0,
                sum_size(all.subrange(0, i as int)) >= 0,
            decreases self.index.entries@.len() - i,
        {
            proof {
                assert(all.subrange(0, i + 1 as int).drop_last() =~= all.subrange(0, i as int));
                assert(all.subrange(0, i + 1 as int).last() == all[i as int]);
                lemma_sum_access_nonneg(all.subrange(0, i + 1 as int));
                lemma_sum_size_nonneg(all.subrange(0, i + 1 as int));
            }
            let e = &self.index.entries[i];
            total_access = if total_access <= u64::MAX - e.access_count {
                total_access + e.access_count
            } else {
                u64::MAX
            };
            let name_len = e.package.name.unicode_len();
            let version_len = e.package.version.unicode_len();
            let desc_len = e.package.description.unicode_len();
            let mut esize: u64 = 64;
            esize = if esize <= u64::MAX - (name_len as u64) {
                esize + (name_len as u64)
            } else {
                u64::MAX
            };
            esize = if esize <= u64::MAX - (version_len as u64) {
                esize + (version_len as u64)
            } else {
                u64::MAX
            };
            esize = if esize <= u64::MAX - (desc_len as u64) {
                esize + (desc_len as u64)
            } else {
                u64::MAX
            };
            proof {
                assert(esize == cap_u64(entry_size(all[i as int])));
            }
            total_size = if total_size <= u64::MAX - esize {
                total_size + esize
            } else {
                u64::MAX
            };
            i = i + 1;
        }
        proof {
            assert(all.subrange(0, all.len() as int) =~= all);
        }
        let hit_rate_percent: u64 = if total_access > 0 {
            let num: u128 = (total_access as u128) * 100;
            let den: u128 = (total_access as u128) + (total_entries as u128);
            let pct: u128 = num / den;
            proof {
                assert(pct <= 100) by {
                    assert(num <= den * 100) by {
                        assert((total_access as u128) <= den);
                    }
                    vstd::arithmetic::div_mod::lemma_div_is_ordered(
                        num as int,
                        (den * 100) as int,
                        den as int,
                    );
                    assert(den * 100 / (den as int) == 100) by {
                        vstd::arithmetic::div_mod::lemma_div_multiples_vanish(100, den as int);
                    }
                }
            }
            pct as u64
        } else {
            0
        };
        CacheStats {
            total_entries,
            total_access_count: total_access,
            hit_rate_percent,
            estimated_size_bytes: total_size,
        }
    }
}

/// The total access count is never negative.
proof fn lemma_sum_access_nonneg(entries: Seq<CacheEntryV>)
    ensures
        sum_access(entries) >= 0,
    decreases entries.len(),
{
    if entries.len() > 0 {
        lemma_sum_access_nonneg(entries.drop_last());
    }
}

/// The size estimate is never negative.
proof fn lemma_sum_size_nonneg(entries: Seq<CacheEntryV>)
    ensures
        sum_size(entries) >= 0,
    decreases entries.len(),
{
    if entries.len() > 0 {
        lemma_sum_size_nonneg(entries.drop_last());
    }
}

} // verus!
