//! An in-memory cache of bytes by key. Entries expire after their time to
//! live; when a new value would not fit in the cache's size, the least read
//! entries make room for it; the cache counts hits, misses and evictions.

use vstd::prelude::*;
use vstd::slice::slice_to_vec;
use crate::error::{clock_now_ms, elapsed_ms};
use crate::feedback::{keep_where, lemma_flags_match, remove_flagged};
use crate::text::{has_infix, text_contains, text_eq};

verus! {

/// A cached value: its bytes, when it expires and when it was stored (in
/// milliseconds), how often it was read, and what the caller attached to it.
pub struct CacheEntry<M> {
    pub data: Vec<u8>,
    pub expires_at_ms: u64,
    pub created_at_ms: u64,
    pub access_count: u64,
    pub metadata: Option<M>,
}

/// A cache entry as values.
pub struct EntryView<M> {
    pub data: Seq<u8>,
    pub expires_at_ms: u64,
    pub created_at_ms: u64,
    pub access_count: u64,
    pub metadata: Option<M>,
}

impl<M> View for CacheEntry<M> {
    type V = EntryView<M>;

    open spec fn view(&self) -> EntryView<M> {
        EntryView {
            data: self.data@,
            expires_at_ms: self.expires_at_ms,
            created_at_ms: self.created_at_ms,
            access_count: self.access_count,
            metadata: self.metadata,
        }
    }
}

/// Whether `b` is a copy of `a`: the same bytes, times and count, and
/// metadata that is a clone of `a`'s.
pub open spec fn entry_copied<M: Clone>(a: EntryView<M>, b: EntryView<M>) -> bool {
    &&& b.data == a.data
    &&& b.expires_at_ms == a.expires_at_ms
    &&& b.created_at_ms == a.created_at_ms
    &&& b.access_count == a.access_count
    &&& metadata_copied(a.metadata, b.metadata)
}

/// Whether `b` is a clone of the optional metadata `a`.
pub open spec fn metadata_copied<M: Clone>(a: Option<M>, b: Option<M>) -> bool {
    match (a, b) {
        (Some(x), Some(y)) => cloned(x, y),
        (None, None) => true,
        _ => false,
    }
}

/// A clone of optional metadata.
fn copy_metadata<M: Clone>(m: &Option<M>) -> (res: Option<M>)
    ensures
        metadata_copied(*m, res),
{
    match m {
        Some(x) => Some(x.clone()),
        None => None,
    }
}

impl<M: Clone> Clone for CacheEntry<M> {
    fn clone(&self) -> (res: Self)
        ensures
            entry_copied(self@, res@),
    {
        CacheEntry {
            data: slice_to_vec(self.data.as_slice()),
            expires_at_ms: self.expires_at_ms,
            created_at_ms: self.created_at_ms,
            access_count: self.access_count,
            metadata: copy_metadata(&self.metadata),
        }
    }
}

/// The counts that a cache keeps. Ages are in milliseconds.
#[derive(Debug, Clone, Copy, PartialEq, Eq, Structural)]
pub struct CacheStats {
    pub total_entries: u64,
    pub total_size_bytes: u64,
    pub hit_count: u64,
    pub miss_count: u64,
    pub eviction_count: u64,
    /// Entries found expired when read: none here, as expired entries are
    /// dropped before every read.
    pub expired_entries: u64,
    pub oldest_entry_age_ms: Option<u64>,
    pub newest_entry_age_ms: Option<u64>,
}

/// Counts that are all zero, with no ages.
pub open spec fn zero_stats() -> CacheStats {
    CacheStats {
        total_entries: 0,
        total_size_bytes: 0,
        hit_count: 0,
        miss_count: 0,
        eviction_count: 0,
        expired_entries: 0,
        oldest_entry_age_ms: None,
        newest_entry_age_ms: None,
    }
}

impl Default for CacheStats {
    fn default() -> (res: Self)
        ensures
            res == zero_stats(),
    {
        CacheStats {
            total_entries: 0,
            total_size_bytes: 0,
            hit_count: 0,
            miss_count: 0,
            eviction_count: 0,
            expired_entries: 0,
            oldest_entry_age_ms: None,
            newest_entry_age_ms: None,
        }
    }
}

/// What a compaction did. The duration is in milliseconds.
#[derive(Debug, Clone, Copy, PartialEq, Eq, Structural)]
pub struct CompactionResult {
    pub entries_removed: u64,
    pub bytes_freed: u64,
    pub duration_ms: u64,
    pub entries_remaining: u64,
    pub size_after_bytes: u64,
}

/// What a cache holds: its entries by key, in the order they were first
/// stored, its counts, and its size in bytes.
pub struct CacheView<M> {
    pub entries: Seq<(Seq<char>, EntryView<M>)>,
    pub stats: CacheStats,
    pub max_size_bytes: u64,
}

/// The entries of a cache as values.
pub open spec fn entry_views<M>(s: Seq<(String, CacheEntry<M>)>) -> Seq<(Seq<char>, EntryView<M>)> {
    s.map_values(|e: (String, CacheEntry<M>)| (e.0@, e.1@))
}

/// The bytes held by `s` in all.
pub open spec fn size_of<M>(s: Seq<(Seq<char>, EntryView<M>)>) -> nat
    decreases s.len(),
{
    if s.len() == 0 {
        0
    } else {
        size_of(s.drop_last()) + s.last().1.data.len()
    }
}

/// Whether no key occurs twice in `s`.
pub open spec fn keys_distinct<M>(s: Seq<(Seq<char>, EntryView<M>)>) -> bool {
    forall|i: int, j: int| 0 <= i < j < s.len() ==> (#[trigger] s[i]).0 != (#[trigger] s[j]).0
}

/// The position of the last entry of `key` in `s`, if any.
pub open spec fn position_of<M>(s: Seq<(Seq<char>, EntryView<M>)>, key: Seq<char>) -> Option<int>
    decreases s.len(),
{
    if s.len() == 0 {
        None
    } else if s.last().0 == key {
        Some(s.len() - 1)
    } else {
        position_of(s.drop_last(), key)
    }
}

/// The entry of `key` in `s`, if any.
pub open spec fn lookup<M>(s: Seq<(Seq<char>, EntryView<M>)>, key: Seq<char>) -> Option<EntryView<M>> {
    match position_of(s, key) {
        Some(i) => Some(s[i].1),
        None => None,
    }
}

/// A position found for a key holds that key, and a key not found is
/// nowhere.
pub proof fn lemma_position_of<M>(s: Seq<(Seq<char>, EntryView<M>)>, key: Seq<char>)
    ensures
        position_of(s, key) matches Some(i) ==> 0 <= i < s.len() && s[i].0 == key,
        position_of(s, key) is None ==> forall|j: int| 0 <= j < s.len() ==> (#[trigger] s[j]).0 != key,
    decreases s.len(),
{
    if s.len() > 0 && s.last().0 != key {
        lemma_position_of(s.drop_last(), key);
        if position_of(s, key) is None {
            assert forall|j: int| 0 <= j < s.len() implies (#[trigger] s[j]).0 != key by {
                if j < s.len() - 1 {
                    assert(s.drop_last()[j] == s[j]);
                }
            }
        }
    }
}

/// Where keys are distinct, the position of a key is the one that holds it.
pub proof fn lemma_position_distinct<M>(s: Seq<(Seq<char>, EntryView<M>)>, i: int)
    requires
        keys_distinct(s),
        0 <= i < s.len(),
    ensures
        position_of(s, s[i].0) == Some(i),
    decreases s.len(),
{
    if i < s.len() - 1 {
        assert(s[i].0 != s[s.len() - 1].0);
        let t = s.drop_last();
        assert(t[i] == s[i]);
        assert forall|a: int, b: int| 0 <= a < b < t.len() implies (#[trigger] t[a]).0 != (#[trigger] t[b]).0 by {
            assert(t[a] == s[a] && t[b] == s[b]);
        }
        lemma_position_distinct(t, i);
    }
}

/// Taking away entry `i` takes away its bytes.
pub proof fn lemma_size_remove<M>(s: Seq<(Seq<char>, EntryView<M>)>, i: int)
    requires
        0 <= i < s.len(),
    ensures
        size_of(s.remove(i)) + s[i].1.data.len() == size_of(s),
    decreases s.len(),
{
    if i < s.len() - 1 {
        lemma_size_remove(s.drop_last(), i);
        assert(s.remove(i).drop_last() =~= s.drop_last().remove(i));
        assert(s.remove(i).last() == s.last());
        assert(s.drop_last()[i] == s[i]);
    } else {
        assert(s.remove(i) =~= s.drop_last());
    }
}

/// Replacing entry `i` replaces its bytes.
pub proof fn lemma_size_update<M>(s: Seq<(Seq<char>, EntryView<M>)>, i: int, e: (Seq<char>, EntryView<M>))
    requires
        0 <= i < s.len(),
    ensures
        size_of(s.update(i, e)) + s[i].1.data.len() == size_of(s) + e.1.data.len(),
{
    lemma_size_remove(s, i);
    lemma_size_remove(s.update(i, e), i);
    assert(s.update(i, e).remove(i) =~= s.remove(i));
}

/// The bytes of a prefix one entry longer.
pub proof fn lemma_size_take<M>(s: Seq<(Seq<char>, EntryView<M>)>, i: int)
    requires
        0 <= i < s.len(),
    ensures
        size_of(s.take(i + 1)) == size_of(s.take(i)) + s[i].1.data.len(),
        size_of(s.take(i + 1)) <= size_of(s),
    decreases s.len() - i,
{
    assert(s.take(i + 1).drop_last() =~= s.take(i));
    if i + 1 < s.len() {
        lemma_size_take(s, i + 1);
    } else {
        assert(s.take(i + 1) =~= s);
    }
}

/// Filtering never adds bytes.
pub proof fn lemma_size_keep<M>(s: Seq<(Seq<char>, EntryView<M>)>, keep: spec_fn((Seq<char>, EntryView<M>)) -> bool)
    ensures
        size_of(keep_where(s, keep)) <= size_of(s),
        keep_where(s, keep).len() <= s.len(),
    decreases s.len(),
{
    if s.len() > 0 {
        lemma_size_keep(s.drop_last(), keep);
        if keep(s.last()) {
            assert(keep_where(s, keep).drop_last() =~= keep_where(s.drop_last(), keep));
        }
    }
}

/// Filtering keeps keys distinct, and keeps the entry of a key exactly when
/// it passes.
pub proof fn lemma_keep_distinct<M>(
    s: Seq<(Seq<char>, EntryView<M>)>,
    keep: spec_fn((Seq<char>, EntryView<M>)) -> bool,
)
    requires
        keys_distinct(s),
    ensures
        keys_distinct(keep_where(s, keep)),
        forall|key: Seq<char>|
            #[trigger] lookup(keep_where(s, keep), key) == match lookup(s, key) {
                Some(e) => if keep((key, e)) {
                    Some(e)
                } else {
                    None
                },
                None => None,
            },
    decreases s.len(),
{
    if s.len() > 0 {
        let t = s.drop_last();
        let x = s.last();
        assert forall|a: int, b: int| 0 <= a < b < t.len() implies (#[trigger] t[a]).0 != (#[trigger] t[b]).0 by {
            assert(t[a] == s[a] && t[b] == s[b]);
        }
        lemma_keep_distinct(t, keep);
        let r = keep_where(t, keep);
        let kept = keep_where(s, keep);
        lemma_position_of(t, x.0);
        match position_of(t, x.0) {
            Some(i) => {
                assert(t[i] == s[i]);
                assert(s[i].0 != s[s.len() - 1].0);
            },
            None => {},
        }
        assert(lookup(t, x.0) is None);
        if keep(x) {
            assert(kept.drop_last() =~= r);
            assert(kept.last() == x);
            assert(lookup(r, x.0) is None);
            lemma_position_of(r, x.0);
            assert forall|a: int, b: int| 0 <= a < b < kept.len() implies (#[trigger] kept[a]).0 != (
            #[trigger] kept[b]).0 by {
                assert(kept[a] == r[a]);
                if b < kept.len() - 1 {
                    assert(kept[b] == r[b]);
                }
            }
        }
        assert forall|key: Seq<char>|
            #[trigger] lookup(kept, key) == match lookup(s, key) {
                Some(e) => if keep((key, e)) {
                    Some(e)
                } else {
                    None
                },
                None => None,
            } by {
            assert(s[s.len() - 1] == x);
            assert((x.0, x.1) == x);
            lemma_position_of(r, key);
            lemma_position_of(t, key);
            if keep(x) {
                assert(kept[kept.len() - 1] == x);
                assert(lookup(kept, key) == if x.0 == key {
                    Some(x.1)
                } else {
                    lookup(r, key)
                }) by {
                    if x.0 != key {
                        match position_of(r, key) {
                            Some(i) => {
                                assert(kept[i] == r[i]);
                            },
                            None => {},
                        }
                    }
                }
            } else {
                assert(kept == r);
            }
            assert(lookup(s, key) == if x.0 == key {
                Some(x.1)
            } else {
                lookup(t, key)
            }) by {
                if x.0 != key {
                    match position_of(t, key) {
                        Some(i) => {
                            assert(s[i] == t[i]);
                        },
                        None => {},
                    }
                }
            }
            assert(lookup(r, key) == match lookup(t, key) {
                Some(e) => if keep((key, e)) {
                    Some(e)
                } else {
                    None
                },
                None => None,
            });
        }
    }
}

/// Filtering commutes with taking views.
pub proof fn lemma_views_keep<M>(
    s: Seq<(String, CacheEntry<M>)>,
    keep: spec_fn((String, CacheEntry<M>)) -> bool,
    keep_view: spec_fn((Seq<char>, EntryView<M>)) -> bool,
)
    requires
        forall|e: (String, CacheEntry<M>)| #[trigger] keep(e) == keep_view((e.0@, e.1@)),
    ensures
        entry_views(keep_where(s, keep)) == keep_where(entry_views(s), keep_view),
    decreases s.len(),
{
    if s.len() > 0 {
        lemma_views_keep(s.drop_last(), keep, keep_view);
        assert(entry_views(s).drop_last() =~= entry_views(s.drop_last()));
        assert(entry_views(s).last() == (s.last().0@, s.last().1@));
        if keep(s.last()) {
            assert(entry_views(keep_where(s, keep)) =~= entry_views(keep_where(s.drop_last(), keep)).push(
                (s.last().0@, s.last().1@),
            ));
        }
    }
}


/// Keeping every entry leaves the sequence as it was.
pub proof fn lemma_keep_all<M>(s: Seq<(Seq<char>, EntryView<M>)>, keep: spec_fn((Seq<char>, EntryView<M>)) -> bool)
    requires
        keep_where(s, keep).len() == s.len(),
    ensures
        keep_where(s, keep) == s,
    decreases s.len(),
{
    if s.len() > 0 {
        lemma_size_keep(s.drop_last(), keep);
        lemma_keep_all(s.drop_last(), keep);
        assert(keep_where(s, keep) =~= s.drop_last().push(s.last()));
        assert(s.drop_last().push(s.last()) =~= s);
    }
}

/// The first position of an entry read least often in `s`.
pub open spec fn least_used_at<M>(s: Seq<(Seq<char>, EntryView<M>)>) -> int
    decreases s.len(),
{
    if s.len() <= 1 {
        0
    } else {
        let j = least_used_at(s.drop_last());
        if s.last().1.access_count < s[j].1.access_count {
            s.len() - 1
        } else {
            j
        }
    }
}

/// The least read entry is one of the entries.
pub proof fn lemma_least_used_at<M>(s: Seq<(Seq<char>, EntryView<M>)>)
    requires
        s.len() > 0,
    ensures
        0 <= least_used_at(s) < s.len(),
    decreases s.len(),
{
    if s.len() > 1 {
        lemma_least_used_at(s.drop_last());
    }
}

/// Evicts the least read entries of `s`, one at a time, until `needed` more
/// bytes fit within `max` beside the `total` bytes counted, less those
/// freed: the entries left, and the bytes freed.
pub open spec fn evict_least_used<M>(
    s: Seq<(Seq<char>, EntryView<M>)>,
    total: int,
    needed: int,
    max: int,
) -> (Seq<(Seq<char>, EntryView<M>)>, int)
    decreases s.len(),
{
    if s.len() == 0 || total + needed <= max {
        (s, 0)
    } else {
        let i = least_used_at(s);
        proof {
            lemma_least_used_at(s);
        }
        let freed = s[i].1.data.len() as int;
        let rest = evict_least_used(s.remove(i), total - freed, needed, max);
        (rest.0, rest.1 + freed)
    }
}

/// The cache after dropping the entries that have expired at time `now`:
/// when any was dropped, the evictions are counted and the number of
/// entries and bytes counted afresh.
pub open spec fn expire<M>(c: CacheView<M>, now: u64) -> CacheView<M> {
    let kept = keep_where(c.entries, |e: (Seq<char>, EntryView<M>)| e.1.expires_at_ms > now);
    if kept.len() < c.entries.len() {
        CacheView {
            entries: kept,
            stats: CacheStats {
                total_entries: kept.len() as u64,
                total_size_bytes: size_of(kept) as u64,
                eviction_count: (c.stats.eviction_count + (c.entries.len() - kept.len())) as u64,
                ..c.stats
            },
            ..c
        }
    } else {
        c
    }
}

/// The cache after making room for `needed` more bytes: when they do not
/// fit beside the bytes counted, the least read entries go first until they
/// do, or until none is left.
pub open spec fn make_room<M>(c: CacheView<M>, needed: u64) -> CacheView<M> {
    if c.stats.total_size_bytes + needed <= c.max_size_bytes {
        c
    } else {
        let evicted = evict_least_used(
            c.entries,
            c.stats.total_size_bytes as int,
            needed as int,
            c.max_size_bytes as int,
        );
        if evicted.0.len() < c.entries.len() {
            CacheView {
                entries: evicted.0,
                stats: CacheStats {
                    total_entries: evicted.0.len() as u64,
                    total_size_bytes: (c.stats.total_size_bytes - evicted.1) as u64,
                    eviction_count: (c.stats.eviction_count + (c.entries.len() - evicted.0.len())) as u64,
                    ..c.stats
                },
                ..c
            }
        } else {
            c
        }
    }
}

/// The cache after storing `e` under `key`: it replaces the entry of the
/// key, or comes last; its bytes are added to the count.
pub open spec fn put<M>(c: CacheView<M>, key: Seq<char>, e: EntryView<M>) -> CacheView<M> {
    match position_of(c.entries, key) {
        Some(i) => CacheView {
            entries: c.entries.update(i, (key, e)),
            stats: CacheStats { total_size_bytes: (c.stats.total_size_bytes + e.data.len()) as u64, ..c.stats },
            ..c
        },
        None => CacheView {
            entries: c.entries.push((key, e)),
            stats: CacheStats {
                total_entries: (c.stats.total_entries + 1) as u64,
                total_size_bytes: (c.stats.total_size_bytes + e.data.len()) as u64,
                ..c.stats
            },
            ..c
        },
    }
}

/// The cache after storing `data` under `key` at time `now`, for `ttl_ms`
/// milliseconds, with `metadata`: expired entries go first, then the least
/// read ones as far as the new bytes need room.
pub open spec fn store<M>(
    c: CacheView<M>,
    key: Seq<char>,
    data: Seq<u8>,
    ttl_ms: u64,
    metadata: Option<M>,
    now: u64,
) -> CacheView<M> {
    put(
        make_room(expire(c, now), data.len() as u64),
        key,
        EntryView {
            data,
            expires_at_ms: (now + ttl_ms) as u64,
            created_at_ms: now,
            access_count: 0,
            metadata,
        },
    )
}

/// The cache after reading `key`: a hit counts one more read of the entry
/// and one more hit, a miss one more miss.
pub open spec fn read<M>(c: CacheView<M>, key: Seq<char>) -> CacheView<M> {
    match position_of(c.entries, key) {
        Some(i) => CacheView {
            entries: c.entries.update(
                i,
                (c.entries[i].0, EntryView { access_count: (c.entries[i].1.access_count + 1) as u64, ..c.entries[i].1 }),
            ),
            stats: CacheStats { hit_count: (c.stats.hit_count + 1) as u64, ..c.stats },
            ..c
        },
        None => CacheView { stats: CacheStats { miss_count: (c.stats.miss_count + 1) as u64, ..c.stats }, ..c },
    }
}

/// An in-memory cache of bytes by key, of limited size, with entries that
/// expire. Callers may attach metadata of type `M` to entries.
#[verifier::reject_recursive_types(M)]
pub struct MemoryCacheBackend<M> {
    entries: Vec<(String, CacheEntry<M>)>,
    stats: CacheStats,
    max_size_bytes: u64,
}

impl<M> View for MemoryCacheBackend<M> {
    type V = CacheView<M>;

    closed spec fn view(&self) -> CacheView<M> {
        CacheView { entries: entry_views(self.entries@), stats: self.stats, max_size_bytes: self.max_size_bytes }
    }
}

/// The position of the entry of `key`, if any.
fn key_position<M>(entries: &Vec<(String, CacheEntry<M>)>, key: &str) -> (res: Option<usize>)
    ensures
        match res {
            Some(i) => position_of(entry_views(entries@), key@) == Some(i as int),
            None => position_of(entry_views(entries@), key@) is None,
        },
{
    let ghost v = entry_views(entries@);
    let mut i: usize = entries.len();
    assert(v.take(i as int) =~= v);
    while i > 0
        invariant
            i <= entries@.len(),
            v == entry_views(entries@),
            position_of(v, key@) == position_of(v.take(i as int), key@),
        decreases i,
    {
        let k = i - 1;
        assert(v.take(i as int).drop_last() =~= v.take(k as int));
        assert(v.take(i as int).last() == v[k as int]);
        if text_eq(entries[k].0.as_str(), key) {
            return Some(k);
        }
        i = k;
    }
    None
}

/// The first position of an entry read least often.
fn least_used_index<M>(entries: &Vec<(String, CacheEntry<M>)>) -> (res: usize)
    requires
        entries@.len() > 0,
    ensures
        res as int == least_used_at(entry_views(entries@)),
        res < entries@.len(),
{
    let ghost v = entry_views(entries@);
    let mut best: usize = 0;
    let mut i: usize = 1;
    while i < entries.len()
        invariant
            1 <= i <= entries@.len(),
            v == entry_views(entries@),
            best < i,
            best as int == least_used_at(v.take(i as int)),
        decreases entries@.len() - i,
    {
        assert(v.take(i + 1).drop_last() =~= v.take(i as int));
        assert(v.take(i + 1).last() == v[i as int]);
        assert(v.take(i + 1)[best as int] == v[best as int]);
        if entries[i].1.access_count < entries[best].1.access_count {
            best = i;
        }
        i = i + 1;
    }
    assert(v.take(i as int) =~= v);
    best
}

/// The bytes held by `entries` in all.
fn total_size<M>(entries: &Vec<(String, CacheEntry<M>)>) -> (res: u64)
    requires
        size_of(entry_views(entries@)) <= u64::MAX,
    ensures
        res == size_of(entry_views(entries@)),
{
    let ghost v = entry_views(entries@);
    let mut sum: u64 = 0;
    let mut i: usize = 0;
    assert(v.take(0) =~= Seq::<(Seq<char>, EntryView<M>)>::empty());
    while i < entries.len()
        invariant
            i <= entries@.len(),
            v == entry_views(entries@),
            sum == size_of(v.take(i as int)),
            size_of(v) <= u64::MAX,
        decreases entries@.len() - i,
    {
        proof {
            lemma_size_take(v, i as int);
        }
        sum = sum + entries[i].1.data.len() as u64;
        i = i + 1;
    }
    assert(v.take(i as int) =~= v);
    sum
}

impl<M> MemoryCacheBackend<M> {
    /// The keys are distinct, and the counts of entries and bytes cover
    /// what is held.
    pub closed spec fn well_formed(self) -> bool {
        &&& keys_distinct(self@.entries)
        &&& self.stats.total_entries == self.entries@.len()
        &&& self.stats.total_size_bytes >= size_of(self@.entries)
    }

    /// Whether every entry could be evicted without the eviction count
    /// overflowing.
    pub open spec fn can_evict_all(self) -> bool {
        self@.stats.eviction_count + self@.entries.len() <= u64::MAX
    }

    /// An empty cache of `max_size_mb` mebibytes.
    pub fn new(max_size_mb: u64) -> (res: Self)
        requires
            max_size_mb * 1048576 <= u64::MAX,
        ensures
            res.well_formed(),
            res@.entries.len() == 0,
            res@.stats == zero_stats(),
            res@.max_size_bytes == max_size_mb * 1048576,
    {
        let res = MemoryCacheBackend {
            entries: Vec::new(),
            stats: CacheStats::default(),
            max_size_bytes: max_size_mb * 1024 * 1024,
        };
        assert(res@.entries =~= Seq::<(Seq<char>, EntryView<M>)>::empty());
        res
    }

    /// Drops the entries that have expired at time `now`.
    fn evict_expired_at(&mut self, now: u64)
        requires
            old(self).well_formed(),
            old(self).can_evict_all(),
        ensures
            final(self).well_formed(),
            final(self)@ == expire(old(self)@, now),
    {
        let ghost keep = |e: (String, CacheEntry<M>)| e.1.expires_at_ms > now;
        let ghost keep_view = |e: (Seq<char>, EntryView<M>)| e.1.expires_at_ms > now;
        let ghost before = self.entries@;
        let initial_count = self.entries.len();
        let mut drop: Vec<bool> = Vec::new();
        let mut k: usize = 0;
        while k < self.entries.len()
            invariant
                k <= self.entries@.len(),
                drop@.len() == k,
                forall|m: int| 0 <= m < k ==> drop@[m] == !keep(self.entries@[m]),
                keep == (|e: (String, CacheEntry<M>)| e.1.expires_at_ms > now),
            decreases self.entries@.len() - k,
        {
            drop.push(self.entries[k].1.expires_at_ms <= now);
            k = k + 1;
        }
        proof {
            lemma_flags_match(self.entries@, drop@, keep);
            lemma_views_keep(self.entries@, keep, keep_view);
            lemma_size_keep(entry_views(self.entries@), keep_view);
            lemma_keep_distinct(entry_views(self.entries@), keep_view);
        }
        remove_flagged(&mut self.entries, &drop);
        let evicted = initial_count - self.entries.len();
        if evicted > 0 {
            self.stats.eviction_count = self.stats.eviction_count + evicted as u64;
            self.stats.total_entries = self.entries.len() as u64;
            self.stats.total_size_bytes = total_size(&self.entries);
        } else {
            proof {
                lemma_keep_all(entry_views(before), keep_view);
            }
        }
    }

    /// Makes room for `needed` more bytes, evicting the least read entries
    /// first.
    fn evict_for_space(&mut self, needed: u64)
        requires
            old(self).well_formed(),
            old(self).can_evict_all(),
            old(self)@.stats.total_size_bytes + needed <= u64::MAX,
        ensures
            final(self).well_formed(),
            final(self)@ == make_room(old(self)@, needed),
            final(self)@.stats.total_size_bytes <= old(self)@.stats.total_size_bytes,
            final(self)@.entries.len() <= old(self)@.entries.len(),
    {
        if self.stats.total_size_bytes + needed <= self.max_size_bytes {
            return;
        }
        let ghost orig = self@.entries;
        let ghost total = self.stats.total_size_bytes as int;
        let ghost max = self.max_size_bytes as int;
        let mut freed: u64 = 0;
        let mut evicted: u64 = 0;
        while self.entries.len() > 0 && self.stats.total_size_bytes - freed + needed > self.max_size_bytes
            invariant
                self.stats == old(self).stats,
                self.max_size_bytes == old(self).max_size_bytes,
                total == self.stats.total_size_bytes,
                max == self.max_size_bytes,
                total + needed <= u64::MAX,
                orig.len() <= u64::MAX,
                evicted == 0 ==> self@.entries == orig,
                size_of(orig) <= total,
                keys_distinct(self@.entries),
                freed as int == size_of(orig) - size_of(self@.entries),
                evicted as int == orig.len() - self@.entries.len(),
                evict_least_used(orig, total, needed as int, max) == (
                    evict_least_used(self@.entries, total - freed, needed as int, max).0,
                    evict_least_used(self@.entries, total - freed, needed as int, max).1 + freed,
                ),
            decreases self.entries@.len(),
        {
            let i = least_used_index(&self.entries);
            let ghost cur = self@.entries;
            proof {
                lemma_size_remove(cur, i as int);
            }
            let e = self.entries.remove(i);
            proof {
                assert(self@.entries =~= cur.remove(i as int));
                assert forall|a: int, b: int| 0 <= a < b < self@.entries.len() implies (
                #[trigger] self@.entries[a]).0 != (#[trigger] self@.entries[b]).0 by {
                    let a2 = if a < i { a } else { a + 1 };
                    let b2 = if b < i { b } else { b + 1 };
                    assert(self@.entries[a] == cur[a2] && self@.entries[b] == cur[b2]);
                }
            }
            freed = freed + e.1.data.len() as u64;
            evicted = evicted + 1;
        }
        if evicted > 0 {
            self.stats.eviction_count = self.stats.eviction_count + evicted;
            self.stats.total_entries = self.entries.len() as u64;
            self.stats.total_size_bytes = self.stats.total_size_bytes - freed;
        }
    }

    /// Stores `entry` under `key`, replacing the entry of the key if any.
    fn put_entry(&mut self, key: &str, entry: CacheEntry<M>)
        requires
            old(self).well_formed(),
            old(self)@.stats.total_size_bytes + entry.data@.len() <= u64::MAX,
            old(self)@.entries.len() < u64::MAX,
        ensures
            final(self).well_formed(),
            final(self)@ == put(old(self)@, key@, entry@),
    {
        let ghost before = self@.entries;
        let ghost stored = (key@, entry@);
        let data_size = entry.data.len() as u64;
        proof {
            lemma_position_of(before, key@);
        }
        match key_position(&self.entries, key) {
            Some(i) => {
                proof {
                    lemma_size_update(before, i as int, stored);
                }
                self.entries.set(i, (String::from_str(key), entry));
                assert(self@.entries =~= before.update(i as int, stored));
                assert forall|a: int| 0 <= a < self@.entries.len() implies (#[trigger] self@.entries[a]).0
                    == before[a].0 by {}
            },
            None => {
                self.entries.push((String::from_str(key), entry));
                assert(self@.entries =~= before.push(stored));
                assert(self@.entries.drop_last() =~= before);
                self.stats.total_entries = self.stats.total_entries + 1;
            },
        }
        self.stats.total_size_bytes = self.stats.total_size_bytes + data_size;
    }

    /// Stores `data` under `key` at time `now`, for `ttl_ms` milliseconds,
    /// with `metadata`.
    fn store_at(&mut self, key: &str, data: &[u8], ttl_ms: u64, metadata: Option<M>, now: u64)
        requires
            old(self).well_formed(),
            old(self).can_evict_all(),
            old(self)@.stats.total_size_bytes + data@.len() <= u64::MAX,
            old(self)@.entries.len() < u64::MAX,
            now + ttl_ms <= u64::MAX,
        ensures
            final(self).well_formed(),
            final(self)@ == store(old(self)@, key@, data@, ttl_ms, metadata, now),
    {
        let data_size = data.len() as u64;
        self.evict_expired_at(now);
        proof {
            lemma_size_keep(old(self)@.entries, |e: (Seq<char>, EntryView<M>)| e.1.expires_at_ms > now);
        }
        self.evict_for_space(data_size);
        let entry = CacheEntry {
            data: slice_to_vec(data),
            expires_at_ms: now + ttl_ms,
            created_at_ms: now,
            access_count: 0,
            metadata,
        };
        self.put_entry(key, entry);
    }

    /// Stores `data` under `key` at time `now`, for `ttl_ms` milliseconds:
    /// expired entries are dropped first, then the least read entries as far
    /// as the new bytes need room; the new entry replaces that of the key.
    pub fn store_bytes_at(&mut self, key: &str, data: &[u8], ttl_ms: u64, now: u64)
        requires
            old(self).well_formed(),
            old(self).can_evict_all(),
            old(self)@.stats.total_size_bytes + data@.len() <= u64::MAX,
            old(self)@.entries.len() < u64::MAX,
            now + ttl_ms <= u64::MAX,
        ensures
            final(self).well_formed(),
            final(self)@ == store(old(self)@, key@, data@, ttl_ms, None, now),
    {
        self.store_at(key, data, ttl_ms, None, now);
    }

    /// Stores `data` under `key` now, by the system clock, for `ttl_ms`
    /// milliseconds.
    pub fn store_bytes(&mut self, key: &str, data: &[u8], ttl_ms: u64)
        requires
            old(self).well_formed(),
            old(self).can_evict_all(),
            old(self)@.stats.total_size_bytes + data@.len() <= u64::MAX,
            old(self)@.entries.len() < u64::MAX,
        ensures
            final(self).well_formed(),
            exists|now: u64| now + ttl_ms <= u64::MAX && #[trigger] store(old(self)@, key@, data@, ttl_ms, None, now) == final(self)@,
    {
        let now = clock_now_ms();
        if now <= u64::MAX - ttl_ms {
            self.store_at(key, data, ttl_ms, None, now);
        } else {
            self.store_at(key, data, ttl_ms, None, u64::MAX - ttl_ms);
        }
    }
}


/// The cache after removing the entry of `key`, if any, with its bytes.
pub open spec fn drop_key<M>(c: CacheView<M>, key: Seq<char>) -> CacheView<M> {
    match position_of(c.entries, key) {
        Some(i) => CacheView {
            entries: c.entries.remove(i),
            stats: CacheStats {
                total_entries: (c.stats.total_entries - 1) as u64,
                total_size_bytes: (c.stats.total_size_bytes - c.entries[i].1.data.len()) as u64,
                ..c.stats
            },
            ..c
        },
        None => c,
    }
}

/// The cache after dropping every entry, counted as evicted.
pub open spec fn cleared<M>(c: CacheView<M>) -> CacheView<M> {
    CacheView {
        entries: Seq::empty(),
        stats: CacheStats {
            total_entries: 0,
            total_size_bytes: 0,
            eviction_count: (c.stats.eviction_count + c.entries.len()) as u64,
            ..c.stats
        },
        ..c
    }
}

/// The age at time `now` of the oldest entry of `s` not made after `now`.
pub open spec fn oldest_age<M>(s: Seq<(Seq<char>, EntryView<M>)>, now: u64) -> Option<u64>
    decreases s.len(),
{
    if s.len() == 0 {
        None
    } else {
        let rest = oldest_age(s.drop_last(), now);
        let created = s.last().1.created_at_ms;
        if created <= now {
            let age = (now - created) as u64;
            match rest {
                Some(a) => Some(if a >= age { a } else { age }),
                None => Some(age),
            }
        } else {
            rest
        }
    }
}

/// The age at time `now` of the newest entry of `s` not made after `now`.
pub open spec fn newest_age<M>(s: Seq<(Seq<char>, EntryView<M>)>, now: u64) -> Option<u64>
    decreases s.len(),
{
    if s.len() == 0 {
        None
    } else {
        let rest = newest_age(s.drop_last(), now);
        let created = s.last().1.created_at_ms;
        if created <= now {
            let age = (now - created) as u64;
            match rest {
                Some(a) => Some(if a <= age { a } else { age }),
                None => Some(age),
            }
        } else {
            rest
        }
    }
}

/// The keys of `s`, in order, that hold `pattern`, or all of them.
pub open spec fn keys_matching<M>(s: Seq<(Seq<char>, EntryView<M>)>, pattern: Option<Seq<char>>) -> Seq<Seq<char>>
    decreases s.len(),
{
    if s.len() == 0 {
        Seq::empty()
    } else {
        let rest = keys_matching(s.drop_last(), pattern);
        let k = s.last().0;
        match pattern {
            Some(p) => if has_infix(k, p) {
                rest.push(k)
            } else {
                rest
            },
            None => rest.push(k),
        }
    }
}

/// The cache after the expiry time of the entry of `key`, if any, moved
/// `extra_ms` later.
pub open spec fn extended<M>(c: CacheView<M>, key: Seq<char>, extra_ms: u64) -> CacheView<M> {
    match position_of(c.entries, key) {
        Some(i) => CacheView {
            entries: c.entries.update(
                i,
                (c.entries[i].0, EntryView { expires_at_ms: (c.entries[i].1.expires_at_ms + extra_ms) as u64, ..c.entries[i].1 }),
            ),
            ..c
        },
        None => c,
    }
}

/// Whether the entry of `key` in `s`, if any, has been read fewer than the
/// most times a count holds.
pub open spec fn can_read<M>(s: Seq<(Seq<char>, EntryView<M>)>, key: Seq<char>) -> bool {
    lookup(s, key) matches Some(e) ==> e.access_count < u64::MAX
}

/// Evicting never repeats a key.
pub proof fn lemma_evict_distinct<M>(s: Seq<(Seq<char>, EntryView<M>)>, total: int, needed: int, max: int)
    requires
        keys_distinct(s),
    ensures
        keys_distinct(evict_least_used(s, total, needed, max).0),
    decreases s.len(),
{
    if s.len() > 0 && total + needed > max {
        let i = least_used_at(s);
        lemma_least_used_at(s);
        let t = s.remove(i);
        assert forall|a: int, b: int| 0 <= a < b < t.len() implies (#[trigger] t[a]).0 != (#[trigger] t[b]).0 by {
            let a2 = if a < i { a } else { a + 1 };
            let b2 = if b < i { b } else { b + 1 };
            assert(t[a] == s[a2] && t[b] == s[b2]);
        }
        lemma_evict_distinct(t, total - s[i].1.data.len(), needed, max);
    }
}

/// Law: a value stored under a key reads back, with what was stored with
/// it, at any time before it expires.
pub proof fn law_read_after_store<M>(
    cache: MemoryCacheBackend<M>,
    key: Seq<char>,
    data: Seq<u8>,
    ttl_ms: u64,
    metadata: Option<M>,
    now: u64,
    later: u64,
)
    requires
        cache.well_formed(),
        now + ttl_ms <= u64::MAX,
        later < now + ttl_ms,
    ensures
        lookup(expire(store(cache@, key, data, ttl_ms, metadata, now), later).entries, key) == Some(
            EntryView { data, expires_at_ms: (now + ttl_ms) as u64, created_at_ms: now, access_count: 0, metadata },
        ),
{
    let e = EntryView { data, expires_at_ms: (now + ttl_ms) as u64, created_at_ms: now, access_count: 0, metadata };
    let c0 = cache@;
    let live = |x: (Seq<char>, EntryView<M>)| x.1.expires_at_ms > now;
    lemma_keep_distinct(c0.entries, live);
    let c1 = expire(c0, now);
    assert(keys_distinct(c1.entries));
    let needed = data.len() as u64;
    lemma_evict_distinct(c1.entries, c1.stats.total_size_bytes as int, needed as int, c1.max_size_bytes as int);
    let c2 = make_room(c1, needed);
    assert(keys_distinct(c2.entries));
    let c3 = put(c2, key, e);
    lemma_position_of(c2.entries, key);
    match position_of(c2.entries, key) {
        Some(i) => {
            assert forall|a: int| 0 <= a < c3.entries.len() implies (#[trigger] c3.entries[a]).0 == c2.entries[a].0 by {}
            lemma_position_distinct(c3.entries, i);
        },
        None => {
            assert forall|a: int, b: int| 0 <= a < b < c3.entries.len() implies (#[trigger] c3.entries[a]).0 != (
            #[trigger] c3.entries[b]).0 by {
                if b == c3.entries.len() - 1 {
                    assert(c3.entries[a] == c2.entries[a]);
                } else {
                    assert(c3.entries[a] == c2.entries[a] && c3.entries[b] == c2.entries[b]);
                }
            }
        },
    }
    assert(lookup(c3.entries, key) == Some(e));
    lemma_keep_distinct(c3.entries, |x: (Seq<char>, EntryView<M>)| x.1.expires_at_ms > later);
}

impl<M> MemoryCacheBackend<M> {
    /// Counts a read of `key`: a hit also counts one more read of its entry.
    /// Returns the position of the entry.
    fn count_read(&mut self, key: &str) -> (res: Option<usize>)
        requires
            old(self).well_formed(),
            old(self)@.stats.hit_count < u64::MAX,
            old(self)@.stats.miss_count < u64::MAX,
            can_read(old(self)@.entries, key@),
        ensures
            final(self).well_formed(),
            final(self)@ == read(old(self)@, key@),
            match res {
                Some(i) => position_of(old(self)@.entries, key@) == Some(i as int),
                None => position_of(old(self)@.entries, key@) is None,
            },
    {
        proof {
            lemma_position_of(self@.entries, key@);
        }
        match key_position(&self.entries, key) {
            Some(i) => {
                let ghost before = self@.entries;
                let mut e = self.entries.remove(i);
                e.1.access_count = e.1.access_count + 1;
                self.entries.insert(i, e);
                let ghost bumped = (
                    before[i as int].0,
                    EntryView { access_count: (before[i as int].1.access_count + 1) as u64, ..before[i as int].1 },
                );
                assert(self@.entries =~= before.update(i as int, bumped));
                proof {
                    lemma_size_update(before, i as int, bumped);
                }
                assert forall|a: int| 0 <= a < self@.entries.len() implies (#[trigger] self@.entries[a]).0
                    == before[a].0 by {}
                self.stats.hit_count = self.stats.hit_count + 1;
                Some(i)
            },
            None => {
                self.stats.miss_count = self.stats.miss_count + 1;
                None
            },
        }
    }

    /// Reads the bytes under `key` at time `now`, after dropping the entries
    /// that have expired; a hit counts one more read of the entry.
    pub fn retrieve_bytes_at(&mut self, key: &str, now: u64) -> (res: Option<Vec<u8>>)
        requires
            old(self).well_formed(),
            old(self).can_evict_all(),
            old(self)@.stats.hit_count < u64::MAX,
            old(self)@.stats.miss_count < u64::MAX,
            can_read(old(self)@.entries, key@),
        ensures
            final(self).well_formed(),
            final(self)@ == read(expire(old(self)@, now), key@),
            match lookup(expire(old(self)@, now).entries, key@) {
                Some(e) => res matches Some(d) && d@ == e.data,
                None => res is None,
            },
    {
        self.evict_expired_at(now);
        proof {
            lemma_keep_distinct(old(self)@.entries, |e: (Seq<char>, EntryView<M>)| e.1.expires_at_ms > now);
            lemma_position_of(self@.entries, key@);
        }
        let ghost c = self@;
        match self.count_read(key) {
            Some(i) => {
                proof {
                    lemma_position_of(c.entries, key@);
                }
                assert(position_of(c.entries, key@) == Some(i as int));
                assert(self@.entries[i as int].1.data == c.entries[i as int].1.data);
                assert(self@.entries[i as int] == (self.entries@[i as int].0@, self.entries@[i as int].1@));
                let d = slice_to_vec(self.entries[i].1.data.as_slice());
                Some(d)
            },
            None => None,
        }
    }

    /// Reads the bytes under `key` now, by the system clock.
    pub fn retrieve_bytes(&mut self, key: &str) -> (res: Option<Vec<u8>>)
        requires
            old(self).well_formed(),
            old(self).can_evict_all(),
            old(self)@.stats.hit_count < u64::MAX,
            old(self)@.stats.miss_count < u64::MAX,
            can_read(old(self)@.entries, key@),
        ensures
            final(self).well_formed(),
            exists|now: u64|
                final(self)@ == read(#[trigger] expire(old(self)@, now), key@) && match lookup(
                    expire(old(self)@, now).entries,
                    key@,
                ) {
                    Some(e) => res matches Some(d) && d@ == e.data,
                    None => res is None,
                },
    {
        self.retrieve_bytes_at(key, clock_now_ms())
    }

    /// Whether `key` has an entry at time `now`, after dropping the entries
    /// that have expired.
    pub fn key_exists_at(&mut self, key: &str, now: u64) -> (res: bool)
        requires
            old(self).well_formed(),
            old(self).can_evict_all(),
        ensures
            final(self).well_formed(),
            final(self)@ == expire(old(self)@, now),
            res == lookup(final(self)@.entries, key@) is Some,
    {
        self.evict_expired_at(now);
        key_position(&self.entries, key).is_some()
    }

    /// Whether `key` has an entry now, by the system clock.
    pub fn key_exists(&mut self, key: &str) -> (res: bool)
        requires
            old(self).well_formed(),
            old(self).can_evict_all(),
        ensures
            final(self).well_formed(),
            exists|now: u64| final(self)@ == #[trigger] expire(old(self)@, now),
            res == lookup(final(self)@.entries, key@) is Some,
    {
        self.key_exists_at(key, clock_now_ms())
    }

    /// Removes the entry of `key`, if any, with its bytes.
    pub fn remove(&mut self, key: &str)
        requires
            old(self).well_formed(),
        ensures
            final(self).well_formed(),
            final(self)@ == drop_key(old(self)@, key@),
    {
        proof {
            lemma_position_of(self@.entries, key@);
        }
        match key_position(&self.entries, key) {
            Some(i) => {
                let ghost before = self@.entries;
                proof {
                    lemma_size_remove(before, i as int);
                }
                let e = self.entries.remove(i);
                assert(self@.entries =~= before.remove(i as int));
                assert forall|a: int, b: int| 0 <= a < b < self@.entries.len() implies (
                #[trigger] self@.entries[a]).0 != (#[trigger] self@.entries[b]).0 by {
                    let a2 = if a < i { a } else { a + 1 };
                    let b2 = if b < i { b } else { b + 1 };
                    assert(self@.entries[a] == before[a2] && self@.entries[b] == before[b2]);
                }
                self.stats.total_entries = self.stats.total_entries - 1;
                self.stats.total_size_bytes = self.stats.total_size_bytes - e.1.data.len() as u64;
            },
            None => {},
        }
    }

    /// Drops every entry, counting them as evicted.
    pub fn clear(&mut self)
        requires
            old(self).well_formed(),
            old(self).can_evict_all(),
        ensures
            final(self).well_formed(),
            final(self)@ == cleared(old(self)@),
    {
        let cleared_count = self.entries.len();
        self.entries = Vec::new();
        assert(self@.entries =~= Seq::<(Seq<char>, EntryView<M>)>::empty());
        self.stats.total_entries = 0;
        self.stats.total_size_bytes = 0;
        self.stats.eviction_count = self.stats.eviction_count + cleared_count as u64;
    }

    /// The counts at time `now`, after dropping the entries that have
    /// expired, with the ages of the oldest and newest entries.
    pub fn stats_at(&mut self, now: u64) -> (res: CacheStats)
        requires
            old(self).well_formed(),
            old(self).can_evict_all(),
        ensures
            final(self).well_formed(),
            final(self)@ == expire(old(self)@, now),
            res == (CacheStats {
                expired_entries: 0,
                oldest_entry_age_ms: oldest_age(final(self)@.entries, now),
                newest_entry_age_ms: newest_age(final(self)@.entries, now),
                ..final(self)@.stats
            }),
    {
        self.evict_expired_at(now);
        let ghost v = self@.entries;
        let mut oldest: Option<u64> = None;
        let mut newest: Option<u64> = None;
        let mut i: usize = 0;
        assert(v.take(0) =~= Seq::<(Seq<char>, EntryView<M>)>::empty());
        while i < self.entries.len()
            invariant
                i <= self.entries@.len(),
                v == self@.entries,
                oldest == oldest_age(v.take(i as int), now),
                newest == newest_age(v.take(i as int), now),
            decreases self.entries@.len() - i,
        {
            assert(v.take(i + 1).drop_last() =~= v.take(i as int));
            assert(v.take(i + 1).last() == v[i as int]);
            let created = self.entries[i].1.created_at_ms;
            if created <= now {
                let age = now - created;
                oldest = match oldest {
                    Some(a) => Some(if a >= age { a } else { age }),
                    None => Some(age),
                };
                newest = match newest {
                    Some(a) => Some(if a <= age { a } else { age }),
                    None => Some(age),
                };
            }
            i = i + 1;
        }
        assert(v.take(i as int) =~= v);
        CacheStats {
            total_entries: self.stats.total_entries,
            total_size_bytes: self.stats.total_size_bytes,
            hit_count: self.stats.hit_count,
            miss_count: self.stats.miss_count,
            eviction_count: self.stats.eviction_count,
            expired_entries: 0,
            oldest_entry_age_ms: oldest,
            newest_entry_age_ms: newest,
        }
    }

    /// The counts now, by the system clock.
    pub fn stats(&mut self) -> (res: CacheStats)
        requires
            old(self).well_formed(),
            old(self).can_evict_all(),
        ensures
            final(self).well_formed(),
            exists|now: u64|
                final(self)@ == #[trigger] expire(old(self)@, now) && res == (CacheStats {
                    expired_entries: 0,
                    oldest_entry_age_ms: oldest_age(final(self)@.entries, now),
                    newest_entry_age_ms: newest_age(final(self)@.entries, now),
                    ..final(self)@.stats
                }),
    {
        self.stats_at(clock_now_ms())
    }

    /// Stores `data` under `key` at time `now`, for `ttl_ms` milliseconds,
    /// with `metadata`, as `store_bytes_at` does.
    pub fn store_bytes_with_metadata_at(&mut self, key: &str, data: &[u8], ttl_ms: u64, metadata: M, now: u64)
        requires
            old(self).well_formed(),
            old(self).can_evict_all(),
            old(self)@.stats.total_size_bytes + data@.len() <= u64::MAX,
            old(self)@.entries.len() < u64::MAX,
            now + ttl_ms <= u64::MAX,
        ensures
            final(self).well_formed(),
            final(self)@ == store(old(self)@, key@, data@, ttl_ms, Some(metadata), now),
    {
        self.store_at(key, data, ttl_ms, Some(metadata), now);
    }

    /// Stores `data` under `key` now, by the system clock, with `metadata`.
    pub fn store_bytes_with_metadata(&mut self, key: &str, data: &[u8], ttl_ms: u64, metadata: M)
        requires
            old(self).well_formed(),
            old(self).can_evict_all(),
            old(self)@.stats.total_size_bytes + data@.len() <= u64::MAX,
            old(self)@.entries.len() < u64::MAX,
        ensures
            final(self).well_formed(),
            exists|now: u64|
                now + ttl_ms <= u64::MAX && #[trigger] store(old(self)@, key@, data@, ttl_ms, Some(metadata), now)
                    == final(self)@,
    {
        let now = clock_now_ms();
        if now <= u64::MAX - ttl_ms {
            self.store_at(key, data, ttl_ms, Some(metadata), now);
        } else {
            self.store_at(key, data, ttl_ms, Some(metadata), u64::MAX - ttl_ms);
        }
    }

    /// The keys at time `now`, after dropping the entries that have
    /// expired, in the order they were first stored: those that hold
    /// `pattern`, or all of them.
    pub fn list_keys_at(&mut self, pattern: Option<&str>, now: u64) -> (res: Vec<String>)
        requires
            old(self).well_formed(),
            old(self).can_evict_all(),
        ensures
            final(self).well_formed(),
            final(self)@ == expire(old(self)@, now),
            crate::text::texts(res@) == keys_matching(
                final(self)@.entries,
                match pattern {
                    Some(p) => Some(p@),
                    None => None,
                },
            ),
    {
        self.evict_expired_at(now);
        let ghost v = self@.entries;
        let ghost pat = match pattern {
            Some(p) => Some(p@),
            None => None,
        };
        let mut res: Vec<String> = Vec::new();
        let mut i: usize = 0;
        assert(v.take(0) =~= Seq::<(Seq<char>, EntryView<M>)>::empty());
        assert(crate::text::texts(res@) =~= Seq::<Seq<char>>::empty());
        while i < self.entries.len()
            invariant
                i <= self.entries@.len(),
                v == self@.entries,
                pat == match pattern {
                    Some(p) => Some(p@),
                    None => None,
                },
                crate::text::texts(res@) == keys_matching(v.take(i as int), pat),
            decreases self.entries@.len() - i,
        {
            assert(v.take(i + 1).drop_last() =~= v.take(i as int));
            assert(v.take(i + 1).last() == v[i as int]);
            let ghost before = res@;
            let wanted = match pattern {
                Some(p) => text_contains(self.entries[i].0.as_str(), p),
                None => true,
            };
            if wanted {
                res.push(self.entries[i].0.clone());
                assert(crate::text::texts(res@) =~= crate::text::texts(before).push(v[i as int].0));
            }
            i = i + 1;
        }
        assert(v.take(i as int) =~= v);
        res
    }

    /// The keys now, by the system clock, that hold `pattern`, or all of
    /// them.
    pub fn list_keys(&mut self, pattern: Option<&str>) -> (res: Vec<String>)
        requires
            old(self).well_formed(),
            old(self).can_evict_all(),
        ensures
            final(self).well_formed(),
            exists|now: u64| final(self)@ == #[trigger] expire(old(self)@, now),
            crate::text::texts(res@) == keys_matching(
                final(self)@.entries,
                match pattern {
                    Some(p) => Some(p@),
                    None => None,
                },
            ),
    {
        self.list_keys_at(pattern, clock_now_ms())
    }

    /// Moves the expiry time of the entry of `key` `additional_ttl_ms`
    /// later; whether there was one.
    pub fn extend_ttl(&mut self, key: &str, additional_ttl_ms: u64) -> (res: bool)
        requires
            old(self).well_formed(),
            lookup(old(self)@.entries, key@) matches Some(e) ==> e.expires_at_ms + additional_ttl_ms <= u64::MAX,
        ensures
            final(self).well_formed(),
            final(self)@ == extended(old(self)@, key@, additional_ttl_ms),
            res == lookup(old(self)@.entries, key@) is Some,
    {
        proof {
            lemma_position_of(self@.entries, key@);
        }
        match key_position(&self.entries, key) {
            Some(i) => {
                let ghost before = self@.entries;
                let mut e = self.entries.remove(i);
                e.1.expires_at_ms = e.1.expires_at_ms + additional_ttl_ms;
                self.entries.insert(i, e);
                let ghost moved = (
                    before[i as int].0,
                    EntryView {
                        expires_at_ms: (before[i as int].1.expires_at_ms + additional_ttl_ms) as u64,
                        ..before[i as int].1
                    },
                );
                assert(self@.entries =~= before.update(i as int, moved));
                proof {
                    lemma_size_update(before, i as int, moved);
                }
                assert forall|a: int| 0 <= a < self@.entries.len() implies (#[trigger] self@.entries[a]).0
                    == before[a].0 by {}
                true
            },
            None => false,
        }
    }

    /// Drops the entries that have expired, by the system clock, and tells
    /// what is left and how long it took.
    pub fn compact(&mut self) -> (res: CompactionResult)
        requires
            old(self).well_formed(),
            old(self).can_evict_all(),
        ensures
            final(self).well_formed(),
            exists|now: u64| final(self)@ == #[trigger] expire(old(self)@, now),
            res.entries_removed == 0,
            res.bytes_freed == 0,
            res.entries_remaining == final(self)@.stats.total_entries,
            res.size_after_bytes == final(self)@.stats.total_size_bytes,
    {
        let start = clock_now_ms();
        self.evict_expired_at(start);
        let end = clock_now_ms();
        CompactionResult {
            entries_removed: 0,
            bytes_freed: 0,
            duration_ms: if end >= start { end - start } else { 0 },
            entries_remaining: self.stats.total_entries,
            size_after_bytes: self.stats.total_size_bytes,
        }
    }

    /// Replaces every entry with `entries`, counting them and their bytes
    /// afresh; the other counts stay.
    pub fn import(&mut self, entries: Vec<(String, CacheEntry<M>)>)
        requires
            keys_distinct(entry_views(entries@)),
            size_of(entry_views(entries@)) <= u64::MAX,
        ensures
            final(self).well_formed(),
            final(self)@ == (CacheView {
                entries: entry_views(entries@),
                stats: CacheStats {
                    total_entries: entries@.len() as u64,
                    total_size_bytes: size_of(entry_views(entries@)) as u64,
                    ..old(self)@.stats
                },
                max_size_bytes: old(self)@.max_size_bytes,
            }),
    {
        let total = total_size(&entries);
        self.stats.total_entries = entries.len() as u64;
        self.stats.total_size_bytes = total;
        self.entries = entries;
    }
}

impl<M: Clone> MemoryCacheBackend<M> {
    /// Reads the bytes under `key` at time `now`, as `retrieve_bytes_at`
    /// does, with a clone of what was stored with them.
    pub fn retrieve_bytes_with_metadata_at(&mut self, key: &str, now: u64) -> (res: Option<(Vec<u8>, Option<M>)>)
        requires
            old(self).well_formed(),
            old(self).can_evict_all(),
            old(self)@.stats.hit_count < u64::MAX,
            old(self)@.stats.miss_count < u64::MAX,
            can_read(old(self)@.entries, key@),
        ensures
            final(self).well_formed(),
            final(self)@ == read(expire(old(self)@, now), key@),
            match lookup(expire(old(self)@, now).entries, key@) {
                Some(e) => res matches Some(r) && r.0@ == e.data && metadata_copied(e.metadata, r.1),
                None => res is None,
            },
    {
        self.evict_expired_at(now);
        proof {
            lemma_keep_distinct(old(self)@.entries, |e: (Seq<char>, EntryView<M>)| e.1.expires_at_ms > now);
            lemma_position_of(self@.entries, key@);
        }
        let ghost c = self@;
        match self.count_read(key) {
            Some(i) => {
                proof {
                    lemma_position_of(c.entries, key@);
                }
                assert(position_of(c.entries, key@) == Some(i as int));
                assert(self@.entries[i as int].1.data == c.entries[i as int].1.data);
                assert(self@.entries[i as int].1.metadata == c.entries[i as int].1.metadata);
                assert(self@.entries[i as int] == (self.entries@[i as int].0@, self.entries@[i as int].1@));
                let d = slice_to_vec(self.entries[i].1.data.as_slice());
                let m = copy_metadata(&self.entries[i].1.metadata);
                Some((d, m))
            },
            None => None,
        }
    }

    /// Reads the bytes under `key` now, by the system clock, with a clone of
    /// what was stored with them.
    pub fn retrieve_bytes_with_metadata(&mut self, key: &str) -> (res: Option<(Vec<u8>, Option<M>)>)
        requires
            old(self).well_formed(),
            old(self).can_evict_all(),
            old(self)@.stats.hit_count < u64::MAX,
            old(self)@.stats.miss_count < u64::MAX,
            can_read(old(self)@.entries, key@),
        ensures
            final(self).well_formed(),
            exists|now: u64|
                final(self)@ == read(#[trigger] expire(old(self)@, now), key@) && match lookup(
                    expire(old(self)@, now).entries,
                    key@,
                ) {
                    Some(e) => res matches Some(r) && r.0@ == e.data && metadata_copied(e.metadata, r.1),
                    None => res is None,
                },
    {
        self.retrieve_bytes_with_metadata_at(key, clock_now_ms())
    }

    /// A clone of what was stored with the entry of `key` at time `now`,
    /// after dropping the entries that have expired.
    pub fn get_metadata_at(&mut self, key: &str, now: u64) -> (res: Option<M>)
        requires
            old(self).well_formed(),
            old(self).can_evict_all(),
        ensures
            final(self).well_formed(),
            final(self)@ == expire(old(self)@, now),
            match lookup(final(self)@.entries, key@) {
                Some(e) => metadata_copied(e.metadata, res),
                None => res is None,
            },
    {
        self.evict_expired_at(now);
        proof {
            lemma_position_of(self@.entries, key@);
        }
        match key_position(&self.entries, key) {
            Some(i) => copy_metadata(&self.entries[i].1.metadata),
            None => None,
        }
    }

    /// A clone of what was stored with the entry of `key` now, by the system
    /// clock.
    pub fn get_metadata(&mut self, key: &str) -> (res: Option<M>)
        requires
            old(self).well_formed(),
            old(self).can_evict_all(),
        ensures
            final(self).well_formed(),
            exists|now: u64| final(self)@ == #[trigger] expire(old(self)@, now),
            match lookup(final(self)@.entries, key@) {
                Some(e) => metadata_copied(e.metadata, res),
                None => res is None,
            },
    {
        self.get_metadata_at(key, clock_now_ms())
    }

    /// Copies of the entries at time `now`, after dropping those that have
    /// expired, for the caller to save.
    pub fn export_at(&mut self, now: u64) -> (res: Vec<(String, CacheEntry<M>)>)
        requires
            old(self).well_formed(),
            old(self).can_evict_all(),
        ensures
            final(self).well_formed(),
            final(self)@ == expire(old(self)@, now),
            res@.len() == final(self)@.entries.len(),
            forall|i: int|
                0 <= i < res@.len() ==> (#[trigger] res@[i]).0@ == final(self)@.entries[i].0 && entry_copied(
                    final(self)@.entries[i].1,
                    res@[i].1@,
                ),
    {
        self.evict_expired_at(now);
        let mut res: Vec<(String, CacheEntry<M>)> = Vec::new();
        let mut i: usize = 0;
        while i < self.entries.len()
            invariant
                i <= self.entries@.len(),
                res@.len() == i,
                forall|j: int|
                    0 <= j < i ==> (#[trigger] res@[j]).0@ == self@.entries[j].0 && entry_copied(
                        self@.entries[j].1,
                        res@[j].1@,
                    ),
            decreases self.entries@.len() - i,
        {
            res.push((self.entries[i].0.clone(), self.entries[i].1.clone()));
            i = i + 1;
        }
        res
    }

    /// Copies of the entries now, by the system clock.
    pub fn export(&mut self) -> (res: Vec<(String, CacheEntry<M>)>)
        requires
            old(self).well_formed(),
            old(self).can_evict_all(),
        ensures
            final(self).well_formed(),
            exists|now: u64| final(self)@ == #[trigger] expire(old(self)@, now),
            res@.len() == final(self)@.entries.len(),
            forall|i: int|
                0 <= i < res@.len() ==> (#[trigger] res@[i]).0@ == final(self)@.entries[i].0 && entry_copied(
                    final(self)@.entries[i].1,
                    res@[i].1@,
                ),
    {
        self.export_at(clock_now_ms())
    }
}

/// A cache of a hundred mebibytes.
impl<M> Default for MemoryCacheBackend<M> {
    fn default() -> (res: Self)
        ensures
            res.well_formed(),
            res@.entries.len() == 0,
            res@.stats == zero_stats(),
            res@.max_size_bytes == 104857600,
    {
        Self::new(100)
    }
}

/// Law: every operation keeps the counts of entries and bytes true to what
/// the cache holds: the number of entries exactly, the bytes at least.
pub proof fn law_counts_cover_entries<M>(cache: MemoryCacheBackend<M>)
    requires
        cache.well_formed(),
    ensures
        cache@.stats.total_entries == cache@.entries.len(),
        cache@.stats.total_size_bytes >= size_of(cache@.entries),
        keys_distinct(cache@.entries),
{
}

} // verus!
