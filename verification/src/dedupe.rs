//! The webhook deduplication cache: a FIFO of keys with the time each was
//! last accepted. A probe evicts expired entries from the front, answers
//! whether the key was seen within the TTL, records a miss, and holds the
//! cache under its size bound.

use vstd::prelude::*;

use crate::text;

verus! {

/// Entries surviving expiry eviction at `now`: the suffix left after
/// dropping expired entries from the front.
pub open spec fn expire_evicted(s: Seq<(String, i64)>, now: i64, ttl: i64) -> Seq<(String, i64)>
    decreases s.len(),
{
    if s.len() > 0 && now - s[0].1 > ttl {
        expire_evicted(s.drop_first(), now, ttl)
    } else {
        s
    }
}

/// Entries surviving size eviction: the suffix of at most `max` entries left
/// after dropping from the front.
pub open spec fn size_evicted(s: Seq<(String, i64)>, max: int) -> Seq<(String, i64)>
    decreases s.len(),
{
    if s.len() > max && s.len() > 0 {
        size_evicted(s.drop_first(), max)
    } else {
        s
    }
}

/// `s` without any entry keyed `k`.
pub open spec fn key_removed(s: Seq<(String, i64)>, k: Seq<char>) -> Seq<(String, i64)>
    decreases s.len(),
{
    if s.len() == 0 {
        Seq::empty()
    } else if s[0].0@ == k {
        key_removed(s.drop_first(), k)
    } else {
        seq![s[0]] + key_removed(s.drop_first(), k)
    }
}

proof fn lemma_key_removed_absent(s: Seq<(String, i64)>, k: Seq<char>)
    requires
        forall|i: int| 0 <= i < s.len() ==> (#[trigger] s[i]).0@ != k,
    ensures
        key_removed(s, k) == s,
    decreases s.len(),
{
    if s.len() > 0 {
        lemma_key_removed_absent(s.drop_first(), k);
        assert(key_removed(s, k) =~= s);
    }
}

proof fn lemma_key_removed_unique(s: Seq<(String, i64)>, k: Seq<char>, i: int)
    requires
        0 <= i < s.len(),
        s[i].0@ == k,
        forall|j: int| 0 <= j < s.len() && j != i ==> (#[trigger] s[j]).0@ != k,
    ensures
        key_removed(s, k) == s.remove(i),
    decreases s.len(),
{
    if i == 0 {
        lemma_key_removed_absent(s.drop_first(), k);
        assert(key_removed(s, k) =~= s.remove(0));
    } else {
        lemma_key_removed_unique(s.drop_first(), k, i - 1);
        assert(key_removed(s, k) =~= s.remove(i));
    }
}

/// Expiry eviction keeps an unexpired final entry.
proof fn lemma_expire_keeps_fresh_last(s: Seq<(String, i64)>, now: i64, ttl: i64)
    requires
        s.len() > 0,
        now - s.last().1 <= ttl,
    ensures
        expire_evicted(s, now, ttl).len() >= 1,
        expire_evicted(s, now, ttl).last() == s.last(),
    decreases s.len(),
{
    if now - s[0].1 > ttl {
        assert(s.drop_first().last() == s.last());
        lemma_expire_keeps_fresh_last(s.drop_first(), now, ttl);
    }
}

/// Size eviction to a positive bound keeps the final entry.
proof fn lemma_size_keeps_last(s: Seq<(String, i64)>, max: int)
    requires
        s.len() > 0,
        max >= 1,
    ensures
        size_evicted(s, max).len() >= 1,
        size_evicted(s, max).last() == s.last(),
    decreases s.len(),
{
    if s.len() > max {
        assert(s.drop_first().last() == s.last());
        lemma_size_keeps_last(s.drop_first(), max);
    }
}

/// The cache as ghost data: each entry's key text and timestamp.
pub open spec fn cache_view(entries: Seq<(String, i64)>) -> Seq<(Seq<char>, i64)> {
    entries.map_values(|e: (String, i64)| (e.0@, e.1))
}

proof fn lemma_cache_view_drop_first(s: Seq<(String, i64)>)
    requires
        s.len() > 0,
    ensures
        cache_view(s).drop_first() == cache_view(s.drop_first()),
{
    assert(cache_view(s).drop_first() =~= cache_view(s.drop_first()));
}

proof fn lemma_view_expire(s: Seq<(String, i64)>, now: i64, ttl: i64)
    ensures
        cache_view(expire_evicted(s, now, ttl)) == vexpire_evicted(cache_view(s), now, ttl),
    decreases s.len(),
{
    if s.len() > 0 && now - s[0].1 > ttl {
        lemma_cache_view_drop_first(s);
        lemma_view_expire(s.drop_first(), now, ttl);
    }
}

proof fn lemma_view_size(s: Seq<(String, i64)>, max: int)
    ensures
        cache_view(size_evicted(s, max)) == vsize_evicted(cache_view(s), max),
    decreases s.len(),
{
    if s.len() > max && s.len() > 0 {
        lemma_cache_view_drop_first(s);
        lemma_view_size(s.drop_first(), max);
    }
}

proof fn lemma_view_key_removed(s: Seq<(String, i64)>, k: Seq<char>)
    ensures
        cache_view(key_removed(s, k)) == vkey_removed(cache_view(s), k),
    decreases s.len(),
{
    if s.len() == 0 {
        assert(cache_view(key_removed(s, k)) =~= vkey_removed(cache_view(s), k));
    } else {
        lemma_cache_view_drop_first(s);
        lemma_view_key_removed(s.drop_first(), k);
        assert(cache_view(key_removed(s, k)) =~= vkey_removed(cache_view(s), k));
    }
}

proof fn lemma_view_push(s: Seq<(String, i64)>, e: (String, i64))
    ensures
        cache_view(s.push(e)) == cache_view(s).push((e.0@, e.1)),
{
    assert(cache_view(s.push(e)) =~= cache_view(s).push((e.0@, e.1)));
}

/// Ghost-level expiry eviction: the suffix left after dropping expired
/// entries from the front.
pub open spec fn vexpire_evicted(s: Seq<(Seq<char>, i64)>, now: i64, ttl: i64) -> Seq<
    (Seq<char>, i64),
>
    decreases s.len(),
{
    if s.len() > 0 && now - s[0].1 > ttl {
        vexpire_evicted(s.drop_first(), now, ttl)
    } else {
        s
    }
}

/// Ghost-level size eviction: the suffix of at most `max` entries.
pub open spec fn vsize_evicted(s: Seq<(Seq<char>, i64)>, max: int) -> Seq<(Seq<char>, i64)>
    decreases s.len(),
{
    if s.len() > max && s.len() > 0 {
        vsize_evicted(s.drop_first(), max)
    } else {
        s
    }
}

/// Ghost-level removal of any entry keyed `k`.
pub open spec fn vkey_removed(s: Seq<(Seq<char>, i64)>, k: Seq<char>) -> Seq<(Seq<char>, i64)>
    decreases s.len(),
{
    if s.len() == 0 {
        Seq::empty()
    } else if s[0].0 == k {
        vkey_removed(s.drop_first(), k)
    } else {
        seq![s[0]] + vkey_removed(s.drop_first(), k)
    }
}

/// A probe for `k` at `now` hits: after expiry eviction some entry holds `k`
/// with a timestamp within the TTL.
pub open spec fn vdedupe_hit(s: Seq<(Seq<char>, i64)>, k: Seq<char>, now: i64, ttl: i64) -> bool {
    exists|i: int|
        {
            &&& 0 <= i < vexpire_evicted(s, now, ttl).len()
            &&& (#[trigger] vexpire_evicted(s, now, ttl)[i]).0 == k
            &&& now - vexpire_evicted(s, now, ttl)[i].1 <= ttl
        }
}

proof fn lemma_view_hit(s: Seq<(String, i64)>, k: Seq<char>, now: i64, ttl: i64)
    ensures
        dedupe_hit(s, k, now, ttl) == vdedupe_hit(cache_view(s), k, now, ttl),
{
    lemma_view_expire(s, now, ttl);
    let e = expire_evicted(s, now, ttl);
    let ve = vexpire_evicted(cache_view(s), now, ttl);
    assert(ve == cache_view(e));
    if dedupe_hit(s, k, now, ttl) {
        let w = choose|w: int|
            0 <= w < e.len() && (#[trigger] e[w]).0@ == k && now - e[w].1 <= ttl;
        assert(ve[w].0 == k && now - ve[w].1 <= ttl);
    }
    if vdedupe_hit(cache_view(s), k, now, ttl) {
        let w = choose|w: int|
            0 <= w < ve.len() && (#[trigger] ve[w]).0 == k && now - ve[w].1 <= ttl;
        assert(e[w].0@ == k && now - e[w].1 <= ttl);
    }
}

/// The cache after a missed probe for `k` at `now`, at the ghost level:
/// expired entries evicted, the stale entry for `k` dropped, `(k, now)`
/// appended, the size bound enforced.
pub open spec fn vdedupe_missed(
    s: Seq<(Seq<char>, i64)>,
    k: Seq<char>,
    now: i64,
    ttl: i64,
    max: int,
) -> Seq<(Seq<char>, i64)> {
    vsize_evicted(vkey_removed(vexpire_evicted(s, now, ttl), k).push((k, now)), max)
}

/// A probe for `k` at `now` hits: after expiry eviction some entry holds `k`
/// with a timestamp within the TTL.
pub open spec fn dedupe_hit(s: Seq<(String, i64)>, k: Seq<char>, now: i64, ttl: i64) -> bool {
    exists|i: int|
        {
            &&& 0 <= i < expire_evicted(s, now, ttl).len()
            &&& (#[trigger] expire_evicted(s, now, ttl)[i]).0@ == k
            &&& now - expire_evicted(s, now, ttl)[i].1 <= ttl
        }
}

/// The deduplication cache: keys with the time each was accepted, oldest
/// first, each key at most once, timestamps never negative.
#[derive(Debug)]
pub struct DedupeCache {
    pub entries: Vec<(String, i64)>,
}

impl DedupeCache {
    /// Each key is recorded once; every timestamp is non-negative.
    pub open spec fn wf(&self) -> bool {
        &&& forall|i: int, j: int|
            0 <= i < j < self.entries@.len() ==> self.entries@[i].0@ != self.entries@[j].0@
        &&& forall|i: int| 0 <= i < self.entries@.len() ==> (#[trigger] self.entries@[i]).1 >= 0
    }

    /// The empty cache.
    pub fn new() -> (r: Self)
        ensures
            r.wf(),
            r.entries@.len() == 0,
    {
        DedupeCache { entries: Vec::new() }
    }

    /// Probe the cache: `true` when `key` was accepted within `ttl_secs` of
    /// `now` — the repeat is reported and the cache only loses expired
    /// entries. `false` records the key at `now` and enforces the size bound
    /// `max_entries` (held at 128 at least).
    pub fn seen(&mut self, key: &str, now: i64, ttl_secs: i64, max_entries: usize) -> (r: bool)
        requires
            old(self).wf(),
            now >= 0,
        ensures
            final(self).wf(),
            r == vdedupe_hit(cache_view(old(self).entries@), key@, now, ttl_secs),
            r ==> cache_view(final(self).entries@) == vexpire_evicted(
                cache_view(old(self).entries@),
                now,
                ttl_secs,
            ),
            !r ==> cache_view(final(self).entries@) == vdedupe_missed(
                cache_view(old(self).entries@),
                key@,
                now,
                ttl_secs,
                if max_entries > 128 {
                    max_entries as int
                } else {
                    128
                },
            ),
            !r ==> (final(self).entries@.len() >= 1 && final(self).entries@.last().0@ == key@
                && final(self).entries@.last().1 == now),
    {
        let ghost s0 = self.entries@;
        while self.entries.len() > 0 && now - self.entries[0].1 > ttl_secs
            invariant
                self.wf(),
                now >= 0,
                expire_evicted(self.entries@, now, ttl_secs) == expire_evicted(s0, now, ttl_secs),
            decreases self.entries@.len(),
        {
            let ghost cur = self.entries@;
            self.entries.remove(0);
            proof {
                assert(self.entries@ =~= cur.drop_first());
                assert forall|i: int, j: int|
                    0 <= i < j < self.entries@.len() implies self.entries@[i].0@
                    != self.entries@[j].0@ by {
                    assert(self.entries@[i] == cur[i + 1]);
                    assert(self.entries@[j] == cur[j + 1]);
                }
            }
        }
        let ghost evicted = self.entries@;
        proof {
            assert(expire_evicted(self.entries@, now, ttl_secs) == self.entries@);
            assert(evicted == expire_evicted(s0, now, ttl_secs));
        }
        // Look the key up; each key occurs at most once.
        let count = self.entries.len();
        let mut found: Option<usize> = None;
        for i in 0..count
            invariant
                count == self.entries@.len(),
                self.entries@ == evicted,
                match found {
                    Some(w) => w < count && self.entries@[w as int].0@ == key@,
                    None => forall|j: int| 0 <= j < i ==> (#[trigger] self.entries@[j]).0@ != key@,
                },
        {
            if found.is_none() && text::str_eq(self.entries[i].0.as_str(), key) {
                found = Some(i);
            }
        }
        match found {
            Some(i) => {
                let ts = self.entries[i].1;
                if now - ts <= ttl_secs {
                    proof {
                        assert(dedupe_hit(s0, key@, now, ttl_secs)) by {
                            assert(expire_evicted(s0, now, ttl_secs)[i as int].0@ == key@);
                        }
                        lemma_view_hit(s0, key@, now, ttl_secs);
                        lemma_view_expire(s0, now, ttl_secs);
                    }
                    return true;
                }
                proof {
                    if dedupe_hit(s0, key@, now, ttl_secs) {
                        let w = choose|w: int|
                            0 <= w < expire_evicted(s0, now, ttl_secs).len() && (
                            #[trigger] expire_evicted(s0, now, ttl_secs)[w]).0@ == key@ && now
                                - expire_evicted(s0, now, ttl_secs)[w].1 <= ttl_secs;
                        if w != i {
                            assert(evicted[w].0@ != evicted[i as int].0@);
                        }
                        assert(false);
                    }
                    lemma_key_removed_unique(evicted, key@, i as int);
                }
                self.entries.remove(i);
                proof {
                    assert forall|a: int, b: int|
                        0 <= a < b < self.entries@.len() implies self.entries@[a].0@
                        != self.entries@[b].0@ by {
                        let (a0, b0) = (
                            if a < i {
                                a
                            } else {
                                a + 1
                            },
                            if b < i {
                                b
                            } else {
                                b + 1
                            },
                        );
                        assert(self.entries@[a] == evicted[a0] && self.entries@[b] == evicted[b0]);
                    }
                    assert forall|a: int|
                        0 <= a < self.entries@.len() implies (#[trigger] self.entries@[a]).0@
                        != key@ by {
                        if a < i {
                            assert(self.entries@[a] == evicted[a]);
                        } else {
                            assert(self.entries@[a] == evicted[a + 1]);
                        }
                    }
                }
            },
            None => {
                proof {
                    if dedupe_hit(s0, key@, now, ttl_secs) {
                        let w = choose|w: int|
                            0 <= w < expire_evicted(s0, now, ttl_secs).len() && (
                            #[trigger] expire_evicted(s0, now, ttl_secs)[w]).0@ == key@ && now
                                - expire_evicted(s0, now, ttl_secs)[w].1 <= ttl_secs;
                        assert(evicted[w].0@ == key@);
                        assert(false);
                    }
                    lemma_key_removed_absent(evicted, key@);
                }
            },
        }
        let ghost keyless = self.entries@;
        self.entries.push((String::from_str(key), now));
        proof {
            assert(self.entries@.last().0@ == key@);
            assert(self.entries@.last().1 == now);
            assert(self.entries@ == keyless.push(self.entries@.last()));
            assert forall|a: int, b: int|
                0 <= a < b < self.entries@.len() implies self.entries@[a].0@
                != self.entries@[b].0@ by {
                if b == self.entries@.len() - 1 {
                    assert(self.entries@[a] == keyless[a]);
                    assert(keyless[a].0@ != key@);
                }
            }
        }
        let ghost pushed = self.entries@;
        let max: usize = if max_entries > 128 {
            max_entries
        } else {
            128
        };
        while self.entries.len() > max
            invariant
                max >= 128,
                self.wf(),
                size_evicted(self.entries@, max as int) == size_evicted(pushed, max as int),
                self.entries@.len() >= 1 ==> self.entries@.last() == pushed.last(),
                self.entries@.len() >= 1,
            decreases self.entries@.len(),
        {
            let ghost cur = self.entries@;
            self.entries.remove(0);
            proof {
                assert(self.entries@ =~= cur.drop_first());
                assert forall|a: int, b: int|
                    0 <= a < b < self.entries@.len() implies self.entries@[a].0@
                    != self.entries@[b].0@ by {
                    assert(self.entries@[a] == cur[a + 1]);
                    assert(self.entries@[b] == cur[b + 1]);
                }
            }
        }
        proof {
            assert(size_evicted(self.entries@, max as int) == self.entries@);
            lemma_view_hit(s0, key@, now, ttl_secs);
            lemma_view_expire(s0, now, ttl_secs);
            lemma_view_key_removed(evicted, key@);
            lemma_view_size(pushed, max as int);
            assert(cache_view(pushed) =~= cache_view(keyless).push((key@, now)));
            assert(cache_view(self.entries@) == vdedupe_missed(
                cache_view(s0),
                key@,
                now,
                ttl_secs,
                max as int,
            ));
        }
        false
    }
}

/// Dedupe window: after a missed probe recorded `k` at `t1` (so the cache
/// ends with `(k, t1)`), a probe for the same `k` at any `t2` within the TTL
/// hits.
pub proof fn lemma_dedupe_window(
    entries: Seq<(Seq<char>, i64)>,
    k: Seq<char>,
    t1: i64,
    t2: i64,
    ttl: i64,
)
    requires
        entries.len() >= 1,
        entries.last().0 == k,
        entries.last().1 == t1,
        0 <= t2 - t1 <= ttl,
    ensures
        vdedupe_hit(entries, k, t2, ttl),
{
    lemma_vexpire_keeps_fresh_last(entries, t2, ttl);
    let e = vexpire_evicted(entries, t2, ttl);
    assert(e[e.len() - 1].0 == k && t2 - e[e.len() - 1].1 <= ttl);
}

/// Ghost-level expiry eviction keeps an unexpired final entry.
pub proof fn lemma_vexpire_keeps_fresh_last(s: Seq<(Seq<char>, i64)>, now: i64, ttl: i64)
    requires
        s.len() > 0,
        now - s.last().1 <= ttl,
    ensures
        vexpire_evicted(s, now, ttl).len() >= 1,
        vexpire_evicted(s, now, ttl).last() == s.last(),
    decreases s.len(),
{
    if now - s[0].1 > ttl {
        assert(s.drop_first().last() == s.last());
        lemma_vexpire_keeps_fresh_last(s.drop_first(), now, ttl);
    }
}

/// A miss leaves the probed key freshly recorded at the cache's end.
pub proof fn lemma_missed_records_key(
    s: Seq<(Seq<char>, i64)>,
    k: Seq<char>,
    now: i64,
    ttl: i64,
    max: int,
)
    requires
        max >= 1,
    ensures
        vdedupe_missed(s, k, now, ttl, max).len() >= 1,
        vdedupe_missed(s, k, now, ttl, max).last() == (k, now),
{
    let pushed = vkey_removed(vexpire_evicted(s, now, ttl), k).push((k, now));
    lemma_vsize_keeps_last(pushed, max);
}

proof fn lemma_vsize_keeps_last(s: Seq<(Seq<char>, i64)>, max: int)
    requires
        s.len() > 0,
        max >= 1,
    ensures
        vsize_evicted(s, max).len() >= 1,
        vsize_evicted(s, max).last() == s.last(),
    decreases s.len(),
{
    if s.len() > max {
        assert(s.drop_first().last() == s.last());
        lemma_vsize_keeps_last(s.drop_first(), max);
    }
}

} // verus!
