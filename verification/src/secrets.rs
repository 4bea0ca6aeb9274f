//! The secrets store: API keys and tokens, kept apart from the main
//! configuration, and the masking used when one is shown in a log.

use vstd::prelude::*;

use crate::text;

verus! {

/// Some entry carries key `k`.
pub open spec fn entries_have_key(entries: Seq<(String, String)>, k: Seq<char>) -> bool {
    exists|i: int| 0 <= i < entries.len() && entries[i].0@ == k
}

/// Some entry maps `k` to `v`.
pub open spec fn entries_map(entries: Seq<(String, String)>, k: Seq<char>, v: Seq<char>) -> bool {
    exists|i: int| 0 <= i < entries.len() && entries[i].0@ == k && entries[i].1@ == v
}

/// Key-value pairs of secret names and values. Reading and writing the file
/// that backs it happens outside the library.
#[derive(Debug, Clone)]
pub struct SecretsStore {
    pub secrets: Vec<(String, String)>,
}

impl SecretsStore {
    /// Each key is recorded once.
    pub open spec fn wf(&self) -> bool {
        forall|i: int, j: int|
            0 <= i < j < self.secrets@.len() ==> self.secrets@[i].0@ != self.secrets@[j].0@
    }

    /// The empty store.
    pub fn new() -> (r: Self)
        ensures
            r.wf(),
            r.secrets@.len() == 0,
    {
        SecretsStore { secrets: Vec::new() }
    }

    /// The index of the entry for `key`, if any.
    fn find(&self, key: &str) -> (r: Option<usize>)
        ensures
            match r {
                Some(i) => i < self.secrets@.len() && self.secrets@[i as int].0@ == key@,
                None => !entries_have_key(self.secrets@, key@),
            },
    {
        let count = self.secrets.len();
        for i in 0..count
            invariant
                count == self.secrets.len(),
                forall|j: int| 0 <= j < i ==> self.secrets@[j].0@ != key@,
        {
            if text::str_eq(self.secrets[i].0.as_str(), key) {
                return Some(i);
            }
        }
        None
    }

    /// Get a secret by key.
    pub fn get(&self, key: &str) -> (r: Option<String>)
        ensures
            match r {
                Some(v) => entries_map(self.secrets@, key@, v@),
                None => !entries_have_key(self.secrets@, key@),
            },
    {
        match self.find(key) {
            Some(i) => Some(self.secrets[i].1.clone()),
            None => None,
        }
    }

    /// Set a secret, replacing any entry under the same key.
    pub fn set(&mut self, key: String, value: String)
        requires
            old(self).wf(),
        ensures
            final(self).wf(),
            entries_map(final(self).secrets@, key@, value@),
            forall|i: int|
                0 <= i < final(self).secrets@.len() && final(self).secrets@[i].0@ == key@
                    ==> final(self).secrets@[i].1@ == value@,
            forall|k2: Seq<char>|
                k2 != key@ ==> entries_have_key(final(self).secrets@, k2) == entries_have_key(
                    old(self).secrets@,
                    k2,
                ),
            forall|i: int|
                0 <= i < old(self).secrets@.len() && old(self).secrets@[i].0@ != key@
                    ==> entries_map(
                    final(self).secrets@,
                    old(self).secrets@[i].0@,
                    old(self).secrets@[i].1@,
                ),
    {
        let ghost before = self.secrets@;
        match self.find(key.as_str()) {
            Some(i) => {
                self.secrets.remove(i);
                proof {
                    lemma_remove_keeps_others(before, self.secrets@, i as int, key@);
                }
            },
            None => {
            },
        }
        let ghost mid = self.secrets@;
        self.secrets.push((key, value));
        proof {
            let n = mid.len() as int;
            assert(self.secrets@[n].0@ == key@ && self.secrets@[n].1@ == value@);
            assert forall|k2: Seq<char>|
                k2 != key@ implies entries_have_key(self.secrets@, k2) == entries_have_key(
                before,
                k2,
            ) by {
                if entries_have_key(self.secrets@, k2) {
                    let w = choose|w: int|
                        0 <= w < self.secrets@.len() && self.secrets@[w].0@ == k2;
                    assert(w < n);
                    assert(entries_have_key(mid, k2));
                }
                if entries_have_key(mid, k2) {
                    let w = choose|w: int| 0 <= w < mid.len() && mid[w].0@ == k2;
                    assert(self.secrets@[w].0@ == k2);
                }
            }
            assert forall|i: int|
                0 <= i < before.len() && before[i].0@ != key@ implies entries_map(
                self.secrets@,
                before[i].0@,
                before[i].1@,
            ) by {
                assert(entries_map(mid, before[i].0@, before[i].1@));
                let w = choose|w: int|
                    0 <= w < mid.len() && mid[w].0@ == before[i].0@ && mid[w].1@ == before[i].1@;
                assert(self.secrets@[w] == mid[w]);
            }
        }
    }

    /// Remove a secret, returning its value when it was there.
    pub fn remove(&mut self, key: &str) -> (r: Option<String>)
        requires
            old(self).wf(),
        ensures
            final(self).wf(),
            !entries_have_key(final(self).secrets@, key@),
            forall|k2: Seq<char>|
                k2 != key@ ==> entries_have_key(final(self).secrets@, k2) == entries_have_key(
                    old(self).secrets@,
                    k2,
                ),
            forall|i: int|
                0 <= i < old(self).secrets@.len() && old(self).secrets@[i].0@ != key@
                    ==> entries_map(
                    final(self).secrets@,
                    old(self).secrets@[i].0@,
                    old(self).secrets@[i].1@,
                ),
            match r {
                Some(v) => entries_map(old(self).secrets@, key@, v@),
                None => !entries_have_key(old(self).secrets@, key@),
            },
    {
        let ghost before = self.secrets@;
        match self.find(key) {
            Some(i) => {
                let pair = self.secrets.remove(i);
                proof {
                    lemma_remove_keeps_others(before, self.secrets@, i as int, key@);
                    if entries_have_key(self.secrets@, key@) {
                        let w = choose|w: int|
                            0 <= w < self.secrets@.len() && self.secrets@[w].0@ == key@;
                        if w < i {
                            assert(before[w].0@ == key@);
                        } else {
                            assert(before[w + 1].0@ == key@);
                        }
                        assert(false);
                    }
                }
                Some(pair.1)
            },
            None => None,
        }
    }

    /// Check if a secret exists.
    pub fn has(&self, key: &str) -> (r: bool)
        ensures
            r == entries_have_key(self.secrets@, key@),
    {
        match self.find(key) {
            Some(_) => true,
            None => false,
        }
    }
}

/// Removing index `i` (whose key is `key`, recorded once) keeps every other
/// entry and stays well-formed.
proof fn lemma_remove_keeps_others(
    before: Seq<(String, String)>,
    after: Seq<(String, String)>,
    i: int,
    key: Seq<char>,
)
    requires
        0 <= i < before.len(),
        after == before.remove(i),
        before[i].0@ == key,
        forall|a: int, b: int| 0 <= a < b < before.len() ==> before[a].0@ != before[b].0@,
    ensures
        forall|a: int, b: int| 0 <= a < b < after.len() ==> after[a].0@ != after[b].0@,
        forall|j: int|
            0 <= j < before.len() && before[j].0@ != key ==> entries_map(
                after,
                before[j].0@,
                before[j].1@,
            ),
{
    assert forall|j: int|
        0 <= j < before.len() && before[j].0@ != key implies entries_map(
        after,
        before[j].0@,
        before[j].1@,
    ) by {
        if j < i {
            assert(after[j] == before[j]);
        } else {
            assert(j > i);
            assert(after[j - 1] == before[j]);
        }
    }
}

/// The masked rendering of a secret: `****` alone for short values, else the
/// first four and last four characters around `****`.
pub open spec fn masked(s: Seq<char>) -> Seq<char> {
    if s.len() <= 8 {
        "****"@
    } else {
        s.subrange(0, 4) + "****"@ + s.subrange(s.len() - 4, s.len() as int)
    }
}

/// Mask a secret value for safe display in logs.
pub fn mask_secret(value: &str) -> (r: String)
    ensures
        r@ == masked(value@),
{
    let chars = text::str_chars(value);
    if chars.len() <= 8 {
        return String::from_str("****");
    }
    let mut v = text::subrange_chars(&chars, 0, 4);
    let stars = text::str_chars("****");
    text::push_all(&mut v, &stars);
    let tail = text::subrange_chars(&chars, chars.len() - 4, chars.len());
    text::push_all(&mut v, &tail);
    assert(v@ =~= masked(value@));
    text::chars_to_string(&v)
}

} // verus!
