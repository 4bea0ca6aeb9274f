//! The session store and manager: per-key message history in insertion
//! order, the optional summary, trimming, and the summarization cadence.
//! Durable persistence happens outside the library; this is the store the
//! agent reads and writes.

use vstd::prelude::*;

use crate::text;
use crate::types::Message;
use crate::types::message_like;

verus! {

/// History length from which a session is summarized.
pub const SUMMARIZE_THRESHOLD: usize = 30;

/// Minimum pause between two summarizations of one session, milliseconds.
pub const SUMMARIZE_MIN_INTERVAL_MS: i64 = 300000;

/// How many messages a trim keeps after a summarization.
pub const TRIM_KEEP: usize = 10;

/// One session: its message history in insertion order, its summary, and
/// its lifecycle timestamps.
#[derive(Debug)]
pub struct SessionRecord {
    pub history: Vec<Message>,
    pub summary: Option<String>,
    pub created_at_ms: i64,
    pub updated_at_ms: i64,
}

/// A listing row: one session with its message count.
#[derive(Debug)]
pub struct SessionInfo {
    pub session_key: String,
    pub summary: Option<String>,
    pub created_at_ms: i64,
    pub updated_at_ms: i64,
    pub message_count: usize,
}

/// The session store and manager: sessions keyed by session key, created
/// lazily, plus the in-memory record of when each was last summarized.
#[derive(Debug)]
pub struct SessionManager {
    pub sessions: Vec<(String, SessionRecord)>,
    pub last_summarized: Vec<(String, i64)>,
}

impl SessionManager {
    /// Session keys are unique, and so are the summarization records.
    pub open spec fn wf(&self) -> bool {
        &&& forall|i: int, j: int|
            0 <= i < j < self.sessions@.len() ==> self.sessions@[i].0@ != self.sessions@[j].0@
        &&& forall|i: int, j: int|
            0 <= i < j < self.last_summarized@.len() ==> self.last_summarized@[i].0@
                != self.last_summarized@[j].0@
        &&& forall|i: int|
            0 <= i < self.last_summarized@.len() ==> (#[trigger] self.last_summarized@[i]).1 >= 0
    }

    /// Some session carries this key.
    pub open spec fn has_session(&self, key: Seq<char>) -> bool {
        exists|i: int| 0 <= i < self.sessions@.len() && (#[trigger] self.sessions@[i]).0@ == key
    }

    /// The empty store.
    pub fn new() -> (r: Self)
        ensures
            r.wf(),
            r.sessions@.len() == 0,
            r.last_summarized@.len() == 0,
    {
        SessionManager { sessions: Vec::new(), last_summarized: Vec::new() }
    }

    /// The index of the session under `key`, if any.
    fn find(&self, key: &str) -> (r: Option<usize>)
        ensures
            match r {
                Some(i) => i < self.sessions@.len() && self.sessions@[i as int].0@ == key@,
                None => !self.has_session(key@),
            },
    {
        let count = self.sessions.len();
        for i in 0..count
            invariant
                count == self.sessions.len(),
                forall|j: int| 0 <= j < i ==> (#[trigger] self.sessions@[j]).0@ != key@,
        {
            if text::str_eq(self.sessions[i].0.as_str(), key) {
                return Some(i);
            }
        }
        None
    }

    /// Create the session when it is missing: idempotent, empty history.
    pub fn ensure_session(&mut self, key: &str, now_ms: i64) -> (idx: usize)
        requires
            old(self).wf(),
        ensures
            final(self).wf(),
            idx < final(self).sessions@.len(),
            final(self).sessions@[idx as int].0@ == key@,
            old(self).has_session(key@) ==> final(self).sessions@ == old(self).sessions@,
            !old(self).has_session(key@) ==> ({
                let before = old(self).sessions@;
                let after = final(self).sessions@;
                &&& after.len() == before.len() + 1
                &&& after.subrange(0, before.len() as int) == before
                &&& after.last().0@ == key@
                &&& after.last().1.history@.len() == 0
                &&& after.last().1.summary is None
            }),
            final(self).last_summarized@ == old(self).last_summarized@,
    {
        match self.find(key) {
            Some(i) => i,
            None => {
                let n = self.sessions.len();
                self.sessions.push(
                    (
                        String::from_str(key),
                        SessionRecord {
                            history: Vec::new(),
                            summary: None,
                            created_at_ms: now_ms,
                            updated_at_ms: now_ms,
                        },
                    ),
                );
                proof {
                    assert forall|a: int, b: int|
                        0 <= a < b < self.sessions@.len() implies self.sessions@[a].0@
                        != self.sessions@[b].0@ by {
                        if b == self.sessions@.len() - 1 {
                            assert(self.sessions@[a] == old(self).sessions@[a]);
                        }
                    }
                    assert(self.sessions@.subrange(0, n as int) =~= old(self).sessions@);
                }
                n
            },
        }
    }

    /// Append a message to the session's history (creating the session when
    /// needed) and bump its update timestamp. Insertion order is the
    /// history's order.
    pub fn add_message(&mut self, key: &str, message: Message, now_ms: i64)
        requires
            old(self).wf(),
        ensures
            final(self).wf(),
            exists|i: int|
                {
                    &&& 0 <= i < final(self).sessions@.len()
                    &&& (#[trigger] final(self).sessions@[i]).0@ == key@
                    &&& final(self).sessions@[i].1.history@ == if old(self).has_session(key@) {
                        old(self).sessions@[i].1.history@.push(message)
                    } else {
                        seq![message]
                    }
                    &&& final(self).sessions@[i].1.updated_at_ms == now_ms
                    &&& (old(self).has_session(key@) ==> final(self).sessions@[i].1.summary == old(self).sessions@[i].1.summary)
                },
            forall|i: int|
                0 <= i < final(self).sessions@.len() && (#[trigger] final(self).sessions@[i]).0@
                    != key@ ==> i < old(self).sessions@.len() && final(self).sessions@[i] == old(self).sessions@[i],
            final(self).last_summarized@ == old(self).last_summarized@,
    {
        let idx = self.ensure_session(key, now_ms);
        let ghost mid = self.sessions@;
        let mut pair = self.sessions.remove(idx);
        pair.1.history.push(message);
        pair.1.updated_at_ms = now_ms;
        self.sessions.insert(idx, pair);
        proof {
            assert forall|a: int| 0 <= a < self.sessions@.len() && a != idx implies self.sessions@[a]
                == mid[a] by {
                if a < idx {
                    assert(mid.remove(idx as int)[a] == mid[a]);
                } else {
                    assert(mid.remove(idx as int)[a - 1] == mid[a]);
                }
            }
            assert(self.sessions@[idx as int].0@ == key@);
            assert forall|a: int, b: int|
                0 <= a < b < self.sessions@.len() implies self.sessions@[a].0@
                != self.sessions@[b].0@ by {
                assert(self.sessions@[a].0@ == mid[a].0@);
                assert(self.sessions@[b].0@ == mid[b].0@);
            }
            assert forall|i: int|
                0 <= i < self.sessions@.len() && (#[trigger] self.sessions@[i]).0@ != key@
                    implies i < old(self).sessions@.len() && self.sessions@[i] == old(self).sessions@[i] by {
                assert(self.sessions@[i] == mid[i]);
                if old(self).has_session(key@) {
                } else {
                    if i == old(self).sessions@.len() as int {
                        assert(mid[i].0@ == key@);
                    } else {
                        assert(mid[i] == old(self).sessions@.subrange(
                            0,
                            old(self).sessions@.len() as int,
                        )[i]);
                    }
                }
            }
        }
    }

    /// The oldest `limit` messages of the session, in insertion order;
    /// empty when the session does not exist.
    pub fn get_history(&self, key: &str, limit: usize) -> (r: Vec<Message>)
        requires
            self.wf(),
        ensures
            !self.has_session(key@) ==> r@.len() == 0,
            forall|i: int|
                0 <= i < self.sessions@.len() && (#[trigger] self.sessions@[i]).0@ == key@ ==> ({
                    let h = self.sessions@[i].1.history@;
                    &&& r@.len() == if h.len() <= limit {
                        h.len() as int
                    } else {
                        limit as int
                    }
                    &&& forall|k: int| 0 <= k < r@.len() ==> message_like(#[trigger] r@[k], h[k])
                }),
    {
        match self.find(key) {
            None => Vec::new(),
            Some(i) => {
                let rec = &self.sessions[i].1;
                let take = if rec.history.len() <= limit {
                    rec.history.len()
                } else {
                    limit
                };
                let mut out: Vec<Message> = Vec::new();
                for k in 0..take
                    invariant
                        i < self.sessions@.len(),
                        take <= self.sessions@[i as int].1.history@.len(),
                        rec == &self.sessions@[i as int].1,
                        out@.len() == k,
                        forall|w: int|
                            0 <= w < k ==> message_like(
                                #[trigger] out@[w],
                                self.sessions@[i as int].1.history@[w],
                            ),
                {
                    out.push(rec.history[k].clone());
                }
                proof {
                    assert forall|w: int|
                        0 <= w < self.sessions@.len() && (#[trigger] self.sessions@[w]).0@ == key@
                        implies w == i as int by {
                        if w != i as int {
                            assert(self.sessions@[w].0@ != self.sessions@[i as int].0@);
                        }
                    }
                }
                out
            },
        }
    }

    /// The session's summary, when set.
    pub fn get_summary(&self, key: &str) -> (r: Option<String>)
        requires
            self.wf(),
        ensures
            !self.has_session(key@) ==> r is None,
            forall|i: int|
                0 <= i < self.sessions@.len() && (#[trigger] self.sessions@[i]).0@ == key@
                    ==> match (r, self.sessions@[i].1.summary) {
                    (Some(a), Some(b)) => a@ == b@,
                    (None, None) => true,
                    _ => false,
                },
    {
        match self.find(key) {
            None => None,
            Some(i) => {
                proof {
                    assert forall|w: int|
                        0 <= w < self.sessions@.len() && (#[trigger] self.sessions@[w]).0@ == key@
                        implies w == i as int by {
                        if w != i as int {
                            assert(self.sessions@[w].0@ != self.sessions@[i as int].0@);
                        }
                    }
                }
                match &self.sessions[i].1.summary {
                    Some(s) => Some(s.clone()),
                    None => None,
                }
            },
        }
    }

    /// Set the session's summary (creating the session when needed) and
    /// bump its update timestamp. A summary, once set, is never dropped
    /// while the session exists.
    pub fn set_summary(&mut self, key: &str, summary: String, now_ms: i64)
        requires
            old(self).wf(),
        ensures
            final(self).wf(),
            exists|i: int|
                {
                    &&& 0 <= i < final(self).sessions@.len()
                    &&& (#[trigger] final(self).sessions@[i]).0@ == key@
                    &&& final(self).sessions@[i].1.summary matches Some(s) && s@ == summary@
                    &&& final(self).sessions@[i].1.updated_at_ms == now_ms
                },
            forall|i: int|
                0 <= i < final(self).sessions@.len() && (#[trigger] final(self).sessions@[i]).0@
                    != key@ ==> i < old(self).sessions@.len() && final(self).sessions@[i] == old(self).sessions@[i],
            final(self).last_summarized@ == old(self).last_summarized@,
    {
        let idx = self.ensure_session(key, now_ms);
        let ghost mid = self.sessions@;
        let mut pair = self.sessions.remove(idx);
        pair.1.summary = Some(summary);
        pair.1.updated_at_ms = now_ms;
        self.sessions.insert(idx, pair);
        proof {
            assert forall|a: int| 0 <= a < self.sessions@.len() && a != idx implies self.sessions@[a]
                == mid[a] by {
                if a < idx {
                    assert(mid.remove(idx as int)[a] == mid[a]);
                } else {
                    assert(mid.remove(idx as int)[a - 1] == mid[a]);
                }
            }
            assert(self.sessions@[idx as int].0@ == key@);
            assert forall|a: int, b: int|
                0 <= a < b < self.sessions@.len() implies self.sessions@[a].0@
                != self.sessions@[b].0@ by {
                assert(self.sessions@[a].0@ == mid[a].0@);
                assert(self.sessions@[b].0@ == mid[b].0@);
            }
            assert forall|i: int|
                0 <= i < self.sessions@.len() && (#[trigger] self.sessions@[i]).0@ != key@
                    implies i < old(self).sessions@.len() && self.sessions@[i] == old(self).sessions@[i] by {
                assert(self.sessions@[i] == mid[i]);
                if !old(self).has_session(key@) {
                    if i == old(self).sessions@.len() as int {
                        assert(mid[i].0@ == key@);
                    } else {
                        assert(mid[i] == old(self).sessions@.subrange(
                            0,
                            old(self).sessions@.len() as int,
                        )[i]);
                    }
                }
            }
        }
    }

    /// Delete all but the `keep` newest messages of the session; the count
    /// deleted comes back. The summary stays.
    pub fn trim_history(&mut self, key: &str, keep: usize) -> (deleted: usize)
        requires
            old(self).wf(),
        ensures
            final(self).wf(),
            !old(self).has_session(key@) ==> (deleted == 0 && final(self).sessions@ == old(self).sessions@),
            forall|i: int|
                0 <= i < old(self).sessions@.len() && (#[trigger] old(self).sessions@[i]).0@
                    == key@ ==> ({
                    let h = old(self).sessions@[i].1.history@;
                    &&& deleted == if h.len() <= keep {
                        0
                    } else {
                        h.len() - keep
                    }
                    &&& final(self).sessions@[i].1.history@ == h.skip(
                        if h.len() <= keep {
                            0
                        } else {
                            h.len() - keep
                        },
                    )
                    &&& final(self).sessions@[i].1.summary == old(self).sessions@[i].1.summary
                    &&& final(self).sessions@[i].0@ == key@
                }),
            forall|i: int|
                0 <= i < old(self).sessions@.len() && (#[trigger] old(self).sessions@[i]).0@
                    != key@ ==> final(self).sessions@[i] == old(self).sessions@[i],
            final(self).sessions@.len() == old(self).sessions@.len(),
            final(self).last_summarized@ == old(self).last_summarized@,
    {
        let idx = match self.find(key) {
            None => {
                return 0;
            },
            Some(i) => i,
        };
        let ghost before = self.sessions@;
        let len = self.sessions[idx].1.history.len();
        if len <= keep {
            proof {
                assert(self.sessions@ =~= before);
                assert(before[idx as int].1.history@.skip(0) =~= before[idx as int].1.history@);
                assert forall|i: int|
                    0 <= i < before.len() && (#[trigger] before[i]).0@ == key@ implies i
                    == idx as int by {
                    if i != idx as int {
                        assert(before[i].0@ != before[idx as int].0@);
                    }
                }
            }
            return 0;
        }
        let deleted = len - keep;
        let mut pair = self.sessions.remove(idx);
        let tail = pair.1.history.split_off(deleted);
        pair.1.history = tail;
        self.sessions.insert(idx, pair);
        proof {
            assert forall|a: int| 0 <= a < self.sessions@.len() && a != idx implies self.sessions@[a]
                == before[a] by {
                if a < idx {
                    assert(before.remove(idx as int)[a] == before[a]);
                } else {
                    assert(before.remove(idx as int)[a - 1] == before[a]);
                }
            }
            assert(self.sessions@[idx as int].1.history@ =~= before[idx as int].1.history@.skip(
                deleted as int,
            ));
            assert forall|a: int, b: int|
                0 <= a < b < self.sessions@.len() implies self.sessions@[a].0@
                != self.sessions@[b].0@ by {
                assert(self.sessions@[a].0@ == before[a].0@);
                assert(self.sessions@[b].0@ == before[b].0@);
            }
            assert forall|i: int|
                0 <= i < before.len() && (#[trigger] before[i]).0@ == key@ implies i
                == idx as int by {
                if i != idx as int {
                    assert(before[i].0@ != before[idx as int].0@);
                }
            }
        }
        deleted
    }

    /// Should this session be summarized now? Only from the threshold
    /// length on, and not again within the minimum interval.
    pub fn should_summarize(&self, key: &str, history_len: usize, now_ms: i64) -> (r: bool)
        requires
            self.wf(),
            now_ms >= 0,
        ensures
            r == (history_len >= SUMMARIZE_THRESHOLD && (forall|i: int|
                0 <= i < self.last_summarized@.len() ==> ((#[trigger] self.last_summarized@[i]).0@
                    == key@ ==> now_ms - self.last_summarized@[i].1
                    >= SUMMARIZE_MIN_INTERVAL_MS))),
    {
        if history_len < SUMMARIZE_THRESHOLD {
            return false;
        }
        let count = self.last_summarized.len();
        for i in 0..count
            invariant
                self.wf(),
                now_ms >= 0,
                count == self.last_summarized@.len(),
                forall|j: int|
                    0 <= j < i ==> ((#[trigger] self.last_summarized@[j]).0@ == key@ ==> now_ms
                        - self.last_summarized@[j].1 >= SUMMARIZE_MIN_INTERVAL_MS),
        {
            if text::str_eq(self.last_summarized[i].0.as_str(), key) {
                let last = self.last_summarized[i].1;
                if now_ms < last || (now_ms - last) < SUMMARIZE_MIN_INTERVAL_MS {
                    return false;
                }
            }
        }
        true
    }

    /// Record that this session was summarized at `now_ms`.
    pub fn mark_summarized(&mut self, key: &str, now_ms: i64)
        requires
            old(self).wf(),
            now_ms >= 0,
        ensures
            final(self).wf(),
            final(self).sessions@ == old(self).sessions@,
            exists|i: int|
                0 <= i < final(self).last_summarized@.len() && (#[trigger] final(self).last_summarized@[i]).0@ == key@ && final(self).last_summarized@[i].1 == now_ms,
            forall|i: int|
                0 <= i < final(self).last_summarized@.len() && (#[trigger] final(self).last_summarized@[i]).0@ == key@ ==> final(self).last_summarized@[i].1 == now_ms,
    {
        let count = self.last_summarized.len();
        let mut found: Option<usize> = None;
        for i in 0..count
            invariant
                count == self.last_summarized@.len(),
                match found {
                    Some(w) => w < count && self.last_summarized@[w as int].0@ == key@,
                    None => forall|j: int|
                        0 <= j < i ==> (#[trigger] self.last_summarized@[j]).0@ != key@,
                },
        {
            if found.is_none() && text::str_eq(self.last_summarized[i].0.as_str(), key) {
                found = Some(i);
            }
        }
        let ghost before = self.last_summarized@;
        match found {
            Some(i) => {
                let name = self.last_summarized[i].0.clone();
                self.last_summarized.remove(i);
                self.last_summarized.insert(i, (name, now_ms));
                proof {
                    assert forall|a: int|
                        0 <= a < self.last_summarized@.len() && a != i implies self.last_summarized@[a]
                        == before[a] by {
                        if a < i {
                            assert(before.remove(i as int)[a] == before[a]);
                        } else {
                            assert(before.remove(i as int)[a - 1] == before[a]);
                        }
                    }
                    assert forall|a: int, b: int|
                        0 <= a < b < self.last_summarized@.len() implies self.last_summarized@[a].0@
                        != self.last_summarized@[b].0@ by {
                        assert(self.last_summarized@[a].0@ == before[a].0@);
                        assert(self.last_summarized@[b].0@ == before[b].0@);
                    }
                    assert(self.last_summarized@[i as int].0@ == key@
                        && self.last_summarized@[i as int].1 == now_ms);
                    assert forall|a: int|
                        0 <= a < self.last_summarized@.len() && (#[trigger] self.last_summarized@[a]).0@
                            == key@ implies self.last_summarized@[a].1 == now_ms by {
                        if a != i {
                            assert(before[a].0@ != before[i as int].0@);
                        }
                    }
                }
            },
            None => {
                self.last_summarized.push((String::from_str(key), now_ms));
                proof {
                    assert(self.last_summarized@[before.len() as int].0@ == key@
                        && self.last_summarized@[before.len() as int].1 == now_ms);
                    assert forall|a: int|
                        0 <= a < self.last_summarized@.len() && (#[trigger] self.last_summarized@[a]).0@
                            == key@ implies self.last_summarized@[a].1 == now_ms by {
                        if a < before.len() {
                            assert(self.last_summarized@[a] == before[a]);
                        }
                    }
                    assert forall|a: int, b: int|
                        0 <= a < b < self.last_summarized@.len() implies self.last_summarized@[a].0@
                        != self.last_summarized@[b].0@ by {
                        if b == self.last_summarized@.len() - 1 {
                            assert(self.last_summarized@[a] == before[a]);
                        }
                    }
                }
            },
        }
    }


    /// List up to `limit` sessions, most recently updated first: each row
    /// reports a distinct session with its message count.
    pub fn list_sessions(&self, limit: usize) -> (r: Vec<SessionInfo>)
        requires
            self.wf(),
        ensures
            r@.len() == if limit <= self.sessions@.len() {
                limit as int
            } else {
                self.sessions@.len() as int
            },
            forall|i: int|
                0 <= i < r@.len() - 1 ==> (#[trigger] r@[i]).updated_at_ms >= r@[i
                    + 1].updated_at_ms,
            forall|i: int|
                0 <= i < r@.len() ==> (exists|j: int|
                    {
                        &&& 0 <= j < self.sessions@.len()
                        &&& (#[trigger] r@[i]).session_key@ == self.sessions@[j].0@
                        &&& r@[i].message_count == self.sessions@[j].1.history@.len()
                        &&& r@[i].updated_at_ms == self.sessions@[j].1.updated_at_ms
                        &&& r@[i].created_at_ms == self.sessions@[j].1.created_at_ms
                    }),
            forall|a: int, b: int|
                0 <= a < b < r@.len() ==> r@[a].session_key@ != r@[b].session_key@,
    {
        let n = self.sessions.len();
        let take = if limit <= n {
            limit
        } else {
            n
        };
        let mut used: Vec<bool> = Vec::new();
        for i in 0..n
            invariant
                used@.len() == i,
                forall|j: int| 0 <= j < i ==> !used@[j],
        {
            used.push(false);
        }
        proof {
            lemma_count_none_used(used@);
        }
        let mut out: Vec<SessionInfo> = Vec::new();
        for round in 0..take
            invariant
                self.wf(),
                take <= n,
                n == self.sessions@.len(),
                used@.len() == n,
                out@.len() == round,
                // Exactly the reported sessions are marked used.
                forall|i: int|
                    0 <= i < out@.len() ==> (exists|j: int|
                        {
                            &&& 0 <= j < n
                            &&& used@[j]
                            &&& (#[trigger] out@[i]).session_key@ == self.sessions@[j].0@
                            &&& out@[i].message_count == self.sessions@[j].1.history@.len()
                            &&& out@[i].updated_at_ms == self.sessions@[j].1.updated_at_ms
                            &&& out@[i].created_at_ms == self.sessions@[j].1.created_at_ms
                        }),
                forall|a: int, b: int|
                    0 <= a < b < out@.len() ==> out@[a].session_key@ != out@[b].session_key@,
                forall|i: int|
                    0 <= i < out@.len() - 1 ==> (#[trigger] out@[i]).updated_at_ms >= out@[i
                        + 1].updated_at_ms,
                // Every session still unused updates no later than the last
                // reported one.
                out@.len() > 0 ==> (forall|j: int|
                    0 <= j < n && !(#[trigger] used@[j]) ==> self.sessions@[j].1.updated_at_ms
                        <= out@.last().updated_at_ms),
                // Used entries count the reported rows.
                count_used(used@) == out@.len(),
        {
            let mut best: Option<usize> = None;
            for j in 0..n
                invariant
                    n == self.sessions@.len(),
                    used@.len() == n,
                    match best {
                        Some(b) => b < n && !used@[b as int] && (forall|k: int|
                            0 <= k < j && !(#[trigger] used@[k])
                                ==> self.sessions@[k].1.updated_at_ms
                                <= self.sessions@[b as int].1.updated_at_ms),
                        None => forall|k: int| 0 <= k < j ==> used@[k],
                    },
            {
                if !used[j] {
                    let better = match best {
                        Some(b) => self.sessions[j].1.updated_at_ms
                            > self.sessions[b].1.updated_at_ms,
                        None => true,
                    };
                    if better {
                        best = Some(j);
                    }
                }
            }
            proof {
                if best is None {
                    lemma_count_all_used(used@);
                    assert(false);
                }
            }
            let b = best.unwrap();
            let record = &self.sessions[b].1;
            let ghost used_before = used@;
            let ghost out_before = out@;
            out.push(
                SessionInfo {
                    session_key: self.sessions[b].0.clone(),
                    summary: match &record.summary {
                        Some(s) => Some(s.clone()),
                        None => None,
                    },
                    created_at_ms: record.created_at_ms,
                    updated_at_ms: record.updated_at_ms,
                    message_count: record.history.len(),
                },
            );
            used[b] = true;
            proof {
                lemma_count_used_set(used_before, b as int);
                assert forall|i: int| 0 <= i < out@.len() implies (exists|j: int|
                    {
                        &&& 0 <= j < n
                        &&& used@[j]
                        &&& (#[trigger] out@[i]).session_key@ == self.sessions@[j].0@
                        &&& out@[i].message_count == self.sessions@[j].1.history@.len()
                        &&& out@[i].updated_at_ms == self.sessions@[j].1.updated_at_ms
                        &&& out@[i].created_at_ms == self.sessions@[j].1.created_at_ms
                    }) by {
                    if i < out_before.len() {
                        assert(out@[i] == out_before[i]);
                        let w = choose|w: int|
                            {
                                &&& 0 <= w < n
                                &&& used_before[w]
                                &&& (#[trigger] out_before[i]).session_key@
                                    == self.sessions@[w].0@
                                &&& out_before[i].message_count
                                    == self.sessions@[w].1.history@.len()
                                &&& out_before[i].updated_at_ms
                                    == self.sessions@[w].1.updated_at_ms
                                &&& out_before[i].created_at_ms
                                    == self.sessions@[w].1.created_at_ms
                            };
                        assert(used@[w]);
                    } else {
                        assert(used@[b as int]);
                        assert(out@[i].session_key@ == self.sessions@[b as int].0@);
                    }
                }
                assert forall|x: int, y: int|
                    0 <= x < y < out@.len() implies out@[x].session_key@
                    != out@[y].session_key@ by {
                    if y == out@.len() - 1 {
                        assert(out@[x] == out_before[x]);
                        let w = choose|w: int|
                            {
                                &&& 0 <= w < n
                                &&& used_before[w]
                                &&& (#[trigger] out_before[x]).session_key@
                                    == self.sessions@[w].0@
                                &&& out_before[x].message_count
                                    == self.sessions@[w].1.history@.len()
                                &&& out_before[x].updated_at_ms
                                    == self.sessions@[w].1.updated_at_ms
                                &&& out_before[x].created_at_ms
                                    == self.sessions@[w].1.created_at_ms
                            };
                        assert(w != b as int);
                        assert(self.sessions@[w].0@ != self.sessions@[b as int].0@);
                    } else {
                        assert(out@[x] == out_before[x] && out@[y] == out_before[y]);
                    }
                }
                assert forall|i: int|
                    0 <= i < out@.len() - 1 implies (#[trigger] out@[i]).updated_at_ms >= out@[i
                    + 1].updated_at_ms by {
                    if i + 1 == out@.len() - 1 {
                        assert(out@[i] == out_before[i]);
                        assert(out@[i + 1].updated_at_ms
                            == self.sessions@[b as int].1.updated_at_ms);
                        assert(out_before.len() > 0);
                        assert(!used_before[b as int]);
                        assert(self.sessions@[b as int].1.updated_at_ms
                            <= out_before.last().updated_at_ms);
                        assert(out@[i] == out_before.last());
                    } else {
                        assert(out@[i] == out_before[i] && out@[i + 1] == out_before[i + 1]);
                    }
                }
                assert forall|j: int|
                    0 <= j < n && !(#[trigger] used@[j])
                        implies self.sessions@[j].1.updated_at_ms
                    <= out@.last().updated_at_ms by {
                    assert(!used_before[j]);
                }
            }
        }
        out
    }

    /// Appending preserves history: after a message is added, every prior
    /// message keeps its place, and a full read returns them all in
    /// insertion order (as `get_history`'s contract then states pointwise).
    pub proof fn lemma_append_preserves_history(h: Seq<Message>, m: Message)
        ensures
            h.push(m).len() == h.len() + 1,
            forall|i: int| 0 <= i < h.len() ==> h.push(m)[i] == h[i],
            h.push(m)[h.len() as int] == m,
    {
    }

    /// Delegate trimming after a summarization: all but the `keep` newest
    /// messages of the session are deleted, the count deleted comes back,
    /// and the summary stays.
    pub fn auto_trim_history(&mut self, key: &str, keep: usize) -> (deleted: usize)
        requires
            old(self).wf(),
        ensures
            final(self).wf(),
            !old(self).has_session(key@) ==> (deleted == 0 && final(self).sessions@ == old(self).sessions@),
            forall|i: int|
                0 <= i < old(self).sessions@.len() && (#[trigger] old(self).sessions@[i]).0@
                    == key@ ==> ({
                    let h = old(self).sessions@[i].1.history@;
                    &&& deleted == if h.len() <= keep {
                        0
                    } else {
                        h.len() - keep
                    }
                    &&& final(self).sessions@[i].1.history@ == h.skip(
                        if h.len() <= keep {
                            0
                        } else {
                            h.len() - keep
                        },
                    )
                    &&& final(self).sessions@[i].1.summary == old(self).sessions@[i].1.summary
                    &&& final(self).sessions@[i].0@ == key@
                }),
            forall|i: int|
                0 <= i < old(self).sessions@.len() && (#[trigger] old(self).sessions@[i]).0@
                    != key@ ==> final(self).sessions@[i] == old(self).sessions@[i],
            final(self).sessions@.len() == old(self).sessions@.len(),
            final(self).last_summarized@ == old(self).last_summarized@,
    {
        self.trim_history(key, keep)
    }
}


/// How many entries are marked used.
pub open spec fn count_used(used: Seq<bool>) -> int
    decreases used.len(),
{
    if used.len() == 0 {
        0
    } else {
        count_used(used.drop_last()) + if used.last() {
            1int
        } else {
            0int
        }
    }
}

proof fn lemma_count_none_used(used: Seq<bool>)
    requires
        forall|j: int| 0 <= j < used.len() ==> !used[j],
    ensures
        count_used(used) == 0,
    decreases used.len(),
{
    if used.len() > 0 {
        lemma_count_none_used(used.drop_last());
    }
}

proof fn lemma_count_all_used(used: Seq<bool>)
    requires
        forall|j: int| 0 <= j < used.len() ==> used[j],
    ensures
        count_used(used) == used.len(),
    decreases used.len(),
{
    if used.len() > 0 {
        lemma_count_all_used(used.drop_last());
    }
}

proof fn lemma_count_used_set(used: Seq<bool>, i: int)
    requires
        0 <= i < used.len(),
        !used[i],
    ensures
        count_used(used.update(i, true)) == count_used(used) + 1,
    decreases used.len(),
{
    if i == used.len() - 1 {
        assert(used.update(i, true).drop_last() =~= used.drop_last());
    } else {
        lemma_count_used_set(used.drop_last(), i);
        assert(used.update(i, true).drop_last() =~= used.drop_last().update(i, true));
        assert(used.update(i, true).last() == used.last());
    }
}

} // verus!
