//! The cron service: persistent scheduled jobs, the due computation, and
//! the tick that turns due jobs into synthetic inbound messages. Reading
//! and writing the job store file, and the ticker itself, happen outside
//! the library.

use vstd::prelude::*;

use crate::bus::Event;
use crate::bus::MessageBus;
use crate::sys;
use crate::text;
use crate::types::Message;
use crate::types::Role;
use crate::types::make_session_key;

verus! {

/// When a job runs: once at a timestamp, or at a fixed interval.
#[derive(Debug)]
pub struct CronSchedule {
    pub kind: String,
    pub at_ms: Option<i64>,
    pub every_ms: Option<i64>,
    pub expr: Option<String>,
}

impl Clone for CronSchedule {
    fn clone(&self) -> (r: Self)
        ensures
            schedule_like(r, *self),
    {
        CronSchedule {
            kind: self.kind.clone(),
            at_ms: self.at_ms,
            every_ms: self.every_ms,
            expr: match &self.expr {
                Some(e) => Some(e.clone()),
                None => None,
            },
        }
    }
}

/// `a` schedules as `b` does.
pub open spec fn schedule_like(a: CronSchedule, b: CronSchedule) -> bool {
    &&& a.kind@ == b.kind@
    &&& a.at_ms == b.at_ms
    &&& a.every_ms == b.every_ms
}

/// `a` delivers as `b` does.
pub open spec fn payload_like(a: CronPayload, b: CronPayload) -> bool {
    &&& a.kind@ == b.kind@
    &&& a.message@ == b.message@
    &&& a.deliver == b.deliver
    &&& opt_str_like(a.channel, b.channel)
    &&& opt_str_like(a.to, b.to)
}

/// `a` records the same run state as `b`.
pub open spec fn state_like(a: CronJobState, b: CronJobState) -> bool {
    &&& a.next_run_at_ms == b.next_run_at_ms
    &&& a.last_run_at_ms == b.last_run_at_ms
    &&& opt_str_like(a.last_status, b.last_status)
    &&& opt_str_like(a.last_error, b.last_error)
}

/// `a` is the same job as `b`, field for field.
pub open spec fn job_like(a: CronJob, b: CronJob) -> bool {
    &&& a.id@ == b.id@
    &&& a.name@ == b.name@
    &&& a.enabled == b.enabled
    &&& schedule_like(a.schedule, b.schedule)
    &&& payload_like(a.payload, b.payload)
    &&& state_like(a.state, b.state)
    &&& a.created_at_ms == b.created_at_ms
    &&& a.updated_at_ms == b.updated_at_ms
    &&& a.delete_after_run == b.delete_after_run
}

/// Both absent, or both present with equal text.
pub open spec fn opt_str_like(a: Option<String>, b: Option<String>) -> bool {
    match (a, b) {
        (Some(x), Some(y)) => x@ == y@,
        (None, None) => true,
        _ => false,
    }
}

/// What a job delivers when it fires.
#[derive(Debug)]
pub struct CronPayload {
    pub kind: String,
    pub message: String,
    pub deliver: bool,
    pub channel: Option<String>,
    pub to: Option<String>,
}

impl Clone for CronPayload {
    fn clone(&self) -> (r: Self)
        ensures
            payload_like(r, *self),
    {
        CronPayload {
            kind: self.kind.clone(),
            message: self.message.clone(),
            deliver: self.deliver,
            channel: match &self.channel {
                Some(c) => Some(c.clone()),
                None => None,
            },
            to: match &self.to {
                Some(t) => Some(t.clone()),
                None => None,
            },
        }
    }
}

/// A job's run state.
#[derive(Debug)]
pub struct CronJobState {
    pub next_run_at_ms: Option<i64>,
    pub last_run_at_ms: Option<i64>,
    pub last_status: Option<String>,
    pub last_error: Option<String>,
}

impl Clone for CronJobState {
    fn clone(&self) -> (r: Self)
        ensures
            state_like(r, *self),
    {
        CronJobState {
            next_run_at_ms: self.next_run_at_ms,
            last_run_at_ms: self.last_run_at_ms,
            last_status: match &self.last_status {
                Some(s) => Some(s.clone()),
                None => None,
            },
            last_error: match &self.last_error {
                Some(e) => Some(e.clone()),
                None => None,
            },
        }
    }
}

/// One scheduled job.
#[derive(Debug)]
pub struct CronJob {
    pub id: String,
    pub name: String,
    pub enabled: bool,
    pub schedule: CronSchedule,
    pub payload: CronPayload,
    pub state: CronJobState,
    pub created_at_ms: i64,
    pub updated_at_ms: i64,
    pub delete_after_run: bool,
}

impl Clone for CronJob {
    fn clone(&self) -> (r: Self)
        ensures
            job_like(r, *self),
    {
        CronJob {
            id: self.id.clone(),
            name: self.name.clone(),
            enabled: self.enabled,
            schedule: self.schedule.clone(),
            payload: self.payload.clone(),
            state: self.state.clone(),
            created_at_ms: self.created_at_ms,
            updated_at_ms: self.updated_at_ms,
            delete_after_run: self.delete_after_run,
        }
    }
}

/// A disabled job never has a next run scheduled.
pub open spec fn job_wf(j: CronJob) -> bool {
    !j.enabled ==> j.state.next_run_at_ms is None
}

/// The persisted job list.
#[derive(Debug)]
pub struct CronStore {
    pub version: i32,
    pub jobs: Vec<CronJob>,
}

impl Default for CronStore {
    fn default() -> (r: Self)
        ensures
            r.version == 1,
            r.jobs@.len() == 0,
    {
        CronStore { version: 1, jobs: Vec::new() }
    }
}

/// The cron service over its in-memory store; the caller persists the
/// store and drives the ticks.
#[derive(Debug)]
pub struct CronService {
    pub store: CronStore,
}

/// The next run a schedule yields from `now`: a future `at` timestamp as it
/// stands; a positive interval from now (held at the clock's maximum);
/// nothing otherwise.
pub open spec fn spec_next_run(schedule: CronSchedule, now: i64) -> Option<i64> {
    if schedule.kind@ == "at"@ {
        match schedule.at_ms {
            Some(at) => if at > now {
                Some(at)
            } else {
                None
            },
            None => None,
        }
    } else if schedule.kind@ == "every"@ {
        match schedule.every_ms {
            Some(e) => if e > 0 {
                if now + e > i64::MAX {
                    Some(i64::MAX)
                } else {
                    Some((now + e) as i64)
                }
            } else {
                None
            },
            None => None,
        }
    } else {
        None
    }
}

/// The enabled jobs of a store, in stored order.
pub open spec fn spec_enabled_jobs(jobs: Seq<CronJob>) -> Seq<CronJob>
    decreases jobs.len(),
{
    if jobs.len() == 0 {
        Seq::empty()
    } else if jobs[0].enabled {
        seq![jobs[0]] + spec_enabled_jobs(jobs.drop_first())
    } else {
        spec_enabled_jobs(jobs.drop_first())
    }
}

proof fn lemma_enabled_jobs_push(jobs: Seq<CronJob>, j: CronJob)
    ensures
        spec_enabled_jobs(jobs.push(j)) == if j.enabled {
            spec_enabled_jobs(jobs).push(j)
        } else {
            spec_enabled_jobs(jobs)
        },
    decreases jobs.len(),
{
    if jobs.len() == 0 {
        assert(jobs.push(j).drop_first() =~= Seq::<CronJob>::empty());
        assert(jobs.push(j)[0] == j);
        assert(spec_enabled_jobs(Seq::<CronJob>::empty()) =~= Seq::<CronJob>::empty());
        if j.enabled {
            assert(spec_enabled_jobs(jobs.push(j)) =~= spec_enabled_jobs(jobs).push(j));
        }
    } else {
        assert(jobs.push(j).drop_first() =~= jobs.drop_first().push(j));
        assert(jobs.push(j)[0] == jobs[0]);
        lemma_enabled_jobs_push(jobs.drop_first(), j);
        if j.enabled {
            assert(spec_enabled_jobs(jobs.push(j)) =~= spec_enabled_jobs(jobs).push(j));
        }
    }
}

/// A job is due at `now`: enabled with its next run arrived.
pub open spec fn job_due(j: CronJob, now: i64) -> bool {
    j.enabled && match j.state.next_run_at_ms {
        Some(next) => next <= now,
        None => false,
    }
}

/// How many of the first `upto` jobs are due.
pub open spec fn due_count(jobs: Seq<CronJob>, now: i64, upto: int) -> int
    decreases upto,
{
    if upto <= 0 {
        0
    } else {
        due_count(jobs, now, upto - 1) + if job_due(jobs[upto - 1], now) {
            1int
        } else {
            0int
        }
    }
}

/// How many of the first `upto` jobs stay after the tick (everything but
/// fired one-shot jobs).
pub open spec fn kept_count(jobs: Seq<CronJob>, now: i64, upto: int) -> int
    decreases upto,
{
    if upto <= 0 {
        0
    } else {
        kept_count(jobs, now, upto - 1) + if job_due(jobs[upto - 1], now)
            && jobs[upto - 1].delete_after_run {
            0int
        } else {
            1int
        }
    }
}

/// The session key a firing job posts under: `cron:` + (payload channel or
/// job id), whitespace dropped.
pub open spec fn spec_cron_session_key(j: CronJob) -> Seq<char> {
    "cron"@ + seq![':'] + crate::types::key_opaque_part(
        match j.payload.channel {
            Some(c) => c@,
            None => j.id@,
        },
    )
}

/// The event a firing of `j` must have appended.
pub open spec fn fired_event_ok(e: Event, j: CronJob) -> bool {
    e matches Event::InboundMessage(m) && m.channel@ == "cron"@ && m.session_key@
        == spec_cron_session_key(j) && m.role is User && m.sender_id@ == "system"@ && m.content@
        == j.payload.message@ && m.metadata@.len() == 1 && m.metadata@[0].0@ == "cron_job_id"@
        && m.metadata@[0].1@ == j.id@
}

/// The events from `base` on record one firing per due job among the first
/// `upto`, in job order.
pub open spec fn fired_events_ok(
    events: Seq<Event>,
    base: int,
    jobs: Seq<CronJob>,
    now: i64,
    upto: int,
) -> bool {
    forall|w: int|
        0 <= w < upto && job_due(#[trigger] jobs[w], now) ==> fired_event_ok(
            events[base + due_count(jobs, now, w)],
            jobs[w],
        )
}

/// The kept list mirrors the first `upto` jobs: fired jobs updated,
/// others unchanged, fired one-shots absent.
pub open spec fn kept_jobs_ok(
    kept: Seq<CronJob>,
    jobs: Seq<CronJob>,
    now: i64,
    upto: int,
) -> bool {
    forall|w: int|
        0 <= w < upto && !(job_due(#[trigger] jobs[w], now) && jobs[w].delete_after_run) ==> ({
            let k = kept[kept_count(jobs, now, w)];
            if job_due(jobs[w], now) {
                job_fired(jobs[w], k, now)
            } else {
                job_like(k, jobs[w])
            }
        })
}

/// `after` is `before` fired at `now`: the run recorded, the next run
/// recomputed, everything else kept.
pub open spec fn job_fired(before: CronJob, after: CronJob, now: i64) -> bool {
    &&& after.id@ == before.id@
    &&& after.name@ == before.name@
    &&& after.enabled == before.enabled
    &&& schedule_like(after.schedule, before.schedule)
    &&& payload_like(after.payload, before.payload)
    &&& after.state.next_run_at_ms == spec_next_run(before.schedule, now)
    &&& after.state.last_run_at_ms == Some(now)
    &&& after.state.last_status matches Some(st) && st@ == "ok"@
    &&& after.state.last_error is None
    &&& after.created_at_ms == before.created_at_ms
    &&& after.updated_at_ms == now
    &&& after.delete_after_run == before.delete_after_run
}

impl CronService {
    /// A service over an already-loaded store.
    pub fn new(store: CronStore) -> (r: Self)
        ensures
            r.store.version == store.version,
            r.store.jobs@ == store.jobs@,
    {
        CronService { store }
    }

    /// Every job of the store is well-formed.
    pub open spec fn wf(&self) -> bool {
        forall|i: int| 0 <= i < self.store.jobs@.len() ==> job_wf(#[trigger] self.store.jobs@[i])
    }

    /// Compute a schedule's next run from `now`.
    pub fn compute_next_run(schedule: &CronSchedule, now: i64) -> (r: Option<i64>)
        requires
            now >= 0,
        ensures
            r == spec_next_run(*schedule, now),
    {
        if text::str_eq(schedule.kind.as_str(), "at") {
            match schedule.at_ms {
                Some(at) => if at > now {
                    Some(at)
                } else {
                    None
                },
                None => None,
            }
        } else if text::str_eq(schedule.kind.as_str(), "every") {
            match schedule.every_ms {
                Some(e) => if e > 0 {
                    if e > i64::MAX - now {
                        Some(i64::MAX)
                    } else {
                        Some(now + e)
                    }
                } else {
                    None
                },
                None => None,
            }
        } else {
            None
        }
    }

    /// Add a job: enabled, scheduled from `now`, its id the decimal clock
    /// reading, an `agent_turn` payload carrying the message and delivery
    /// target, and a fresh run state.
    pub fn add_job(
        &mut self,
        name: String,
        schedule: CronSchedule,
        message: String,
        deliver: bool,
        channel: Option<String>,
        to: Option<String>,
        now: i64,
    ) -> (r: CronJob)
        requires
            old(self).wf(),
            now >= 0,
        ensures
            final(self).wf(),
            final(self).store.jobs@.len() == old(self).store.jobs@.len() + 1,
            final(self).store.jobs@.subrange(0, old(self).store.jobs@.len() as int) == old(self).store.jobs@,
            ({
                let j = final(self).store.jobs@.last();
                &&& j.id@ == text::dec_of_i64(now as int)
                &&& j.name@ == name@
                &&& j.enabled
                &&& schedule_like(j.schedule, schedule)
                &&& j.payload.kind@ == "agent_turn"@
                &&& j.payload.message@ == message@
                &&& j.payload.deliver == deliver
                &&& opt_str_like(j.payload.channel, channel)
                &&& opt_str_like(j.payload.to, to)
                &&& j.state.next_run_at_ms == spec_next_run(schedule, now)
                &&& j.state.last_run_at_ms is None
                &&& j.state.last_status is None
                &&& j.state.last_error is None
                &&& j.created_at_ms == now
                &&& j.updated_at_ms == now
                &&& !j.delete_after_run
                &&& job_like(r, j)
            }),
    {
        let next_run = Self::compute_next_run(&schedule, now);
        let id_chars = text::i64_to_dec_chars(now);
        let id = text::chars_to_string(&id_chars);
        let job = CronJob {
            id,
            name,
            enabled: true,
            schedule,
            payload: CronPayload {
                kind: String::from_str("agent_turn"),
                message,
                deliver,
                channel,
                to,
            },
            state: CronJobState {
                next_run_at_ms: next_run,
                last_run_at_ms: None,
                last_status: None,
                last_error: None,
            },
            created_at_ms: now,
            updated_at_ms: now,
            delete_after_run: false,
        };
        let out = job.clone();
        let ghost before = self.store.jobs@;
        self.store.jobs.push(job);
        proof {
            assert(self.store.jobs@.subrange(0, before.len() as int) =~= before);
            assert forall|i: int| 0 <= i < self.store.jobs@.len() implies job_wf(
                #[trigger] self.store.jobs@[i],
            ) by {
                if i < before.len() {
                    assert(self.store.jobs@[i] == before[i]);
                }
            }
        }
        out
    }

    /// Remove the job with this id; whether one was there comes back.
    pub fn remove_job(&mut self, job_id: &str) -> (removed: bool)
        requires
            old(self).wf(),
        ensures
            final(self).wf(),
            removed == (exists|i: int|
                0 <= i < old(self).store.jobs@.len() && (#[trigger] old(self).store.jobs@[i]).id@ == job_id@),
            forall|i: int|
                0 <= i < final(self).store.jobs@.len() ==> (#[trigger] final(self).store.jobs@[i]).id@ != job_id@,
    {
        let mut kept: Vec<CronJob> = Vec::new();
        let mut removed = false;
        let count = self.store.jobs.len();
        for i in 0..count
            invariant
                count == self.store.jobs@.len(),
                self.wf(),
                removed == (exists|j: int|
                    0 <= j < i && (#[trigger] self.store.jobs@[j]).id@ == job_id@),
                forall|j: int| 0 <= j < kept@.len() ==> job_wf(#[trigger] kept@[j]),
                forall|j: int| 0 <= j < kept@.len() ==> (#[trigger] kept@[j]).id@ != job_id@,
        {
            if text::str_eq(self.store.jobs[i].id.as_str(), job_id) {
                removed = true;
            } else {
                let ghost before = kept@;
                let j = self.store.jobs[i].clone();
                proof {
                    assert(job_wf(self.store.jobs@[i as int]));
                }
                kept.push(j);
                proof {
                    assert forall|w: int| 0 <= w < kept@.len() implies job_wf(
                        #[trigger] kept@[w],
                    ) by {
                        if w < before.len() {
                            assert(kept@[w] == before[w]);
                        } else {
                            assert(!kept@[w].enabled ==> kept@[w].state.next_run_at_ms is None);
                        }
                    }
                }
            }
        }
        self.store.jobs = kept;
        removed
    }

    /// Enable or disable a job: the first job under this id is updated — an
    /// enabled job is rescheduled from `now`, a disabled one loses its next
    /// run, so a disabled job never has one.
    pub fn enable_job(&mut self, job_id: &str, enabled: bool, now: i64) -> (r: Option<CronJob>)
        requires
            old(self).wf(),
            now >= 0,
        ensures
            final(self).wf(),
            (r is Some) == (exists|i: int|
                0 <= i < old(self).store.jobs@.len() && (#[trigger] old(self).store.jobs@[i]).id@
                    == job_id@),
            r is None ==> final(self).store.jobs@ == old(self).store.jobs@,
            r is Some ==> (exists|i: int|
                {
                    &&& 0 <= i < old(self).store.jobs@.len()
                    &&& (#[trigger] old(self).store.jobs@[i]).id@ == job_id@
                    &&& (forall|j: int|
                        0 <= j < i ==> (#[trigger] old(self).store.jobs@[j]).id@ != job_id@)
                    &&& final(self).store.jobs@.len() == old(self).store.jobs@.len()
                    &&& ({
                        let j = final(self).store.jobs@[i];
                        &&& j.id@ == job_id@
                        &&& j.enabled == enabled
                        &&& (enabled ==> j.state.next_run_at_ms == spec_next_run(
                            j.schedule,
                            now,
                        ))
                        &&& (!enabled ==> j.state.next_run_at_ms is None)
                    })
                    &&& (forall|a: int|
                        0 <= a < final(self).store.jobs@.len() && a != i ==> final(self).store.jobs@[a] == old(self).store.jobs@[a])
                }),
    {
        let count = self.store.jobs.len();
        for i in 0..count
            invariant
                count == self.store.jobs@.len(),
                self.store.jobs@ == old(self).store.jobs@,
                self.wf(),
                now >= 0,
                forall|j: int| 0 <= j < i ==> (#[trigger] self.store.jobs@[j]).id@ != job_id@,
        {
            if text::str_eq(self.store.jobs[i].id.as_str(), job_id) {
                let ghost before = self.store.jobs@;
                let mut job = self.store.jobs.remove(i);
                job.enabled = enabled;
                job.updated_at_ms = now;
                if enabled {
                    job.state.next_run_at_ms = Self::compute_next_run(&job.schedule, now);
                } else {
                    job.state.next_run_at_ms = None;
                }
                let out = job.clone();
                self.store.jobs.insert(i, job);
                proof {
                    assert forall|a: int|
                        0 <= a < self.store.jobs@.len() && a != i implies self.store.jobs@[a]
                        == before[a] by {
                        if a < i {
                            assert(before.remove(i as int)[a] == before[a]);
                        } else {
                            assert(before.remove(i as int)[a - 1] == before[a]);
                        }
                    }
                    assert forall|a: int| 0 <= a < self.store.jobs@.len() implies job_wf(
                        #[trigger] self.store.jobs@[a],
                    ) by {
                        if a != i {
                            assert(self.store.jobs@[a] == before[a]);
                        }
                    }
                    assert(schedule_like(
                        self.store.jobs@[i as int].schedule,
                        before[i as int].schedule,
                    ));
                    assert(before[i as int].id@ == job_id@);
                }
                return Some(out);
            }
        }
        proof {
            if exists|i: int|
                0 <= i < old(self).store.jobs@.len() && (#[trigger] old(self).store.jobs@[i]).id@
                    == job_id@ {
                let w = choose|w: int|
                    0 <= w < old(self).store.jobs@.len() && (
                    #[trigger] old(self).store.jobs@[w]).id@ == job_id@;
                assert(false);
            }
        }
        None
    }

    /// The jobs, copied in stored order: every job when disabled ones are
    /// asked for, else exactly the enabled ones.
    pub fn list_jobs(&self, include_disabled: bool) -> (r: Vec<CronJob>)
        ensures
            include_disabled ==> (r@.len() == self.store.jobs@.len() && (forall|i: int|
                0 <= i < r@.len() ==> job_like(#[trigger] r@[i], self.store.jobs@[i]))),
            !include_disabled ==> ({
                let kept = spec_enabled_jobs(self.store.jobs@);
                &&& r@.len() == kept.len()
                &&& forall|i: int| 0 <= i < r@.len() ==> job_like(#[trigger] r@[i], kept[i])
            }),
    {
        let mut out: Vec<CronJob> = Vec::new();
        let count = self.store.jobs.len();
        proof {
            assert(self.store.jobs@.subrange(0, 0) =~= Seq::<CronJob>::empty());
            assert(spec_enabled_jobs(Seq::<CronJob>::empty()) =~= Seq::<CronJob>::empty());
        }
        for i in 0..count
            invariant
                count == self.store.jobs@.len(),
                include_disabled ==> (out@.len() == i && (forall|j: int|
                    0 <= j < out@.len() ==> job_like(#[trigger] out@[j], self.store.jobs@[j]))),
                !include_disabled ==> ({
                    let kept = spec_enabled_jobs(self.store.jobs@.subrange(0, i as int));
                    &&& out@.len() == kept.len()
                    &&& forall|j: int|
                        0 <= j < out@.len() ==> job_like(#[trigger] out@[j], kept[j])
                }),
        {
            let ghost out_before = out@;
            let ghost kept_before = spec_enabled_jobs(self.store.jobs@.subrange(0, i as int));
            if include_disabled || self.store.jobs[i].enabled {
                out.push(self.store.jobs[i].clone());
            }
            proof {
                if !include_disabled {
                    lemma_enabled_jobs_push(
                        self.store.jobs@.subrange(0, i as int),
                        self.store.jobs@[i as int],
                    );
                    assert(self.store.jobs@.subrange(0, i as int).push(
                        self.store.jobs@[i as int],
                    ) =~= self.store.jobs@.subrange(0, i + 1));
                    let kept_after = spec_enabled_jobs(self.store.jobs@.subrange(0, i + 1));
                    if self.store.jobs@[i as int].enabled {
                        assert(kept_after == kept_before.push(self.store.jobs@[i as int]));
                        assert forall|j: int| 0 <= j < out@.len() implies job_like(
                            #[trigger] out@[j],
                            kept_after[j],
                        ) by {
                            if j < out_before.len() {
                                assert(out@[j] == out_before[j]);
                                assert(kept_after[j] == kept_before[j]);
                            } else {
                                assert(kept_after[j] == self.store.jobs@[i as int]);
                            }
                        }
                    } else {
                        assert(kept_after == kept_before);
                    }
                }
            }
        }
        proof {
            assert(self.store.jobs@.subrange(0, count as int) =~= self.store.jobs@);
        }
        out
    }

    /// One tick at `now`: each enabled job whose next run has arrived fires
    /// exactly one synthetic inbound message on the bus (channel `cron`,
    /// session key `cron:` + its payload channel or id, sender `system`,
    /// the payload message as content, the job id as metadata), records the
    /// run, and is rescheduled; fired one-shot jobs are dropped and every
    /// other job is kept unchanged, in order.
    #[verifier::rlimit(100)]
    pub fn tick(&mut self, bus: &mut MessageBus, now: i64)
        requires
            old(self).wf(),
            old(bus).wf(),
            now >= 0,
        ensures
            final(self).wf(),
            final(bus).wf(),
            ({
                let jobs = old(self).store.jobs@;
                let n = jobs.len() as int;
                let base = old(bus).events@.len() as int;
                &&& final(bus).events@.len() == base + due_count(jobs, now, n)
                &&& final(bus).events@.subrange(0, base) == old(bus).events@
                &&& fired_events_ok(final(bus).events@, base, jobs, now, n)
                &&& final(self).store.jobs@.len() == kept_count(jobs, now, n)
                &&& kept_jobs_ok(final(self).store.jobs@, jobs, now, n)
            }),
    {
        let count = self.store.jobs.len();
        let mut kept: Vec<CronJob> = Vec::new();
        let ghost jobs0 = self.store.jobs@;
        let ghost base = bus.events@.len() as int;
        for i in 0..count
            invariant
                count == self.store.jobs@.len(),
                self.store.jobs@ == jobs0,
                self.wf(),
                bus.wf(),
                now >= 0,
                bus.events@.len() == base + due_count(jobs0, now, i as int),
                base == old(bus).events@.len() as int,
                bus.events@.subrange(0, base) == old(bus).events@,
                fired_events_ok(bus.events@, base, jobs0, now, i as int),
                kept@.len() == kept_count(jobs0, now, i as int),
                forall|j: int| 0 <= j < kept@.len() ==> job_wf(#[trigger] kept@[j]),
                kept_jobs_ok(kept@, jobs0, now, i as int),
        {
            let mut job = self.store.jobs[i].clone();
            proof {
                assert(job_wf(jobs0[i as int]));
            }
            let due = job.enabled && match job.state.next_run_at_ms {
                Some(next) => next <= now,
                None => false,
            };
            let ghost events_before = bus.events@;
            let ghost kept_before = kept@;
            if due {
                let target: &String = match &job.payload.channel {
                    Some(ch) => ch,
                    None => &job.id,
                };
                let session_key = make_session_key("cron", target.as_str());
                proof {
                    reveal_strlit("cron");
                    assert(crate::types::valid_session_key(session_key@)) by {
                        assert(forall|j: int|
                            0 <= j < "cron"@.len() ==> crate::types::is_key_prefix_char(
                                #[trigger] "cron"@[j],
                            ));
                    }
                    assert(session_key@ == spec_cron_session_key(jobs0[i as int]));
                }
                let mut msg = Message::new(
                    "cron",
                    session_key.as_str(),
                    Role::User,
                    job.payload.message.as_str(),
                ).with_sender("system");
                msg.insert_metadata(String::from_str("cron_job_id"), job.id.clone());
                bus.publish(Event::InboundMessage(msg));
                job.state.last_status = Some(String::from_str("ok"));
                job.state.last_error = None;
                job.state.last_run_at_ms = Some(now);
                job.updated_at_ms = now;
                job.state.next_run_at_ms = Self::compute_next_run(&job.schedule, now);
                proof {
                    lemma_due_count_nonneg(jobs0, now, i as int);
                    assert(bus.events@.subrange(0, base) =~= events_before.subrange(0, base));
                    assert(fired_event_ok(
                        bus.events@[base + due_count(jobs0, now, i as int)],
                        jobs0[i as int],
                    ));
                    assert forall|w: int|
                        0 <= w < i + 1 && job_due(#[trigger] jobs0[w], now) implies fired_event_ok(
                        bus.events@[base + due_count(jobs0, now, w)],
                        jobs0[w],
                    ) by {
                        if w < i {
                            lemma_due_count_nonneg(jobs0, now, w);
                            lemma_due_count_monotone(jobs0, now, w, i as int);
                            assert(base + due_count(jobs0, now, w) < events_before.len());
                            assert(bus.events@[base + due_count(jobs0, now, w)]
                                == events_before[base + due_count(jobs0, now, w)]);
                        }
                    }
                }
                if !job.delete_after_run {
                    kept.push(job);
                    proof {
                        assert forall|j: int| 0 <= j < kept@.len() implies job_wf(
                            #[trigger] kept@[j],
                        ) by {
                            if j < kept_before.len() {
                                assert(kept@[j] == kept_before[j]);
                            } else {
                                assert(kept@[j].enabled);
                            }
                        }
                        assert(job_fired(jobs0[i as int], kept@.last(), now));
                    }
                }
            } else {
                kept.push(job);
                proof {
                    assert forall|j: int| 0 <= j < kept@.len() implies job_wf(
                        #[trigger] kept@[j],
                    ) by {
                        if j < kept_before.len() {
                            assert(kept@[j] == kept_before[j]);
                        } else {
                            assert(!kept@[j].enabled ==> kept@[j].state.next_run_at_ms is None);
                        }
                    }
                    assert(job_like(kept@.last(), jobs0[i as int]));
                }
            }
            proof {
                assert forall|w: int|
                    0 <= w < i + 1 && !(job_due(#[trigger] jobs0[w], now)
                        && jobs0[w].delete_after_run) implies ({
                    let k = kept@[kept_count(jobs0, now, w)];
                    if job_due(jobs0[w], now) {
                        job_fired(jobs0[w], k, now)
                    } else {
                        job_like(k, jobs0[w])
                    }
                }) by {
                    if w < i {
                        lemma_kept_count_nonneg(jobs0, now, w);
                        lemma_kept_count_monotone(jobs0, now, w, i as int);
                        assert(kept_count(jobs0, now, w) < kept_before.len());
                        assert(kept@[kept_count(jobs0, now, w)] == kept_before[kept_count(
                            jobs0,
                            now,
                            w,
                        )]);
                    } else {
                        assert(kept_count(jobs0, now, w) == kept_before.len());
                        assert(kept@[kept_count(jobs0, now, w)] == kept@.last());
                    }
                }
            }
        }
        self.store.jobs = kept;
        proof {
            assert(final(bus).events@.subrange(0, base) =~= old(bus).events@);
        }
    }
}

proof fn lemma_due_count_nonneg(jobs: Seq<CronJob>, now: i64, upto: int)
    requires
        upto >= 0,
    ensures
        due_count(jobs, now, upto) >= 0,
    decreases upto,
{
    if upto > 0 {
        lemma_due_count_nonneg(jobs, now, upto - 1);
    }
}

proof fn lemma_kept_count_nonneg(jobs: Seq<CronJob>, now: i64, upto: int)
    requires
        upto >= 0,
    ensures
        kept_count(jobs, now, upto) >= 0,
    decreases upto,
{
    if upto > 0 {
        lemma_kept_count_nonneg(jobs, now, upto - 1);
    }
}

proof fn lemma_due_count_monotone(jobs: Seq<CronJob>, now: i64, a: int, b: int)
    requires
        0 <= a <= b,
    ensures
        due_count(jobs, now, a) <= due_count(jobs, now, b),
        job_due(jobs[a], now) && a < b ==> due_count(jobs, now, a) < due_count(jobs, now, b),
    decreases b - a,
{
    if a < b {
        lemma_due_count_monotone(jobs, now, a, b - 1);
        if a < b - 1 {
        } else {
        }
    }
}

proof fn lemma_kept_count_monotone(jobs: Seq<CronJob>, now: i64, a: int, b: int)
    requires
        0 <= a <= b,
    ensures
        kept_count(jobs, now, a) <= kept_count(jobs, now, b),
        !(job_due(jobs[a], now) && jobs[a].delete_after_run) && a < b ==> kept_count(
            jobs,
            now,
            a,
        ) < kept_count(jobs, now, b),
    decreases b - a,
{
    if a < b {
        lemma_kept_count_monotone(jobs, now, a, b - 1);
    }
}

/// The default location of the persisted job store, under the user's home
/// directory (or the working directory when the platform names none).
pub fn get_cron_store_path() -> (r: String)
    ensures
        exists|h: Seq<char>| r@ == h + "/.phoneclaw/cron/jobs.json"@,
{
    let home = match sys::home_dir_string() {
        Some(h) => h,
        None => String::from_str("."),
    };
    let mut r = home;
    let ghost h = r@;
    r.append("/.phoneclaw/cron/jobs.json");
    proof {
        assert(r@ == h + "/.phoneclaw/cron/jobs.json"@);
    }
    r
}

} // verus!
