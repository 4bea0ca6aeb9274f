//! Rolling per-channel health counters: one bucket per minute over a
//! 60-minute window, and the stability classification served by the
//! channel-health endpoint.

use vstd::prelude::*;

use crate::metrics::sat_add;

verus! {

/// The bucket index one step past `c`.
pub open spec fn next_idx(c: int) -> int {
    if c == 59 {
        0
    } else {
        c + 1
    }
}

/// The counter state after stepping forward `delta` minutes: each step moves
/// the cursor one bucket on and zeroes it.
pub open spec fn stepped(b: Seq<u32>, c: int, delta: nat) -> (Seq<u32>, int)
    decreases delta,
{
    if delta == 0 {
        (b, c)
    } else {
        stepped(b.update(next_idx(c), 0u32), next_idx(c), (delta - 1) as nat)
    }
}

proof fn lemma_stepped_unfold_right(b: Seq<u32>, c: int, delta: nat)
    requires
        delta > 0,
        b.len() == 60,
        0 <= c < 60,
    ensures
        stepped(b, c, delta) == (
            stepped(b, c, (delta - 1) as nat).0.update(
                next_idx(stepped(b, c, (delta - 1) as nat).1),
                0u32,
            ),
            next_idx(stepped(b, c, (delta - 1) as nat).1),
        ),
    decreases delta,
{
    if delta == 1 {
        assert(stepped(b.update(next_idx(c), 0u32), next_idx(c), 0nat) == (
            b.update(next_idx(c), 0u32),
            next_idx(c),
        ));
    } else {
        lemma_stepped_unfold_right(b.update(next_idx(c), 0u32), next_idx(c), (delta - 1) as nat);
    }
}

/// The bucket holding the minute `off` steps behind the cursor `c`.
pub open spec fn back_idx(c: int, off: int) -> int {
    if c - off >= 0 {
        c - off
    } else {
        c - off + 60
    }
}

/// The sum of the `take` most recent buckets.
pub open spec fn window_sum(b: Seq<u32>, c: int, take: int) -> int
    decreases take,
{
    if take <= 0 {
        0
    } else {
        window_sum(b, c, take - 1) + b[back_idx(c, take - 1)]
    }
}

/// A rolling 60-minute counter: one bucket per minute, a cursor at the
/// current minute's bucket, and the minute it last observed.
#[derive(Debug, Clone)]
pub struct RollingMinuteCounter {
    pub buckets: Vec<u32>,
    pub cursor: usize,
    pub last_minute: i64,
}

impl RollingMinuteCounter {
    pub open spec fn wf(&self) -> bool {
        self.buckets@.len() == 60 && self.cursor < 60 && 0 <= self.last_minute
    }

    /// A zeroed counter.
    pub fn new() -> (r: Self)
        ensures
            r.wf(),
            r.cursor == 0,
            r.last_minute == 0,
            forall|i: int| 0 <= i < 60 ==> r.buckets@[i] == 0,
    {
        let mut buckets: Vec<u32> = Vec::new();
        for i in 0..60usize
            invariant
                buckets@.len() == i,
                forall|j: int| 0 <= j < i ==> buckets@[j] == 0,
        {
            buckets.push(0);
        }
        RollingMinuteCounter { buckets, cursor: 0, last_minute: 0 }
    }

    /// The minute a millisecond timestamp falls in.
    pub fn minute_index(epoch_ms: i64) -> (r: i64)
        requires
            epoch_ms >= 0,
        ensures
            r == epoch_ms / 60000,
    {
        epoch_ms / 60000
    }

    /// Catch the window up to `now_ms`: the first observation pins the
    /// minute; a gap wider than the window resets the buffer; a shorter gap
    /// steps the cursor forward, zeroing one bucket per elapsed minute.
    pub fn advance_to(&mut self, now_ms: i64)
        requires
            old(self).wf(),
            now_ms >= 0,
        ensures
            final(self).wf(),
            ({
                let now_minute = now_ms / 60000;
                let delta = now_minute - old(self).last_minute;
                if old(self).last_minute == 0 {
                    final(self).buckets@ == old(self).buckets@ && final(self).cursor == old(self).cursor && final(self).last_minute == now_minute
                } else if delta <= 0 {
                    *final(self) == *old(self)
                } else if delta >= 60 {
                    final(self).cursor == 0 && final(self).last_minute == now_minute && (forall|
                        i: int,
                    |
                        0 <= i < 60 ==> final(self).buckets@[i] == 0)
                } else {
                    final(self).buckets@ == stepped(
                        old(self).buckets@,
                        old(self).cursor as int,
                        delta as nat,
                    ).0 && final(self).cursor == stepped(
                        old(self).buckets@,
                        old(self).cursor as int,
                        delta as nat,
                    ).1 && final(self).last_minute == now_minute
                }
            }),
    {
        let now_minute = now_ms / 60000;
        if self.last_minute == 0 {
            self.last_minute = now_minute;
            return ;
        }
        let delta = now_minute - self.last_minute;
        if delta <= 0 {
            return ;
        }
        if delta >= 60 {
            let mut buckets: Vec<u32> = Vec::new();
            for i in 0..60usize
                invariant
                    buckets@.len() == i,
                    forall|j: int| 0 <= j < i ==> buckets@[j] == 0,
            {
                buckets.push(0);
            }
            self.buckets = buckets;
            self.cursor = 0;
            self.last_minute = now_minute;
            return ;
        }
        let ghost b0 = self.buckets@;
        let ghost c0 = self.cursor as int;
        let steps = delta as usize;
        let mut k: usize = 0;
        while k < steps
            invariant
                self.buckets@.len() == 60,
                self.cursor < 60,
                k <= steps,
                steps < 60,
                self.buckets@ == stepped(b0, c0, k as nat).0,
                self.cursor as int == stepped(b0, c0, k as nat).1,
                0 <= c0 < 60,
                b0.len() == 60,
            decreases steps - k,
        {
            proof {
                lemma_stepped_unfold_right(b0, c0, (k + 1) as nat);
            }
            self.cursor = if self.cursor == 59 {
                0
            } else {
                self.cursor + 1
            };
            self.buckets[self.cursor] = 0;
            k = k + 1;
        }
        self.last_minute = now_minute;
    }

    /// Record one observation at `now_ms`: catch the window up, then bump
    /// the current minute's bucket.
    pub fn observe(&mut self, now_ms: i64)
        requires
            old(self).wf(),
            now_ms >= 0,
        ensures
            final(self).wf(),
            final(self).last_minute as int == if old(self).last_minute == 0 || now_ms / 60000 > old(self).last_minute {
                now_ms / 60000
            } else {
                old(self).last_minute as int
            },
            final(self).buckets@[final(self).cursor as int] == sat_add32(
                spec_advanced_buckets(*old(self), now_ms).0[spec_advanced_buckets(
                    *old(self),
                    now_ms,
                ).1],
                1,
            ),
            final(self).cursor == spec_advanced_buckets(*old(self), now_ms).1,
            forall|i: int|
                0 <= i < 60 && i != final(self).cursor ==> final(self).buckets@[i]
                    == spec_advanced_buckets(*old(self), now_ms).0[i],
    {
        self.advance_to(now_ms);
        let c = self.cursor;
        let v = self.buckets[c];
        self.buckets[c] = v.saturating_add(1);
    }

    /// The sum of the most recent `minutes` buckets (clamped to the window),
    /// after catching the window up to `now_ms`.
    pub fn sum_recent_minutes(&mut self, now_ms: i64, minutes: usize) -> (r: u64)
        requires
            old(self).wf(),
            now_ms >= 0,
        ensures
            final(self).wf(),
            final(self).buckets@ == spec_advanced_buckets(*old(self), now_ms).0,
            final(self).cursor as int == spec_advanced_buckets(*old(self), now_ms).1,
            r == window_sum(
                final(self).buckets@,
                final(self).cursor as int,
                if minutes < 1 {
                    1
                } else if minutes > 60 {
                    60
                } else {
                    minutes as int
                },
            ),
    {
        self.advance_to(now_ms);
        let take: usize = if minutes < 1 {
            1
        } else if minutes > 60 {
            60
        } else {
            minutes
        };
        let mut acc: u64 = 0;
        let mut off: usize = 0;
        while off < take
            invariant
                self.buckets@.len() == 60,
                self.cursor < 60,
                take <= 60,
                off <= take,
                acc == window_sum(self.buckets@, self.cursor as int, off as int),
                acc <= off * 0xffff_ffffu64,
            decreases take - off,
        {
            let idx = if self.cursor >= off {
                self.cursor - off
            } else {
                self.cursor + 60 - off
            };
            assert(idx as int == back_idx(self.cursor as int, off as int));
            acc = acc + (self.buckets[idx] as u64);
            off = off + 1;
        }
        acc
    }
}

/// `a + 1`, held at the maximum on overflow.
pub open spec fn sat_add32(a: u32, b: u32) -> u32 {
    if a + b > u32::MAX {
        u32::MAX
    } else {
        (a + b) as u32
    }
}

/// `after` is `before` with one observation at `now_ms` recorded: caught up
/// to the minute, the current bucket bumped, every other bucket as the
/// advance left it.
pub open spec fn counter_observed(
    before: RollingMinuteCounter,
    after: RollingMinuteCounter,
    now_ms: i64,
) -> bool {
    &&& after.last_minute as int == if before.last_minute == 0 || now_ms / 60000
        > before.last_minute {
        now_ms / 60000
    } else {
        before.last_minute as int
    }
    &&& after.cursor as int == spec_advanced_buckets(before, now_ms).1
    &&& after.buckets@[after.cursor as int] == sat_add32(
        spec_advanced_buckets(before, now_ms).0[spec_advanced_buckets(before, now_ms).1],
        1,
    )
    &&& forall|i: int|
        0 <= i < 60 && i != after.cursor ==> after.buckets@[i] == spec_advanced_buckets(
            before,
            now_ms,
        ).0[i]
}

/// The buckets and cursor of a counter after catching up to `now_ms`.
pub open spec fn spec_advanced_buckets(c: RollingMinuteCounter, now_ms: i64) -> (Seq<u32>, int) {
    let now_minute = now_ms / 60000;
    let delta = now_minute - c.last_minute;
    if c.last_minute == 0 || delta <= 0 {
        (c.buckets@, c.cursor as int)
    } else if delta >= 60 {
        (Seq::new(60, |i: int| 0u32), 0)
    } else {
        stepped(c.buckets@, c.cursor as int, delta as nat)
    }
}

/// The stability label of a channel over its recent window: at least five
/// errors is unstable, any error degraded, no traffic idle, else healthy.
pub fn stability_label(errors: u64, inbound: u64, outbound: u64) -> (r: &'static str)
    ensures
        errors >= 5 ==> r@ == "unstable"@,
        0 < errors < 5 ==> r@ == "degraded"@,
        errors == 0 && inbound + outbound == 0 ==> r@ == "idle"@,
        errors == 0 && inbound + outbound > 0 ==> r@ == "healthy"@,
{
    if errors >= 5 {
        "unstable"
    } else if errors > 0 {
        "degraded"
    } else if inbound == 0 && outbound == 0 {
        "idle"
    } else {
        "healthy"
    }
}

/// The adapter status of a channel: configured with a native adapter runs;
/// configured without one waits for its adapter; unconfigured is disabled.
pub fn adapter_status_label(configured: bool, native: bool) -> (r: &'static str)
    ensures
        configured && native ==> r@ == "running"@,
        configured && !native ==> r@ == "configured_pending_adapter"@,
        !configured ==> r@ == "disabled"@,
{
    if configured && native {
        "running"
    } else if configured {
        "configured_pending_adapter"
    } else {
        "disabled"
    }
}

/// Per-channel runtime health: timestamps of the last traffic, the error
/// tally, and the rolling windows.
#[derive(Debug, Clone)]
pub struct ChannelRuntimeStats {
    pub last_inbound_at_ms: Option<i64>,
    pub last_outbound_at_ms: Option<i64>,
    pub error_count: u64,
    pub last_error: Option<String>,
    pub last_error_at_ms: Option<i64>,
    pub inbound_rolling_1h: RollingMinuteCounter,
    pub outbound_rolling_1h: RollingMinuteCounter,
    pub error_rolling_1h: RollingMinuteCounter,
}

impl ChannelRuntimeStats {
    pub open spec fn wf(&self) -> bool {
        self.inbound_rolling_1h.wf() && self.outbound_rolling_1h.wf() && self.error_rolling_1h.wf()
    }

    /// Fresh stats: no traffic, no errors.
    pub fn new() -> (r: Self)
        ensures
            r.wf(),
            r.last_inbound_at_ms is None,
            r.last_outbound_at_ms is None,
            r.error_count == 0,
            r.last_error is None,
            r.last_error_at_ms is None,
    {
        ChannelRuntimeStats {
            last_inbound_at_ms: None,
            last_outbound_at_ms: None,
            error_count: 0,
            last_error: None,
            last_error_at_ms: None,
            inbound_rolling_1h: RollingMinuteCounter::new(),
            outbound_rolling_1h: RollingMinuteCounter::new(),
            error_rolling_1h: RollingMinuteCounter::new(),
        }
    }

    /// Record an inbound message at `now_ms`: the timestamp is noted and
    /// the inbound rolling window is advanced and bumped.
    pub fn record_inbound(&mut self, now_ms: i64)
        requires
            old(self).wf(),
            now_ms >= 0,
        ensures
            final(self).wf(),
            final(self).last_inbound_at_ms == Some(now_ms),
            final(self).error_count == old(self).error_count,
            final(self).last_outbound_at_ms == old(self).last_outbound_at_ms,
            counter_observed(old(self).inbound_rolling_1h, final(self).inbound_rolling_1h, now_ms),
            final(self).outbound_rolling_1h == old(self).outbound_rolling_1h,
            final(self).error_rolling_1h == old(self).error_rolling_1h,
    {
        self.last_inbound_at_ms = Some(now_ms);
        self.inbound_rolling_1h.observe(now_ms);
    }

    /// Record an outbound message at `now_ms`: the timestamp is noted and
    /// the outbound rolling window is advanced and bumped.
    pub fn record_outbound(&mut self, now_ms: i64)
        requires
            old(self).wf(),
            now_ms >= 0,
        ensures
            final(self).wf(),
            final(self).last_outbound_at_ms == Some(now_ms),
            final(self).error_count == old(self).error_count,
            final(self).last_inbound_at_ms == old(self).last_inbound_at_ms,
            counter_observed(old(self).outbound_rolling_1h, final(self).outbound_rolling_1h, now_ms),
            final(self).inbound_rolling_1h == old(self).inbound_rolling_1h,
            final(self).error_rolling_1h == old(self).error_rolling_1h,
    {
        self.last_outbound_at_ms = Some(now_ms);
        self.outbound_rolling_1h.observe(now_ms);
    }

    /// Record an error at `now_ms`: the tally grows monotonically and the
    /// error rolling window is advanced and bumped.
    pub fn record_error(&mut self, error: String, now_ms: i64)
        requires
            old(self).wf(),
            now_ms >= 0,
        ensures
            final(self).wf(),
            final(self).error_count == sat_add(old(self).error_count, 1),
            final(self).last_error matches Some(e) && e@ == error@,
            final(self).last_error_at_ms == Some(now_ms),
            final(self).last_inbound_at_ms == old(self).last_inbound_at_ms,
            final(self).last_outbound_at_ms == old(self).last_outbound_at_ms,
            counter_observed(old(self).error_rolling_1h, final(self).error_rolling_1h, now_ms),
            final(self).inbound_rolling_1h == old(self).inbound_rolling_1h,
            final(self).outbound_rolling_1h == old(self).outbound_rolling_1h,
    {
        self.error_count = self.error_count.saturating_add(1);
        self.last_error = Some(error);
        self.last_error_at_ms = Some(now_ms);
        self.error_rolling_1h.observe(now_ms);
    }
}

} // verus!
