//! Process-wide counters: messages in and out, tool calls, token totals.

use vstd::prelude::*;

verus! {

/// A point-in-time copy of the counters, as served by the monitoring
/// endpoint.
#[derive(Debug, Clone)]
pub struct MetricsSnapshot {
    pub uptime_secs: u64,
    pub messages_in: u64,
    pub messages_out: u64,
    pub tool_calls: u64,
    pub tokens_input: u64,
    pub tokens_output: u64,
}

/// The live counters. Each increments monotonically and saturates at the
/// type's maximum.
#[derive(Debug)]
pub struct MetricsStore {
    pub messages_in: u64,
    pub messages_out: u64,
    pub tool_calls: u64,
    pub tokens_input: u64,
    pub tokens_output: u64,
}

/// `a + b`, held at the maximum on overflow.
pub open spec fn sat_add(a: u64, b: u64) -> u64 {
    if a + b > u64::MAX {
        u64::MAX
    } else {
        (a + b) as u64
    }
}

impl MetricsStore {
    /// All counters start at zero.
    pub fn new() -> (r: Self)
        ensures
            r.messages_in == 0,
            r.messages_out == 0,
            r.tool_calls == 0,
            r.tokens_input == 0,
            r.tokens_output == 0,
    {
        MetricsStore {
            messages_in: 0,
            messages_out: 0,
            tool_calls: 0,
            tokens_input: 0,
            tokens_output: 0,
        }
    }

    pub fn inc_messages_in(&mut self)
        ensures
            final(self).messages_in == sat_add(old(self).messages_in, 1),
            final(self).messages_out == old(self).messages_out,
            final(self).tool_calls == old(self).tool_calls,
            final(self).tokens_input == old(self).tokens_input,
            final(self).tokens_output == old(self).tokens_output,
    {
        self.messages_in = self.messages_in.saturating_add(1);
    }

    pub fn inc_messages_out(&mut self)
        ensures
            final(self).messages_out == sat_add(old(self).messages_out, 1),
            final(self).messages_in == old(self).messages_in,
            final(self).tool_calls == old(self).tool_calls,
            final(self).tokens_input == old(self).tokens_input,
            final(self).tokens_output == old(self).tokens_output,
    {
        self.messages_out = self.messages_out.saturating_add(1);
    }

    pub fn inc_tool_calls(&mut self)
        ensures
            final(self).tool_calls == sat_add(old(self).tool_calls, 1),
            final(self).messages_in == old(self).messages_in,
            final(self).messages_out == old(self).messages_out,
            final(self).tokens_input == old(self).tokens_input,
            final(self).tokens_output == old(self).tokens_output,
    {
        self.tool_calls = self.tool_calls.saturating_add(1);
    }

    pub fn add_tokens(&mut self, input: u64, output: u64)
        ensures
            final(self).tokens_input == sat_add(old(self).tokens_input, input),
            final(self).tokens_output == sat_add(old(self).tokens_output, output),
            final(self).messages_in == old(self).messages_in,
            final(self).messages_out == old(self).messages_out,
            final(self).tool_calls == old(self).tool_calls,
    {
        self.tokens_input = self.tokens_input.saturating_add(input);
        self.tokens_output = self.tokens_output.saturating_add(output);
    }

    /// Copy the counters out, together with the uptime the caller measured.
    pub fn snapshot(&self, uptime_secs: u64) -> (r: MetricsSnapshot)
        ensures
            r.uptime_secs == uptime_secs,
            r.messages_in == self.messages_in,
            r.messages_out == self.messages_out,
            r.tool_calls == self.tool_calls,
            r.tokens_input == self.tokens_input,
            r.tokens_output == self.tokens_output,
    {
        MetricsSnapshot {
            uptime_secs,
            messages_in: self.messages_in,
            messages_out: self.messages_out,
            tool_calls: self.tool_calls,
            tokens_input: self.tokens_input,
            tokens_output: self.tokens_output,
        }
    }
}

} // verus!
