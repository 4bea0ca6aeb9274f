//! The heartbeat service's state and its prompt. The ticker, the bus
//! spawning and the log file live outside the library.

use vstd::prelude::*;

use crate::text;

verus! {

/// The heartbeat service: a periodic synthetic check-in prompt for the
/// agent.
#[derive(Debug, Clone)]
pub struct HeartbeatService {
    pub workspace: String,
    pub interval_secs: u64,
    pub enabled: bool,
    pub running: bool,
}

impl HeartbeatService {
    /// A configured service, not yet running.
    pub fn new(workspace: String, interval_secs: u64, enabled: bool) -> (r: Self)
        ensures
            r.workspace@ == workspace@,
            r.interval_secs == interval_secs,
            r.enabled == enabled,
            !r.running,
    {
        HeartbeatService { workspace, interval_secs, enabled, running: false }
    }

    /// Mark the loop as started.
    pub fn start(&mut self)
        ensures
            final(self).running,
            final(self).workspace@ == old(self).workspace@,
            final(self).interval_secs == old(self).interval_secs,
            final(self).enabled == old(self).enabled,
    {
        self.running = true;
    }

    /// Ask the loop to stop.
    pub fn stop(&mut self)
        ensures
            !final(self).running,
            final(self).workspace@ == old(self).workspace@,
            final(self).interval_secs == old(self).interval_secs,
            final(self).enabled == old(self).enabled,
    {
        self.running = false;
    }
}

/// The heartbeat prompt: the current time and the memory notes under the
/// fixed check-in text.
pub fn build_prompt(now_text: &str, notes: &str) -> (r: String)
    ensures
        r@ == "# Heartbeat Check\n\nCurrent time: "@ + now_text@
            + "\n\nCheck if there are any tasks I should be aware of or actions I should take.\nReview the memory file for any important updates or changes.\n\n"@
            + notes@ + seq!['\n'],
{
    let mut v = text::str_chars("# Heartbeat Check\n\nCurrent time: ");
    let now_chars = text::str_chars(now_text);
    text::push_all(&mut v, &now_chars);
    let mid = text::str_chars(
        "\n\nCheck if there are any tasks I should be aware of or actions I should take.\nReview the memory file for any important updates or changes.\n\n",
    );
    text::push_all(&mut v, &mid);
    let notes_chars = text::str_chars(notes);
    text::push_all(&mut v, &notes_chars);
    v.push('\n');
    text::chars_to_string(&v)
}

} // verus!
