//! The agent turn: the bounded tool-calling iteration, the retry budget of
//! each model call, and the user-visible messages the loop emits. The loop's
//! awaiting (model calls, tool runs, sleeps) happens outside the library,
//! which decides each step and accounts for every call.

use vstd::prelude::*;

use crate::text;

verus! {

/// Tool-calling loop iterations per turn, at most.
pub const MAX_ITERATIONS: usize = 10;

/// Model call attempts per iteration, at most.
pub const LLM_RETRIES: usize = 3;

/// The backoff before retrying a failed model call: one second doubled per
/// prior attempt of this iteration.
pub fn llm_retry_backoff_ms(attempt: usize) -> (r: u64)
    requires
        attempt < LLM_RETRIES,
    ensures
        attempt == 0 ==> r == 1000,
        attempt == 1 ==> r == 2000,
        attempt == 2 ==> r == 4000,
{
    if attempt == 0 {
        1000
    } else if attempt == 1 {
        2000
    } else {
        4000
    }
}

/// The call accounting of one turn: how many loop iterations began and how
/// many model calls were made, with each iteration holding at most the
/// retry budget.
#[derive(Debug, Clone, Copy)]
pub struct TurnState {
    pub iteration: usize,
    pub calls_this_iteration: usize,
    pub llm_calls: usize,
}

/// What beginning an iteration decides.
#[derive(Debug, Clone, Copy, PartialEq, Eq, Structural)]
pub enum IterationStart {
    /// The iteration may run.
    Proceed,
    /// The cap is exhausted: the turn ends with the max-iterations notice.
    MaxIterationsReached,
}

impl TurnState {
    /// The bounds every reachable state satisfies.
    pub open spec fn wf(&self) -> bool {
        &&& self.iteration <= MAX_ITERATIONS
        &&& self.calls_this_iteration <= LLM_RETRIES
        &&& self.iteration == 0 ==> self.llm_calls == 0
        &&& self.iteration >= 1 ==> self.llm_calls <= (self.iteration - 1) * LLM_RETRIES
            + self.calls_this_iteration
    }

    /// A fresh turn: nothing ran yet.
    pub fn new() -> (r: Self)
        ensures
            r.wf(),
            r.iteration == 0,
            r.llm_calls == 0,
    {
        TurnState { iteration: 0, calls_this_iteration: 0, llm_calls: 0 }
    }

    /// Begin the next loop iteration — refused exactly when the cap is
    /// already spent, which is when the max-iterations notice goes out.
    pub fn start_iteration(&mut self) -> (r: IterationStart)
        requires
            old(self).wf(),
        ensures
            final(self).wf(),
            (r is MaxIterationsReached) == (old(self).iteration == MAX_ITERATIONS),
            r is Proceed ==> (final(self).iteration == old(self).iteration + 1
                && final(self).calls_this_iteration == 0 && final(self).llm_calls == old(self).llm_calls),
            r is MaxIterationsReached ==> *final(self) == *old(self),
    {
        if self.iteration == MAX_ITERATIONS {
            return IterationStart::MaxIterationsReached;
        }
        self.iteration = self.iteration + 1;
        self.calls_this_iteration = 0;
        IterationStart::Proceed
    }

    /// Account for one model call of the running iteration.
    pub fn record_llm_call(&mut self)
        requires
            old(self).wf(),
            old(self).iteration >= 1,
            old(self).calls_this_iteration < LLM_RETRIES,
        ensures
            final(self).wf(),
            final(self).llm_calls == old(self).llm_calls + 1,
            final(self).calls_this_iteration == old(self).calls_this_iteration + 1,
            final(self).iteration == old(self).iteration,
    {
        proof {
            assert(self.llm_calls < MAX_ITERATIONS * LLM_RETRIES) by {
                assert(self.llm_calls <= (self.iteration - 1) * LLM_RETRIES
                    + self.calls_this_iteration);
                assert((self.iteration - 1) * LLM_RETRIES <= (MAX_ITERATIONS - 1) * LLM_RETRIES)
                    by (nonlinear_arith)
                    requires
                        1 <= self.iteration <= MAX_ITERATIONS,
                ;
            }
        }
        self.llm_calls = self.llm_calls + 1;
        self.calls_this_iteration = self.calls_this_iteration + 1;
    }

    /// May this iteration retry a failed model call?
    pub fn can_retry_llm(&self) -> (r: bool)
        ensures
            r == (self.calls_this_iteration < LLM_RETRIES),
    {
        self.calls_this_iteration < LLM_RETRIES
    }
}

/// Per turn, the model is called at most once per retry of each iteration:
/// never more than the iteration cap times the retry budget — and the
/// iterations themselves never exceed the cap.
pub proof fn lemma_turn_call_bounds(s: TurnState)
    requires
        s.wf(),
    ensures
        s.iteration <= MAX_ITERATIONS,
        s.llm_calls <= MAX_ITERATIONS * LLM_RETRIES,
{
    if s.iteration >= 1 {
        assert((s.iteration - 1) * LLM_RETRIES <= (MAX_ITERATIONS - 1) * LLM_RETRIES)
            by (nonlinear_arith)
            requires
                1 <= s.iteration <= MAX_ITERATIONS,
        ;
    }
}

/// The tool-role message fed back when the model asked for a tool the
/// allow-list refuses.
pub fn blocked_tool_message(tool_name: &str) -> (r: String)
    ensures
        r@ == "Error: Tool '"@ + tool_name@ + "' is not authorized by any active skill."@,
{
    let mut r = String::from_str("Error: Tool '");
    r.append(tool_name);
    r.append("' is not authorized by any active skill.");
    r
}

/// The tool-role message fed back when the model named a tool nobody
/// registered.
pub fn tool_not_found_message(tool_name: &str) -> (r: String)
    ensures
        r@ == "Tool not found: "@ + tool_name@,
{
    let mut r = String::from_str("Tool not found: ");
    r.append(tool_name);
    r
}

/// The user-visible notice when the loop spent every iteration without a
/// final response.
pub fn max_iterations_message() -> (r: String)
    ensures
        r@ == "\u{26a0}\u{fe0f} I reached the maximum number of processing steps ("@ + text::dec_of(
            MAX_ITERATIONS as nat,
        ) + "). My last response may be incomplete. Please try rephrasing your request."@,
{
    let mut v = text::str_chars("\u{26a0}\u{fe0f} I reached the maximum number of processing steps (");
    let digits = text::u64_to_dec_chars(MAX_ITERATIONS as u64);
    text::push_all(&mut v, &digits);
    let tail = text::str_chars(
        "). My last response may be incomplete. Please try rephrasing your request.",
    );
    text::push_all(&mut v, &tail);
    text::chars_to_string(&v)
}

/// The user-visible notice when every provider attempt failed.
pub fn provider_error_message(error_text: &str) -> (r: String)
    ensures
        r@ == "\u{26a0}\u{fe0f} I encountered an error communicating with the AI provider: "@
            + error_text@,
{
    let mut r = String::from_str(
        "\u{26a0}\u{fe0f} I encountered an error communicating with the AI provider: ",
    );
    r.append(error_text);
    r
}

} // verus!
