//! The LLM provider layer's logic: the canonical response types, the
//! classified-retry policy with its bounded backoff, and the failover walk
//! over a provider chain. The HTTP calls themselves happen outside the
//! library; the failover is computed over the outcomes they produce.

use vstd::prelude::*;

use crate::errors::ProviderError;
use crate::text;
use crate::types::Message;

verus! {

/// Options of one generation call. Temperature is carried in thousandths,
/// since the library holds no floating point; the transport layer converts.
#[derive(Debug, Clone)]
pub struct GenerationOptions {
    pub model: String,
    pub max_tokens: Option<usize>,
    pub temperature_milli: Option<u32>,
}

/// A tool call the model asked for.
#[derive(Debug)]
pub struct ToolCall {
    pub id: String,
    pub name: String,
    pub arguments: String,
}

/// `a` carries the same call as `b`.
pub open spec fn tool_call_like(a: ToolCall, b: ToolCall) -> bool {
    a.id@ == b.id@ && a.name@ == b.name@ && a.arguments@ == b.arguments@
}

impl Clone for ToolCall {
    fn clone(&self) -> (r: Self)
        ensures
            tool_call_like(r, *self),
    {
        ToolCall {
            id: self.id.clone(),
            name: self.name.clone(),
            arguments: self.arguments.clone(),
        }
    }
}

/// Token accounting of one call.
#[derive(Debug, Clone, Copy)]
pub struct Usage {
    pub input_tokens: usize,
    pub output_tokens: usize,
}

/// One logically complete model response.
#[derive(Debug)]
pub struct GenerationResponse {
    pub content: String,
    pub tool_calls: Vec<ToolCall>,
    pub usage: Option<Usage>,
}

/// `a` carries the same response as `b`.
pub open spec fn response_like(a: GenerationResponse, b: GenerationResponse) -> bool {
    &&& a.content@ == b.content@
    &&& a.tool_calls@.len() == b.tool_calls@.len()
    &&& (forall|i: int|
        0 <= i < a.tool_calls@.len() ==> tool_call_like(
            #[trigger] a.tool_calls@[i],
            b.tool_calls@[i],
        ))
    &&& a.usage == b.usage
}

impl Clone for GenerationResponse {
    fn clone(&self) -> (r: Self)
        ensures
            response_like(r, *self),
    {
        let mut tool_calls: Vec<ToolCall> = Vec::new();
        let n = self.tool_calls.len();
        for i in 0..n
            invariant
                n == self.tool_calls@.len(),
                tool_calls@.len() == i,
                forall|j: int|
                    0 <= j < i ==> tool_call_like(
                        #[trigger] tool_calls@[j],
                        self.tool_calls@[j],
                    ),
        {
            tool_calls.push(self.tool_calls[i].clone());
        }
        GenerationResponse { content: self.content.clone(), tool_calls, usage: self.usage }
    }
}

/// An API message marks a transient condition when, lowercased, it holds
/// any of the known rate-limit or availability phrases.
pub open spec fn transient_api_message(m: Seq<char>) -> bool {
    ||| text::contains_seq(text::lower_seq(m), "429"@)
    ||| text::contains_seq(text::lower_seq(m), "rate limit"@)
    ||| text::contains_seq(text::lower_seq(m), "too many requests"@)
    ||| text::contains_seq(text::lower_seq(m), "timeout"@)
    ||| text::contains_seq(text::lower_seq(m), "temporar"@)
    ||| text::contains_seq(text::lower_seq(m), "unavailable"@)
    ||| text::contains_seq(text::lower_seq(m), "503"@)
}

/// An error is worth retrying: every network failure, and an API error
/// whose message marks a transient condition; a configuration error never.
pub open spec fn spec_is_retryable(err: ProviderError) -> bool {
    match err {
        ProviderError::NetworkError(_) => true,
        ProviderError::ApiError(m) => transient_api_message(m@),
        ProviderError::ConfigError(_) => false,
    }
}

/// The reliability wrapper: retries transient failures with bounded
/// exponential backoff. The sleeps happen outside the library.
#[derive(Debug, Clone)]
pub struct ReliableProvider {
    pub max_retries: u32,
    pub base_backoff_ms: u64,
}

impl ReliableProvider {
    /// The base backoff is held at 100 ms at least.
    pub fn new(max_retries: u32, base_backoff_ms: u64) -> (r: Self)
        ensures
            r.max_retries == max_retries,
            r.base_backoff_ms == if base_backoff_ms >= 100 {
                base_backoff_ms
            } else {
                100
            },
    {
        ReliableProvider {
            max_retries,
            base_backoff_ms: if base_backoff_ms >= 100 {
                base_backoff_ms
            } else {
                100
            },
        }
    }

    /// Classify an error.
    pub fn is_retryable(err: &ProviderError) -> (r: bool)
        ensures
            r == spec_is_retryable(*err),
    {
        match err {
            ProviderError::NetworkError(_) => true,
            ProviderError::ConfigError(_) => false,
            ProviderError::ApiError(m) => {
                let lower = text::to_lower_chars(&text::str_chars(m.as_str()));
                let p1 = text::str_chars("429");
                let p2 = text::str_chars("rate limit");
                let p3 = text::str_chars("too many requests");
                let p4 = text::str_chars("timeout");
                let p5 = text::str_chars("temporar");
                let p6 = text::str_chars("unavailable");
                let p7 = text::str_chars("503");
                text::contains_chars(&lower, &p1) || text::contains_chars(&lower, &p2)
                    || text::contains_chars(&lower, &p3) || text::contains_chars(&lower, &p4)
                    || text::contains_chars(&lower, &p5) || text::contains_chars(&lower, &p6)
                    || text::contains_chars(&lower, &p7)
            },
        }
    }

    /// Retry only a transient failure, and only while attempts remain.
    pub fn should_retry(&self, attempt: u32, err: &ProviderError) -> (r: bool)
        ensures
            r == (spec_is_retryable(*err) && attempt < self.max_retries),
    {
        attempt < self.max_retries && Self::is_retryable(err)
    }

    /// The next backoff: doubled, capped at two seconds.
    pub fn next_backoff_ms(backoff_ms: u64) -> (r: u64)
        ensures
            r == if backoff_ms * 2 > 2000 {
                2000u64
            } else {
                (backoff_ms * 2) as u64
            },
    {
        if backoff_ms > 1000 {
            2000
        } else {
            backoff_ms * 2
        }
    }
}

/// The aggregated failover report: each provider's name and error message,
/// joined with ` | `.
pub open spec fn failover_failures_text(parts: Seq<Seq<char>>) -> Seq<char>
    decreases parts.len(),
{
    if parts.len() == 0 {
        Seq::empty()
    } else if parts.len() == 1 {
        parts[0]
    } else {
        failover_failures_text(parts.drop_last()) + " | "@ + parts.last()
    }
}

proof fn lemma_failures_text_push(parts: Seq<Seq<char>>, p: Seq<char>)
    requires
        parts.len() > 0,
    ensures
        failover_failures_text(parts.push(p)) == failover_failures_text(parts) + " | "@ + p,
{
    assert(parts.push(p).drop_last() =~= parts);
    assert(parts.push(p).last() == p);
}

/// Walk the provider chain over the outcomes the providers produced, in
/// order: the first success wins (a later-than-first winner marks a
/// recovery); when every provider failed, the aggregated report names each
/// failure.
pub fn failover_outcome(
    names: &Vec<String>,
    outcomes: Vec<Result<GenerationResponse, ProviderError>>,
) -> (r: Result<(GenerationResponse, usize), ProviderError>)
    requires
        names@.len() == outcomes@.len(),
    ensures
        outcomes@.len() == 0 ==> (r matches Err(ProviderError::ConfigError(m)) && m@
            == "no providers available for failover"@),
        (exists|i: int| 0 <= i < outcomes@.len() && (#[trigger] outcomes@[i]) is Ok) ==> (r
            matches Ok((resp, i)) && i < outcomes@.len() && (outcomes@[i as int] matches Ok(o)
            && response_like(resp, o)) && (forall|j: int|
            0 <= j < i ==> (#[trigger] outcomes@[j]) is Err)),
        outcomes@.len() > 0 && (forall|i: int|
            0 <= i < outcomes@.len() ==> (#[trigger] outcomes@[i]) is Err) ==> (r matches Err(
            ProviderError::ApiError(m),
        ) && m@ == "all providers failed; "@ + failover_failures_text(
            Seq::new(
                outcomes@.len(),
                |i: int|
                    names@[i]@ + ": "@ + match outcomes@[i] {
                        Err(e) => e.message_view(),
                        Ok(_) => Seq::<char>::empty(),
                    },
            ),
        )),
{
    if outcomes.len() == 0 {
        return Err(
            ProviderError::ConfigError(String::from_str("no providers available for failover")),
        );
    }
    let n = outcomes.len();
    let ghost parts = Seq::new(
        outcomes@.len(),
        |i: int|
            names@[i]@ + ": "@ + match outcomes@[i] {
                Err(e) => e.message_view(),
                Ok(_) => Seq::<char>::empty(),
            },
    );
    let mut failures: Vec<char> = Vec::new();
    let mut idx: usize = 0;
    for i in 0..n
        invariant
            n == outcomes@.len(),
            names@.len() == outcomes@.len(),
            parts == Seq::new(
                outcomes@.len(),
                |w: int|
                    names@[w]@ + ": "@ + match outcomes@[w] {
                        Err(e) => e.message_view(),
                        Ok(_) => Seq::<char>::empty(),
                    },
            ),
            forall|j: int| 0 <= j < i ==> (#[trigger] outcomes@[j]) is Err,
            failures@ == failover_failures_text(parts.take(i as int)),
    {
        match &outcomes[i] {
            Ok(resp) => {
                let out = resp.clone();
                return Ok((out, i));
            },
            Err(e) => {
                let ghost before = failures@;
                if i > 0 {
                    let sep = text::str_chars(" | ");
                    text::push_all(&mut failures, &sep);
                }
                let name = text::str_chars(names[i].as_str());
                text::push_all(&mut failures, &name);
                let colon = text::str_chars(": ");
                text::push_all(&mut failures, &colon);
                let msg = e.message();
                let msg_chars = text::str_chars(msg.as_str());
                text::push_all(&mut failures, &msg_chars);
                proof {
                    assert(parts[i as int] == names@[i as int]@ + ": "@ + match outcomes@[i as int] {
                        Err(e2) => e2.message_view(),
                        Ok(_) => Seq::<char>::empty(),
                    });
                    assert(parts.take(i + 1).drop_last() =~= parts.take(i as int));
                    assert(parts.take(i + 1).last() == parts[i as int]);
                    if i == 0 {
                        assert(failures@ =~= failover_failures_text(parts.take(1)));
                    } else {
                        assert(failures@ =~= failover_failures_text(parts.take(i + 1)));
                    }
                }
            },
        }
    }
    proof {
        assert(parts.take(n as int) =~= parts);
    }
    let mut m = String::from_str("all providers failed; ");
    let joined = text::chars_to_string(&failures);
    m.append(joined.as_str());
    Err(ProviderError::ApiError(m))
}


/// The role label the OpenAI-compatible wire carries for each message role.
pub fn openai_wire_role(role: crate::types::Role) -> (r: &'static str)
    ensures
        role is User ==> r@ == "user"@,
        role is Assistant ==> r@ == "assistant"@,
        role is System ==> r@ == "system"@,
        role is Tool ==> r@ == "tool"@,
{
    match role {
        crate::types::Role::User => "user",
        crate::types::Role::Assistant => "assistant",
        crate::types::Role::System => "system",
        crate::types::Role::Tool => "tool",
    }
}

/// The role label the Google wire carries: the assistant becomes `model`;
/// system and tool messages travel as `user`.
pub fn google_wire_role(role: crate::types::Role) -> (r: &'static str)
    ensures
        role is Assistant ==> r@ == "model"@,
        !(role is Assistant) ==> r@ == "user"@,
{
    match role {
        crate::types::Role::Assistant => "model",
        _ => "user",
    }
}

/// The Anthropic wire's top-level system field: every system message's
/// content, in order, joined with blank lines.
pub open spec fn spec_system_text(messages: Seq<crate::types::Message>) -> Seq<char>
    decreases messages.len(),
{
    if messages.len() == 0 {
        Seq::empty()
    } else {
        let rest = spec_system_text(messages.drop_last());
        if messages.last().role is System {
            if rest.len() == 0 {
                messages.last().content@
            } else {
                rest + "\n\n"@ + messages.last().content@
            }
        } else {
            rest
        }
    }
}

/// Concatenate the system messages for the Anthropic wire.
pub fn anthropic_system_text(messages: &Vec<crate::types::Message>) -> (r: String)
    ensures
        r@ == spec_system_text(messages@),
{
    let mut v: Vec<char> = Vec::new();
    let n = messages.len();
    for i in 0..n
        invariant
            n == messages@.len(),
            v@ == spec_system_text(messages@.subrange(0, i as int)),
    {
        let m = &messages[i];
        proof {
            assert(messages@.subrange(0, i + 1).drop_last() =~= messages@.subrange(0, i as int));
            assert(messages@.subrange(0, i + 1).last() == messages@[i as int]);
        }
        if matches!(m.role, crate::types::Role::System) {
            if v.len() > 0 {
                let sep = text::str_chars("\n\n");
                text::push_all(&mut v, &sep);
            }
            let content = text::str_chars(m.content.as_str());
            text::push_all(&mut v, &content);
        }
    }
    proof {
        assert(messages@.subrange(0, n as int) =~= messages@);
    }
    text::chars_to_string(&v)
}


/// The first metadata value recorded under `k`, if any.
pub open spec fn meta_lookup(metadata: Seq<(String, String)>, k: Seq<char>) -> Option<Seq<char>>
    decreases metadata.len(),
{
    if metadata.len() == 0 {
        None
    } else if metadata[0].0@ == k {
        Some(metadata[0].1@)
    } else {
        meta_lookup(metadata.drop_first(), k)
    }
}

/// Find the first metadata value recorded under `key`.
fn meta_get(metadata: &Vec<(String, String)>, key: &str) -> (r: Option<String>)
    ensures
        match r {
            Some(v) => meta_lookup(metadata@, key@) == Some(v@),
            None => meta_lookup(metadata@, key@) is None,
        },
{
    let n = metadata.len();
    proof {
        assert(metadata@.skip(0) =~= metadata@);
    }
    for i in 0..n
        invariant
            n == metadata@.len(),
            forall|j: int| 0 <= j < i ==> (#[trigger] metadata@[j]).0@ != key@,
            meta_lookup(metadata@, key@) == meta_lookup(metadata@.skip(i as int), key@),
    {
        proof {
            assert(metadata@.skip(i as int)[0] == metadata@[i as int]);
            assert(metadata@.skip(i as int).drop_first() =~= metadata@.skip(i + 1));
        }
        if crate::text::str_eq(metadata[i].0.as_str(), key) {
            return Some(metadata[i].1.clone());
        }
    }
    proof {
        assert(metadata@.skip(n as int) =~= Seq::<(String, String)>::empty());
    }
    None
}

/// One message as the OpenAI-compatible wire carries it: the role label,
/// the content (absent for an assistant turn that only calls tools), the
/// tool-result call id, and the assistant's tool calls as the JSON text
/// recorded in metadata.
#[derive(Debug)]
pub struct OpenAiWireMessage {
    pub role: &'static str,
    pub content: Option<String>,
    pub tool_call_id: Option<String>,
    pub tool_calls_json: Option<String>,
}

/// Translate one message for the OpenAI-compatible wire: a tool result
/// carries its call id (empty when the metadata lost it); an assistant turn
/// carries its recorded tool calls as JSON text, with its content dropped
/// when empty; every other role carries plain content. Whether the JSON
/// text parses is the serializer's to check: one that does not is sent as a
/// plain assistant message.
pub fn openai_wire_message(m: &Message) -> (r: OpenAiWireMessage)
    ensures
        m.role is Tool ==> ({
            &&& r.role@ == "tool"@
            &&& r.content matches Some(c) && c@ == m.content@
            &&& r.tool_call_id matches Some(id) && (match meta_lookup(
                m.metadata@,
                "tool_call_id"@,
            ) {
                Some(v) => id@ == v,
                None => id@ == Seq::<char>::empty(),
            })
            &&& r.tool_calls_json is None
        }),
        m.role is Assistant ==> ({
            &&& r.role@ == "assistant"@
            &&& (match meta_lookup(m.metadata@, "tool_calls_json"@) {
                Some(v) => (r.tool_calls_json matches Some(t) && t@ == v) && (if m.content@.len()
                    == 0 {
                    r.content is None
                } else {
                    r.content matches Some(c) && c@ == m.content@
                }),
                None => r.tool_calls_json is None && (r.content matches Some(c) && c@
                    == m.content@),
            })
        }),
        m.role is System || m.role is User ==> ({
            &&& r.role@ == (if m.role is System {
                "system"@
            } else {
                "user"@
            })
            &&& r.content matches Some(c) && c@ == m.content@
            &&& r.tool_call_id is None
            &&& r.tool_calls_json is None
        }),
{
    match m.role {
        crate::types::Role::Tool => {
            let id = match meta_get(&m.metadata, "tool_call_id") {
                Some(v) => v,
                None => String::new(),
            };
            OpenAiWireMessage {
                role: "tool",
                content: Some(m.content.clone()),
                tool_call_id: Some(id),
                tool_calls_json: None,
            }
        },
        crate::types::Role::Assistant => {
            match meta_get(&m.metadata, "tool_calls_json") {
                Some(calls) => OpenAiWireMessage {
                    role: "assistant",
                    content: if m.content.as_str().is_empty() {
                        None
                    } else {
                        Some(m.content.clone())
                    },
                    tool_call_id: None,
                    tool_calls_json: Some(calls),
                },
                None => OpenAiWireMessage {
                    role: "assistant",
                    content: Some(m.content.clone()),
                    tool_call_id: None,
                    tool_calls_json: None,
                },
            }
        },
        crate::types::Role::System => OpenAiWireMessage {
            role: "system",
            content: Some(m.content.clone()),
            tool_call_id: None,
            tool_calls_json: None,
        },
        crate::types::Role::User => OpenAiWireMessage {
            role: "user",
            content: Some(m.content.clone()),
            tool_call_id: None,
            tool_calls_json: None,
        },
    }
}

/// One entry of the Anthropic wire: a plain text turn, or a tool result
/// embedded as user content.
#[derive(Debug)]
pub enum AnthropicWireMessage {
    /// A user or assistant text turn.
    Text { role: &'static str, content: String },
    /// A tool result: a `user` turn whose content is a `tool_result` block
    /// naming the call it answers.
    ToolResult { tool_use_id: String, content: String },
}

/// The messages with the system turns removed, in order: what the Anthropic
/// wire carries beside its top-level system field.
pub open spec fn spec_non_system(messages: Seq<Message>) -> Seq<Message>
    decreases messages.len(),
{
    if messages.len() == 0 {
        Seq::empty()
    } else if messages[0].role is System {
        spec_non_system(messages.drop_first())
    } else {
        seq![messages[0]] + spec_non_system(messages.drop_first())
    }
}

proof fn lemma_non_system_push(messages: Seq<Message>, m: Message)
    ensures
        spec_non_system(messages.push(m)) == if m.role is System {
            spec_non_system(messages)
        } else {
            spec_non_system(messages).push(m)
        },
    decreases messages.len(),
{
    if messages.len() == 0 {
        assert(messages.push(m).drop_first() =~= Seq::<Message>::empty());
        assert(messages.push(m)[0] == m);
        assert(spec_non_system(Seq::<Message>::empty()) =~= Seq::<Message>::empty());
        assert(spec_non_system(messages) =~= Seq::<Message>::empty());
        if !(m.role is System) {
            assert(spec_non_system(messages.push(m)) =~= spec_non_system(messages).push(m));
        }
    } else {
        assert(messages.push(m).drop_first() =~= messages.drop_first().push(m));
        assert(messages.push(m)[0] == messages[0]);
        lemma_non_system_push(messages.drop_first(), m);
        if !(m.role is System) {
            assert(spec_non_system(messages.push(m)) =~= spec_non_system(messages).push(m));
        }
    }
}

/// `w` is the Anthropic wire entry for `m`: a tool result rides as a
/// `tool_result` block under its call id; user and assistant turns carry
/// plain text.
pub open spec fn anthropic_entry_ok(w: AnthropicWireMessage, m: Message) -> bool {
    match m.role {
        crate::types::Role::Tool => w matches AnthropicWireMessage::ToolResult {
            tool_use_id,
            content,
        } && content@ == m.content@ && (match meta_lookup(m.metadata@, "tool_call_id"@) {
            Some(v) => tool_use_id@ == v,
            None => tool_use_id@ == Seq::<char>::empty(),
        }),
        crate::types::Role::User => w matches AnthropicWireMessage::Text { role, content }
            && role@ == "user"@ && content@ == m.content@,
        crate::types::Role::Assistant => w matches AnthropicWireMessage::Text { role, content }
            && role@ == "assistant"@ && content@ == m.content@,
        crate::types::Role::System => false,
    }
}

/// Translate a message list for the Anthropic wire: every system turn is
/// concatenated into the top-level system text; each remaining turn becomes
/// one wire entry in order, with tool results embedded as `tool_result`
/// user content.
pub fn anthropic_wire_messages(messages: &Vec<Message>) -> (r: (String, Vec<AnthropicWireMessage>))
    ensures
        r.0@ == spec_system_text(messages@),
        r.1@.len() == spec_non_system(messages@).len(),
        forall|k: int|
            0 <= k < r.1@.len() ==> anthropic_entry_ok(
                #[trigger] r.1@[k],
                spec_non_system(messages@)[k],
            ),
{
    let system = anthropic_system_text(messages);
    let mut out: Vec<AnthropicWireMessage> = Vec::new();
    let n = messages.len();
    proof {
        assert(messages@.subrange(0, 0) =~= Seq::<Message>::empty());
        assert(spec_non_system(Seq::<Message>::empty()) =~= Seq::<Message>::empty());
    }
    for i in 0..n
        invariant
            n == messages@.len(),
            out@.len() == spec_non_system(messages@.subrange(0, i as int)).len(),
            forall|k: int|
                0 <= k < out@.len() ==> anthropic_entry_ok(
                    #[trigger] out@[k],
                    spec_non_system(messages@.subrange(0, i as int))[k],
                ),
    {
        let m = &messages[i];
        let ghost before = out@;
        let ghost f_before = spec_non_system(messages@.subrange(0, i as int));
        match m.role {
            crate::types::Role::System => {
            },
            crate::types::Role::Tool => {
                let id = match meta_get(&m.metadata, "tool_call_id") {
                    Some(v) => v,
                    None => String::new(),
                };
                out.push(
                    AnthropicWireMessage::ToolResult {
                        tool_use_id: id,
                        content: m.content.clone(),
                    },
                );
            },
            crate::types::Role::User => {
                out.push(
                    AnthropicWireMessage::Text { role: "user", content: m.content.clone() },
                );
            },
            crate::types::Role::Assistant => {
                out.push(
                    AnthropicWireMessage::Text {
                        role: "assistant",
                        content: m.content.clone(),
                    },
                );
            },
        }
        proof {
            lemma_non_system_push(messages@.subrange(0, i as int), messages@[i as int]);
            assert(messages@.subrange(0, i as int).push(messages@[i as int]) =~= messages@.subrange(
                0,
                i + 1,
            ));
            let f_after = spec_non_system(messages@.subrange(0, i + 1));
            assert forall|k: int| 0 <= k < out@.len() implies anthropic_entry_ok(
                #[trigger] out@[k],
                f_after[k],
            ) by {
                if k < before.len() {
                    assert(out@[k] == before[k]);
                    assert(f_after[k] == f_before[k]);
                } else {
                    assert(f_after[k] == messages@[i as int]);
                }
            }
        }
    }
    proof {
        assert(messages@.subrange(0, n as int) =~= messages@);
    }
    (system, out)
}

/// One entry of the Google wire: the mapped role label and the text.
#[derive(Debug)]
pub struct GoogleWireMessage {
    pub role: &'static str,
    pub content: String,
}

/// Translate a message list for the Google wire: each message in order,
/// the assistant as `model`, everything else as `user`; tools are not
/// surfaced on this wire.
pub fn google_wire_messages(messages: &Vec<Message>) -> (r: Vec<GoogleWireMessage>)
    ensures
        r@.len() == messages@.len(),
        forall|k: int|
            0 <= k < r@.len() ==> ({
                let w = #[trigger] r@[k];
                &&& w.role@ == (if messages@[k].role is Assistant {
                    "model"@
                } else {
                    "user"@
                })
                &&& w.content@ == messages@[k].content@
            }),
{
    let mut out: Vec<GoogleWireMessage> = Vec::new();
    let n = messages.len();
    for i in 0..n
        invariant
            n == messages@.len(),
            out@.len() == i,
            forall|k: int|
                0 <= k < out@.len() ==> ({
                    let w = #[trigger] out@[k];
                    &&& w.role@ == (if messages@[k].role is Assistant {
                        "model"@
                    } else {
                        "user"@
                    })
                    &&& w.content@ == messages@[k].content@
                }),
    {
        out.push(
            GoogleWireMessage {
                role: google_wire_role(messages[i].role),
                content: messages[i].content.clone(),
            },
        );
    }
    out
}

} // verus!
