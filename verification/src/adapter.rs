//! What every outbound channel adapter shares: the retry schedule with its
//! jitter, the session-key routing of outbound messages, message splitting
//! for length-limited transports, and the webhook URL shaping. The HTTP
//! sends themselves happen outside the library.

use vstd::prelude::*;

use crate::text;

verus! {

/// Outbound delivery attempts per message.
pub const ADAPTER_RETRY_ATTEMPTS: u32 = 3;

/// The base delay before the next retry: one second after the first
/// attempt, doubled after each further one.
pub fn retry_delay_ms(attempt: u32) -> (r: u64)
    requires
        1 <= attempt <= 3,
    ensures
        attempt == 1 ==> r == 1000,
        attempt == 2 ==> r == 2000,
        attempt == 3 ==> r == 4000,
{
    if attempt == 1 {
        1000
    } else if attempt == 2 {
        2000
    } else {
        4000
    }
}

/// The pseudo-random jitter added to a retry delay: derived from the clock
/// reading and the attempt number, never above `retry_jitter_ms`.
pub fn jitter_delay_ms(retry_jitter_ms: u64, attempt: u32, seed_ms: u64) -> (r: u64)
    requires
        retry_jitter_ms < u64::MAX,
    ensures
        retry_jitter_ms == 0 ==> r == 0,
        retry_jitter_ms > 0 ==> r == (seed_ms ^ ((attempt as u64) << 7u64)) % ((retry_jitter_ms
            + 1) as u64),
        r <= retry_jitter_ms,
{
    if retry_jitter_ms == 0 {
        return 0;
    }
    let mixed = seed_ms ^ ((attempt as u64) << 7u64);
    mixed % (retry_jitter_ms + 1)
}

/// Where an outbound message is bound, read off its session key.
#[derive(Debug)]
pub struct OutboundTarget {
    /// The platform peer (channel id, phone number, conversation).
    pub peer: Option<String>,
    /// The sub-key (thread timestamp, thread key), when one follows.
    pub sub: Option<String>,
}

/// Split the remainder of a session key after its channel prefix: the part
/// up to the next colon, and what follows it, empty parts dropped.
pub open spec fn spec_key_parts(rest: Seq<char>) -> (Option<Seq<char>>, Option<Seq<char>>) {
    if exists|i: int| 0 <= i < rest.len() && #[trigger] rest[i] == ':' {
        let i = choose|i: int|
            0 <= i < rest.len() && #[trigger] rest[i] == ':' && (forall|j: int|
                0 <= j < i ==> rest[j] != ':');
        (
            if i > 0 {
                Some(rest.subrange(0, i))
            } else {
                None
            },
            spec_second_part(rest, i),
        )
    } else {
        (
            if rest.len() > 0 {
                Some(rest)
            } else {
                None
            },
            None,
        )
    }
}

/// The part between the first colon of `rest` (at `i`) and the next one, or
/// the end; empty means none.
pub open spec fn spec_second_part(rest: Seq<char>, i: int) -> Option<Seq<char>> {
    if exists|k: int| i < k < rest.len() && #[trigger] rest[k] == ':' {
        let k = choose|k: int|
            i < k < rest.len() && #[trigger] rest[k] == ':' && (forall|j: int|
                i < j < k ==> rest[j] != ':');
        if k > i + 1 {
            Some(rest.subrange(i + 1, k))
        } else {
            None
        }
    } else {
        if rest.len() > i + 1 {
            Some(rest.subrange(i + 1, rest.len() as int))
        } else {
            None
        }
    }
}

/// Read an outbound message's target off its session key: nothing when the
/// key does not carry the adapter's prefix, else the peer and the optional
/// sub-key that follow it.
#[verifier::rlimit(100)]
#[verifier::spinoff_prover]
pub fn outbound_target(session_key: &str, prefix: &str) -> (r: Option<OutboundTarget>)
    ensures
        r is Some <==> (prefix@.len() <= session_key@.len() && session_key@.subrange(
            0,
            prefix@.len() as int,
        ) == prefix@),
        r matches Some(t) ==> ({
            let parts = spec_key_parts(session_key@.skip(prefix@.len() as int));
            &&& match (t.peer, parts.0) {
                (Some(p), Some(q)) => p@ == q,
                (None, None) => true,
                _ => false,
            }
            &&& match (t.sub, parts.1) {
                (Some(p), Some(q)) => p@ == q,
                (None, None) => true,
                _ => false,
            }
        }),
{
    let key = text::str_chars(session_key);
    let pre = text::str_chars(prefix);
    if !text::starts_with_chars(&key, &pre) {
        return None;
    }
    let rest = text::subrange_chars(&key, pre.len(), key.len());
    let ghost rest_spec = session_key@.skip(prefix@.len() as int);
    proof {
        assert(rest@ =~= rest_spec);
    }
    match text::find_char(&rest, ':') {
        Some(i) => {
            let peer = if i > 0 {
                Some(text::chars_to_string(&text::subrange_chars(&rest, 0, i)))
            } else {
                None
            };
            proof {
                let w = choose|w: int|
                    0 <= w < rest_spec.len() && #[trigger] rest_spec[w] == ':' && (forall|j: int|
                        0 <= j < w ==> rest_spec[j] != ':');
                assert(w == i as int);
            }
            let after = text::subrange_chars(&rest, i + 1, rest.len());
            let sub = match text::find_char(&after, ':') {
                Some(k) => {
                    proof {
                        assert(rest_spec[i + 1 + k] == ':');
                        let w = choose|w: int|
                            i < w < rest_spec.len() && #[trigger] rest_spec[w] == ':' && (forall|
                                j: int,
                            |
                                i < j < w ==> rest_spec[j] != ':');
                        assert forall|j: int| i < j < i + 1 + k implies rest_spec[j] != ':' by {
                            if j > i {
                                assert(after@[j - i - 1] == rest_spec[j]);
                            }
                        }
                        assert(w == i + 1 + k);
                    }
                    if k > 0 {
                        let part = text::subrange_chars(&after, 0, k);
                        proof {
                            assert(part@ =~= rest_spec.subrange(i + 1, i + 1 + k));
                        }
                        Some(text::chars_to_string(&part))
                    } else {
                        None
                    }
                },
                None => {
                    proof {
                        if exists|k: int| i < k < rest_spec.len() && #[trigger] rest_spec[k]
                            == ':' {
                            let k = choose|k: int|
                                i < k < rest_spec.len() && #[trigger] rest_spec[k] == ':';
                            assert(after@[k - i - 1] == ':');
                            assert(false);
                        }
                    }
                    if after.len() > 0 {
                        proof {
                            assert(after@ =~= rest_spec.subrange(
                                i + 1,
                                rest_spec.len() as int,
                            ));
                        }
                        Some(text::chars_to_string(&after))
                    } else {
                        None
                    }
                },
            };
            Some(OutboundTarget { peer, sub })
        },
        None => {
            proof {
                if exists|w: int| 0 <= w < rest_spec.len() && #[trigger] rest_spec[w] == ':' {
                    let w = choose|w: int|
                        0 <= w < rest_spec.len() && #[trigger] rest_spec[w] == ':';
                    assert(false);
                }
            }
            let peer = if rest.len() > 0 {
                Some(text::chars_to_string(&rest))
            } else {
                None
            };
            Some(OutboundTarget { peer, sub: None })
        },
    }
}

/// The webhook URL for a Google Chat send: the base URL, with the thread
/// key appended as a query parameter when one is given.
pub fn build_google_chat_url(base: &str, thread_key: Option<&str>) -> (r: String)
    ensures
        match thread_key {
            None => r@ == base@,
            Some(k) => if k@.len() == 0 {
                r@ == base@
            } else if exists|i: int| 0 <= i < base@.len() && #[trigger] base@[i] == '?' {
                r@ == base@ + "&threadKey="@ + k@
            } else {
                r@ == base@ + "?threadKey="@ + k@
            },
        },
{
    let key = match thread_key {
        Some(k) => k,
        None => {
            return String::from_str(base);
        },
    };
    if key.is_empty() {
        return String::from_str(base);
    }
    let base_chars = text::str_chars(base);
    let mut r = String::from_str(base);
    match text::find_char(&base_chars, '?') {
        Some(_) => {
            r.append("&threadKey=");
        },
        None => {
            proof {
                if exists|i: int| 0 <= i < base@.len() && #[trigger] base@[i] == '?' {
                    let w = choose|w: int| 0 <= w < base@.len() && #[trigger] base@[w] == '?';
                    assert(false);
                }
            }
            r.append("?threadKey=");
        },
    }
    r.append(key);
    r
}

/// Fold one line into the chunk being built, cutting chunks at the length
/// limit.
fn append_line(
    chunks: &mut Vec<String>,
    current: &mut Vec<char>,
    chars: &Vec<char>,
    from: usize,
    to: usize,
    max_len: usize,
)
    requires
        from <= to <= chars@.len(),
        max_len >= 1,
        old(current)@.len() <= max_len,
        forall|w: int| 0 <= w < old(chunks)@.len() ==> (#[trigger] old(chunks)@[w])@.len()
            <= max_len,
    ensures
        final(current)@.len() <= max_len,
        forall|w: int| 0 <= w < final(chunks)@.len() ==> (#[trigger] final(chunks)@[w])@.len()
            <= max_len,
{
    let line_len = to - from;
    if current.len() > 0 && line_len < max_len && current.len() <= max_len - 1 - line_len {
        current.push('\n');
        let mut j = from;
        while j < to
            invariant
                from <= j <= to <= chars@.len(),
                current@.len() + (to - j) <= max_len,
            decreases to - j,
        {
            current.push(chars[j]);
            j = j + 1;
        }
        return ;
    }
    if current.len() > 0 && line_len > 0 {
        chunks.push(text::chars_to_string(current));
        current.clear();
    }
    let mut j = from;
    while j < to
        invariant
            from <= j <= to <= chars@.len(),
            max_len >= 1,
            current@.len() <= max_len,
            forall|w: int| 0 <= w < chunks@.len() ==> (#[trigger] chunks@[w])@.len() <= max_len,
        decreases to - j,
    {
        if current.len() == max_len {
            chunks.push(text::chars_to_string(current));
            current.clear();
        }
        current.push(chars[j]);
        j = j + 1;
    }
}

/// Split a message into chunks a length-limited transport accepts: broken
/// at line boundaries where possible, no chunk over `max_len` characters,
/// and always at least one chunk.
pub fn split_for_transport(content: &str, max_len: usize) -> (r: Vec<String>)
    requires
        max_len >= 1,
    ensures
        r@.len() >= 1,
        forall|i: int| 0 <= i < r@.len() ==> (#[trigger] r@[i])@.len() <= max_len,
{
    let chars = text::str_chars(content);
    if chars.len() == 0 {
        let mut out: Vec<String> = Vec::new();
        out.push(String::new());
        return out;
    }
    let mut chunks: Vec<String> = Vec::new();
    let mut current: Vec<char> = Vec::new();
    let n = chars.len();
    let mut line_start: usize = 0;
    for i in 0..n
        invariant
            n == chars@.len(),
            max_len >= 1,
            line_start <= i,
            line_start <= n,
            current@.len() <= max_len,
            forall|w: int| 0 <= w < chunks@.len() ==> (#[trigger] chunks@[w])@.len() <= max_len,
    {
        if chars[i] == '\n' {
            append_line(&mut chunks, &mut current, &chars, line_start, i, max_len);
            line_start = i + 1;
        }
    }
    append_line(&mut chunks, &mut current, &chars, line_start, n, max_len);
    if current.len() > 0 {
        chunks.push(text::chars_to_string(&current));
    }
    if chunks.len() == 0 {
        chunks.push(String::new());
    }
    chunks
}


/// What a Telegram update yields: one inbound user message for a text,
/// voice or photo update (the first that applies, with the fixed stand-in
/// texts for media), or nothing. The session key is `telegram:<chat id>`;
/// publishing is the bus's.
pub fn telegram_update_decision(
    chat_id: i64,
    sender: &str,
    text_body: Option<&str>,
    has_voice: bool,
    has_photo: bool,
) -> (r: Option<crate::types::Message>)
    ensures
        (r is Some) == (text_body is Some || has_voice || has_photo),
        r matches Some(m) ==> ({
            &&& m.channel@ == "telegram"@
            &&& m.session_key@ == "telegram"@ + seq![':'] + text::dec_of_i64(chat_id as int)
            &&& crate::types::valid_session_key(m.session_key@)
            &&& m.role is User
            &&& m.sender_id@ == sender@
            &&& m.content@ == (match text_body {
                Some(t) => t@,
                None => if has_voice {
                    "[Voice message received - transcription not yet integrated]"@
                } else {
                    "[Photo received]"@
                },
            })
        }),
{
    if text_body.is_none() && !has_voice && !has_photo {
        return None;
    }
    let id_chars = text::i64_to_dec_chars(chat_id);
    let id_text = text::chars_to_string(&id_chars);
    let session_key = crate::types::make_session_key("telegram", id_text.as_str());
    proof {
        reveal_strlit("telegram");
        assert(forall|j: int|
            0 <= j < "telegram"@.len() ==> crate::types::is_key_prefix_char(
                #[trigger] "telegram"@[j],
            ));
        lemma_dec_chars_no_ws(chat_id as int);
        crate::types::lemma_key_opaque_identity(id_text@);
    }
    let content: &str = match text_body {
        Some(t) => t,
        None => if has_voice {
            "[Voice message received - transcription not yet integrated]"
        } else {
            "[Photo received]"
        },
    };
    Some(
        crate::types::Message::new(
            "telegram",
            session_key.as_str(),
            crate::types::Role::User,
            content,
        ).with_sender(sender),
    )
}

proof fn lemma_dec_chars_no_ws(n: int)
    ensures
        forall|i: int|
            0 <= i < text::dec_of_i64(n).len() ==> !text::is_ws_char(
                #[trigger] text::dec_of_i64(n)[i],
            ),
{
    if n < 0 {
        lemma_dec_of_digits((-n) as nat);
        assert forall|i: int|
            0 <= i < text::dec_of_i64(n).len() implies !text::is_ws_char(
            #[trigger] text::dec_of_i64(n)[i],
        ) by {
            if i > 0 {
                assert(text::dec_of_i64(n)[i] == text::dec_of((-n) as nat)[i - 1]);
            }
        }
    } else {
        lemma_dec_of_digits(n as nat);
    }
}

proof fn lemma_dec_of_digits(n: nat)
    ensures
        forall|i: int|
            0 <= i < text::dec_of(n).len() ==> ('0' <= #[trigger] text::dec_of(n)[i] && text::dec_of(
                n,
            )[i] <= '9'),
    decreases n,
{
    if n < 10 {
        assert(text::dec_of(n) =~= seq![((n + 48) as u8) as char]);
        assert('0' <= text::dec_of(n)[0] && text::dec_of(n)[0] <= '9');
    } else {
        lemma_dec_of_digits(n / 10);
        let head = text::dec_of(n / 10);
        assert(text::dec_of(n) == head + seq![(((n % 10) + 48) as u8) as char]);
        assert forall|i: int|
            0 <= i < text::dec_of(n).len() implies ('0' <= #[trigger] text::dec_of(n)[i]
            && text::dec_of(n)[i] <= '9') by {
            if i < head.len() {
                assert(text::dec_of(n)[i] == head[i]);
            } else {
                assert(text::dec_of(n)[i] == (((n % 10) + 48) as u8) as char);
            }
        }
    }
}

} // verus!
