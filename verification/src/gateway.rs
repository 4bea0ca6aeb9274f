//! The gateway's rules: bearer authentication, webhook signature
//! verification, webhook deduplication and ingestion, and the knobs of the
//! HTTP surface. The HTTP server itself lives outside the library and hands
//! these functions the request's plain parts.

use vstd::prelude::*;

use crate::bus::Event;
use crate::bus::MessageBus;
use crate::crypto;
use crate::dedupe;
use crate::dedupe::DedupeCache;
use crate::text;
use crate::types::Message;
use crate::types::Role;
use crate::types::is_key_prefix_char;
use crate::types::key_opaque_part;
use crate::types::make_session_key;
use vstd::string::StringSliceAdditionalSpecFns;

verus! {

/// Webhook dedupe window, seconds.
pub const DEDUPE_TTL_SECS: i64 = 600;

/// Runtime knobs of the gateway.
#[derive(Debug, Clone, Copy)]
pub struct GatewayRuntimeConfig {
    pub ws_heartbeat_secs: u64,
    pub health_window_minutes: usize,
    pub dedupe_max_entries: usize,
}

impl Default for GatewayRuntimeConfig {
    fn default() -> (r: Self)
        ensures
            r.ws_heartbeat_secs == 15,
            r.health_window_minutes == 60,
            r.dedupe_max_entries == 2048,
    {
        GatewayRuntimeConfig {
            ws_heartbeat_secs: 15,
            health_window_minutes: 60,
            dedupe_max_entries: 2048,
        }
    }
}

/// Gateways with an auth token bind publicly; without one they stay on the
/// loopback interface.
pub fn binds_publicly(auth_token: &Option<String>) -> (r: bool)
    ensures
        r == (auth_token is Some),
{
    auth_token.is_some()
}

/// The token a request presented: what follows `Bearer ` in its
/// authorization header, or nothing.
pub open spec fn bearer_token(header: Option<&String>) -> Seq<char> {
    match header {
        Some(h) => if h@.len() >= 7 && h@.subrange(0, 7) == "Bearer "@ {
            h@.skip(7)
        } else {
            Seq::empty()
        },
        None => Seq::empty(),
    }
}

/// Check a request against the configured token: with no token configured
/// every request passes; else the presented bearer token must equal it.
pub fn check_auth(expected_token: &Option<String>, authorization: Option<&String>) -> (r: bool)
    ensures
        r == match expected_token {
            None => true,
            Some(t) => bearer_token(authorization) == t@,
        },
{
    let expected = match expected_token {
        None => {
            return true;
        },
        Some(t) => t,
    };
    let presented: Vec<char> = match authorization {
        Some(h) => {
            let chars = text::str_chars(h.as_str());
            let marker = text::str_chars("Bearer ");
            proof {
                reveal_strlit("Bearer ");
            }
            if text::starts_with_chars(&chars, &marker) {
                text::subrange_chars(&chars, 7, chars.len())
            } else {
                Vec::new()
            }
        },
        None => Vec::new(),
    };
    let expected_chars = text::str_chars(expected.as_str());
    text::chars_eq(&presented, &expected_chars)
}

/// The WhatsApp signature header is valid: it reads `sha256=<hex>` where
/// `<hex>`, case-ignored, spells the HMAC-SHA256 tag of the raw body under
/// the app secret.
pub open spec fn whatsapp_signature_ok(
    header: Option<Seq<char>>,
    body: Seq<u8>,
    secret_bytes: Seq<u8>,
) -> bool {
    match header {
        Some(h) => h.len() >= 7 && h.subrange(0, 7) == "sha256="@ && text::lower_seq(h.skip(7))
            == text::hex_of(crypto::hmac_sha256_of(secret_bytes, body)),
        None => false,
    }
}

/// Verify a WhatsApp webhook signature against the raw body.
pub fn verify_whatsapp_signature(
    signature_header: Option<&String>,
    body: &Vec<u8>,
    secret: &str,
) -> (r: bool)
    ensures
        r == whatsapp_signature_ok(
            match signature_header {
                Some(h) => Some(h@),
                None => None,
            },
            body@,
            secret.spec_bytes(),
        ),
{
    let header = match signature_header {
        Some(h) => h,
        None => {
            return false;
        },
    };
    let chars = text::str_chars(header.as_str());
    let marker = text::str_chars("sha256=");
    proof {
        reveal_strlit("sha256=");
    }
    if !text::starts_with_chars(&chars, &marker) {
        return false;
    }
    let rest = text::subrange_chars(&chars, 7, chars.len());
    let lowered = text::to_lower_chars(&rest);
    let tag = crypto::hmac_sha256(secret.as_bytes(), body.as_slice());
    let expected = text::to_hex_chars(&tag);
    text::chars_eq(&lowered, &expected)
}

/// The bytes HMAC'd for a Slack signature: `v0:<timestamp>:<body>`.
pub open spec fn slack_basestring(ts: int, body: Seq<u8>) -> Seq<u8> {
    "v0:"@.map_values(|c: char| c as u8) + text::dec_of_i64(ts).map_values(|c: char| c as u8)
        + seq![58u8] + body
}

/// The timestamp a Slack request presented: its header parsed as a decimal
/// number, zero when absent or unparseable.
pub open spec fn slack_presented_ts(ts_header: Option<&str>) -> int {
    match ts_header {
        Some(t) => if t@.len() > 0 && text::all_digits(t@) && text::digits_value(t@) <= i64::MAX {
            text::digits_value(t@)
        } else {
            0
        },
        None => 0,
    }
}

/// A Slack signature is valid: the timestamp is present and within five
/// minutes of now, and the signature header reads `v0=<hex>` with the
/// HMAC-SHA256 tag of `v0:<ts>:<body>` under the signing secret.
pub open spec fn slack_signature_ok(
    ts: int,
    signature: Option<Seq<char>>,
    body: Seq<u8>,
    secret_bytes: Seq<u8>,
    now: int,
) -> bool {
    match signature {
        Some(sig) => {
            &&& ts != 0
            &&& sig.len() > 0
            &&& -300 <= now - ts <= 300
            &&& sig == "v0="@ + text::hex_of(
                crypto::hmac_sha256_of(secret_bytes, slack_basestring(ts, body)),
            )
        },
        None => false,
    }
}

/// Verify a Slack request signature: timestamp freshness and the HMAC over
/// `v0:<ts>:<body>`.
pub fn verify_slack_signature(
    ts_header: Option<&str>,
    signature_header: Option<&String>,
    body: &Vec<u8>,
    signing_secret: &str,
    now: i64,
) -> (r: bool)
    ensures
        r == slack_signature_ok(
            slack_presented_ts(ts_header),
            match signature_header {
                Some(h) => Some(h@),
                None => None,
            },
            body@,
            signing_secret.spec_bytes(),
            now as int,
        ),
{
    let ts: i64 = match ts_header {
        Some(t) => match text::parse_decimal_i64(t) {
            Some(v) => v,
            None => 0,
        },
        None => 0,
    };
    let signature = match signature_header {
        Some(h) => h,
        None => {
            return false;
        },
    };
    let sig_chars = text::str_chars(signature.as_str());
    if ts == 0 || sig_chars.len() == 0 {
        return false;
    }
    let diff: i128 = (now as i128) - (ts as i128);
    if diff > 300 || diff < -300 {
        return false;
    }
    // v0:<ts>:<body>
    let mut base: Vec<u8> = Vec::new();
    let head = text::str_chars("v0:");
    let nh = head.len();
    for i in 0..nh
        invariant
            nh == head@.len(),
            head@ == "v0:"@,
            base@ == "v0:"@.map_values(|c: char| c as u8).take(i as int),
    {
        base.push(head[i] as u8);
        assert(base@ =~= "v0:"@.map_values(|c: char| c as u8).take(i + 1));
    }
    proof {
        assert("v0:"@.map_values(|c: char| c as u8).take(nh as int) =~= "v0:"@.map_values(
            |c: char| c as u8,
        ));
    }
    let ts_chars = text::i64_to_dec_chars(ts);
    let nt = ts_chars.len();
    let ghost base1 = base@;
    for i in 0..nt
        invariant
            nt == ts_chars@.len(),
            ts_chars@ == text::dec_of_i64(ts as int),
            base@ == base1 + text::dec_of_i64(ts as int).map_values(|c: char| c as u8).take(
                i as int,
            ),
    {
        base.push(ts_chars[i] as u8);
        assert(base@ =~= base1 + text::dec_of_i64(ts as int).map_values(|c: char| c as u8).take(
            i + 1,
        ));
    }
    proof {
        assert(text::dec_of_i64(ts as int).map_values(|c: char| c as u8).take(nt as int)
            =~= text::dec_of_i64(ts as int).map_values(|c: char| c as u8));
    }
    base.push(58u8);
    let ghost base2 = base@;
    let nb = body.len();
    for i in 0..nb
        invariant
            nb == body@.len(),
            base@ == base2 + body@.take(i as int),
    {
        base.push(body[i]);
        assert(base@ =~= base2 + body@.take(i + 1));
    }
    proof {
        assert(base2 + body@.take(nb as int) =~= slack_basestring(ts as int, body@));
    }
    let tag = crypto::hmac_sha256(signing_secret.as_bytes(), base.as_slice());
    let digest = text::to_hex_chars(&tag);
    let mut expected = text::str_chars("v0=");
    proof {
        reveal_strlit("v0=");
    }
    text::push_all(&mut expected, &digest);
    text::chars_eq(&sig_chars, &expected)
}

/// The channel a message belongs to: its session-key prefix when that names
/// a known channel, else its channel label.
pub open spec fn spec_resolved_channel(
    session_key: Seq<char>,
    channel: Seq<char>,
    known: Seq<Seq<char>>,
) -> Seq<char> {
    if exists|i: int|
        {
            &&& 0 <= i < session_key.len()
            &&& #[trigger] session_key[i] == ':'
            &&& (forall|j: int| 0 <= j < i ==> session_key[j] != ':')
            &&& (exists|w: int| 0 <= w < known.len() && known[w] == session_key.subrange(0, i))
        } {
        session_key.subrange(
            0,
            choose|i: int|
                {
                    &&& 0 <= i < session_key.len()
                    &&& #[trigger] session_key[i] == ':'
                    &&& (forall|j: int| 0 <= j < i ==> session_key[j] != ':')
                    &&& (exists|w: int|
                        0 <= w < known.len() && known[w] == session_key.subrange(0, i))
                },
        )
    } else {
        channel
    }
}

/// Resolve the channel of a message: the session-key prefix before the first
/// colon when it names a target channel, else the message's channel label.
pub fn resolve_channel_from_message(msg: &Message) -> (r: String)
    ensures
        r@ == spec_resolved_channel(
            msg.session_key@,
            msg.channel@,
            crate::channel::spec_target_channels(),
        ),
{
    let chars = text::str_chars(msg.session_key.as_str());
    let known = crate::channel::target_personal_channels();
    match text::find_char(&chars, ':') {
        Some(p) => {
            let prefix = text::subrange_chars(&chars, 0, p);
            let nk = known.len();
            for w in 0..nk
                invariant
                    nk == known@.len(),
                    nk == crate::channel::spec_target_channels().len(),
                    forall|j: int|
                        0 <= j < nk ==> known@[j]@ == crate::channel::spec_target_channels()[j],
                    chars@ == msg.session_key@,
                    p < chars@.len(),
                    chars@[p as int] == ':',
                    forall|j: int| 0 <= j < p ==> chars@[j] != ':',
                    prefix@ == msg.session_key@.subrange(0, p as int),
                    forall|j: int|
                        0 <= j < w ==> crate::channel::spec_target_channels()[j]
                            != msg.session_key@.subrange(0, p as int),
            {
                let kchars = text::str_chars(known[w]);
                if text::chars_eq(&prefix, &kchars) {
                    proof {
                        let i = p as int;
                        assert(msg.session_key@[i] == ':' && (forall|j: int|
                            0 <= j < i ==> msg.session_key@[j] != ':') && (exists|v: int|
                            0 <= v < crate::channel::spec_target_channels().len()
                                && crate::channel::spec_target_channels()[v]
                                == msg.session_key@.subrange(0, i)));
                        let c = choose|c: int|
                            {
                                &&& 0 <= c < msg.session_key@.len()
                                &&& #[trigger] msg.session_key@[c] == ':'
                                &&& (forall|j: int| 0 <= j < c ==> msg.session_key@[j] != ':')
                                &&& (exists|v: int|
                                    0 <= v < crate::channel::spec_target_channels().len()
                                        && crate::channel::spec_target_channels()[v]
                                        == msg.session_key@.subrange(0, c))
                            };
                        assert(c == i);
                    }
                    return text::chars_to_string(&prefix);
                }
            }
            proof {
                if exists|i: int|
                    {
                        &&& 0 <= i < msg.session_key@.len()
                        &&& #[trigger] msg.session_key@[i] == ':'
                        &&& (forall|j: int| 0 <= j < i ==> msg.session_key@[j] != ':')
                        &&& (exists|w: int|
                            0 <= w < crate::channel::spec_target_channels().len()
                                && crate::channel::spec_target_channels()[w]
                                == msg.session_key@.subrange(0, i))
                    } {
                    let c = choose|c: int|
                        {
                            &&& 0 <= c < msg.session_key@.len()
                            &&& #[trigger] msg.session_key@[c] == ':'
                            &&& (forall|j: int| 0 <= j < c ==> msg.session_key@[j] != ':')
                            &&& (exists|w: int|
                                0 <= w < crate::channel::spec_target_channels().len()
                                    && crate::channel::spec_target_channels()[w]
                                    == msg.session_key@.subrange(0, c))
                        };
                    assert(c == p as int);
                    assert(false);
                }
            }
            self_channel(msg)
        },
        None => {
            proof {
                if exists|i: int|
                    {
                        &&& 0 <= i < msg.session_key@.len()
                        &&& #[trigger] msg.session_key@[i] == ':'
                        &&& (forall|j: int| 0 <= j < i ==> msg.session_key@[j] != ':')
                        &&& (exists|w: int|
                            0 <= w < crate::channel::spec_target_channels().len()
                                && crate::channel::spec_target_channels()[w]
                                == msg.session_key@.subrange(0, i))
                    } {
                    let c = choose|c: int|
                        0 <= c < msg.session_key@.len() && #[trigger] msg.session_key@[c] == ':';
                    assert(false);
                }
            }
            self_channel(msg)
        },
    }
}

fn self_channel(msg: &Message) -> (r: String)
    ensures
        r@ == msg.channel@,
{
    msg.channel.clone()
}

/// Clamp a requested listing limit into `[lo, hi]`.
pub fn clamp_limit(v: i64, lo: i64, hi: i64) -> (r: i64)
    requires
        lo <= hi,
    ensures
        r == if v < lo {
            lo
        } else if v > hi {
            hi
        } else {
            v
        },
{
    if v < lo {
        lo
    } else if v > hi {
        hi
    } else {
        v
    }
}

/// What the WhatsApp webhook-verification endpoint answers.
#[derive(Debug)]
pub enum WhatsAppVerifyOutcome {
    /// Echo the challenge back.
    Challenge(String),
    /// The mode is not `subscribe`: a bad request.
    BadMode,
    /// No token is configured or the presented one differs: unauthorized.
    BadToken,
}

/// Decide a WhatsApp webhook-verification request: the mode must be
/// `subscribe` and the presented token must match the configured, non-empty
/// verify token; then the challenge is echoed.
pub fn whatsapp_verify_decision(
    mode: Option<&String>,
    verify_token: Option<&String>,
    challenge: Option<&String>,
    expected: &Option<String>,
) -> (r: WhatsAppVerifyOutcome)
    ensures
        !(mode matches Some(m) && m@ == "subscribe"@) ==> r is BadMode,
        (mode matches Some(m) && m@ == "subscribe"@) && !(expected matches Some(e) && e@.len() > 0
            && (verify_token matches Some(v) && v@ == e@)) ==> r is BadToken,
        (mode matches Some(m) && m@ == "subscribe"@) && (expected matches Some(e) && e@.len() > 0
            && (verify_token matches Some(v) && v@ == e@)) ==> (r matches
            WhatsAppVerifyOutcome::Challenge(c) && c@ == match challenge {
            Some(ch) => ch@,
            None => Seq::<char>::empty(),
        }),
{
    let mode_ok = match mode {
        Some(m) => text::str_eq(m.as_str(), "subscribe"),
        None => false,
    };
    if !mode_ok {
        return WhatsAppVerifyOutcome::BadMode;
    }
    let token_ok = match (expected, verify_token) {
        (Some(e), Some(v)) => !e.as_str().is_empty() && text::str_eq(v.as_str(), e.as_str()),
        _ => false,
    };
    if !token_ok {
        return WhatsAppVerifyOutcome::BadToken;
    }
    match challenge {
        Some(c) => WhatsAppVerifyOutcome::Challenge(c.clone()),
        None => WhatsAppVerifyOutcome::Challenge(String::new()),
    }
}


/// A channel name fit to stand before the colon of a session key.
pub open spec fn valid_channel_prefix(s: Seq<char>) -> bool {
    s.len() >= 1 && (forall|j: int| 0 <= j < s.len() ==> is_key_prefix_char(#[trigger] s[j]))
}

/// The dedupe key for a platform message id: `<channel>:<id>`.
pub fn channel_dedupe_key(channel: &str, message_id: &str) -> (r: String)
    ensures
        r@ == channel@ + seq![':'] + message_id@,
{
    let mut r = String::from_str(channel);
    r.append(":");
    let ghost mid = r@;
    r.append(message_id);
    proof {
        reveal_strlit(":");
        assert(r@ =~= channel@ + seq![':'] + message_id@);
    }
    r
}

/// Ingest one parsed inbound platform message: repeats within the dedupe
/// window are dropped; anything else becomes an inbound user message on the
/// bus under the channel's session key, carrying the platform's sender name
/// and message id as metadata.
pub fn ingest_inbound(
    bus: &mut MessageBus,
    cache: &mut DedupeCache,
    channel: &str,
    peer: &str,
    body_text: &str,
    sender: Option<&str>,
    sender_name: Option<&str>,
    id_meta_key: &str,
    message_id: Option<&str>,
    now_secs: i64,
    dedupe_max: usize,
) -> (published: bool)
    requires
        old(bus).wf(),
        old(cache).wf(),
        now_secs >= 0,
        valid_channel_prefix(channel@),
    ensures
        final(bus).wf(),
        final(cache).wf(),
        published == (match message_id {
            Some(id) => !dedupe::vdedupe_hit(
                dedupe::cache_view(old(cache).entries@),
                channel@ + seq![':'] + id@,
                now_secs,
                DEDUPE_TTL_SECS,
            ),
            None => true,
        }),
        !published ==> final(bus).events@ == old(bus).events@,
        published ==> ({
            &&& final(bus).events@.len() == old(bus).events@.len() + 1
            &&& final(bus).events@.subrange(0, old(bus).events@.len() as int) == old(bus).events@
            &&& final(bus).events@.last() matches Event::InboundMessage(m) && m.channel@
                == channel@ && m.session_key@ == channel@ + seq![':'] + key_opaque_part(peer@)
                && m.role is User && m.content@ == body_text@ && m.sender_id@ == (match sender {
                Some(s) => s@,
                None => peer@,
            })
        }),
        dedupe::cache_view(final(cache).entries@) == (match message_id {
            Some(id) => {
                let k = channel@ + seq![':'] + id@;
                let v = dedupe::cache_view(old(cache).entries@);
                if dedupe::vdedupe_hit(v, k, now_secs, DEDUPE_TTL_SECS) {
                    dedupe::vexpire_evicted(v, now_secs, DEDUPE_TTL_SECS)
                } else {
                    dedupe::vdedupe_missed(
                        v,
                        k,
                        now_secs,
                        DEDUPE_TTL_SECS,
                        if dedupe_max > 128 {
                            dedupe_max as int
                        } else {
                            128
                        },
                    )
                }
            },
            None => dedupe::cache_view(old(cache).entries@),
        }),
{
    if let Some(id) = message_id {
        let key = channel_dedupe_key(channel, id);
        if cache.seen(key.as_str(), now_secs, DEDUPE_TTL_SECS, dedupe_max) {
            return false;
        }
    }
    let session_key = make_session_key(channel, peer);
    let mut msg = Message::new(channel, session_key.as_str(), Role::User, body_text).with_sender(
        match sender {
            Some(s) => s,
            None => peer,
        },
    );
    if let Some(name) = sender_name {
        msg.insert_metadata(String::from_str("sender_name"), String::from_str(name));
    }
    if let Some(id) = message_id {
        msg.insert_metadata(String::from_str(id_meta_key), String::from_str(id));
    }
    bus.publish(Event::InboundMessage(msg));
    true
}

/// One message of a WhatsApp webhook delivery, already parsed out of the
/// provider's envelope.
#[derive(Debug)]
pub struct WhatsAppWebhookMessage {
    pub from: String,
    pub text: String,
    pub message_id: Option<String>,
    pub sender_name: Option<String>,
}

/// What one webhook message does to the dedupe cache, and whether it is
/// published: entries without a sender or text are skipped; a message with
/// an id is deduplicated on `whatsapp:<id>`.
pub open spec fn spec_webhook_step(
    cache: Seq<(Seq<char>, i64)>,
    m: WhatsAppWebhookMessage,
    now: i64,
    max: int,
) -> (Seq<(Seq<char>, i64)>, bool) {
    if !(m.from@.len() > 0 && m.text@.len() > 0) {
        (cache, false)
    } else {
        match m.message_id {
            None => (cache, true),
            Some(id) => {
                let k = "whatsapp"@ + seq![':'] + id@;
                if dedupe::vdedupe_hit(cache, k, now, DEDUPE_TTL_SECS) {
                    (dedupe::vexpire_evicted(cache, now, DEDUPE_TTL_SECS), false)
                } else {
                    (dedupe::vdedupe_missed(cache, k, now, DEDUPE_TTL_SECS, max), true)
                }
            },
        }
    }
}

/// The cache and the count published after a whole delivery, message by
/// message in order.
pub open spec fn spec_webhook_run(
    cache: Seq<(Seq<char>, i64)>,
    msgs: Seq<WhatsAppWebhookMessage>,
    now: i64,
    max: int,
) -> (Seq<(Seq<char>, i64)>, int)
    decreases msgs.len(),
{
    if msgs.len() == 0 {
        (cache, 0)
    } else {
        let first = spec_webhook_step(cache, msgs[0], now, max);
        let rest = spec_webhook_run(first.0, msgs.drop_first(), now, max);
        (
            rest.0,
            rest.1 + if first.1 {
                1int
            } else {
                0int
            },
        )
    }
}

proof fn lemma_webhook_run_snoc(
    cache: Seq<(Seq<char>, i64)>,
    msgs: Seq<WhatsAppWebhookMessage>,
    m: WhatsAppWebhookMessage,
    now: i64,
    max: int,
)
    ensures
        ({
            let upto = spec_webhook_run(cache, msgs, now, max);
            let step = spec_webhook_step(upto.0, m, now, max);
            spec_webhook_run(cache, msgs.push(m), now, max) == (
                step.0,
                upto.1 + if step.1 {
                    1int
                } else {
                    0int
                },
            )
        }),
    decreases msgs.len(),
{
    if msgs.len() == 0 {
        assert(msgs.push(m).drop_first() =~= Seq::<WhatsAppWebhookMessage>::empty());
        assert(msgs.push(m)[0] == m);
        assert(spec_webhook_run(cache, Seq::<WhatsAppWebhookMessage>::empty(), now, max) == (
            cache,
            0int,
        ));
        assert(spec_webhook_run(
            spec_webhook_step(cache, m, now, max).0,
            Seq::<WhatsAppWebhookMessage>::empty(),
            now,
            max,
        ) == (spec_webhook_step(cache, m, now, max).0, 0int));
    } else {
        assert(msgs.push(m).drop_first() =~= msgs.drop_first().push(m));
        assert(msgs.push(m)[0] == msgs[0]);
        lemma_webhook_run_snoc(
            spec_webhook_step(cache, msgs[0], now, max).0,
            msgs.drop_first(),
            m,
            now,
            max,
        );
    }
}

proof fn lemma_webhook_run_nonneg(
    cache: Seq<(Seq<char>, i64)>,
    msgs: Seq<WhatsAppWebhookMessage>,
    now: i64,
    max: int,
)
    ensures
        spec_webhook_run(cache, msgs, now, max).1 >= 0,
    decreases msgs.len(),
{
    if msgs.len() > 0 {
        lemma_webhook_run_nonneg(
            spec_webhook_step(cache, msgs[0], now, max).0,
            msgs.drop_first(),
            now,
            max,
        );
    }
}

/// The event a published webhook message must have appended.
pub open spec fn webhook_event_ok(e: Event, m: WhatsAppWebhookMessage) -> bool {
    e matches Event::InboundMessage(msg) && msg.channel@ == "whatsapp"@ && msg.session_key@
        == "whatsapp"@ + seq![':'] + key_opaque_part(m.from@) && msg.role is User && msg.content@
        == m.text@ && msg.sender_id@ == m.from@
}

/// The events from `base` on record one publication per accepted message of
/// the first `upto`, in delivery order.
pub open spec fn webhook_events_ok(
    events: Seq<Event>,
    base: int,
    cache: Seq<(Seq<char>, i64)>,
    msgs: Seq<WhatsAppWebhookMessage>,
    now: i64,
    max: int,
    upto: int,
) -> bool {
    forall|w: int|
        0 <= w < upto && spec_webhook_step(
            spec_webhook_run(cache, msgs.take(w), now, max).0,
            #[trigger] msgs[w],
            now,
            max,
        ).1 ==> webhook_event_ok(
            events[base + spec_webhook_run(cache, msgs.take(w), now, max).1],
            msgs[w],
        )
}

/// Ingest a WhatsApp webhook delivery: messages without a sender or text
/// are skipped; the rest are deduplicated on their message id against the
/// evolving cache and published, in order. The count published comes back.
#[verifier::rlimit(100)]
pub fn handle_whatsapp_webhook(
    bus: &mut MessageBus,
    cache: &mut DedupeCache,
    messages: &Vec<WhatsAppWebhookMessage>,
    now_secs: i64,
    dedupe_max: usize,
) -> (accepted: usize)
    requires
        old(bus).wf(),
        old(cache).wf(),
        now_secs >= 0,
    ensures
        final(bus).wf(),
        final(cache).wf(),
        ({
            let v0 = dedupe::cache_view(old(cache).entries@);
            let max = if dedupe_max > 128 {
                dedupe_max as int
            } else {
                128
            };
            let run = spec_webhook_run(v0, messages@, now_secs, max);
            let base = old(bus).events@.len() as int;
            &&& accepted == run.1
            &&& dedupe::cache_view(final(cache).entries@) == run.0
            &&& final(bus).events@.len() == base + accepted
            &&& final(bus).events@.subrange(0, base) == old(bus).events@
            &&& webhook_events_ok(
                final(bus).events@,
                base,
                v0,
                messages@,
                now_secs,
                max,
                messages@.len() as int,
            )
        }),
{
    let mut accepted: usize = 0;
    let n = messages.len();
    let ghost v0 = dedupe::cache_view(cache.entries@);
    let ghost base = bus.events@.len() as int;
    let ghost max = if dedupe_max > 128 {
        dedupe_max as int
    } else {
        128
    };
    proof {
        assert(messages@.take(0) =~= Seq::<WhatsAppWebhookMessage>::empty());
    }
    for i in 0..n
        invariant
            n == messages@.len(),
            bus.wf(),
            cache.wf(),
            now_secs >= 0,
            base == old(bus).events@.len() as int,
            v0 == dedupe::cache_view(old(cache).entries@),
            max == if dedupe_max > 128 {
                dedupe_max as int
            } else {
                128
            },
            accepted <= i,
            accepted as int == spec_webhook_run(v0, messages@.take(i as int), now_secs, max).1,
            dedupe::cache_view(cache.entries@) == spec_webhook_run(
                v0,
                messages@.take(i as int),
                now_secs,
                max,
            ).0,
            bus.events@.len() == base + accepted,
            bus.events@.subrange(0, base) == old(bus).events@,
            webhook_events_ok(bus.events@, base, v0, messages@, now_secs, max, i as int),
    {
        let m = &messages[i];
        let ghost events_before = bus.events@;
        let ghost run_before = spec_webhook_run(v0, messages@.take(i as int), now_secs, max);
        proof {
            assert(messages@.take(i as int).push(messages@[i as int]) =~= messages@.take(i + 1));
            lemma_webhook_run_snoc(v0, messages@.take(i as int), messages@[i as int], now_secs, max);
        }
        if !m.from.as_str().is_empty() && !m.text.as_str().is_empty() {
            proof {
                reveal_strlit("whatsapp");
                assert(valid_channel_prefix("whatsapp"@));
            }
            let published = ingest_inbound(
                bus,
                cache,
                "whatsapp",
                m.from.as_str(),
                m.text.as_str(),
                Some(m.from.as_str()),
                match &m.sender_name {
                    Some(s) => Some(s.as_str()),
                    None => None,
                },
                "whatsapp_message_id",
                match &m.message_id {
                    Some(s) => Some(s.as_str()),
                    None => None,
                },
                now_secs,
                dedupe_max,
            );
            proof {
                let step = spec_webhook_step(run_before.0, messages@[i as int], now_secs, max);
                assert(published == step.1);
                assert(dedupe::cache_view(cache.entries@) == step.0);
                if published {
                    assert(webhook_event_ok(bus.events@.last(), messages@[i as int]));
                }
            }
            if published {
                accepted = accepted + 1;
            }
        } else {
            proof {
                assert(spec_webhook_step(run_before.0, messages@[i as int], now_secs, max) == (
                    run_before.0,
                    false,
                ));
            }
        }
        proof {
            assert forall|w: int|
                0 <= w < i + 1 && spec_webhook_step(
                    spec_webhook_run(v0, messages@.take(w), now_secs, max).0,
                    #[trigger] messages@[w],
                    now_secs,
                    max,
                ).1 implies webhook_event_ok(
                bus.events@[base + spec_webhook_run(v0, messages@.take(w), now_secs, max).1],
                messages@[w],
            ) by {
                if w < i {
                    lemma_webhook_run_nonneg(v0, messages@.take(w), now_secs, max);
                    lemma_webhook_accepted_monotone(v0, messages@, now_secs, max, w, i as int);
                    assert(base + spec_webhook_run(v0, messages@.take(w), now_secs, max).1
                        < events_before.len());
                    assert(bus.events@[base + spec_webhook_run(v0, messages@.take(w), now_secs, max).1]
                        == events_before[base + spec_webhook_run(
                        v0,
                        messages@.take(w),
                        now_secs,
                        max,
                    ).1]);
                } else {
                    assert(bus.events@[base + run_before.1] == bus.events@.last());
                }
            }
        }
    }
    proof {
        assert(messages@.take(n as int) =~= messages@);
    }
    accepted
}

proof fn lemma_webhook_accepted_monotone(
    cache: Seq<(Seq<char>, i64)>,
    msgs: Seq<WhatsAppWebhookMessage>,
    now: i64,
    max: int,
    a: int,
    b: int,
)
    requires
        0 <= a <= b <= msgs.len(),
    ensures
        spec_webhook_run(cache, msgs.take(a), now, max).1 <= spec_webhook_run(
            cache,
            msgs.take(b),
            now,
            max,
        ).1,
        spec_webhook_step(
            spec_webhook_run(cache, msgs.take(a), now, max).0,
            msgs[a],
            now,
            max,
        ).1 && a < b ==> spec_webhook_run(cache, msgs.take(a), now, max).1 < spec_webhook_run(
            cache,
            msgs.take(b),
            now,
            max,
        ).1,
    decreases b - a,
{
    if a < b {
        lemma_webhook_accepted_monotone(cache, msgs, now, max, a, b - 1);
        assert(msgs.take(b - 1).push(msgs[b - 1]) =~= msgs.take(b));
        lemma_webhook_run_snoc(cache, msgs.take(b - 1), msgs[b - 1], now, max);
        if a == b - 1 {
            assert(msgs.take(a).push(msgs[a]) =~= msgs.take(b));
        }
    }
}

/// What the Slack inbound endpoint decides for a parsed Events API payload,
/// before deduplication.
#[derive(Debug)]
pub enum SlackInboundDecision {
    /// A `url_verification` payload: echo the challenge.
    Challenge(String),
    /// An `event_callback` that is not a message event.
    IgnoredNonMessageEvent,
    /// A bot-generated update.
    IgnoredBotEvent,
    /// A message without a channel or text.
    IgnoredIncompleteMessage,
    /// A user message to take in, with its session key.
    Process(String),
}

/// A parsed Slack Events API payload: the fields the decision reads.
#[derive(Debug)]
pub struct SlackEventPayload {
    pub payload_type: String,
    pub challenge: Option<String>,
    pub event_type: Option<String>,
    pub bot_id_present: bool,
    pub subtype: Option<String>,
    pub channel: Option<String>,
    pub text: Option<String>,
    pub thread_ts: Option<String>,
    pub ts: Option<String>,
}

/// The session key of a Slack message: the channel, with the thread
/// timestamp (or the message's own) as sub-key when present.
pub open spec fn spec_slack_session_key(
    channel: Seq<char>,
    thread_ts: Option<Seq<char>>,
    ts: Option<Seq<char>>,
) -> Seq<char> {
    match thread_ts {
        Some(t) => "slack:"@ + channel + seq![':'] + t,
        None => match ts {
            Some(t) => "slack:"@ + channel + seq![':'] + t,
            None => "slack:"@ + channel,
        },
    }
}

/// Decide a Slack Events API payload: the verification challenge is echoed;
/// non-message events, bot updates and incomplete messages are ignored; a
/// user message is processed under its thread-aware session key.
pub fn slack_event_decision(p: &SlackEventPayload) -> (r: SlackInboundDecision)
    ensures
        p.payload_type@ == "url_verification"@ ==> (r matches SlackInboundDecision::Challenge(c)
            && c@ == (match p.challenge {
            Some(ch) => ch@,
            None => Seq::<char>::empty(),
        })),
        p.payload_type@ == "event_callback"@ && !(p.event_type matches Some(t) && t@
            == "message"@) ==> r is IgnoredNonMessageEvent,
        p.payload_type@ == "event_callback"@ && (p.event_type matches Some(t) && t@
            == "message"@) && (p.bot_id_present || (p.subtype matches Some(st) && (st@
            == "bot_message"@ || st@ == "message_changed"@))) ==> r is IgnoredBotEvent,
        p.payload_type@ == "event_callback"@ && (p.event_type matches Some(t) && t@
            == "message"@) && !(p.bot_id_present || (p.subtype matches Some(st) && (st@
            == "bot_message"@ || st@ == "message_changed"@))) && !((p.channel matches Some(c)
            && c@.len() > 0) && (p.text matches Some(x) && x@.len() > 0))
            ==> r is IgnoredIncompleteMessage,
        p.payload_type@ == "event_callback"@ && (p.event_type matches Some(t) && t@
            == "message"@) && !(p.bot_id_present || (p.subtype matches Some(st) && (st@
            == "bot_message"@ || st@ == "message_changed"@))) && ((p.channel matches Some(c)
            && c@.len() > 0) && (p.text matches Some(x) && x@.len() > 0)) ==> (r matches
            SlackInboundDecision::Process(k) && (p.channel matches Some(c) && k@
            == spec_slack_session_key(
            c@,
            match p.thread_ts {
                Some(t) => Some(t@),
                None => None,
            },
            match p.ts {
                Some(t) => Some(t@),
                None => None,
            },
        ))),
{
    proof {
        reveal_strlit("url_verification");
        reveal_strlit("event_callback");
        assert("url_verification"@.len() == 16);
        assert("event_callback"@.len() == 14);
    }
    if text::str_eq(p.payload_type.as_str(), "url_verification") {
        return SlackInboundDecision::Challenge(
            match &p.challenge {
                Some(c) => c.clone(),
                None => String::new(),
            },
        );
    }
    if !text::str_eq(p.payload_type.as_str(), "event_callback") {
        // Not an Events API envelope the gateway understands; treated as a
        // non-message event.
        return SlackInboundDecision::IgnoredNonMessageEvent;
    }
    let is_message = match &p.event_type {
        Some(t) => text::str_eq(t.as_str(), "message"),
        None => false,
    };
    if !is_message {
        return SlackInboundDecision::IgnoredNonMessageEvent;
    }
    let bot = p.bot_id_present || (match &p.subtype {
        Some(st) => text::str_eq(st.as_str(), "bot_message") || text::str_eq(
            st.as_str(),
            "message_changed",
        ),
        None => false,
    });
    if bot {
        return SlackInboundDecision::IgnoredBotEvent;
    }
    let channel = match &p.channel {
        Some(c) => if c.as_str().is_empty() {
            None
        } else {
            Some(c)
        },
        None => None,
    };
    let text_ok = match &p.text {
        Some(x) => !x.as_str().is_empty(),
        None => false,
    };
    match (channel, text_ok) {
        (Some(c), true) => {
            let mut k = String::from_str("slack:");
            k.append(c.as_str());
            let sub: Option<&String> = match &p.thread_ts {
                Some(t) => Some(t),
                None => match &p.ts {
                    Some(t) => Some(t),
                    None => None,
                },
            };
            if let Some(t) = sub {
                k.append(":");
                let ghost mid = k@;
                k.append(t.as_str());
                proof {
                    reveal_strlit(":");
                }
            }
            SlackInboundDecision::Process(k)
        },
        _ => SlackInboundDecision::IgnoredIncompleteMessage,
    }
}


/// How many sessions a listing returns when the request names no limit.
pub fn default_sessions_limit() -> (r: i64)
    ensures
        r == 20,
{
    20
}

/// How many messages a session listing returns when the request names no
/// limit.
pub fn default_messages_limit() -> (r: i64)
    ensures
        r == 100,
{
    100
}

/// The channel label of a message injected through the session-send
/// endpoint, when the request names none.
pub fn default_session_send_channel() -> (r: String)
    ensures
        r@ == "api.sessions"@,
{
    String::from_str("api.sessions")
}


/// The WebSocket envelope label of a bus event, as the event stream tags
/// its frames.
pub fn ws_event_envelope_label(e: &Event) -> (r: &'static str)
    ensures
        e is InboundMessage ==> r@ == "inbound_message"@,
        e is OutboundMessage ==> r@ == "outbound_message"@,
        e matches Event::SystemLog { .. } ==> r@ == "system_log"@,
{
    match e {
        Event::InboundMessage(_) => "inbound_message",
        Event::OutboundMessage(_) => "outbound_message",
        Event::SystemLog { .. } => "system_log",
    }
}

/// The envelope label of the greeting sent once on connect.
pub fn ws_connected_label() -> (r: &'static str)
    ensures
        r@ == "connected"@,
{
    "connected"
}

/// The envelope label of the periodic heartbeat frame.
pub fn ws_heartbeat_label() -> (r: &'static str)
    ensures
        r@ == "heartbeat"@,
{
    "heartbeat"
}

/// The envelope label of the frame reporting a lagged subscriber.
pub fn ws_lagged_label() -> (r: &'static str)
    ensures
        r@ == "lagged"@,
{
    "lagged"
}

} // verus!
