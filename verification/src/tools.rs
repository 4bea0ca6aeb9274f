//! The session tools' request handling: their default and clamped limits,
//! and the message the send tool injects. The store queries themselves go
//! through the session manager.

use vstd::prelude::*;

use crate::bus::Event;
use crate::bus::MessageBus;
use crate::types::Message;
use crate::types::Role;
use crate::types::valid_session_key;

verus! {

/// The session-listing tool's default limit.
pub fn default_limit() -> (r: i64)
    ensures
        r == 20,
{
    20
}

/// The history tool's default limit.
pub fn default_history_limit() -> (r: i64)
    ensures
        r == 50,
{
    50
}

/// The channel label of a message injected by the send tool, when the
/// arguments name none.
pub fn default_send_channel() -> (r: String)
    ensures
        r@ == "sessions_tool"@,
{
    String::from_str("sessions_tool")
}

/// The limit the listing tool actually uses: the request's, clamped into
/// 1..=100.
pub fn clamp_sessions_limit(limit: i64) -> (r: i64)
    ensures
        r == if limit < 1 {
            1int
        } else if limit > 100 {
            100int
        } else {
            limit as int
        },
{
    if limit < 1 {
        1
    } else if limit > 100 {
        100
    } else {
        limit
    }
}

/// The limit the history tool actually uses: the request's, clamped into
/// 1..=200.
pub fn clamp_history_limit(limit: i64) -> (r: i64)
    ensures
        r == if limit < 1 {
            1int
        } else if limit > 200 {
            200int
        } else {
            limit as int
        },
{
    if limit < 1 {
        1
    } else if limit > 200 {
        200
    } else {
        limit
    }
}

/// Inject a user message into an existing session: published inbound under
/// the given key, sent by the tool.
pub fn send_into_session(
    bus: &mut MessageBus,
    channel: &str,
    session_key: &str,
    body_text: &str,
) -> (published: bool)
    requires
        old(bus).wf(),
    ensures
        final(bus).wf(),
        published == valid_session_key(session_key@),
        !published ==> final(bus).events@ == old(bus).events@,
        published ==> ({
            &&& final(bus).events@.len() == old(bus).events@.len() + 1
            &&& final(bus).events@.last() matches Event::InboundMessage(m) && m.session_key@
                == session_key@ && m.content@ == body_text@ && m.role is User && m.sender_id@
                == "sessions_send_tool"@ && m.channel@ == channel@
        }),
{
    if !crate::types::is_valid_session_key(session_key) {
        return false;
    }
    let msg = Message::new(channel, session_key, Role::User, body_text).with_sender(
        "sessions_send_tool",
    );
    bus.publish(Event::InboundMessage(msg));
    true
}

/// The clock tool: its identity; reading the clock happens outside the
/// library.
#[derive(Debug, Clone, Copy)]
pub struct DatetimeNowTool;

impl DatetimeNowTool {
    pub fn new() -> (r: Self) {
        DatetimeNowTool
    }

    /// The tool's registered name.
    pub fn name(&self) -> (r: &'static str)
        ensures
            r@ == "datetime_now"@,
    {
        "datetime_now"
    }
}

} // verus!
