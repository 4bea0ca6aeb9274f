//! Channel identifiers and the support matrix of native adapters.

use vstd::prelude::*;

use crate::text;

verus! {

pub const CHANNEL_WHATSAPP: &'static str = "whatsapp";

pub const CHANNEL_TELEGRAM: &'static str = "telegram";

pub const CHANNEL_SLACK: &'static str = "slack";

pub const CHANNEL_DISCORD: &'static str = "discord";

pub const CHANNEL_SIGNAL: &'static str = "signal";

pub const CHANNEL_IMESSAGE: &'static str = "imessage";

pub const CHANNEL_TEAMS: &'static str = "teams";

pub const CHANNEL_MATRIX: &'static str = "matrix";

pub const CHANNEL_ZALO: &'static str = "zalo";

pub const CHANNEL_GOOGLE_CHAT: &'static str = "google_chat";

pub const CHANNEL_WEBCHAT: &'static str = "webchat";

/// The names of the channels a personal assistant targets, in order.
pub open spec fn spec_target_channels() -> Seq<Seq<char>> {
    seq![
        "whatsapp"@,
        "telegram"@,
        "slack"@,
        "discord"@,
        "signal"@,
        "imessage"@,
        "teams"@,
        "matrix"@,
        "zalo"@,
        "google_chat"@,
        "webchat"@,
    ]
}

/// The names of the channels with a native runtime adapter.
pub open spec fn spec_native_channels() -> Seq<Seq<char>> {
    seq![
        "whatsapp"@,
        "telegram"@,
        "discord"@,
        "slack"@,
        "teams"@,
        "zalo"@,
        "google_chat"@,
    ]
}

/// `name` is one of the channels with a native adapter.
pub open spec fn spec_native_supported(name: Seq<char>) -> bool {
    exists|i: int| 0 <= i < spec_native_channels().len() && spec_native_channels()[i] == name
}

/// Target personal-assistant channel set.
pub fn target_personal_channels() -> (r: Vec<&'static str>)
    ensures
        r@.len() == spec_target_channels().len(),
        forall|i: int| 0 <= i < r@.len() ==> r@[i]@ == spec_target_channels()[i],
{
    let mut v: Vec<&'static str> = Vec::new();
    v.push(CHANNEL_WHATSAPP);
    v.push(CHANNEL_TELEGRAM);
    v.push(CHANNEL_SLACK);
    v.push(CHANNEL_DISCORD);
    v.push(CHANNEL_SIGNAL);
    v.push(CHANNEL_IMESSAGE);
    v.push(CHANNEL_TEAMS);
    v.push(CHANNEL_MATRIX);
    v.push(CHANNEL_ZALO);
    v.push(CHANNEL_GOOGLE_CHAT);
    v.push(CHANNEL_WEBCHAT);
    v
}

/// Native runtime channel adapters currently implemented.
pub fn native_supported_channels() -> (r: Vec<&'static str>)
    ensures
        r@.len() == spec_native_channels().len(),
        forall|i: int| 0 <= i < r@.len() ==> r@[i]@ == spec_native_channels()[i],
{
    let mut v: Vec<&'static str> = Vec::new();
    v.push(CHANNEL_WHATSAPP);
    v.push(CHANNEL_TELEGRAM);
    v.push(CHANNEL_DISCORD);
    v.push(CHANNEL_SLACK);
    v.push(CHANNEL_TEAMS);
    v.push(CHANNEL_ZALO);
    v.push(CHANNEL_GOOGLE_CHAT);
    v
}

/// Does this channel have a native adapter?
pub fn is_native_channel_supported(channel: &str) -> (r: bool)
    ensures
        r == spec_native_supported(channel@),
{
    let native = native_supported_channels();
    let count = native.len();
    for i in 0..count
        invariant
            count == native.len(),
            count == spec_native_channels().len(),
            forall|j: int| 0 <= j < count ==> native@[j]@ == spec_native_channels()[j],
            forall|j: int| 0 <= j < i ==> spec_native_channels()[j] != channel@,
    {
        if text::str_eq(native[i], channel) {
            return true;
        }
    }
    false
}

} // verus!
