//! The data model: messages, their roles and attachments, and the session
//! key grammar that routes them.

use vstd::prelude::*;

use crate::sys;
use crate::text;

verus! {

/// Who a message speaks for.
#[derive(Debug, Clone, Copy, PartialEq, Eq, Structural)]
pub enum Role {
    User,
    Assistant,
    System,
    Tool,
}

/// The kind of a file attachment.
#[derive(Debug, Clone, Copy, PartialEq, Eq, Structural)]
pub enum AttachmentKind {
    Image,
    File,
    Audio,
    Video,
    Other,
}

/// A file carried along a message.
#[derive(Debug)]
pub struct Attachment {
    pub name: String,
    pub kind: AttachmentKind,
    pub url: String,
    pub mime_type: Option<String>,
}

/// `a` carries the same attachment data as `b`.
pub open spec fn attachment_like(a: Attachment, b: Attachment) -> bool {
    &&& a.name@ == b.name@
    &&& a.kind == b.kind
    &&& a.url@ == b.url@
    &&& match (a.mime_type, b.mime_type) {
        (Some(x), Some(y)) => x@ == y@,
        (None, None) => true,
        _ => false,
    }
}

impl Clone for Attachment {
    fn clone(&self) -> (r: Self)
        ensures
            attachment_like(r, *self),
    {
        Attachment {
            name: self.name.clone(),
            kind: self.kind,
            url: self.url.clone(),
            mime_type: match &self.mime_type {
                Some(m) => Some(m.clone()),
                None => None,
            },
        }
    }
}

/// A character the channel part of a session key may hold.
pub open spec fn is_key_prefix_char(c: char) -> bool {
    ('a' <= c && c <= 'z') || c == '_'
}

/// The session-key grammar: one or more of `a`-`z` or `_`, a colon, then
/// anything free of whitespace.
pub open spec fn valid_session_key(s: Seq<char>) -> bool {
    exists|i: int|
        {
            &&& 1 <= i < s.len()
            &&& #[trigger] s[i] == ':'
            &&& (forall|j: int| 0 <= j < i ==> is_key_prefix_char(#[trigger] s[j]))
            &&& (forall|j: int| i < j < s.len() ==> !text::is_ws_char(#[trigger] s[j]))
        }
}

/// Does `key` fit the session-key grammar?
pub fn is_valid_session_key(key: &str) -> (r: bool)
    ensures
        r == valid_session_key(key@),
{
    let chars = text::str_chars(key);
    let colon = text::find_char(&chars, ':');
    match colon {
        None => {
            assert(!valid_session_key(key@));
            false
        },
        Some(p) => {
            if p == 0 {
                assert forall|i: int|
                    !(1 <= i < key@.len() && #[trigger] key@[i] == ':' && (forall|j: int|
                        0 <= j < i ==> is_key_prefix_char(#[trigger] key@[j])) && (forall|j: int|
                        i < j < key@.len() ==> !text::is_ws_char(#[trigger] key@[j]))) by {
                    if 1 <= i < key@.len() && key@[i] == ':' {
                        assert(key@[0] == ':');
                        assert(!is_key_prefix_char(key@[0]));
                    }
                }
                return false;
            }
            for j in 0..p
                invariant
                    chars@ == key@,
                    p < chars@.len(),
                    chars@[p as int] == ':',
                    forall|w: int| 0 <= w < p ==> chars@[w] != ':',
                    forall|w: int| 0 <= w < j ==> is_key_prefix_char(#[trigger] chars@[w]),
            {
                let c = chars[j];
                if !(('a' <= c && c <= 'z') || c == '_') {
                    assert forall|i: int|
                        !(1 <= i < key@.len() && #[trigger] key@[i] == ':' && (forall|w: int|
                            0 <= w < i ==> is_key_prefix_char(#[trigger] key@[w])) && (forall|
                            w: int,
                        |
                            i < w < key@.len() ==> !text::is_ws_char(#[trigger] key@[w]))) by {
                        if 1 <= i < key@.len() && key@[i] == ':' {
                            assert(i >= p);
                            assert(j < i);
                            assert(!is_key_prefix_char(key@[j as int]));
                        }
                    }
                    return false;
                }
            }
            let n = chars.len();
            let mut j = p + 1;
            while j < n
                invariant
                    chars@ == key@,
                    n == chars@.len(),
                    1 <= p < n,
                    chars@[p as int] == ':',
                    forall|w: int| 0 <= w < p ==> chars@[w] != ':',
                    forall|w: int| 0 <= w < p ==> is_key_prefix_char(#[trigger] chars@[w]),
                    p < j <= n,
                    forall|w: int| p < w < j ==> !text::is_ws_char(#[trigger] chars@[w]),
                decreases n - j,
            {
                let c = chars[j];
                if c == ' ' || c == '\t' || c == '\n' || c == '\r' {
                    assert forall|i: int|
                        !(1 <= i < key@.len() && #[trigger] key@[i] == ':' && (forall|w: int|
                            0 <= w < i ==> is_key_prefix_char(#[trigger] key@[w])) && (forall|
                            w: int,
                        |
                            i < w < key@.len() ==> !text::is_ws_char(#[trigger] key@[w]))) by {
                        if 1 <= i < key@.len() && key@[i] == ':' {
                            if i < p {
                                assert(key@[i] != ':');
                            } else if i == p {
                                assert(text::is_ws_char(key@[j as int]));
                            } else {
                                assert(!is_key_prefix_char(key@[p as int]));
                            }
                        }
                    }
                    return false;
                }
                j = j + 1;
            }
            assert(valid_session_key(key@)) by {
                assert(1 <= p < key@.len() && key@[p as int] == ':' && (forall|w: int|
                    0 <= w < p ==> is_key_prefix_char(#[trigger] key@[w])) && (forall|w: int|
                    p < w < key@.len() ==> !text::is_ws_char(#[trigger] key@[w])));
            }
            true
        },
    }
}

/// Build the session key `<prefix>:<id>`, dropping any whitespace inside
/// `id` so that the key fits the grammar.
pub fn make_session_key(prefix: &str, id: &str) -> (r: String)
    ensures
        r@ == prefix@ + seq![':'] + key_opaque_part(id@),
        (prefix@.len() >= 1 && (forall|j: int|
            0 <= j < prefix@.len() ==> is_key_prefix_char(#[trigger] prefix@[j])))
            ==> valid_session_key(r@),
{
    let mut v = text::str_chars(prefix);
    let ghost plen = prefix@.len() as int;
    v.push(':');
    let id_chars = text::str_chars(id);
    let nid = id_chars.len();
    for i in 0..nid
        invariant
            nid == id_chars@.len(),
            id_chars@ == id@,
            v@ == prefix@ + seq![':'] + key_opaque_part(id@.subrange(0, i as int)),
    {
        let c = id_chars[i];
        if !(c == ' ' || c == '\t' || c == '\n' || c == '\r') {
            v.push(c);
        }
        proof {
            lemma_key_opaque_push(id@.subrange(0, i as int), id@[i as int]);
            assert(id@.subrange(0, i as int).push(id@[i as int]) =~= id@.subrange(0, i + 1));
            assert(v@ =~= prefix@ + seq![':'] + key_opaque_part(id@.subrange(0, i + 1)));
        }
    }
    proof {
        assert(id@.subrange(0, nid as int) =~= id@);
    }
    proof {
        if prefix@.len() >= 1 && (forall|j: int|
            0 <= j < prefix@.len() ==> is_key_prefix_char(#[trigger] prefix@[j])) {
            lemma_key_opaque_no_ws(id@);
            assert(v@[plen] == ':');
            assert(forall|j: int| 0 <= j < plen ==> is_key_prefix_char(#[trigger] v@[j]));
            assert forall|j: int| plen < j < v@.len() implies !text::is_ws_char(
                #[trigger] v@[j],
            ) by {
                assert(v@[j] == key_opaque_part(id@)[j - plen - 1]);
            }
            assert(valid_session_key(v@));
        }
    }
    text::chars_to_string(&v)
}

/// `s` with its whitespace dropped: the opaque part of a built session key.
pub open spec fn key_opaque_part(s: Seq<char>) -> Seq<char>
    decreases s.len(),
{
    if s.len() == 0 {
        Seq::empty()
    } else if text::is_ws_char(s[0]) {
        key_opaque_part(s.drop_first())
    } else {
        seq![s[0]] + key_opaque_part(s.drop_first())
    }
}

proof fn lemma_key_opaque_push(s: Seq<char>, c: char)
    ensures
        key_opaque_part(s.push(c)) == if text::is_ws_char(c) {
            key_opaque_part(s)
        } else {
            key_opaque_part(s).push(c)
        },
    decreases s.len(),
{
    if s.len() == 0 {
        assert(s.push(c).drop_first() =~= Seq::<char>::empty());
        assert(s.push(c)[0] == c);
        assert(key_opaque_part(Seq::<char>::empty()) =~= Seq::<char>::empty());
        assert(key_opaque_part(s) =~= Seq::<char>::empty());
        if !text::is_ws_char(c) {
            assert(key_opaque_part(s.push(c)) =~= key_opaque_part(s).push(c));
        }
    } else {
        assert(s.push(c).drop_first() =~= s.drop_first().push(c));
        assert(s.push(c)[0] == s[0]);
        lemma_key_opaque_push(s.drop_first(), c);
        if !text::is_ws_char(c) {
            assert(key_opaque_part(s.push(c)) =~= key_opaque_part(s).push(c));
        }
    }
}

/// A whitespace-free string passes through the opaque-part filter
/// unchanged.
pub proof fn lemma_key_opaque_identity(s: Seq<char>)
    requires
        forall|i: int| 0 <= i < s.len() ==> !text::is_ws_char(#[trigger] s[i]),
    ensures
        key_opaque_part(s) == s,
    decreases s.len(),
{
    if s.len() > 0 {
        lemma_key_opaque_identity(s.drop_first());
        assert(key_opaque_part(s) =~= s);
    }
}

proof fn lemma_key_opaque_no_ws(s: Seq<char>)
    ensures
        forall|j: int|
            0 <= j < key_opaque_part(s).len() ==> !text::is_ws_char(
                #[trigger] key_opaque_part(s)[j],
            ),
    decreases s.len(),
{
    if s.len() > 0 {
        lemma_key_opaque_no_ws(s.drop_first());
        if !text::is_ws_char(s[0]) {
            assert forall|j: int|
                0 <= j < key_opaque_part(s).len() implies !text::is_ws_char(
                #[trigger] key_opaque_part(s)[j],
            ) by {
                if j > 0 {
                    assert(key_opaque_part(s)[j] == key_opaque_part(s.drop_first())[j - 1]);
                }
            }
        }
    }
}

/// A message exchanged between a transport, the agent and the tools.
/// Immutable once published on the bus.
#[derive(Debug)]
pub struct Message {
    /// Unique 128-bit id.
    pub id: u128,
    /// Channel label ("whatsapp", "agent", "cron", ...).
    pub channel: String,
    /// Routing primary key, `<channel>:<opaque>[:<sub>]`.
    pub session_key: String,
    /// Who sent it: a platform user id, "system", "assistant" or "tool".
    pub sender_id: String,
    /// UTF-8 body.
    pub content: String,
    pub role: Role,
    /// Milliseconds since the epoch.
    pub created_at_ms: i64,
    /// The id this message replies to, if any.
    pub reply_to: Option<u128>,
    pub attachments: Vec<Attachment>,
    /// String-to-string metadata (tool_call_id, platform ids, sender_name).
    pub metadata: Vec<(String, String)>,
}

/// `a` carries the same message data as `b`.
pub open spec fn message_like(a: Message, b: Message) -> bool {
    &&& a.id == b.id
    &&& a.channel@ == b.channel@
    &&& a.session_key@ == b.session_key@
    &&& a.sender_id@ == b.sender_id@
    &&& a.content@ == b.content@
    &&& a.role == b.role
    &&& a.created_at_ms == b.created_at_ms
    &&& a.reply_to == b.reply_to
    &&& a.attachments@.len() == b.attachments@.len()
    &&& (forall|i: int|
        0 <= i < a.attachments@.len() ==> attachment_like(
            #[trigger] a.attachments@[i],
            b.attachments@[i],
        ))
    &&& a.metadata@.len() == b.metadata@.len()
    &&& (forall|i: int|
        0 <= i < a.metadata@.len() ==> (#[trigger] a.metadata@[i]).0@ == b.metadata@[i].0@
            && a.metadata@[i].1@ == b.metadata@[i].1@)
}

impl Clone for Message {
    fn clone(&self) -> (r: Self)
        ensures
            message_like(r, *self),
    {
        let mut attachments: Vec<Attachment> = Vec::new();
        let na = self.attachments.len();
        for i in 0..na
            invariant
                na == self.attachments.len(),
                attachments@.len() == i,
                forall|j: int|
                    0 <= j < i ==> attachment_like(
                        #[trigger] attachments@[j],
                        self.attachments@[j],
                    ),
        {
            attachments.push(self.attachments[i].clone());
        }
        let mut metadata: Vec<(String, String)> = Vec::new();
        let nm = self.metadata.len();
        for i in 0..nm
            invariant
                nm == self.metadata.len(),
                metadata@.len() == i,
                forall|j: int|
                    0 <= j < i ==> (#[trigger] metadata@[j]).0@ == self.metadata@[j].0@
                        && metadata@[j].1@ == self.metadata@[j].1@,
        {
            metadata.push((self.metadata[i].0.clone(), self.metadata[i].1.clone()));
        }
        Message {
            id: self.id,
            channel: self.channel.clone(),
            session_key: self.session_key.clone(),
            sender_id: self.sender_id.clone(),
            content: self.content.clone(),
            role: self.role,
            created_at_ms: self.created_at_ms,
            reply_to: self.reply_to,
            attachments,
            metadata,
        }
    }
}

/// The default sender label for each role.
pub open spec fn default_sender(role: Role) -> Seq<char> {
    match role {
        Role::System => "system"@,
        Role::Assistant => "assistant"@,
        Role::Tool => "tool"@,
        Role::User => "user"@,
    }
}

impl Message {
    /// A fresh message: new id, the clock's timestamp, the role's default
    /// sender, no reply, no attachments, no metadata.
    pub fn new(channel: &str, session_key: &str, role: Role, content: &str) -> (r: Message)
        ensures
            r.channel@ == channel@,
            r.session_key@ == session_key@,
            r.sender_id@ == default_sender(role),
            r.content@ == content@,
            r.role == role,
            r.reply_to is None,
            r.attachments@.len() == 0,
            r.metadata@.len() == 0,
    {
        let sender_id = match role {
            Role::System => String::from_str("system"),
            Role::Assistant => String::from_str("assistant"),
            Role::Tool => String::from_str("tool"),
            Role::User => String::from_str("user"),
        };
        Message {
            id: sys::fresh_id_128(),
            channel: String::from_str(channel),
            session_key: String::from_str(session_key),
            sender_id,
            content: String::from_str(content),
            role,
            created_at_ms: sys::now_ms_epoch(),
            reply_to: None,
            attachments: Vec::new(),
            metadata: Vec::new(),
        }
    }

    /// Builder-style method to set sender_id.
    pub fn with_sender(self, sender_id: &str) -> (r: Message)
        ensures
            r.sender_id@ == sender_id@,
            r.id == self.id,
            r.channel@ == self.channel@,
            r.session_key@ == self.session_key@,
            r.content@ == self.content@,
            r.role == self.role,
            r.created_at_ms == self.created_at_ms,
            r.reply_to == self.reply_to,
            r.attachments@ == self.attachments@,
            r.metadata@ == self.metadata@,
    {
        Message { sender_id: String::from_str(sender_id), ..self }
    }

    /// Builder-style method to set reply_to.
    pub fn reply_to(self, msg_id: u128) -> (r: Message)
        ensures
            r.reply_to == Some(msg_id),
            r.id == self.id,
            r.channel@ == self.channel@,
            r.session_key@ == self.session_key@,
            r.sender_id@ == self.sender_id@,
            r.content@ == self.content@,
            r.role == self.role,
            r.created_at_ms == self.created_at_ms,
            r.attachments@ == self.attachments@,
            r.metadata@ == self.metadata@,
    {
        Message { reply_to: Some(msg_id), ..self }
    }

    /// Builder-style method to add an attachment.
    pub fn add_attachment(self, attachment: Attachment) -> (r: Message)
        ensures
            r.attachments@ == self.attachments@.push(attachment),
            r.id == self.id,
            r.channel@ == self.channel@,
            r.session_key@ == self.session_key@,
            r.sender_id@ == self.sender_id@,
            r.content@ == self.content@,
            r.role == self.role,
            r.created_at_ms == self.created_at_ms,
            r.reply_to == self.reply_to,
            r.metadata@ == self.metadata@,
    {
        let mut m = self;
        m.attachments.push(attachment);
        m
    }

    /// Record one metadata entry.
    pub fn insert_metadata(&mut self, key: String, value: String)
        ensures
            final(self).metadata@ == old(self).metadata@.push((key, value)),
            final(self).id == old(self).id,
            final(self).channel@ == old(self).channel@,
            final(self).session_key@ == old(self).session_key@,
            final(self).sender_id@ == old(self).sender_id@,
            final(self).content@ == old(self).content@,
            final(self).role == old(self).role,
            final(self).created_at_ms == old(self).created_at_ms,
            final(self).reply_to == old(self).reply_to,
            final(self).attachments@ == old(self).attachments@,
    {
        self.metadata.push((key, value));
    }
}

} // verus!
