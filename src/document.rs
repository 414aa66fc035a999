//! The document builder: a chat message event becomes a search document.
use crate::ids::{avatar_outcome, event_sigil, KeyEventId, LuoxuAvatar};
use crate::text::{
    lemma_no_quoted_line_left, quote_marker, remove_plain_reply_fallback, starts_with, str_eq,
    trim_start, trimmed_start, without_reply_fallback,
};
use vstd::prelude::*;
use vstd::string::*;

verus! {

/// The kind of payload a message carries.
#[derive(Debug, Clone, Copy, PartialEq, Eq, Structural)]
pub enum MessageKind {
    Text,
    Image,
    File,
    Video,
    /// Any kind that is not indexed.
    Other,
}

/// The content of a message: its kind, its plain-text body, and whether it
/// answers another message (and so may carry a quoted reply fallback).
#[derive(Debug, Clone)]
pub struct MessageContent {
    pub kind: MessageKind,
    pub body: String,
    pub is_reply: bool,
}

/// The replacement carried by an edit: the edited message and its new content.
#[derive(Debug, Clone)]
pub struct Replacement {
    pub event_id: String,
    pub content: MessageContent,
}

/// A message event as delivered for a room.
#[derive(Debug, Clone)]
pub struct IncomingMessage {
    pub event_id: String,
    pub sender: String,
    pub room_id: String,
    /// Milliseconds since the Unix epoch, as set by the origin server.
    pub timestamp: u64,
    pub content: MessageContent,
    /// Present when the event edits an earlier message.
    pub replacement: Option<Replacement>,
    /// The `external_url` field of the event's content, when it is a string.
    pub external_url: Option<String>,
}

/// What room membership tells of a sender at build time.
#[derive(Debug, Clone)]
pub struct SenderProfile {
    pub display_name: Option<String>,
    pub avatar: Option<LuoxuAvatar>,
}

/// A search document: one per logical message, keyed by `event_id`.
#[derive(Debug, Clone)]
pub struct LuoxuMessage {
    pub event_id: KeyEventId,
    pub body: String,
    pub external_url: Option<String>,
    pub user_id: String,
    pub user_display_name: Option<String>,
    pub user_avatar: Option<LuoxuAvatar>,
    pub timestamp: u64,
    pub room_id: String,
    pub ocr_body: Option<String>,
}

/// The identifier of the message that a document for `ev` stands for: the
/// edited message for an edit, else the event itself.
pub open spec fn target_event_id(ev: IncomingMessage) -> Seq<char> {
    match ev.replacement {
        Some(r) => r.event_id@,
        None => ev.event_id@,
    }
}

/// The content that a document for `ev` is made of: the new content for an edit.
pub open spec fn target_content(ev: IncomingMessage) -> MessageContent {
    match ev.replacement {
        Some(r) => r.content,
        None => ev.content,
    }
}

/// The key of the document for `ev`: the target identifier without its sigil.
pub open spec fn document_key(ev: IncomingMessage) -> Seq<char> {
    target_event_id(ev).drop_first()
}

/// The text of a text message once its reply fallback and leading white space are gone.
pub open spec fn text_body(c: MessageContent) -> Seq<char> {
    trimmed_start(
        if c.is_reply {
            without_reply_fallback(c.body@)
        } else {
            c.body@
        },
    )
}

/// The searchable body of a content, or `None` for a kind that is not indexed.
pub open spec fn body_of(c: MessageContent) -> Option<Seq<char>> {
    match c.kind {
        MessageKind::Text => Some(text_body(c)),
        MessageKind::Image => Some("[Image] "@ + c.body@),
        MessageKind::File => Some("[File] "@ + c.body@),
        MessageKind::Video => Some("[Video] "@ + c.body@),
        MessageKind::Other => None,
    }
}

/// `m` is the search document for message `ev` from a sender described by `profile`.
pub open spec fn is_document_for(m: LuoxuMessage, ev: IncomingMessage, profile: SenderProfile) -> bool {
    &&& m.event_id@ == document_key(ev)
    &&& target_event_id(ev) == event_sigil() + m.event_id@
    &&& body_of(target_content(ev)) == Some(m.body@)
    &&& m.external_url == ev.external_url
    &&& m.user_id@ == ev.sender@
    &&& m.user_display_name == profile.display_name
    &&& m.user_avatar == profile.avatar
    &&& m.timestamp == ev.timestamp
    &&& m.room_id@ == ev.room_id@
    &&& m.ocr_body is None
}

/// Every edit of a message yields a document under the key of the edited
/// message, whatever the edit's own identifier: all edits of one message, and
/// the message itself, share one key.
pub proof fn lemma_edits_share_key(original: IncomingMessage, edit: IncomingMessage)
    requires
        original.replacement is None,
        edit.replacement matches Some(r) && r.event_id@ == original.event_id@,
    ensures
        document_key(edit) == document_key(original),
        document_key(edit) == original.event_id@.drop_first(),
{
}

/// The body of a text reply is its text once every leading quoted line of the
/// reply fallback is gone, left-trimmed: what is trimmed never opens with `> `.
pub proof fn lemma_reply_body_has_no_fallback(c: MessageContent)
    requires
        c.kind == MessageKind::Text,
        c.is_reply,
    ensures
        body_of(c) == Some(trimmed_start(without_reply_fallback(c.body@))),
        !starts_with(without_reply_fallback(c.body@), quote_marker()),
{
    lemma_no_quoted_line_left(c.body@);
}

/// The searchable body of `content`; `None` for a kind that is not indexed.
pub fn message_body(content: MessageContent) -> (r: Option<String>)
    ensures
        r is Some <==> body_of(content) is Some,
        r matches Some(b) ==> body_of(content) == Some(b@),
{
    proof {
        reveal_strlit("[Image] ");
        reveal_strlit("[File] ");
        reveal_strlit("[Video] ");
    }
    match content.kind {
        MessageKind::Text => {
            if content.is_reply {
                let stripped = remove_plain_reply_fallback(content.body.as_str());
                Some(trim_start(stripped.as_str()))
            } else {
                Some(trim_start(content.body.as_str()))
            }
        },
        MessageKind::Image => Some(String::from_str("[Image] ").concat(content.body.as_str())),
        MessageKind::File => Some(String::from_str("[File] ").concat(content.body.as_str())),
        MessageKind::Video => Some(String::from_str("[Video] ").concat(content.body.as_str())),
        MessageKind::Other => None,
    }
}

/// The avatar of a sender, from its media reference; `None` when there is none
/// or when it does not resolve.
pub fn sender_avatar(avatar_uri: Option<&str>, homeserver: &str) -> (r: Option<LuoxuAvatar>)
    ensures
        match avatar_uri {
            None => r is None,
            Some(u) => match r {
                Some(a) => avatar_outcome(u@, homeserver@) == Some(a@),
                None => avatar_outcome(u@, homeserver@) is None,
            },
        },
{
    match avatar_uri {
        None => None,
        Some(uri) => match LuoxuAvatar::new(uri, homeserver) {
            Ok(a) => Some(a),
            Err(_) => None,
        },
    }
}

/// Whether a message from `sender` was sent by the receiving identity
/// `own_user_id` itself; such messages are never indexed.
pub fn is_own_message(sender: &str, own_user_id: &str) -> (r: bool)
    ensures
        r == (sender@ == own_user_id@),
{
    str_eq(sender, own_user_id)
}

/// The search document for message `ev` received by `own_user_id`, with the
/// sender as `profile` describes it. `None` for the receiver's own messages
/// and for kinds that are not indexed.
pub fn build_message(ev: IncomingMessage, own_user_id: &str, profile: SenderProfile) -> (r:
    Option<LuoxuMessage>)
    requires
        target_event_id(ev).len() > 0,
        target_event_id(ev)[0] == '$',
    ensures
        ev.sender@ == own_user_id@ ==> r is None,
        r is Some <==> ev.sender@ != own_user_id@ && body_of(target_content(ev)) is Some,
        r matches Some(m) ==> is_document_for(m, ev, profile),
{
    if is_own_message(ev.sender.as_str(), own_user_id) {
        return None;
    }
    let ghost target = target_event_id(ev);
    let (id, content) = match ev.replacement {
        Some(r) => (r.event_id, r.content),
        None => (ev.event_id, ev.content),
    };
    let body = match message_body(content) {
        Some(b) => b,
        None => return None,
    };
    let key = match KeyEventId::from_event_id(id.as_str()) {
        Some(k) => k,
        None => return None,
    };
    proof {
        assert(target.drop_first() =~= key@);
    }
    Some(
        LuoxuMessage {
            event_id: key,
            body,
            external_url: ev.external_url,
            user_id: ev.sender,
            user_display_name: profile.display_name,
            user_avatar: profile.avatar,
            timestamp: ev.timestamp,
            room_id: ev.room_id,
            ocr_body: None,
        },
    )
}

} // verus!
