//! The shapes a message event can have, and what is derived from them: the
//! body text, the HTML alternative, the reply target, and redaction.

use vstd::prelude::*;
use vstd::string::StringExecFns;

verus! {

/// The markup of a formatted body.
#[derive(Clone, Copy, Debug, PartialEq, Eq, Structural)]
pub enum MessageFormat {
    Html,
    Other,
}

/// A formatted alternative to a plain body.
#[derive(Clone, Debug, PartialEq, Eq)]
pub struct FormattedBody {
    pub format: MessageFormat,
    pub body: String,
}

/// The typed content of a message.
#[derive(Clone, Debug, PartialEq, Eq)]
pub enum MessageType {
    Audio { body: String },
    Emote { body: String },
    File { body: String },
    Image { body: String },
    Notice { body: String },
    ServerNotice { body: String },
    Text { body: String, formatted: Option<FormattedBody> },
    Video { body: String },
    VerificationRequest,
    /// A kind that has no variant here, with its type name.
    Other { msgtype: String },
}

/// How a message relates to another event.
#[derive(Clone, Debug, PartialEq, Eq)]
pub enum Relation {
    Reply { event_id: String },
    Other,
}

/// The content of a room message.
#[derive(Clone, Debug, PartialEq, Eq)]
pub struct RoomMessageEventContent {
    pub msgtype: MessageType,
    pub relates_to: Option<Relation>,
}

/// A message event in one of its five shapes.
#[derive(Clone, Debug, PartialEq, Eq)]
pub enum MessageEvent {
    /// An encrypted event that could not be decrypted.
    EncryptedOriginal { event_id: String },
    /// An encrypted event that was redacted, with the reason if one was given.
    EncryptedRedacted { event_id: String, reason: Option<String> },
    /// A plain message as it was sent.
    Original { event_id: String, content: RoomMessageEventContent },
    /// A plain message that was redacted, with the reason if one was given.
    Redacted { event_id: String, reason: Option<String> },
    /// A message sent from here that the server has not confirmed yet.
    Local { event_id: String, content: RoomMessageEventContent },
}

/// What `Debug` of std writes for a string: the string in double quotes with
/// its special characters escaped.
pub uninterp spec fn debug_quoted(s: Seq<char>) -> Seq<char>;

/// Formats a string with `{:?}`, which calls `<str as Debug>::fmt` of std. The
/// result depends on the characters of the string alone.
#[verifier::external_body]
pub(crate) fn debug_string(s: &str) -> (r: String)
    ensures
        r@ == debug_quoted(s@),
{
    format!("{:?}", s)
}

/// The text that stands for a redacted message.
pub open spec fn reason_text(reason: Option<String>) -> Seq<char> {
    match reason {
        Some(r) => "[Redacted: "@ + debug_quoted(r@) + "]"@,
        None => "[Redacted]"@,
    }
}

/// `prefix`, then `middle`, then `suffix`, as one string.
pub fn bracketed(prefix: &str, middle: &str, suffix: &str) -> (r: String)
    ensures
        r@ == prefix@ + middle@ + suffix@,
{
    let mut s = String::from_str(prefix);
    s.append(middle);
    s.append(suffix);
    s
}

/// The body text of a redacted message.
pub fn body_cow_reason(reason: &Option<String>) -> (r: String)
    ensures
        r@ == reason_text(*reason),
{
    match reason {
        Some(r) => {
            let quoted = debug_string(r.as_str());
            bracketed("[Redacted: ", quoted.as_str(), "]")
        },
        None => String::from_str("[Redacted]"),
    }
}

impl MessageType {
    /// The body text of a content of this type.
    pub open spec fn body_text(self) -> Seq<char> {
        match self {
            MessageType::Text { body, .. } => body@,
            MessageType::VerificationRequest => "[Verification Request]"@,
            MessageType::Emote { body } => body@,
            MessageType::Notice { body } => body@,
            MessageType::ServerNotice { body } => body@,
            MessageType::Audio { body } => "[Attached Audio: "@ + body@ + "]"@,
            MessageType::File { body } => "[Attached File: "@ + body@ + "]"@,
            MessageType::Image { body } => "[Attached Image: "@ + body@ + "]"@,
            MessageType::Video { body } => "[Attached Video: "@ + body@ + "]"@,
            MessageType::Other { msgtype } => "[Unknown message type: "@ + debug_quoted(msgtype@)
                + "]"@,
        }
    }
}

impl RoomMessageEventContent {
    /// The event that this content replies to.
    pub open spec fn reply_target(self) -> Option<String> {
        match self.relates_to {
            Some(Relation::Reply { event_id }) => Some(event_id),
            _ => None,
        }
    }

    /// The HTML alternative of a text content.
    pub open spec fn html_body(self) -> Option<String> {
        match self.msgtype {
            MessageType::Text {
                formatted: Some(FormattedBody { format: MessageFormat::Html, body }),
                ..
            } => Some(body),
            _ => None,
        }
    }
}

/// The body text of a message content: the text itself for the textual
/// kinds, a placeholder that names the kind and the file for attachments, and
/// a placeholder with the type name for a kind that is not known.
pub fn body_cow_content(content: &RoomMessageEventContent) -> (r: String)
    ensures
        r@ == content.msgtype.body_text(),
{
    match &content.msgtype {
        MessageType::Text { body, .. } => body.clone(),
        MessageType::VerificationRequest => String::from_str("[Verification Request]"),
        MessageType::Emote { body } => body.clone(),
        MessageType::Notice { body } => body.clone(),
        MessageType::ServerNotice { body } => body.clone(),
        MessageType::Audio { body } => bracketed("[Attached Audio: ", body.as_str(), "]"),
        MessageType::File { body } => bracketed("[Attached File: ", body.as_str(), "]"),
        MessageType::Image { body } => bracketed("[Attached Image: ", body.as_str(), "]"),
        MessageType::Video { body } => bracketed("[Attached Video: ", body.as_str(), "]"),
        MessageType::Other { msgtype } => {
            let quoted = debug_string(msgtype.as_str());
            bracketed("[Unknown message type: ", quoted.as_str(), "]")
        },
    }
}

impl MessageEvent {
    /// The identifier of the event.
    pub open spec fn id(self) -> String {
        match self {
            MessageEvent::EncryptedOriginal { event_id } => event_id,
            MessageEvent::EncryptedRedacted { event_id, .. } => event_id,
            MessageEvent::Original { event_id, .. } => event_id,
            MessageEvent::Redacted { event_id, .. } => event_id,
            MessageEvent::Local { event_id, .. } => event_id,
        }
    }

    /// The content of the event: only a plain or a pending message has one.
    pub open spec fn content_of(self) -> Option<RoomMessageEventContent> {
        match self {
            MessageEvent::Original { content, .. } => Some(content),
            MessageEvent::Local { content, .. } => Some(content),
            _ => None,
        }
    }

    /// The body text of the event.
    pub open spec fn body_text(self) -> Seq<char> {
        match self {
            MessageEvent::EncryptedOriginal { .. } => "[Unable to decrypt message]"@,
            MessageEvent::Original { content, .. } => content.msgtype.body_text(),
            MessageEvent::EncryptedRedacted { reason, .. } => reason_text(reason),
            MessageEvent::Redacted { reason, .. } => reason_text(reason),
            MessageEvent::Local { content, .. } => content.msgtype.body_text(),
        }
    }

    /// The event that this one replies to.
    pub open spec fn reply_target(self) -> Option<String> {
        match self.content_of() {
            Some(content) => content.reply_target(),
            None => None,
        }
    }

    /// The HTML alternative of the event's text.
    pub open spec fn html_body(self) -> Option<String> {
        match self.content_of() {
            Some(content) => content.html_body(),
            None => None,
        }
    }

    /// The event is an emote.
    pub open spec fn emote(self) -> bool {
        self.content_of() matches Some(content) && content.msgtype is Emote
    }

    /// The event after a redaction with the given reason: a plain message
    /// becomes a redacted one that keeps its identifier; every other shape
    /// stays as it is.
    pub open spec fn redacted(self, reason: Option<String>) -> MessageEvent {
        match self {
            MessageEvent::Original { event_id, .. } => MessageEvent::Redacted { event_id, reason },
            _ => self,
        }
    }

    /// The identifier of the event.
    pub fn event_id(&self) -> (r: &String)
        ensures
            *r == self.id(),
    {
        match self {
            MessageEvent::EncryptedOriginal { event_id } => event_id,
            MessageEvent::EncryptedRedacted { event_id, .. } => event_id,
            MessageEvent::Original { event_id, .. } => event_id,
            MessageEvent::Redacted { event_id, .. } => event_id,
            MessageEvent::Local { event_id, .. } => event_id,
        }
    }

    /// The content of the event: only a plain or a pending message has one.
    pub fn content(&self) -> (r: Option<&RoomMessageEventContent>)
        ensures
            r matches Some(c) ==> self.content_of() == Some(*c),
            r is None ==> self.content_of() is None,
    {
        match self {
            MessageEvent::EncryptedOriginal { .. } => None,
            MessageEvent::Original { content, .. } => Some(content),
            MessageEvent::EncryptedRedacted { .. } => None,
            MessageEvent::Redacted { .. } => None,
            MessageEvent::Local { content, .. } => Some(content),
        }
    }

    /// Whether the event is an emote.
    pub fn is_emote(&self) -> (r: bool)
        ensures
            r == self.emote(),
    {
        match self.content() {
            Some(content) => match &content.msgtype {
                MessageType::Emote { .. } => true,
                _ => false,
            },
            None => false,
        }
    }

    /// The body text: a fixed placeholder for an event that could not be
    /// decrypted, the redaction's reason for a redacted one, and the text of
    /// the content for a plain or pending message.
    pub fn body(&self) -> (r: String)
        ensures
            r@ == self.body_text(),
    {
        match self {
            MessageEvent::EncryptedOriginal { .. } => String::from_str(
                "[Unable to decrypt message]",
            ),
            MessageEvent::Original { content, .. } => body_cow_content(content),
            MessageEvent::EncryptedRedacted { reason, .. } => body_cow_reason(reason),
            MessageEvent::Redacted { reason, .. } => body_cow_reason(reason),
            MessageEvent::Local { content, .. } => body_cow_content(content),
        }
    }

    /// The HTML alternative that a markup parser turns into styled content:
    /// only a text message with a body in HTML format has one.
    pub fn html(&self) -> (r: Option<&String>)
        ensures
            r matches Some(h) ==> self.html_body() == Some(*h),
            r is None ==> self.html_body() is None,
    {
        let content = match self {
            MessageEvent::EncryptedOriginal { .. } => {
                return None;
            },
            MessageEvent::EncryptedRedacted { .. } => {
                return None;
            },
            MessageEvent::Original { content, .. } => content,
            MessageEvent::Redacted { .. } => {
                return None;
            },
            MessageEvent::Local { content, .. } => content,
        };
        match &content.msgtype {
            MessageType::Text { formatted, .. } => match formatted {
                Some(FormattedBody { format: MessageFormat::Html, body }) => Some(body),
                _ => None,
            },
            _ => None,
        }
    }

    /// The event that this one replies to: only a plain or a pending message
    /// can name one.
    pub fn reply_to(&self) -> (r: Option<String>)
        ensures
            r == self.reply_target(),
    {
        let content = match self {
            MessageEvent::EncryptedOriginal { .. } => {
                return None;
            },
            MessageEvent::EncryptedRedacted { .. } => {
                return None;
            },
            MessageEvent::Local { content, .. } => content,
            MessageEvent::Original { content, .. } => content,
            MessageEvent::Redacted { .. } => {
                return None;
            },
        };
        match &content.relates_to {
            Some(Relation::Reply { event_id }) => Some(event_id.clone()),
            _ => None,
        }
    }

    /// Applies a redaction with the given reason. A plain message becomes a
    /// redacted one; on every other shape this does nothing.
    pub fn redact(&mut self, reason: Option<String>)
        ensures
            *final(self) == old(self).redacted(reason),
    {
        let id = match &*self {
            MessageEvent::Original { event_id, .. } => Some(event_id.clone()),
            _ => None,
        };
        match id {
            Some(event_id) => {
                *self = MessageEvent::Redacted { event_id, reason };
            },
            None => {},
        }
    }
}

} // verus!
