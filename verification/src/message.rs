//! A message of the log: its event, who sent it and when, and what is
//! derived from them for display.

use crate::event::MessageEvent;
use crate::html::lemma_rendered_fits;
use crate::html::StyleTree;
use crate::printer::line_fits;
use crate::style::Style;
use crate::style::Text;
use crate::style::TextView;
use crate::style::ITALIC;
use crate::style::REVERSED;
use crate::timestamp::MessageTimeStamp;
use crate::wrap::lemma_wrapped_rows_fit;
use crate::wrap::row_fits;
use crate::wrap::wrap_limit;
use crate::wrap::wrapped;
use crate::wrap::wrapped_text;
use vstd::prelude::*;
use vstd::string::StringExecFns;

verus! {

/// A message of the log.
#[derive(Clone, Debug, PartialEq, Eq)]
pub struct Message {
    pub event: MessageEvent,
    pub sender: String,
    pub timestamp: MessageTimeStamp,
    /// Whether the attachment of the message has been fetched.
    pub downloaded: bool,
    /// The styled content of the message, where it has any.
    pub html: Option<StyleTree>,
}

impl Message {
    /// The body text as it is shown where the message has no styled
    /// content: a check mark follows the body once the attachment has been
    /// fetched.
    pub open spec fn plain_text(self) -> Seq<char> {
        if self.downloaded {
            self.event.body_text() + " \u{2705}"@
        } else {
            self.event.body_text()
        }
    }

    /// The lines of the message's content at `width` columns: the styled
    /// content if there is any, else the wrapped body text.
    pub open spec fn shown_msg(self, width: usize, style: Style, hide_reply: bool) -> TextView {
        match self.html {
            Some(tree) => tree.rendered(width, style, hide_reply),
            None => wrapped(self.plain_text(), width, style),
        }
    }

    /// The style of a message: reversed where it is selected, italic where
    /// it is pending.
    pub open spec fn render_style(self, selected: bool) -> Style {
        let s = if selected {
            Style::plain().with_modifier(REVERSED)
        } else {
            Style::plain()
        };
        if self.timestamp is LocalEcho {
            s.with_modifier(ITALIC)
        } else {
            s
        }
    }

    /// A message made of an event, with the styled content that a markup
    /// parser made of the event's HTML alternative. Styled content is kept
    /// only where the event has such an alternative.
    pub fn new(
        event: MessageEvent,
        sender: String,
        timestamp: MessageTimeStamp,
        parsed: Option<StyleTree>,
    ) -> (r: Message)
        ensures
            r.event == event,
            r.sender == sender,
            r.timestamp == timestamp,
            !r.downloaded,
            r.html == (if event.html_body() is Some {
                parsed
            } else {
                None
            }),
    {
        let html = match event.html() {
            Some(_) => parsed,
            None => None,
        };
        Message { event, sender, timestamp, downloaded: false, html }
    }

    /// The event that this message replies to.
    pub fn reply_to(&self) -> (r: Option<String>)
        ensures
            r == self.event.reply_target(),
    {
        self.event.reply_to()
    }

    /// The style in which the message is drawn.
    pub fn get_render_style(&self, selected: bool) -> (r: Style)
        ensures
            r == self.render_style(selected),
    {
        let mut style = Style::default();
        if selected {
            style = style.add_modifier(REVERSED);
        }
        if self.timestamp.is_local_echo() {
            style = style.add_modifier(ITALIC);
        }
        style
    }

    /// Lays the content of the message out on lines of `width` columns.
    pub fn show_msg(&self, width: usize, style: Style, hide_reply: bool) -> (text: Text)
        ensures
            text@ == self.shown_msg(width, style, hide_reply),
    {
        match &self.html {
            Some(html) => html.to_text(width, style, hide_reply),
            None => {
                let mut msg = self.event.body();
                if self.downloaded {
                    msg.append(" \u{2705}");
                }
                wrapped_text(msg.as_str(), width, style)
            },
        }
    }

    /// The body text of the message.
    pub fn to_string(&self) -> (r: String)
        ensures
            r@ == self.event.body_text(),
    {
        self.event.body()
    }
}

/// Every row of the content of a message fits the width it is laid out
/// at. A row of wrapped text takes no more than the width, or two columns
/// where that is less, or is a single character wider than that; a row of
/// styled content takes no more than the width, or one fragment takes all
/// its columns.
pub proof fn lemma_shown_msg_fits(msg: Message, width: usize, style: Style, hide_reply: bool)
    ensures
        forall|i: int|
            0 <= i < msg.shown_msg(width, style, hide_reply).len() ==> (row_fits(
                #[trigger] msg.shown_msg(width, style, hide_reply)[i],
                wrap_limit(width),
            ) || line_fits(msg.shown_msg(width, style, hide_reply)[i], width, style)),
{
    match msg.html {
        Some(tree) => {
            lemma_rendered_fits(tree, width, style, hide_reply);
        },
        None => {
            lemma_wrapped_rows_fit(msg.plain_text(), width, style);
        },
    }
}

} // verus!
