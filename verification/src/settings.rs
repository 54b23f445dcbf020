//! What the user has chosen for the display: which columns and annotations
//! are shown, and how each user's name is written.

use crate::chars::chars_of;
use crate::chars::push_char;
use crate::key::str_same;
use crate::lookup::first_index;
use crate::lookup::lemma_first_index;
use crate::style::Span;
use crate::style::SpanView;
use crate::style::Style;
use vstd::prelude::*;

verus! {

/// Switches of the display.
#[derive(Clone, Copy, Debug, PartialEq, Eq)]
pub struct Tunables {
    /// Show who has read up to a message.
    pub read_receipt_display: bool,
    /// Show the reactions to a message.
    pub reaction_display: bool,
    /// Show a reaction by its short name instead of its emoji.
    pub reaction_shortcode_display: bool,
}

/// How one user is shown.
#[derive(Clone, Debug, PartialEq, Eq)]
pub struct UserDisplay {
    pub user_id: String,
    /// The name written in front of the user's messages.
    pub name: String,
    /// The character that marks the user's read receipt.
    pub glyph: char,
    /// The style of both.
    pub style: Style,
}

/// The settings that a render pass reads.
#[derive(Clone, Debug, PartialEq, Eq)]
pub struct ApplicationSettings {
    pub tunables: Tunables,
    pub users: Vec<UserDisplay>,
}

/// The identifiers of the users that have an entry.
pub open spec fn user_ids(users: Seq<UserDisplay>) -> Seq<Seq<char>> {
    users.map_values(|u: UserDisplay| u.user_id@)
}

/// The character that marks a user without an entry: the first one behind
/// the sigil of the identifier, and a blank where there is none.
pub open spec fn default_glyph(user_id: Seq<char>) -> char {
    if user_id.len() >= 2 {
        user_id[1]
    } else {
        ' '
    }
}

impl ApplicationSettings {
    /// The entry of a user, if the user has one: the first with that
    /// identifier.
    pub open spec fn user(self, user_id: Seq<char>) -> Option<UserDisplay> {
        let i = first_index(user_ids(self.users@), user_id);
        if i < self.users@.len() {
            Some(self.users@[i as int])
        } else {
            None
        }
    }

    /// The name of a user as a fragment: the name and style of the user's
    /// entry, and the identifier in the plain style for a user without one.
    pub open spec fn user_span(self, user_id: Seq<char>) -> SpanView {
        match self.user(user_id) {
            Some(u) => SpanView { content: u.name@, style: u.style },
            None => SpanView { content: user_id, style: Style::plain() },
        }
    }

    /// The mark of a user as a fragment of one character.
    pub open spec fn user_char_span(self, user_id: Seq<char>) -> SpanView {
        match self.user(user_id) {
            Some(u) => SpanView { content: seq![u.glyph], style: u.style },
            None => SpanView { content: seq![default_glyph(user_id)], style: Style::plain() },
        }
    }

    fn find_user(&self, user_id: &str) -> (r: Option<&UserDisplay>)
        ensures
            r matches Some(u) ==> self.user(user_id@) == Some(*u),
            r is None ==> self.user(user_id@) is None,
    {
        let ghost ids = user_ids(self.users@);
        let mut i: usize = 0;
        while i < self.users.len()
            invariant
                i <= self.users@.len(),
                ids == user_ids(self.users@),
                forall|j: int| 0 <= j < i ==> #[trigger] ids[j] != user_id@,
            decreases self.users@.len() - i,
        {
            assert(ids[i as int] == self.users@[i as int].user_id@);
            if str_same(self.users[i].user_id.as_str(), user_id) {
                proof {
                    lemma_first_index(ids, user_id@, i as int);
                }
                return Some(&self.users[i]);
            }
            i = i + 1;
        }
        proof {
            lemma_first_index(ids, user_id@, i as int);
        }
        None
    }

    /// The name of a user as a fragment.
    pub fn get_user_span(&self, user_id: &str) -> (r: Span)
        ensures
            r@ == self.user_span(user_id@),
    {
        match self.find_user(user_id) {
            Some(u) => Span::styled(u.name.clone(), u.style),
            None => Span::styled(user_id.to_owned(), Style::default()),
        }
    }

    /// The mark of a user as a fragment.
    pub fn get_user_char_span(&self, user_id: &str) -> (r: Span)
        ensures
            r@ == self.user_char_span(user_id@),
    {
        let mut s = String::new();
        match self.find_user(user_id) {
            Some(u) => {
                push_char(&mut s, u.glyph);
                assert(s@ =~= seq![u.glyph]);
                Span::styled(s, u.style)
            },
            None => {
                let v = chars_of(user_id);
                let glyph = if v.len() >= 2 {
                    v[1]
                } else {
                    ' '
                };
                push_char(&mut s, glyph);
                assert(s@ =~= seq![glyph]);
                Span::styled(s, Style::default())
            },
        }
    }
}

} // verus!
