//! The line that shows the reactions to a message: each kind of reaction in
//! square brackets with the number of times it was given.

use crate::chars::chars_of;
use crate::chars::push_char;
use crate::printer::lemma_finished_fits;
use crate::printer::lemma_fresh_tidy;
use crate::printer::lemma_with_span_nobreak_tidy;
use crate::printer::lemma_with_str_keeps_width;
use crate::printer::lemma_with_str_tidy;
use crate::printer::line_fits;
use crate::printer::PrinterView;
use crate::printer::TextPrinter;
use crate::style::Span;
use crate::style::SpanView;
use crate::style::Style;
use crate::style::Text;
use crate::style::TextView;
use vstd::prelude::*;

verus! {

/// What the emoji table says of a reaction: `None` where the reaction is no
/// emoji of the table, else the first short name of the emoji, if it has
/// one.
pub uninterp spec fn emoji_shortcode(key: Seq<char>) -> Option<Option<Seq<char>>>;

/// The characters of what a lookup in the emoji table returned.
pub open spec fn lookup_view(lookup: Option<Option<String>>) -> Option<Option<Seq<char>>> {
    match lookup {
        Some(Some(name)) => Some(Some(name@)),
        Some(None) => Some(None),
        None => None,
    }
}

/// Calls `emojis::get` and, on the emoji found, `Emoji::shortcode`. Both
/// read a fixed table, so the result depends on the reaction alone.
#[verifier::external_body]
pub(crate) fn lookup_shortcode(key: &str) -> (r: Option<Option<String>>)
    ensures
        lookup_view(r) == emoji_shortcode(key@),
{
    emojis::get(key).map(|emoji| emoji.shortcode().map(|name| name.to_string()))
}

/// An ASCII letter or digit.
pub open spec fn is_alnum(c: char) -> bool {
    let n = c as u32;
    (0x30 <= n <= 0x39) || (0x41 <= n <= 0x5a) || (0x61 <= n <= 0x7a)
}

/// Every character is an ASCII letter or digit.
pub open spec fn all_alnum(s: Seq<char>) -> bool {
    forall|i: int| 0 <= i < s.len() ==> is_alnum(#[trigger] s[i])
}

/// Whether every character of a string is an ASCII letter or digit.
pub fn is_ascii_alphanumeric(s: &str) -> (r: bool)
    ensures
        r == all_alnum(s@),
{
    let v = chars_of(s);
    let mut i: usize = 0;
    while i < v.len()
        invariant
            v@ == s@,
            i <= v@.len(),
            forall|j: int| 0 <= j < i ==> is_alnum(#[trigger] v@[j]),
        decreases v@.len() - i,
    {
        let n = v[i] as u32;
        if !((0x30 <= n && n <= 0x39) || (0x41 <= n && n <= 0x5a) || (0x61 <= n && n <= 0x7a)) {
            assert(!is_alnum(s@[i as int]));
            return false;
        }
        i = i + 1;
    }
    true
}

/// The label of a reaction given what the emoji table says of it. Where
/// short names are shown, an emoji is shown by its short name and skipped if
/// it has none, and a reaction that is no emoji is shown as it is if it is
/// made of ASCII letters and digits and skipped if not. Where they are not
/// shown, every reaction is shown as it is.
pub open spec fn label_for(
    key: Seq<char>,
    lookup: Option<Option<Seq<char>>>,
    shortcode_display: bool,
) -> Option<Seq<char>> {
    if shortcode_display {
        match lookup {
            Some(Some(name)) => Some(name),
            Some(None) => None,
            None => if all_alnum(key) {
                Some(key)
            } else {
                None
            },
        }
    } else {
        Some(key)
    }
}

/// The label of a reaction, or `None` for a reaction that is skipped.
pub open spec fn reaction_label(key: Seq<char>, shortcode_display: bool) -> Option<Seq<char>> {
    label_for(key, emoji_shortcode(key), shortcode_display)
}

/// Picks the label of a reaction from what the emoji table returned for it.
pub fn pick_label(key: &str, lookup: Option<Option<String>>, shortcode_display: bool) -> (r:
    Option<String>)
    ensures
        match r {
            Some(name) => label_for(key@, lookup_view(lookup), shortcode_display) == Some(name@),
            None => label_for(key@, lookup_view(lookup), shortcode_display) is None,
        },
{
    if shortcode_display {
        match lookup {
            Some(Some(name)) => Some(name),
            Some(None) => None,
            None => if is_ascii_alphanumeric(key) {
                Some(key.to_owned())
            } else {
                None
            },
        }
    } else {
        Some(key.to_owned())
    }
}

/// The decimal digit for a number below ten.
pub open spec fn digit(d: nat) -> char {
    (0x30 + d) as u8 as char
}

/// A number in decimal digits.
pub open spec fn decimal(n: nat) -> Seq<char>
    decreases n,
{
    if n < 10 {
        seq![digit(n)]
    } else {
        decimal(n / 10).push(digit(n % 10))
    }
}

/// Writes a number in decimal digits.
pub fn count_string(n: usize) -> (s: String)
    ensures
        s@ == decimal(n as nat),
    decreases n,
{
    if n < 10 {
        let mut s = String::new();
        push_char(&mut s, (0x30u8 + n as u8) as char);
        assert(s@ =~= seq![digit(n as nat)]);
        s
    } else {
        let mut s = count_string(n / 10);
        push_char(&mut s, (0x30u8 + (n % 10) as u8) as char);
        s
    }
}

/// The printer and the number of reactions shown after one more reaction
/// with its label. A reaction without a label is skipped: it leaves
/// everything as it is. A reaction that is shown stands in square brackets
/// with its count, behind a blank where a reaction was shown before it.
pub open spec fn with_reaction(
    state: (PrinterView, nat),
    label: Option<Seq<char>>,
    count: usize,
    style: Style,
) -> (PrinterView, nat) {
    match label {
        None => state,
        Some(name) => {
            let p = if state.1 != 0 {
                state.0.with_str(" "@, style)
            } else {
                state.0
            };
            (
                p.with_str("["@, style).with_str(name, style).with_str(" "@, style)
                    .with_span_nobreak(SpanView { content: decimal(count as nat), style })
                    .with_str("]"@, style),
                state.1 + 1,
            )
        },
    }
}

/// The printer and the number of reactions shown after the reactions
/// `reactions`.
pub open spec fn with_reactions(
    state: (PrinterView, nat),
    reactions: Seq<(String, usize)>,
    style: Style,
    shortcode_display: bool,
) -> (PrinterView, nat)
    decreases reactions.len(),
{
    if reactions.len() == 0 {
        state
    } else {
        let last = reactions.last();
        with_reaction(
            with_reactions(state, reactions.drop_last(), style, shortcode_display),
            reaction_label(last.0@, shortcode_display),
            last.1,
            style,
        )
    }
}

/// A reaction that is skipped leaves the reactions as they are without it.
pub proof fn lemma_skipped_reaction(
    state: (PrinterView, nat),
    before: Seq<(String, usize)>,
    skipped: (String, usize),
    after: Seq<(String, usize)>,
    style: Style,
    shortcode_display: bool,
)
    requires
        reaction_label(skipped.0@, shortcode_display) is None,
    ensures
        with_reactions(state, before.push(skipped) + after, style, shortcode_display)
            == with_reactions(state, before + after, style, shortcode_display),
    decreases after.len(),
{
    if after.len() == 0 {
        assert(before.push(skipped) + after =~= before.push(skipped));
        assert(before + after =~= before);
        assert(before.push(skipped).drop_last() =~= before);
    } else {
        let front = after.drop_last();
        lemma_skipped_reaction(state, before, skipped, front, style, shortcode_display);
        assert((before.push(skipped) + after).drop_last() =~= before.push(skipped) + front);
        assert((before + after).drop_last() =~= before + front);
    }
}

/// The lines that show the reactions at `width` columns, and no line where
/// no reaction is shown.
pub open spec fn reaction_lines(
    reactions: Seq<(String, usize)>,
    width: usize,
    style: Style,
    shortcode_display: bool,
) -> TextView {
    let state = with_reactions(
        (PrinterView::fresh(width, style, false), 0),
        reactions,
        style,
        shortcode_display,
    );
    if state.1 > 0 {
        state.0.finished()
    } else {
        Seq::empty()
    }
}

/// Prints one reaction with its label, and counts it if it is shown.
fn push_reaction(
    printer: &mut TextPrinter,
    shown: &mut usize,
    label: Option<String>,
    count: usize,
    style: Style,
)
    requires
        *old(shown) < usize::MAX,
    ensures
        (final(printer)@, *final(shown) as nat) == with_reaction(
            (old(printer)@, *old(shown) as nat),
            match label {
                Some(name) => Some(name@),
                None => None,
            },
            count,
            style,
        ),
{
    match label {
        None => {},
        Some(name) => {
            if *shown != 0 {
                printer.push_str(" ", style);
            }
            printer.push_str("[", style);
            printer.push_str(name.as_str(), style);
            printer.push_str(" ", style);
            printer.push_span_nobreak(Span::styled(count_string(count), style));
            printer.push_str("]", style);
            *shown = *shown + 1;
        },
    }
}

/// Lays the reactions to a message out on lines of `width` columns.
pub fn show_reactions(
    reactions: &Vec<(String, usize)>,
    width: usize,
    style: Style,
    shortcode_display: bool,
) -> (text: Text)
    ensures
        text@ == reaction_lines(reactions@, width, style, shortcode_display),
{
    let mut printer = TextPrinter::new(width, style, false);
    let mut shown: usize = 0;
    let mut i: usize = 0;
    assert(reactions@.take(0) =~= Seq::<(String, usize)>::empty());
    while i < reactions.len()
        invariant
            i <= reactions@.len(),
            shown <= i,
            (printer@, shown as nat) == with_reactions(
                (PrinterView::fresh(width, style, false), 0),
                reactions@.take(i as int),
                style,
                shortcode_display,
            ),
        decreases reactions@.len() - i,
    {
        assert(reactions@.take(i + 1).drop_last() =~= reactions@.take(i as int));
        assert(reactions@.take(i + 1).last() == reactions@[i as int]);
        let key = reactions[i].0.as_str();
        let label = pick_label(key, lookup_shortcode(key), shortcode_display);
        push_reaction(&mut printer, &mut shown, label, reactions[i].1, style);
        i = i + 1;
    }
    assert(reactions@.take(i as int) =~= reactions@);
    if shown > 0 {
        printer.finish()
    } else {
        Text::new()
    }
}

/// Reactions keep a tidy printer tidy, and change neither its width nor its
/// base style.
pub proof fn lemma_with_reactions_tidy(
    state: (PrinterView, nat),
    reactions: Seq<(String, usize)>,
    style: Style,
    shortcode_display: bool,
)
    requires
        state.0.tidy(),
    ensures
        with_reactions(state, reactions, style, shortcode_display).0.tidy(),
        with_reactions(state, reactions, style, shortcode_display).0.width == state.0.width,
        with_reactions(state, reactions, style, shortcode_display).0.base_style
            == state.0.base_style,
    decreases reactions.len(),
{
    if reactions.len() > 0 {
        let last = reactions.last();
        let before = with_reactions(state, reactions.drop_last(), style, shortcode_display);
        lemma_with_reactions_tidy(state, reactions.drop_last(), style, shortcode_display);
        match reaction_label(last.0@, shortcode_display) {
            None => {},
            Some(name) => {
                let p0 = before.0;
                let p1 = if before.1 != 0 {
                    p0.with_str(" "@, style)
                } else {
                    p0
                };
                lemma_with_str_tidy(p0, " "@, style);
                lemma_with_str_keeps_width(p0, " "@, style);
                let p2 = p1.with_str("["@, style);
                lemma_with_str_tidy(p1, "["@, style);
                lemma_with_str_keeps_width(p1, "["@, style);
                let p3 = p2.with_str(name, style);
                lemma_with_str_tidy(p2, name, style);
                lemma_with_str_keeps_width(p2, name, style);
                let p4 = p3.with_str(" "@, style);
                lemma_with_str_tidy(p3, " "@, style);
                lemma_with_str_keeps_width(p3, " "@, style);
                let span = SpanView { content: decimal(last.1 as nat), style };
                let p5 = p4.with_span_nobreak(span);
                lemma_with_span_nobreak_tidy(p4, span);
                lemma_with_str_tidy(p5, "]"@, style);
                lemma_with_str_keeps_width(p5, "]"@, style);
            },
        }
    }
}

/// Every line of the reactions fits: its text takes no more columns than
/// the width, or one fragment takes them all, and padding makes up for what
/// the text leaves of the width.
pub proof fn lemma_reaction_lines_fit(
    reactions: Seq<(String, usize)>,
    width: usize,
    style: Style,
    shortcode_display: bool,
)
    ensures
        forall|i: int|
            0 <= i < reaction_lines(reactions, width, style, shortcode_display).len()
                ==> line_fits(
                #[trigger] reaction_lines(reactions, width, style, shortcode_display)[i],
                width,
                style,
            ),
{
    let start = (PrinterView::fresh(width, style, false), 0nat);
    lemma_fresh_tidy(width, style, false);
    lemma_with_reactions_tidy(start, reactions, style, shortcode_display);
    lemma_finished_fits(with_reactions(start, reactions, style, shortcode_display).0);
}

} // verus!
