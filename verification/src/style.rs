//! Styled text: fragments with a style, lines of fragments, and blocks of
//! lines, as a terminal surface draws them.

use vstd::prelude::*;

verus! {

/// Bold text.
pub const BOLD: u16 = 0b0000_0000_0001;

/// Dim text.
pub const DIM: u16 = 0b0000_0000_0010;

/// Italic text.
pub const ITALIC: u16 = 0b0000_0000_0100;

/// Underlined text.
pub const UNDERLINED: u16 = 0b0000_0000_1000;

/// Slowly blinking text.
pub const SLOW_BLINK: u16 = 0b0000_0001_0000;

/// Rapidly blinking text.
pub const RAPID_BLINK: u16 = 0b0000_0010_0000;

/// Text with its colours swapped.
pub const REVERSED: u16 = 0b0000_0100_0000;

/// Hidden text.
pub const HIDDEN: u16 = 0b0000_1000_0000;

/// Crossed-out text.
pub const CROSSED_OUT: u16 = 0b0001_0000_0000;

/// A terminal colour.
#[derive(Clone, Copy, Debug, PartialEq, Eq)]
pub enum Color {
    Reset,
    Black,
    Red,
    Green,
    Yellow,
    Blue,
    Magenta,
    Cyan,
    Gray,
    DarkGray,
    LightRed,
    LightGreen,
    LightYellow,
    LightBlue,
    LightMagenta,
    LightCyan,
    White,
    Rgb(u8, u8, u8),
    Indexed(u8),
}

/// How a fragment is drawn: its colours, the modifiers it switches on and
/// the modifiers it switches off, each a set of the bits above.
#[derive(Clone, Copy, Debug, PartialEq, Eq)]
pub struct Style {
    pub fg: Option<Color>,
    pub bg: Option<Color>,
    pub add_modifier: u16,
    pub sub_modifier: u16,
}

impl Style {
    /// The style that changes nothing.
    pub open spec fn plain() -> Style {
        Style { fg: None, bg: None, add_modifier: 0, sub_modifier: 0 }
    }

    /// This style with the modifiers `m` switched on.
    pub open spec fn with_modifier(self, m: u16) -> Style {
        Style {
            fg: self.fg,
            bg: self.bg,
            add_modifier: self.add_modifier | m,
            sub_modifier: self.sub_modifier & !m,
        }
    }

    /// This style overlaid with `other`: the colours of `other` where it
    /// has any, and its modifiers on top of this style's.
    pub open spec fn patched(self, other: Style) -> Style {
        Style {
            fg: if other.fg is Some {
                other.fg
            } else {
                self.fg
            },
            bg: if other.bg is Some {
                other.bg
            } else {
                self.bg
            },
            add_modifier: (self.add_modifier & !other.sub_modifier) | other.add_modifier,
            sub_modifier: (self.sub_modifier & !other.add_modifier) | other.sub_modifier,
        }
    }

    /// The bold style of date headers.
    pub open spec fn bold() -> Style {
        Style { fg: None, bg: None, add_modifier: BOLD, sub_modifier: 0 }
    }

    /// Switches the modifiers `m` on.
    pub fn add_modifier(self, m: u16) -> (r: Style)
        ensures
            r == self.with_modifier(m),
    {
        Style {
            fg: self.fg,
            bg: self.bg,
            add_modifier: self.add_modifier | m,
            sub_modifier: self.sub_modifier & !m,
        }
    }

    /// Lays `other` over this style.
    pub fn patch(self, other: Style) -> (r: Style)
        ensures
            r == self.patched(other),
    {
        let fg = match other.fg {
            Some(c) => Some(c),
            None => self.fg,
        };
        let bg = match other.bg {
            Some(c) => Some(c),
            None => self.bg,
        };
        Style {
            fg,
            bg,
            add_modifier: (self.add_modifier & !other.sub_modifier) | other.add_modifier,
            sub_modifier: (self.sub_modifier & !other.add_modifier) | other.sub_modifier,
        }
    }

    /// The bold style.
    pub fn new_bold() -> (r: Style)
        ensures
            r == Style::bold(),
    {
        Style { fg: None, bg: None, add_modifier: BOLD, sub_modifier: 0 }
    }
}

impl Default for Style {
    fn default() -> (r: Style)
        ensures
            r == Style::plain(),
    {
        Style { fg: None, bg: None, add_modifier: 0, sub_modifier: 0 }
    }
}

/// What a fragment is in contracts: its characters and its style.
pub struct SpanView {
    pub content: Seq<char>,
    pub style: Style,
}

/// What a block of lines is in contracts.
pub type TextView = Seq<Seq<SpanView>>;

/// A fragment of text with one style.
#[derive(Clone, Debug, PartialEq, Eq)]
pub struct Span {
    pub content: String,
    pub style: Style,
}

impl View for Span {
    type V = SpanView;

    open spec fn view(&self) -> SpanView {
        SpanView { content: self.content@, style: self.style }
    }
}

impl Span {
    /// A fragment in the given style.
    pub fn styled(content: String, style: Style) -> (r: Span)
        ensures
            r@ == (SpanView { content: content@, style }),
    {
        Span { content, style }
    }

    /// A fragment in the plain style.
    pub fn raw(content: String) -> (r: Span)
        ensures
            r@ == (SpanView { content: content@, style: Style::plain() }),
    {
        Span { content, style: Style::default() }
    }
}

/// One line: fragments from left to right.
#[derive(Clone, Debug, PartialEq, Eq)]
pub struct Spans(pub Vec<Span>);

impl View for Spans {
    type V = Seq<SpanView>;

    open spec fn view(&self) -> Seq<SpanView> {
        self.0@.map_values(|s: Span| s@)
    }
}

impl Spans {
    /// A line without fragments.
    pub fn new() -> (r: Spans)
        ensures
            r@ == Seq::<SpanView>::empty(),
    {
        let r = Spans(Vec::new());
        assert(r@ =~= Seq::<SpanView>::empty());
        r
    }

    /// Adds a fragment behind those of this line.
    pub fn push(&mut self, span: Span)
        ensures
            final(self)@ == old(self)@.push(span@),
    {
        self.0.push(span);
        assert(self@ =~= old(self)@.push(span@));
    }

    /// Adds the fragments of `other` behind those of this line.
    pub fn extend(&mut self, other: Spans)
        ensures
            final(self)@ == old(self)@ + other@,
    {
        let mut rest = other.0;
        self.0.append(&mut rest);
        assert(self@ =~= old(self)@ + other@);
    }
}

/// A block of lines from top to bottom.
#[derive(Clone, Debug, PartialEq, Eq)]
pub struct Text {
    pub lines: Vec<Spans>,
}

impl View for Text {
    type V = Seq<Seq<SpanView>>;

    open spec fn view(&self) -> Seq<Seq<SpanView>> {
        self.lines@.map_values(|l: Spans| l@)
    }
}

impl Text {
    /// A block without lines.
    pub fn new() -> (r: Text)
        ensures
            r@ == Seq::<Seq<SpanView>>::empty(),
    {
        let r = Text { lines: Vec::new() };
        assert(r@ =~= Seq::<Seq<SpanView>>::empty());
        r
    }

    /// Adds a line below those of this block.
    pub fn push(&mut self, line: Spans)
        ensures
            final(self)@ == old(self)@.push(line@),
    {
        self.lines.push(line);
        assert(self@ =~= old(self)@.push(line@));
    }
}

} // verus!
