//! A printer that lays fragments of text out on lines of a fixed width:
//! words move to the next line when they do not fit, words wider than a line
//! are cut, and every finished line is padded with blanks.

use crate::chars::blanks;
use crate::chars::chars_of;
use crate::chars::string_of;
use crate::style::Span;
use crate::style::SpanView;
use crate::style::Spans;
use crate::style::Style;
use crate::style::Text;
use crate::style::TextView;
use crate::width::lemma_str_width_push;
use crate::width::str_width;
use crate::width::width_of_str;
use crate::wrap::columns_of;
use crate::wrap::fit;
use crate::wrap::measures;
use crate::wrap::space_span;
use crate::wrap::take_width;
use vstd::prelude::*;

verus! {

/// The sum of two column counts, held at the largest `usize`.
pub open spec fn sat_add(a: usize, b: nat) -> usize {
    if a + b > usize::MAX {
        usize::MAX
    } else {
        (a + b) as usize
    }
}

/// A character that separates words.
pub open spec fn is_space(c: char) -> bool {
    c == ' ' || c == '\n' || c == '\t' || c == '\r'
}

/// The word is a separator: it starts with a separating character.
pub open spec fn is_blank(word: Seq<char>) -> bool {
    word.len() > 0 && is_space(word[0])
}

/// The words of a text and the characters of its unfinished last word,
/// after its first `n` characters. Every separating character is a word of
/// its own; the characters between two of them are one word.
pub open spec fn words_scan(s: Seq<char>, n: nat) -> (Seq<Seq<char>>, Seq<char>)
    decreases n,
{
    if n == 0 || n > s.len() {
        (Seq::empty(), Seq::empty())
    } else {
        let (words, cur) = words_scan(s, (n - 1) as nat);
        let c = s[n - 1];
        if is_space(c) {
            (with_pending(words, cur).push(seq![c]), Seq::empty())
        } else {
            (words, cur.push(c))
        }
    }
}

/// The words with the unfinished word behind them, if it has a character.
pub open spec fn with_pending(words: Seq<Seq<char>>, cur: Seq<char>) -> Seq<Seq<char>> {
    if cur.len() > 0 {
        words.push(cur)
    } else {
        words
    }
}

/// The words of a text.
pub open spec fn words_of(s: Seq<char>) -> Seq<Seq<char>> {
    let (words, cur) = words_scan(s, s.len());
    with_pending(words, cur)
}

/// The state of a printer in contracts.
pub struct PrinterView {
    /// The finished lines.
    pub lines: TextView,
    /// The columns of a line.
    pub width: usize,
    /// The style under every fragment, which also pads the lines.
    pub base_style: Style,
    /// Whether the quoted part of a reply is left out.
    pub hide_reply: bool,
    /// The fragments of the line that is being filled.
    pub curr: Seq<SpanView>,
    /// The columns that they take.
    pub curr_width: usize,
}

impl PrinterView {
    /// A printer that has printed nothing.
    pub open spec fn fresh(width: usize, base_style: Style, hide_reply: bool) -> PrinterView {
        PrinterView {
            lines: Seq::empty(),
            width,
            base_style,
            hide_reply,
            curr: Seq::empty(),
            curr_width: 0,
        }
    }

    /// The columns that are free on the current line.
    pub open spec fn remaining(self) -> usize {
        if self.curr_width <= self.width {
            (self.width - self.curr_width) as usize
        } else {
            0
        }
    }

    /// The current line moved to the finished lines as it is.
    pub open spec fn pushed(self) -> PrinterView {
        PrinterView {
            lines: self.lines.push(self.curr),
            curr: Seq::empty(),
            curr_width: 0,
            ..self
        }
    }

    /// The current line with a fragment of `w` columns behind it.
    pub open spec fn with_span(self, span: SpanView, w: nat) -> PrinterView {
        PrinterView {
            curr: self.curr.push(span),
            curr_width: sat_add(self.curr_width, w),
            ..self
        }
    }

    /// A line break: the current line is padded with blanks to the full
    /// width and finished. Before anything was printed a break does nothing.
    pub open spec fn broken(self) -> PrinterView {
        if self.curr_width == 0 && self.lines.len() == 0 {
            self
        } else if self.remaining() > 0 {
            self.with_span(
                SpanView { content: blanks(self.remaining() as nat), style: self.base_style },
                0,
            ).pushed()
        } else {
            self.pushed()
        }
    }

    /// The current line finished if it holds anything.
    pub open spec fn committed(self) -> PrinterView {
        if self.curr_width > 0 {
            self.broken()
        } else {
            self
        }
    }

    /// A fragment that is never cut: it goes on the current line if it fits
    /// there, and on a new line if not.
    pub open spec fn with_span_nobreak(self, span: SpanView) -> PrinterView {
        let sw = str_width(span.content);
        let p = if self.curr_width + sw > self.width {
            self.committed()
        } else {
            self
        };
        p.with_span(span, sw)
    }

    /// A word wider than a line, cut into pieces: what fits goes on the
    /// current line, the rest on lines of its own. An empty line takes at
    /// least one character.
    pub open spec fn with_long_word(self, word: Seq<char>, style: Style) -> PrinterView
        decreases word.len(), self.curr_width,
    {
        let n = fit(word, self.remaining() as nat);
        if n >= word.len() {
            let p = self.with_span(SpanView { content: word, style }, str_width(word));
            if p.curr_width == p.width {
                p.committed()
            } else {
                p
            }
        } else if n == 0 && self.curr_width > 0 {
            self.broken().with_long_word(word, style)
        } else {
            let k = if n == 0 {
                1
            } else {
                n
            };
            let chunk = word.take(k as int);
            self.with_span(SpanView { content: chunk, style }, str_width(chunk)).committed()
                .with_long_word(word.skip(k as int), style)
        }
    }

    /// One word in the given style. A line feed counts as a blank. A
    /// separator at the start of a line is dropped, and so is one that would
    /// start a new line. A word that does not fit on the current line
    /// starts a new one, and a word wider than a line is cut.
    pub open spec fn with_word(self, word: Seq<char>, style: Style) -> PrinterView {
        let word = if word == seq!['\n'] {
            seq![' ']
        } else {
            word
        };
        let sw = str_width(word);
        if self.curr_width == 0 && is_blank(word) {
            self
        } else if sw > self.width {
            self.with_long_word(word, style)
        } else if self.curr_width + sw > self.width {
            if is_blank(word) {
                self.committed()
            } else {
                self.committed().with_span(SpanView { content: word, style }, sw)
            }
        } else {
            self.with_span(SpanView { content: word, style }, sw)
        }
    }

    /// Words one after the other.
    pub open spec fn with_words(self, words: Seq<Seq<char>>, style: Style) -> PrinterView
        decreases words.len(),
    {
        if words.len() == 0 {
            self
        } else {
            self.with_words(words.drop_last(), style).with_word(words.last(), style)
        }
    }

    /// A text in the given style laid over the base style, word by word. A
    /// line that the text fills to its last column is finished. A printer
    /// without columns prints nothing.
    pub open spec fn with_str(self, s: Seq<char>, style: Style) -> PrinterView {
        if self.width == 0 {
            self
        } else {
            let p = self.with_words(words_of(s), self.base_style.patched(style));
            if p.curr_width == p.width {
                p.committed()
            } else {
                p
            }
        }
    }

    /// The lines of the printer once the current line is finished.
    pub open spec fn finished(self) -> TextView {
        self.committed().lines
    }
}

/// Splits a text into its words.
pub fn split_words(s: &str) -> (r: Vec<Vec<char>>)
    ensures
        r@.map_values(|w: Vec<char>| w@) == words_of(s@),
{
    let v = chars_of(s);
    let mut words: Vec<Vec<char>> = Vec::new();
    let mut cur: Vec<char> = Vec::new();
    let mut i: usize = 0;
    assert(words@.map_values(|w: Vec<char>| w@) =~= Seq::<Seq<char>>::empty());
    while i < v.len()
        invariant
            v@ == s@,
            i <= v@.len(),
            (words@.map_values(|w: Vec<char>| w@), cur@) == words_scan(s@, i as nat),
        decreases v@.len() - i,
    {
        let c = v[i];
        let ghost before = words@.map_values(|w: Vec<char>| w@);
        let ghost pending = cur@;
        if c == ' ' || c == '\n' || c == '\t' || c == '\r' {
            if cur.len() > 0 {
                words.push(cur);
                cur = Vec::new();
            }
            let mut sep: Vec<char> = Vec::new();
            sep.push(c);
            words.push(sep);
            assert(sep@ =~= seq![c]);
            assert(words@.map_values(|w: Vec<char>| w@) =~= with_pending(before, pending).push(
                seq![c],
            ));
            cur = Vec::new();
        } else {
            cur.push(c);
        }
        i = i + 1;
    }
    if cur.len() > 0 {
        let ghost before = words@.map_values(|w: Vec<char>| w@);
        let ghost pending = cur@;
        words.push(cur);
        assert(words@.map_values(|w: Vec<char>| w@) =~= before.push(pending));
    }
    words
}

/// Lays fragments of text out on lines of a fixed width.
pub struct TextPrinter {
    text: Text,
    width: usize,
    base_style: Style,
    hide_reply: bool,
    curr_spans: Spans,
    curr_width: usize,
}

impl View for TextPrinter {
    type V = PrinterView;

    closed spec fn view(&self) -> PrinterView {
        PrinterView {
            lines: self.text@,
            width: self.width,
            base_style: self.base_style,
            hide_reply: self.hide_reply,
            curr: self.curr_spans@,
            curr_width: self.curr_width,
        }
    }
}

impl TextPrinter {
    /// A printer for lines of `width` columns.
    pub fn new(width: usize, base_style: Style, hide_reply: bool) -> (r: TextPrinter)
        ensures
            r@ == PrinterView::fresh(width, base_style, hide_reply),
    {
        TextPrinter {
            text: Text::new(),
            width,
            base_style,
            hide_reply,
            curr_spans: Spans::new(),
            curr_width: 0,
        }
    }

    /// Whether the quoted part of a reply is left out.
    pub fn hide_reply(&self) -> (r: bool)
        ensures
            r == self@.hide_reply,
    {
        self.hide_reply
    }

    /// The columns of a line.
    pub fn width(&self) -> (r: usize)
        ensures
            r == self@.width,
    {
        self.width
    }

    fn remaining(&self) -> (r: usize)
        ensures
            r == self@.remaining(),
    {
        self.width.saturating_sub(self.curr_width)
    }

    fn push(&mut self)
        ensures
            final(self)@ == old(self)@.pushed(),
    {
        let mut line = Spans::new();
        std::mem::swap(&mut line, &mut self.curr_spans);
        self.text.push(line);
        self.curr_width = 0;
    }

    fn push_span(&mut self, span: Span, w: usize)
        ensures
            final(self)@ == old(self)@.with_span(span@, w as nat),
    {
        self.curr_spans.push(span);
        self.curr_width = self.curr_width.saturating_add(w);
    }

    /// Ends the current line.
    pub fn push_break(&mut self)
        ensures
            final(self)@ == old(self)@.broken(),
    {
        if self.curr_width == 0 && self.text.lines.len() == 0 {
            assert(self.text@.len() == 0);
            return ;
        }
        assert(self.text@.len() == self.text.lines@.len());
        let remaining = self.remaining();
        if remaining > 0 {
            let pad = space_span(remaining, self.base_style);
            self.push_span(pad, 0);
        }
        self.push();
    }

    /// Ends the current line if it holds anything.
    pub fn commit(&mut self)
        ensures
            final(self)@ == old(self)@.committed(),
    {
        if self.curr_width > 0 {
            self.push_break();
        }
    }

    /// Prints a fragment that is never cut.
    pub fn push_span_nobreak(&mut self, span: Span)
        ensures
            final(self)@ == old(self)@.with_span_nobreak(span@),
    {
        let sw = width_of_str(span.content.as_str());
        if self.curr_width > self.width || sw > self.width - self.curr_width {
            self.commit();
        }
        self.push_span(span, sw);
    }

    /// Prints `word[from..]`, a word wider than a line, in pieces.
    fn push_long_word(&mut self, word: &Vec<char>, style: Style)
        ensures
            final(self)@ == old(self)@.with_long_word(word@, style),
    {
        let cols = columns_of(word);
        let mut from: usize = 0;
        assert(word@.skip(0) =~= word@);
        loop
            invariant_except_break
                self@.with_long_word(word@.skip(from as int), style) == old(self)@.with_long_word(
                    word@,
                    style,
                ),
            invariant
                from <= word@.len(),
                measures(cols@, word@),
            ensures
                self@ == old(self)@.with_long_word(word@, style),
            decreases word@.len() - from, self.curr_width,
        {
            let ghost rest = word@.skip(from as int);
            let ghost before = self@;
            let avail = self.remaining();
            let (n, w) = take_width(word, &cols, from, avail);
            if n >= word.len() - from {
                assert(word@.subrange(from as int, from + n) =~= rest);
                let piece = string_of(word, from, word.len());
                assert(piece@ =~= rest);
                self.push_span(Span::styled(piece, style), w);
                if self.curr_width == self.width {
                    self.commit();
                }
                break;
            }
            if n == 0 && self.curr_width > 0 {
                self.push_break();
                assert(self.curr_width == 0);
                continue;
            }
            let (k, kw) = if n == 0 {
                proof {
                    assert(word@.subrange(from as int, from + 1) =~= Seq::<char>::empty().push(
                        word@[from as int],
                    ));
                    lemma_str_width_push(Seq::<char>::empty(), word@[from as int]);
                }
                (1usize, cols[from])
            } else {
                (n, w)
            };
            assert(word@.subrange(from as int, from + k) =~= rest.take(k as int));
            let piece = string_of(word, from, from + k);
            self.push_span(Span::styled(piece, style), kw);
            self.commit();
            assert(word@.skip(from + k) =~= rest.skip(k as int));
            from = from + k;
        }
    }

    /// Prints one word in the given style.
    fn push_word(&mut self, word: &Vec<char>, style: Style)
        ensures
            final(self)@ == old(self)@.with_word(word@, style),
    {
        let newline = word.len() == 1 && word[0] == '\n';
        let mut blank_word: Vec<char> = Vec::new();
        blank_word.push(' ');
        proof {
            if newline {
                assert(word@ =~= seq!['\n']);
            }
            assert(blank_word@ =~= seq![' ']);
        }
        let word: &Vec<char> = if newline {
            &blank_word
        } else {
            word
        };
        let blank = word.len() > 0 && (word[0] == ' ' || word[0] == '\n' || word[0] == '\t'
            || word[0] == '\r');
        if self.curr_width == 0 && blank {
            return ;
        }
        let content = string_of(word, 0, word.len());
        assert(content@ =~= word@);
        let sw = width_of_str(content.as_str());
        if sw > self.width {
            self.push_long_word(word, style);
        } else if self.curr_width > self.width || sw > self.width - self.curr_width {
            self.commit();
            if !blank {
                self.push_span(Span::styled(content, style), sw);
            }
        } else {
            self.push_span(Span::styled(content, style), sw);
        }
    }

    /// Prints a text in the given style, word by word.
    pub fn push_str(&mut self, s: &str, style: Style)
        ensures
            final(self)@ == old(self)@.with_str(s@, style),
    {
        if self.width == 0 {
            return ;
        }
        let style = self.base_style.patch(style);
        let words = split_words(s);
        let ghost views = words@.map_values(|w: Vec<char>| w@);
        let mut i: usize = 0;
        assert(views.take(0) =~= Seq::<Seq<char>>::empty());
        while i < words.len()
            invariant
                i <= words@.len(),
                views == words@.map_values(|w: Vec<char>| w@),
                self@ == old(self)@.with_words(views.take(i as int), style),
            decreases words@.len() - i,
        {
            self.push_word(&words[i], style);
            assert(views.take(i + 1).drop_last() =~= views.take(i as int));
            assert(views.take(i + 1).last() == words@[i as int]@);
            i = i + 1;
        }
        assert(views.take(i as int) =~= views);
        if self.curr_width == self.width {
            self.commit();
        }
    }

    /// Finishes the current line and hands out the lines.
    pub fn finish(self) -> (text: Text)
        ensures
            text@ == self@.finished(),
    {
        let mut printer = self;
        printer.commit();
        printer.text
    }
}

/// The columns that fragments take together.
pub open spec fn cols(spans: Seq<SpanView>) -> nat
    decreases spans.len(),
{
    if spans.len() == 0 {
        0
    } else {
        cols(spans.drop_last()) + str_width(spans.last().content)
    }
}

/// The fragments take no more than `width` columns, or one of them takes
/// all the columns that they take: a fragment that is never cut, or a
/// character wider than a line.
pub open spec fn text_fits(spans: Seq<SpanView>, width: nat) -> bool {
    cols(spans) <= width || exists|i: int|
        0 <= i < spans.len() && str_width((#[trigger] spans[i]).content) == cols(spans)
}

/// A finished line: its text fits, or its text takes less than the width
/// and the padding behind it makes up for the rest.
pub open spec fn line_fits(line: Seq<SpanView>, width: usize, base_style: Style) -> bool {
    text_fits(line, width as nat) || (line.len() > 0 && cols(line.drop_last()) < width
        && line.last() == (SpanView {
        content: blanks((width - cols(line.drop_last())) as nat),
        style: base_style,
    }))
}

impl PrinterView {
    /// The printer keeps its books: the width of the current line is the
    /// columns of its fragments, the current line fits, and so does every
    /// finished line.
    pub open spec fn tidy(self) -> bool {
        &&& self.curr_width == sat_add(0, cols(self.curr))
        &&& text_fits(self.curr, self.width as nat)
        &&& forall|i: int|
            0 <= i < self.lines.len() ==> line_fits(
                #[trigger] self.lines[i],
                self.width,
                self.base_style,
            )
    }
}

/// The columns of fragments with one more fragment.
pub proof fn lemma_cols_push(spans: Seq<SpanView>, span: SpanView)
    ensures
        cols(spans.push(span)) == cols(spans) + str_width(span.content),
{
    assert(spans.push(span).drop_last() =~= spans);
}

/// Fragments that fit still fit with one more fragment, where there is room
/// for it, where it is the first to take any column, or where it takes none.
proof fn lemma_text_fits_push(spans: Seq<SpanView>, span: SpanView, width: nat)
    requires
        cols(spans) + str_width(span.content) <= width || cols(spans) == 0 || (str_width(
            span.content,
        ) == 0 && text_fits(spans, width)),
    ensures
        text_fits(spans.push(span), width),
{
    lemma_cols_push(spans, span);
    let more = spans.push(span);
    if cols(more) > width {
        if cols(spans) == 0 {
            assert(str_width(more[more.len() - 1].content) == cols(more));
        } else {
            let i = choose|i: int|
                0 <= i < spans.len() && str_width((#[trigger] spans[i]).content) == cols(spans);
            assert(more[i] == spans[i]);
            assert(str_width(more[i].content) == cols(more));
        }
    }
}

/// A tidy printer stays tidy over a fragment of `w` columns that fits in
/// one of the three ways.
proof fn lemma_with_span_tidy(p: PrinterView, span: SpanView)
    requires
        p.tidy(),
        cols(p.curr) + str_width(span.content) <= p.width || cols(p.curr) == 0 || str_width(
            span.content,
        ) == 0,
    ensures
        p.with_span(span, str_width(span.content)).tidy(),
{
    lemma_cols_push(p.curr, span);
    lemma_text_fits_push(p.curr, span, p.width as nat);
}

/// A printer that has printed nothing is tidy.
pub proof fn lemma_fresh_tidy(width: usize, base_style: Style, hide_reply: bool)
    ensures
        PrinterView::fresh(width, base_style, hide_reply).tidy(),
{
}

/// A line break keeps a tidy printer tidy, and leaves the current line
/// empty where it does anything.
pub proof fn lemma_broken_tidy(p: PrinterView)
    requires
        p.tidy(),
    ensures
        p.broken().tidy(),
        p.broken().curr_width == 0,
        p.curr_width > 0 ==> p.broken().curr.len() == 0,
{
    let q = p.broken();
    if !(p.curr_width == 0 && p.lines.len() == 0) {
        if p.remaining() > 0 {
            let pad = SpanView {
                content: blanks(p.remaining() as nat),
                style: p.base_style,
            };
            let line = p.curr.push(pad);
            assert(line.drop_last() =~= p.curr);
            assert(q.lines =~= p.lines.push(line));
            assert(line_fits(line, p.width, p.base_style));
            assert forall|i: int| 0 <= i < q.lines.len() implies line_fits(
                #[trigger] q.lines[i],
                q.width,
                q.base_style,
            ) by {
                if i < p.lines.len() {
                    assert(q.lines[i] == p.lines[i]);
                }
            }
        } else {
            assert(q.lines =~= p.lines.push(p.curr));
            assert forall|i: int| 0 <= i < q.lines.len() implies line_fits(
                #[trigger] q.lines[i],
                q.width,
                q.base_style,
            ) by {
                if i < p.lines.len() {
                    assert(q.lines[i] == p.lines[i]);
                }
            }
        }
    }
}

/// Finishing the current line keeps a tidy printer tidy.
pub proof fn lemma_committed_tidy(p: PrinterView)
    requires
        p.tidy(),
    ensures
        p.committed().tidy(),
        p.committed().curr_width == 0,
        p.curr_width > 0 ==> p.committed().curr.len() == 0,
{
    if p.curr_width > 0 {
        lemma_broken_tidy(p);
    }
}

/// A fragment that is never cut keeps a tidy printer tidy.
pub proof fn lemma_with_span_nobreak_tidy(p: PrinterView, span: SpanView)
    requires
        p.tidy(),
    ensures
        p.with_span_nobreak(span).tidy(),
{
    let sw = str_width(span.content);
    if p.curr_width + sw > p.width {
        lemma_committed_tidy(p);
        lemma_with_span_tidy(p.committed(), span);
    } else {
        lemma_with_span_tidy(p, span);
    }
}

/// A word wider than a line keeps a tidy printer tidy.
pub proof fn lemma_with_long_word_tidy(p: PrinterView, word: Seq<char>, style: Style)
    requires
        p.tidy(),
    ensures
        p.with_long_word(word, style).tidy(),
    decreases word.len(), p.curr_width,
{
    let n = fit(word, p.remaining() as nat);
    crate::wrap::lemma_fit_bounds(word, p.remaining() as nat);
    if n >= word.len() {
        assert(word.take(word.len() as int) =~= word);
        let span = SpanView { content: word, style };
        lemma_with_span_tidy(p, span);
        lemma_committed_tidy(p.with_span(span, str_width(word)));
    } else if n == 0 && p.curr_width > 0 {
        lemma_broken_tidy(p);
        lemma_with_long_word_tidy(p.broken(), word, style);
    } else {
        let k = if n == 0 {
            1
        } else {
            n
        };
        let chunk = word.take(k as int);
        let span = SpanView { content: chunk, style };
        lemma_with_span_tidy(p, span);
        let q = p.with_span(span, str_width(chunk));
        lemma_committed_tidy(q);
        lemma_with_long_word_tidy(q.committed(), word.skip(k as int), style);
    }
}

/// A word keeps a tidy printer tidy.
pub proof fn lemma_with_word_tidy(p: PrinterView, word: Seq<char>, style: Style)
    requires
        p.tidy(),
    ensures
        p.with_word(word, style).tidy(),
{
    let word = if word == seq!['\n'] {
        seq![' ']
    } else {
        word
    };
    let sw = str_width(word);
    let span = SpanView { content: word, style };
    if p.curr_width == 0 && is_blank(word) {
    } else if sw > p.width {
        lemma_with_long_word_tidy(p, word, style);
    } else if p.curr_width + sw > p.width {
        lemma_committed_tidy(p);
        if !is_blank(word) {
            lemma_with_span_tidy(p.committed(), span);
        }
    } else {
        lemma_with_span_tidy(p, span);
    }
}

/// Words keep a tidy printer tidy.
pub proof fn lemma_with_words_tidy(p: PrinterView, words: Seq<Seq<char>>, style: Style)
    requires
        p.tidy(),
    ensures
        p.with_words(words, style).tidy(),
    decreases words.len(),
{
    if words.len() > 0 {
        lemma_with_words_tidy(p, words.drop_last(), style);
        lemma_with_word_tidy(p.with_words(words.drop_last(), style), words.last(), style);
    }
}

/// A text keeps a tidy printer tidy.
pub proof fn lemma_with_str_tidy(p: PrinterView, s: Seq<char>, style: Style)
    requires
        p.tidy(),
    ensures
        p.with_str(s, style).tidy(),
{
    if p.width != 0 {
        let q = p.with_words(words_of(s), p.base_style.patched(style));
        lemma_with_words_tidy(p, words_of(s), p.base_style.patched(style));
        lemma_committed_tidy(q);
    }
}

/// Every line that a tidy printer hands out fits: its text takes no more
/// columns than the width, or one fragment takes them all, and padding makes
/// up for what the text leaves of the width.
pub proof fn lemma_finished_fits(p: PrinterView)
    requires
        p.tidy(),
    ensures
        forall|i: int|
            0 <= i < p.finished().len() ==> line_fits(
                #[trigger] p.finished()[i],
                p.width,
                p.base_style,
            ),
{
    lemma_committed_tidy(p);
}

/// A word wider than a line changes neither the width nor the base style of
/// a printer.
pub proof fn lemma_with_long_word_keeps_width(p: PrinterView, word: Seq<char>, style: Style)
    ensures
        p.with_long_word(word, style).width == p.width,
        p.with_long_word(word, style).base_style == p.base_style,
    decreases word.len(), p.curr_width,
{
    let n = fit(word, p.remaining() as nat);
    if n >= word.len() {
    } else if n == 0 && p.curr_width > 0 {
        lemma_with_long_word_keeps_width(p.broken(), word, style);
    } else {
        let k = if n == 0 {
            1
        } else {
            n
        };
        let chunk = word.take(k as int);
        let q = p.with_span(SpanView { content: chunk, style }, str_width(chunk)).committed();
        lemma_with_long_word_keeps_width(q, word.skip(k as int), style);
    }
}

/// Words change neither the width nor the base style of a printer.
pub proof fn lemma_with_words_keeps_width(p: PrinterView, words: Seq<Seq<char>>, style: Style)
    ensures
        p.with_words(words, style).width == p.width,
        p.with_words(words, style).base_style == p.base_style,
    decreases words.len(),
{
    if words.len() > 0 {
        lemma_with_words_keeps_width(p, words.drop_last(), style);
        let q = p.with_words(words.drop_last(), style);
        let word = if words.last() == seq!['\n'] {
            seq![' ']
        } else {
            words.last()
        };
        lemma_with_long_word_keeps_width(q, word, style);
    }
}

/// A text changes neither the width nor the base style of a printer.
pub proof fn lemma_with_str_keeps_width(p: PrinterView, s: Seq<char>, style: Style)
    ensures
        p.with_str(s, style).width == p.width,
        p.with_str(s, style).base_style == p.base_style,
{
    lemma_with_words_keeps_width(p, words_of(s), p.base_style.patched(style));
}

} // verus!
