//! The columns of a rendered message: the sender's name in front of the
//! text, the time and the read receipts behind it, and a date header above
//! the first message of a day.

use crate::chars::blanks;
use crate::style::Span;
use crate::style::SpanView;
use crate::style::Spans;
use crate::style::Style;
use crate::style::Text;
use crate::style::TextView;
use crate::width::str_width;
use crate::width::width_of_str;
use crate::wrap::columns_left;
use crate::wrap::space_span;
use vstd::prelude::*;
use vstd::string::StringExecFns;

verus! {

/// The columns of the sender's name.
pub const USER_GUTTER: usize = 30;

/// The columns of the time.
pub const TIME_GUTTER: usize = 12;

/// The columns of the read receipts.
pub const READ_GUTTER: usize = 5;

/// The fewest columns that the text of a message is given beside others.
pub const MIN_MSG_LEN: usize = 30;

/// Which columns a message is rendered with.
#[derive(Clone, Copy, Debug, PartialEq, Eq, Structural)]
pub enum MessageColumns {
    /// Four columns: sender, message, timestamp, read receipts.
    Four,
    /// Three columns: sender, message, timestamp.
    Three,
    /// Two columns: sender, message.
    Two,
    /// One column: message with sender on line before the message.
    One,
}

/// The columns for a width: the most that leave the text its fewest columns,
/// with the read receipts only where they are switched on.
pub open spec fn columns_for(width: usize, read_receipts: bool) -> MessageColumns {
    if USER_GUTTER + TIME_GUTTER + READ_GUTTER + MIN_MSG_LEN <= width && read_receipts {
        MessageColumns::Four
    } else if USER_GUTTER + TIME_GUTTER + MIN_MSG_LEN <= width {
        MessageColumns::Three
    } else if USER_GUTTER + MIN_MSG_LEN <= width {
        MessageColumns::Two
    } else {
        MessageColumns::One
    }
}

/// The columns that the text of a message fills: what the other columns
/// leave of the width, and in one column the width less an indent of two.
pub open spec fn fill_for(width: usize, cols: MessageColumns) -> usize {
    match cols {
        MessageColumns::Four => (width - USER_GUTTER - TIME_GUTTER - READ_GUTTER) as usize,
        MessageColumns::Three => (width - USER_GUTTER - TIME_GUTTER) as usize,
        MessageColumns::Two => (width - USER_GUTTER) as usize,
        MessageColumns::One => if width >= 2 {
            (width - 2) as usize
        } else {
            0
        },
    }
}

/// In every column mode but the single column, the text of a message has at
/// least its fewest columns, and the columns together are the width.
pub proof fn lemma_fill_at_least(width: usize, read_receipts: bool)
    ensures
        columns_for(width, read_receipts) != MessageColumns::One ==> fill_for(
            width,
            columns_for(width, read_receipts),
        ) >= MIN_MSG_LEN,
        fill_for(width, columns_for(width, read_receipts)) <= width,
{
}

/// Picks the columns for a width.
pub fn pick_columns(width: usize, read_receipts: bool) -> (r: (MessageColumns, usize))
    ensures
        r.0 == columns_for(width, read_receipts),
        r.1 == fill_for(width, r.0),
{
    if USER_GUTTER + TIME_GUTTER + READ_GUTTER + MIN_MSG_LEN <= width && read_receipts {
        (MessageColumns::Four, width - USER_GUTTER - TIME_GUTTER - READ_GUTTER)
    } else if USER_GUTTER + TIME_GUTTER + MIN_MSG_LEN <= width {
        (MessageColumns::Three, width - USER_GUTTER - TIME_GUTTER)
    } else if USER_GUTTER + MIN_MSG_LEN <= width {
        (MessageColumns::Two, width - USER_GUTTER)
    } else {
        (MessageColumns::One, width.saturating_sub(2))
    }
}

/// A fragment of `n` blanks.
pub open spec fn blank_span(n: nat, style: Style) -> SpanView {
    SpanView { content: blanks(n), style }
}

/// A fragment in the plain style.
pub open spec fn raw_span(content: Seq<char>) -> SpanView {
    SpanView { content, style: Style::plain() }
}

/// The view of a fragment that may be missing.
pub open spec fn opt_view(span: Option<Span>) -> Option<SpanView> {
    match span {
        Some(s) => Some(s@),
        None => None,
    }
}

/// The state of a formatter in contracts.
pub struct FormatterView {
    /// The columns that are shown.
    pub cols: MessageColumns,
    /// The full width.
    pub orig: usize,
    /// The columns that the text of the message fills.
    pub fill: usize,
    /// The sender's name, until the first row has been written.
    pub user: Option<SpanView>,
    /// The time, until the first row has been written.
    pub time: Option<SpanView>,
    /// The date, until the header has been written.
    pub date: Option<SpanView>,
    /// The marks of the readers that have not been written yet.
    pub read: Seq<SpanView>,
}

impl FormatterView {
    /// The date header, centred on the full width, where it is still to be
    /// written.
    pub open spec fn date_lines(self) -> TextView {
        match self.date {
            Some(date) => {
                let padding = columns_left(self.orig, str_width(date.content));
                seq![
                    seq![
                        blank_span(padding / 2, Style::plain()),
                        date,
                        blank_span((padding - padding / 2) as nat, Style::plain()),
                    ],
                ]
            },
            None => Seq::empty(),
        }
    }

    /// The mark of the reader `i` of those still to be written, and a blank
    /// where there are not as many.
    pub open spec fn reader(self, i: int) -> SpanView {
        if 0 <= i < self.read.len() {
            self.read[i]
        } else {
            raw_span(" "@)
        }
    }

    /// The cell in front of the text: the sender's name, or blanks as wide.
    pub open spec fn user_cell(self) -> SpanView {
        match self.user {
            Some(user) => user,
            None => blank_span(USER_GUTTER as nat, Style::plain()),
        }
    }

    /// The lines for one row of text: the row between the cells of its
    /// columns, and in one column the sender's name on a line above the
    /// indented row.
    pub open spec fn row_lines(self, spans: Seq<SpanView>, style: Style) -> TextView {
        match self.cols {
            MessageColumns::Four => seq![
                seq![self.user_cell()] + spans + seq![
                    match self.time {
                        Some(time) => time,
                        None => blank_span(TIME_GUTTER as nat, Style::plain()),
                    },
                    raw_span(" "@),
                    self.reader(2),
                    self.reader(1),
                    self.reader(0),
                    raw_span(" "@),
                ],
            ],
            MessageColumns::Three => seq![
                seq![self.user_cell()] + spans + seq![
                    match self.time {
                        Some(time) => time,
                        None => raw_span(""@),
                    },
                ],
            ],
            MessageColumns::Two => seq![seq![self.user_cell()] + spans],
            MessageColumns::One => (match self.user {
                Some(user) => seq![seq![user]],
                None => Seq::empty(),
            }) + seq![seq![blank_span(2, style)] + spans],
        }
    }

    /// The lines that writing one row adds: the date header, if it is still
    /// to be written, and the lines of the row.
    pub open spec fn lines_for(self, spans: Seq<SpanView>, style: Style) -> TextView {
        self.date_lines() + self.row_lines(spans, style)
    }

    /// The formatter after one row: the name, the time and the date are
    /// written, and with four columns three readers are.
    pub open spec fn taken(self) -> FormatterView {
        FormatterView {
            user: None,
            time: None,
            date: None,
            read: if self.cols is Four {
                if self.read.len() >= 3 {
                    self.read.skip(3)
                } else {
                    Seq::empty()
                }
            } else {
                self.read
            },
            ..self
        }
    }

    /// The formatter after `n` rows.
    pub open spec fn after_rows(self, n: nat) -> FormatterView
        decreases n,
    {
        if n == 0 {
            self
        } else {
            self.taken().after_rows((n - 1) as nat)
        }
    }

    /// The lines that writing the rows `rows` adds.
    pub open spec fn lines_for_text(self, rows: TextView, style: Style) -> TextView
        decreases rows.len(),
    {
        if rows.len() == 0 {
            Seq::empty()
        } else {
            self.lines_for(rows[0], style) + self.taken().lines_for_text(rows.drop_first(), style)
        }
    }
}

/// Writing rows one batch after the other adds the lines of writing them in
/// one go.
pub proof fn lemma_lines_for_text_concat(f: FormatterView, a: TextView, b: TextView, style: Style)
    ensures
        f.lines_for_text(a + b, style) == f.lines_for_text(a, style) + f.after_rows(
            a.len(),
        ).lines_for_text(b, style),
        f.after_rows((a + b).len()) == f.after_rows(a.len()).after_rows(b.len()),
    decreases a.len(),
{
    if a.len() == 0 {
        assert(a + b =~= b);
    } else {
        assert((a + b).drop_first() =~= a.drop_first() + b);
        assert((a + b)[0] == a[0]);
        lemma_lines_for_text_concat(f.taken(), a.drop_first(), b, style);
    }
}

/// The lines of one row are those of the text that holds just that row.
pub proof fn lemma_lines_for_one(f: FormatterView, row: Seq<SpanView>, style: Style)
    ensures
        f.lines_for_text(seq![row], style) == f.lines_for(row, style),
        f.after_rows(1) == f.taken(),
{
    let rest = seq![row].drop_first();
    assert(rest.len() == 0);
    assert(f.taken().lines_for_text(rest, style) =~= Seq::<Seq<SpanView>>::empty());
    assert(f.lines_for_text(seq![row], style) =~= f.lines_for(row, style));
    assert(f.taken().after_rows(0) == f.taken());
}

/// In one column, without a date and a name to write, every row gives one
/// line: the row behind an indent of two blanks.
pub proof fn lemma_one_column_lines(f: FormatterView, rows: TextView, style: Style)
    requires
        f.cols is One,
        f.user is None,
        f.date is None,
    ensures
        f.lines_for_text(rows, style) == rows.map_values(
            |row: Seq<SpanView>| seq![blank_span(2, style)] + row,
        ),
    decreases rows.len(),
{
    let indented = rows.map_values(|row: Seq<SpanView>| seq![blank_span(2, style)] + row);
    if rows.len() == 0 {
        assert(f.lines_for_text(rows, style) =~= indented);
    } else {
        lemma_one_column_lines(f.taken(), rows.drop_first(), style);
        assert(f.lines_for(rows[0], style) =~= seq![seq![blank_span(2, style)] + rows[0]]);
        assert(f.lines_for_text(rows, style) =~= indented);
    }
}

/// Writes the rows of a message between the cells of its columns.
pub struct MessageFormatter {
    cols: MessageColumns,
    orig: usize,
    fill: usize,
    user: Option<Span>,
    time: Option<Span>,
    date: Option<Span>,
    read: Spans,
}

impl View for MessageFormatter {
    type V = FormatterView;

    closed spec fn view(&self) -> FormatterView {
        FormatterView {
            cols: self.cols,
            orig: self.orig,
            fill: self.fill,
            user: opt_view(self.user),
            time: opt_view(self.time),
            date: opt_view(self.date),
            read: self.read@,
        }
    }
}

impl MessageFormatter {
    /// A formatter for the given columns and cells.
    pub fn new(
        cols: MessageColumns,
        orig: usize,
        fill: usize,
        user: Option<Span>,
        time: Option<Span>,
        date: Option<Span>,
        read: Spans,
    ) -> (r: MessageFormatter)
        ensures
            r@ == (FormatterView {
                cols,
                orig,
                fill,
                user: opt_view(user),
                time: opt_view(time),
                date: opt_view(date),
                read: read@,
            }),
    {
        MessageFormatter { cols, orig, fill, user, time, date, read }
    }

    /// The columns that the text of the message fills.
    pub fn width(&self) -> (r: usize)
        ensures
            r == self@.fill,
    {
        self.fill
    }

    /// The columns that are shown.
    pub fn columns(&self) -> (r: MessageColumns)
        ensures
            r == self@.cols,
    {
        self.cols
    }

    fn next_reader(&mut self) -> (r: Span)
        ensures
            r@ == old(self)@.reader(0),
            final(self)@ == (FormatterView {
                read: if old(self)@.read.len() > 0 {
                    old(self)@.read.skip(1)
                } else {
                    old(self)@.read
                },
                ..old(self)@
            }),
    {
        if self.read.0.len() > 0 {
            let r = self.read.0.remove(0);
            assert(self.read@ =~= old(self).read@.skip(1));
            r
        } else {
            Span::raw(String::from_str(" "))
        }
    }

    fn push_date(&mut self, text: &mut Text)
        ensures
            final(self)@ == (FormatterView { date: None, ..old(self)@ }),
            final(text)@ == old(text)@ + old(self)@.date_lines(),
    {
        match self.date.take() {
            Some(date) => {
                let len = width_of_str(date.content.as_str());
                let padding = self.orig.saturating_sub(len);
                let leading = space_span(padding / 2, Style::default());
                let trailing = space_span(padding.saturating_sub(padding / 2), Style::default());
                let mut line = Spans::new();
                line.push(leading);
                line.push(date);
                line.push(trailing);
                assert(seq![line@] =~~= old(self)@.date_lines());
                text.push(line);
                assert(text@ =~= old(text)@ + old(self)@.date_lines());
            },
            None => {
                assert(text@ =~= old(text)@ + old(self)@.date_lines());
            },
        }
    }

    /// Writes one row of text, with the date header above it if that is
    /// still to be written.
    pub fn push_spans(&mut self, spans: Spans, style: Style, text: &mut Text)
        ensures
            final(self)@ == old(self)@.taken(),
            final(text)@ == old(text)@ + old(self)@.lines_for(spans@, style),
    {
        self.push_date(text);
        let ghost dated = text@;
        let ghost before = self@;
        assert(before.row_lines(spans@, style) == old(self)@.row_lines(spans@, style));
        match self.cols {
            MessageColumns::Four => {
                let user = match self.user.take() {
                    Some(user) => user,
                    None => space_span(USER_GUTTER, Style::default()),
                };
                let time = match self.time.take() {
                    Some(time) => time,
                    None => space_span(TIME_GUTTER, Style::default()),
                };
                let mut line = Spans::new();
                line.push(user);
                line.extend(spans);
                line.push(time);
                let a = self.next_reader();
                let b = self.next_reader();
                let c = self.next_reader();
                line.push(Span::raw(String::from_str(" ")));
                line.push(c);
                line.push(b);
                line.push(a);
                line.push(Span::raw(String::from_str(" ")));
                assert(seq![line@] =~~= before.row_lines(spans@, style));
                assert(self@.read =~= before.taken().read);
                text.push(line);
            },
            MessageColumns::Three => {
                let user = match self.user.take() {
                    Some(user) => user,
                    None => space_span(USER_GUTTER, Style::default()),
                };
                let time = match self.time.take() {
                    Some(time) => time,
                    None => Span::raw(String::from_str("")),
                };
                let mut line = Spans::new();
                line.push(user);
                line.extend(spans);
                line.push(time);
                assert(seq![line@] =~~= before.row_lines(spans@, style));
                text.push(line);
            },
            MessageColumns::Two => {
                let user = match self.user.take() {
                    Some(user) => user,
                    None => space_span(USER_GUTTER, Style::default()),
                };
                self.time = None;
                let mut line = Spans::new();
                line.push(user);
                line.extend(spans);
                assert(seq![line@] =~~= before.row_lines(spans@, style));
                text.push(line);
            },
            MessageColumns::One => {
                match self.user.take() {
                    Some(user) => {
                        let mut name = Spans::new();
                        name.push(user);
                        text.push(name);
                    },
                    None => {},
                }
                self.time = None;
                let mut line = Spans::new();
                line.push(space_span(2, style));
                line.extend(spans);
                text.push(line);
                assert(text@ =~~= dated + before.row_lines(spans@, style));
            },
        }
        assert(text@ =~= old(text)@ + old(self)@.lines_for(spans@, style));
    }

    /// Writes the rows of a text one after the other.
    pub fn push_text(&mut self, append: Text, style: Style, text: &mut Text)
        ensures
            final(self)@ == old(self)@.after_rows(append@.len()),
            final(text)@ == old(text)@ + old(self)@.lines_for_text(append@, style),
    {
        let ghost rows = append@;
        let ghost all = append.lines@;
        assert(rows.take(0) =~= Seq::<Seq<SpanView>>::empty());
        assert(self@.after_rows(0) == self@);
        for line in it: append.lines.into_iter()
            invariant
                rows == all.map_values(|l: Spans| l@),
                it.seq() == all,
                self@ == old(self)@.after_rows(it.index() as nat),
                text@ == old(text)@ + old(self)@.lines_for_text(rows.take(it.index()), style),
        {
            let ghost fmt = self@;
            let ghost done = it.index();
            assert(line == all[done]);
            self.push_spans(line, style, text);
            proof {
                let head = rows.take(done);
                assert(rows.take(done + 1) =~= head + seq![rows[done]]);
                lemma_lines_for_text_concat(old(self)@, head, seq![rows[done]], style);
                lemma_lines_for_one(fmt, rows[done], style);
            }
        }
        assert(rows.take(all.len() as int) =~= rows);
    }
}

} // verus!
