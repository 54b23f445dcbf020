//! Wrapping plain text to lines of a given width.

use crate::chars::blanks;
use crate::chars::chars_of;
use crate::chars::space;
use crate::chars::string_of;
use crate::style::Span;
use crate::style::SpanView;
use crate::style::Spans;
use crate::style::Style;
use crate::style::Text;
use crate::style::TextView;
use crate::width::char_cols;
use crate::width::cols_of_char;
use crate::width::lemma_str_width_push;
use crate::width::str_width;
use crate::width::width_of_str;
use vstd::prelude::*;

verus! {

/// How many leading characters of `s` fit into `avail` columns.
pub open spec fn fit(s: Seq<char>, avail: nat) -> nat
    decreases s.len(),
{
    if s.len() == 0 {
        0
    } else if char_cols(s[0]) > avail {
        0
    } else {
        1 + fit(s.drop_first(), (avail - char_cols(s[0])) as nat)
    }
}

/// The characters that fit are at most all of them and take no more than
/// the columns available, and with one more character they would take more.
pub proof fn lemma_fit_bounds(s: Seq<char>, avail: nat)
    ensures
        fit(s, avail) <= s.len(),
        str_width(s.take(fit(s, avail) as int)) <= avail,
        fit(s, avail) < s.len() ==> str_width(s.take(fit(s, avail) as int + 1)) > avail,
    decreases s.len(),
{
    if s.len() == 0 {
        assert(s.take(0) =~= Seq::<char>::empty());
    } else if char_cols(s[0]) > avail {
        assert(s.take(0) =~= Seq::<char>::empty());
        assert(s.take(1) =~= Seq::<char>::empty().push(s[0]));
        lemma_str_width_push(Seq::<char>::empty(), s[0]);
    } else {
        let rest = s.drop_first();
        let left = (avail - char_cols(s[0])) as nat;
        lemma_fit_bounds(rest, left);
        let n = fit(rest, left);
        assert(s.take(n as int + 1) =~= seq![s[0]] + rest.take(n as int));
        crate::width::lemma_str_width_concat(seq![s[0]], rest.take(n as int));
        assert(seq![s[0]] =~= Seq::<char>::empty().push(s[0]));
        lemma_str_width_push(Seq::<char>::empty(), s[0]);
        if n < rest.len() {
            assert(s.take(n as int + 2) =~= seq![s[0]] + rest.take(n as int + 1));
            crate::width::lemma_str_width_concat(seq![s[0]], rest.take(n as int + 1));
        }
    }
}

/// How many of the leading column counts in `cols` add up to no more than
/// `avail`.
pub open spec fn fit_cols(cols: Seq<usize>, avail: nat) -> nat
    decreases cols.len(),
{
    if cols.len() == 0 {
        0
    } else if cols[0] > avail {
        0
    } else {
        1 + fit_cols(cols.drop_first(), (avail - cols[0]) as nat)
    }
}

/// The sum of column counts.
pub open spec fn sum_cols(cols: Seq<usize>) -> nat
    decreases cols.len(),
{
    if cols.len() == 0 {
        0
    } else {
        sum_cols(cols.drop_last()) + cols.last() as nat
    }
}

/// `cols` holds the columns of each character of `s`.
pub open spec fn measures(cols: Seq<usize>, s: Seq<char>) -> bool {
    &&& cols.len() == s.len()
    &&& forall|i: int| 0 <= i < s.len() ==> #[trigger] cols[i] == char_cols(s[i])
}

/// Of characters with their columns, as many fit as of the columns alone.
pub proof fn lemma_fit_cols(cols: Seq<usize>, s: Seq<char>, avail: nat)
    requires
        measures(cols, s),
    ensures
        fit_cols(cols, avail) == fit(s, avail),
    decreases s.len(),
{
    if s.len() > 0 {
        assert(cols[0] == char_cols(s[0]));
        if cols[0] <= avail {
            let rest = cols.drop_first();
            assert forall|i: int| 0 <= i < rest.len() implies #[trigger] rest[i] == char_cols(
                s.drop_first()[i],
            ) by {
                assert(rest[i] == cols[i + 1]);
            }
            lemma_fit_cols(rest, s.drop_first(), (avail - cols[0]) as nat);
        }
    }
}

/// The columns of characters add up to the width of the string.
pub proof fn lemma_sum_cols(cols: Seq<usize>, s: Seq<char>)
    requires
        measures(cols, s),
    ensures
        sum_cols(cols) == str_width(s),
    decreases s.len(),
{
    if s.len() > 0 {
        let front = cols.drop_last();
        assert(cols.last() == cols[cols.len() - 1]);
        assert forall|i: int| 0 <= i < front.len() implies #[trigger] front[i] == char_cols(
            s.drop_last()[i],
        ) by {
            assert(front[i] == cols[i]);
        }
        lemma_sum_cols(front, s.drop_last());
    }
}

/// Counts the leading column counts of `cols` from `from` on that add up to
/// no more than `avail`, and adds them up.
pub fn take_cols(cols: &Vec<usize>, from: usize, avail: usize) -> (r: (usize, usize))
    requires
        from <= cols@.len(),
    ensures
        r.0 == fit_cols(cols@.skip(from as int), avail as nat),
        from + r.0 <= cols@.len(),
        r.1 == sum_cols(cols@.subrange(from as int, from + r.0)),
        r.1 <= avail,
{
    let mut i: usize = from;
    let mut w: usize = 0;
    assert(cols@.subrange(from as int, from as int) =~= Seq::<usize>::empty());
    while i < cols.len()
        invariant
            from <= i <= cols@.len(),
            w <= avail,
            w == sum_cols(cols@.subrange(from as int, i as int)),
            fit_cols(cols@.skip(from as int), avail as nat) == (i - from) + fit_cols(
                cols@.skip(i as int),
                (avail - w) as nat,
            ),
        ensures
            from <= i <= cols@.len(),
            w <= avail,
            w == sum_cols(cols@.subrange(from as int, i as int)),
            fit_cols(cols@.skip(from as int), avail as nat) == i - from,
        decreases cols@.len() - i,
    {
        let c = cols[i];
        assert(cols@.skip(i as int)[0] == cols@[i as int]);
        if c > avail - w {
            break;
        }
        proof {
            assert(cols@.skip(i as int).drop_first() =~= cols@.skip(i + 1));
            assert(cols@.subrange(from as int, i + 1).drop_last() =~= cols@.subrange(
                from as int,
                i as int,
            ));
        }
        w = w + c;
        i = i + 1;
    }
    (i - from, w)
}

/// The columns of each character.
pub fn columns_of(v: &Vec<char>) -> (cols: Vec<usize>)
    ensures
        measures(cols@, v@),
{
    let mut cols: Vec<usize> = Vec::new();
    let mut i: usize = 0;
    while i < v.len()
        invariant
            i <= v@.len(),
            cols@.len() == i,
            forall|j: int| 0 <= j < i ==> #[trigger] cols@[j] == char_cols(v@[j]),
        decreases v@.len() - i,
    {
        cols.push(cols_of_char(v[i]));
        i = i + 1;
    }
    cols
}

/// Counts the characters of `v` from `from` on that fit into `avail`
/// columns, and the columns that they take.
pub(crate) fn take_width(v: &Vec<char>, cols: &Vec<usize>, from: usize, avail: usize) -> (r: (
    usize,
    usize,
))
    requires
        from <= v@.len(),
        measures(cols@, v@),
    ensures
        r.0 == fit(v@.skip(from as int), avail as nat),
        from + r.0 <= v@.len(),
        r.1 == str_width(v@.subrange(from as int, from + r.0)),
        r.1 <= avail,
{
    let r = take_cols(cols, from, avail);
    proof {
        let rest = v@.skip(from as int);
        let rest_cols = cols@.skip(from as int);
        assert forall|i: int| 0 <= i < rest.len() implies #[trigger] rest_cols[i] == char_cols(
            rest[i],
        ) by {
            assert(rest_cols[i] == cols@[from + i]);
        }
        lemma_fit_cols(rest_cols, rest, avail as nat);
        let taken = v@.subrange(from as int, from + r.0);
        let taken_cols = cols@.subrange(from as int, from + r.0);
        assert forall|i: int| 0 <= i < taken.len() implies #[trigger] taken_cols[i] == char_cols(
            taken[i],
        ) by {
            assert(taken_cols[i] == cols@[from + i]);
        }
        lemma_sum_cols(taken_cols, taken);
    }
    r
}

/// The lines of a text and the characters of its unfinished last line,
/// after its first `n` characters. A line ends at a line feed; a carriage
/// return just before the line feed is not part of the line.
pub open spec fn lines_scan(s: Seq<char>, n: nat) -> (Seq<Seq<char>>, Seq<char>)
    decreases n,
{
    if n == 0 || n > s.len() {
        (Seq::empty(), Seq::empty())
    } else {
        let (lines, cur) = lines_scan(s, (n - 1) as nat);
        let c = s[n - 1];
        if c == '\n' {
            (lines.push(strip_cr(cur)), Seq::empty())
        } else {
            (lines, cur.push(c))
        }
    }
}

/// A line without the carriage return at its end, if it has one.
pub open spec fn strip_cr(line: Seq<char>) -> Seq<char> {
    if line.len() > 0 && line.last() == '\r' {
        line.drop_last()
    } else {
        line
    }
}

/// The lines of a text. A line feed at the very end starts no further line.
pub open spec fn lines_of(s: Seq<char>) -> Seq<Seq<char>> {
    let (lines, cur) = lines_scan(s, s.len());
    if cur.len() > 0 {
        lines.push(cur)
    } else {
        lines
    }
}

/// Splits a text into its lines.
pub fn split_lines(s: &str) -> (r: Vec<Vec<char>>)
    ensures
        r@.map_values(|l: Vec<char>| l@) == lines_of(s@),
{
    let v = chars_of(s);
    let mut lines: Vec<Vec<char>> = Vec::new();
    let mut cur: Vec<char> = Vec::new();
    let mut i: usize = 0;
    assert(lines@.map_values(|l: Vec<char>| l@) =~= Seq::<Seq<char>>::empty());
    while i < v.len()
        invariant
            v@ == s@,
            i <= v@.len(),
            (lines@.map_values(|l: Vec<char>| l@), cur@) == lines_scan(s@, i as nat),
        decreases v@.len() - i,
    {
        let c = v[i];
        let ghost before = lines@.map_values(|l: Vec<char>| l@);
        if c == '\n' {
            let n = cur.len();
            if n > 0 && cur[n - 1] == '\r' {
                cur.pop();
            }
            lines.push(cur);
            cur = Vec::new();
            assert(lines@.map_values(|l: Vec<char>| l@) =~= before.push(
                strip_cr(lines_scan(s@, i as nat).1),
            ));
        } else {
            cur.push(c);
        }
        i = i + 1;
    }
    if cur.len() > 0 {
        let ghost before = lines@.map_values(|l: Vec<char>| l@);
        let ghost last = cur@;
        lines.push(cur);
        assert(lines@.map_values(|l: Vec<char>| l@) =~= before.push(last));
    }
    lines
}

/// A fragment of `width` blanks.
pub fn space_span(width: usize, style: Style) -> (r: Span)
    ensures
        r@ == (SpanView { content: blanks(width as nat), style }),
{
    Span::styled(space(width), style)
}

/// The columns left of `width` after `used`, and none where more are used.
pub open spec fn columns_left(width: usize, used: nat) -> nat {
    if used <= width {
        (width - used) as nat
    } else {
        0
    }
}

/// One line of wrapped text: the characters, then blanks up to `width`
/// columns.
pub open spec fn padded_line(chunk: Seq<char>, width: usize, style: Style) -> Seq<SpanView> {
    seq![
        SpanView { content: chunk, style },
        SpanView { content: blanks(columns_left(width, str_width(chunk))), style },
    ]
}

/// The columns that a line of wrapped text may take: the width asked for,
/// and two columns where it is less.
pub open spec fn wrap_limit(width: usize) -> nat {
    if width < 2 {
        2
    } else {
        width as nat
    }
}

/// How many characters of the line `s`, which does not fit into `limit`
/// columns, go on its first row where it is cut inside a word: those that
/// fit, and one where none does.
pub open spec fn chunk_len(s: Seq<char>, limit: nat) -> nat {
    if fit(s, limit) == 0 {
        1
    } else {
        fit(s, limit)
    }
}

/// The position of the last blank of `s` from position 1 up to position
/// `n`, and 0 where there is none.
pub open spec fn break_at(s: Seq<char>, n: nat) -> nat
    decreases n,
{
    if n == 0 || n >= s.len() {
        0
    } else if s[n as int] == ' ' {
        n
    } else {
        break_at(s, (n - 1) as nat)
    }
}

/// One line of text on as many rows as it needs. A line that does not fit
/// on one row is broken at the last blank up to the end of what fits, and
/// the blank is dropped; where there is no such blank, the line is cut
/// behind the characters that fit.
pub open spec fn wrap_line(line: Seq<char>, width: usize, style: Style) -> TextView
    decreases line.len(),
{
    let limit = wrap_limit(width);
    let n = fit(line, limit);
    if n >= line.len() {
        seq![padded_line(line, width, style)]
    } else if 0 < break_at(line, n) < line.len() {
        let j = break_at(line, n);
        seq![padded_line(line.take(j as int), width, style)] + wrap_line(
            line.skip(j as int + 1),
            width,
            style,
        )
    } else {
        let k = chunk_len(line, limit);
        seq![padded_line(line.take(k as int), width, style)] + wrap_line(
            line.skip(k as int),
            width,
            style,
        )
    }
}

/// A break is at a blank inside the span that was asked for.
pub proof fn lemma_break_at(s: Seq<char>, n: nat)
    requires
        n < s.len(),
    ensures
        break_at(s, n) <= n,
        break_at(s, n) > 0 ==> s[break_at(s, n) as int] == ' ',
        forall|i: int| break_at(s, n) < i <= n ==> s[i] != ' ',
    decreases n,
{
    if n > 0 {
        lemma_break_at(s, (n - 1) as nat);
    }
}

/// Lines of text, each on as many rows as it needs.
pub open spec fn wrap_lines(lines: Seq<Seq<char>>, width: usize, style: Style) -> TextView
    decreases lines.len(),
{
    if lines.len() == 0 {
        Seq::empty()
    } else {
        wrap_lines(lines.drop_last(), width, style) + wrap_line(lines.last(), width, style)
    }
}

/// A text broken into rows of `width` columns.
pub open spec fn wrapped(s: Seq<char>, width: usize, style: Style) -> TextView {
    wrap_lines(lines_of(s), width, style)
}

/// The row that holds `line[from..to]` and its padding.
fn padded_row(line: &Vec<char>, from: usize, to: usize, width: usize, style: Style) -> (r: Spans)
    requires
        from <= to <= line@.len(),
    ensures
        r@ == padded_line(line@.subrange(from as int, to as int), width, style),
{
    let chunk = string_of(line, from, to);
    let w = width_of_str(chunk.as_str());
    let mut row = Spans::new();
    row.push(Span::styled(chunk, style));
    row.push(space_span(width.saturating_sub(w), style));
    assert(row@ =~= padded_line(line@.subrange(from as int, to as int), width, style));
    row
}

/// Finds the last blank of `line[from..]` from position 1 up to position
/// `n`.
fn find_break(line: &Vec<char>, from: usize, n: usize) -> (j: usize)
    requires
        from + n < line@.len(),
    ensures
        j == break_at(line@.skip(from as int), n as nat),
        j <= n,
{
    let ghost rest = line@.skip(from as int);
    let len = line.len();
    let mut i: usize = n;
    while i > 0
        invariant
            i <= n,
            len == line@.len(),
            from + n < line@.len(),
            rest == line@.skip(from as int),
            break_at(rest, n as nat) == break_at(rest, i as nat),
        decreases i,
    {
        assert(rest[i as int] == line@[from + i]);
        if line[from + i] == ' ' {
            return i;
        }
        i = i - 1;
    }
    0
}

/// Adds the rows of one line of text to `text`.
fn push_wrapped_line(text: &mut Text, line: &Vec<char>, width: usize, style: Style)
    ensures
        final(text)@ == old(text)@ + wrap_line(line@, width, style),
{
    let limit: usize = if width < 2 {
        2
    } else {
        width
    };
    let cols = columns_of(line);
    let mut from: usize = 0;
    assert(line@.skip(0) =~= line@);
    loop
        invariant_except_break
            text@ + wrap_line(line@.skip(from as int), width, style) == old(text)@ + wrap_line(
                line@,
                width,
                style,
            ),
        invariant
            from <= line@.len(),
            limit == wrap_limit(width),
            measures(cols@, line@),
        ensures
            text@ == old(text)@ + wrap_line(line@, width, style),
        decreases line@.len() - from,
    {
        let ghost rest = line@.skip(from as int);
        let ghost before = text@;
        let (n, _) = take_width(line, &cols, from, limit);
        if n >= line.len() - from {
            assert(line@.subrange(from as int, line@.len() as int) =~= rest);
            text.push(padded_row(line, from, line.len(), width, style));
            assert(text@ =~= before + wrap_line(rest, width, style));
            break;
        }
        let j = find_break(line, from, n);
        proof {
            lemma_break_at(rest, n as nat);
        }
        let (k, next) = if j > 0 {
            (j, from + j + 1)
        } else if n == 0 {
            (1usize, from + 1)
        } else {
            (n, from + n)
        };
        assert(line@.subrange(from as int, from + k) =~= rest.take(k as int));
        text.push(padded_row(line, from, from + k, width, style));
        assert(line@.skip(next as int) =~= rest.skip(next - from));
        assert(text@ + wrap_line(line@.skip(next as int), width, style) =~= before + wrap_line(
            rest,
            width,
            style,
        ));
        from = next;
    }
}

/// Wraps a text to `width` columns: each of its lines goes on as many rows
/// as it needs, broken between words where it can be, and each row is
/// padded with blanks to `width`.
pub fn wrapped_text(s: &str, width: usize, style: Style) -> (text: Text)
    ensures
        text@ == wrapped(s@, width, style),
{
    let lines = split_lines(s);
    let mut text = Text::new();
    let mut i: usize = 0;
    let ghost views = lines@.map_values(|l: Vec<char>| l@);
    assert(views.take(0) =~= Seq::<Seq<char>>::empty());
    while i < lines.len()
        invariant
            i <= lines@.len(),
            views == lines@.map_values(|l: Vec<char>| l@),
            text@ == wrap_lines(views.take(i as int), width, style),
        decreases lines@.len() - i,
    {
        push_wrapped_line(&mut text, &lines[i], width, style);
        assert(views.take(i + 1).drop_last() =~= views.take(i as int));
        assert(views.take(i + 1).last() == lines@[i as int]@);
        i = i + 1;
    }
    assert(views.take(i as int) =~= views);
    text
}

/// A row of wrapped text holds its text and its padding, and the text takes
/// no more than `limit` columns or is a single character.
pub open spec fn row_fits(row: Seq<SpanView>, limit: nat) -> bool {
    row.len() == 2 && (str_width(row[0].content) <= limit || row[0].content.len() == 1)
}

/// The start of a text takes no more columns than a longer start of it.
pub proof fn lemma_str_width_take(s: Seq<char>, j: int, n: int)
    requires
        0 <= j <= n <= s.len(),
    ensures
        str_width(s.take(j)) <= str_width(s.take(n)),
{
    assert(s.take(n) =~= s.take(j) + s.subrange(j, n));
    crate::width::lemma_str_width_concat(s.take(j), s.subrange(j, n));
}

/// Every row of a wrapped line takes no more columns than the rows may
/// take, or holds a single character that is wider than that.
pub proof fn lemma_wrap_line_fits(line: Seq<char>, width: usize, style: Style)
    ensures
        wrap_line(line, width, style).len() > 0,
        forall|i: int|
            0 <= i < wrap_line(line, width, style).len() ==> row_fits(
                #[trigger] wrap_line(line, width, style)[i],
                wrap_limit(width),
            ),
    decreases line.len(),
{
    let limit = wrap_limit(width);
    let n = fit(line, limit);
    lemma_fit_bounds(line, limit);
    if n >= line.len() {
        assert(line.take(line.len() as int) =~= line);
    } else {
        lemma_break_at(line, n);
        let j = break_at(line, n);
        let (k, next) = if 0 < j < line.len() {
            (j, j + 1)
        } else {
            (chunk_len(line, limit), chunk_len(line, limit))
        };
        let rest = wrap_line(line.skip(next as int), width, style);
        lemma_wrap_line_fits(line.skip(next as int), width, style);
        if k <= n {
            lemma_str_width_take(line, k as int, n as int);
        }
        let rows = wrap_line(line, width, style);
        assert(rows =~= seq![padded_line(line.take(k as int), width, style)] + rest);
        assert forall|i: int| 0 <= i < rows.len() implies row_fits(#[trigger] rows[i], limit) by {
            if i > 0 {
                assert(rows[i] == rest[i - 1]);
            }
        }
    }
}

/// Every row of wrapped lines takes no more columns than the rows may take,
/// or holds a single character that is wider than that.
pub proof fn lemma_wrap_lines_fit(lines: Seq<Seq<char>>, width: usize, style: Style)
    ensures
        forall|i: int|
            0 <= i < wrap_lines(lines, width, style).len() ==> row_fits(
                #[trigger] wrap_lines(lines, width, style)[i],
                wrap_limit(width),
            ),
    decreases lines.len(),
{
    if lines.len() > 0 {
        lemma_wrap_lines_fit(lines.drop_last(), width, style);
        lemma_wrap_line_fits(lines.last(), width, style);
        let front = wrap_lines(lines.drop_last(), width, style);
        let back = wrap_line(lines.last(), width, style);
        let rows = wrap_lines(lines, width, style);
        assert forall|i: int| 0 <= i < rows.len() implies row_fits(
            #[trigger] rows[i],
            wrap_limit(width),
        ) by {
            if i < front.len() {
                assert(rows[i] == front[i]);
            } else {
                assert(rows[i] == back[i - front.len()]);
            }
        }
    }
}

/// The text of every row of a wrapped text takes no more than the width
/// asked for, or two columns where that is less; or it is a single character
/// that is wider than that.
pub proof fn lemma_wrapped_rows_fit(s: Seq<char>, width: usize, style: Style)
    ensures
        forall|i: int|
            0 <= i < wrapped(s, width, style).len() ==> row_fits(
                #[trigger] wrapped(s, width, style)[i],
                wrap_limit(width),
            ),
{
    lemma_wrap_lines_fit(lines_of(s), width, style);
}

} // verus!
