//! Rendering a message into lines of styled text: a date header, the
//! sender's name, the quotation of the message replied to, the content, the
//! reactions and the read receipts.

use crate::chars::blanks;
use crate::chars::chars_of;
use crate::chars::space;
use crate::chars::string_of;
use crate::clock::date_cell;
use crate::clock::date_span;
use crate::clock::dated;
use crate::clock::days_apart;
use crate::clock::same_second;
use crate::clock::is_time_label;
use crate::clock::time_cell;
use crate::clock::time_span;
use crate::clock::DayContext;
use crate::format::blank_span;
use crate::format::columns_for;
use crate::format::fill_for;
use crate::format::lemma_lines_for_one;
use crate::format::lemma_lines_for_text_concat;
use crate::format::opt_view;
use crate::format::pick_columns;
use crate::format::FormatterView;
use crate::format::MessageColumns;
use crate::format::MessageFormatter;
use crate::key::str_same;
use crate::message::Message;
use crate::reaction::reaction_lines;
use crate::reaction::show_reactions;
use crate::room::find_listed;
use crate::room::RoomInfo;
use crate::settings::ApplicationSettings;
use crate::style::Span;
use crate::style::SpanView;
use crate::style::Spans;
use crate::style::Style;
use crate::style::Text;
use crate::style::TextView;
use crate::width::str_width;
use crate::width::width_of_str;
use crate::wrap::columns_left;
use crate::wrap::space_span;
use vstd::prelude::*;
use vstd::string::StringExecFns;

verus! {

/// The most characters of a sender's name that are shown.
pub const NAME_WIDTH: usize = 28;

/// The message behind a reference that may be missing.
pub open spec fn deref_opt(m: Option<&Message>) -> Option<Message> {
    match m {
        Some(m) => Some(*m),
        None => None,
    }
}

/// The sender's name as it stands in front of a message: its first
/// [`NAME_WIDTH`] characters, padded with blanks to that width on the left
/// or on the right, and two blanks behind it.
pub open spec fn name_cell(name: Seq<char>, align_right: bool) -> Seq<char> {
    let shown = if name.len() > NAME_WIDTH {
        name.take(NAME_WIDTH as int)
    } else {
        name
    };
    let pad = blanks((NAME_WIDTH - shown.len()) as nat);
    if align_right {
        pad + shown + "  "@
    } else {
        shown + pad + "  "@
    }
}

/// What stands in front of each line of a quotation: a blank and a bar.
pub open spec fn quote_prefix(style: Style) -> Seq<SpanView> {
    seq![SpanView { content: " "@, style }, SpanView { content: "\u{2503}"@, style }]
}

/// The rows that quote the message `target` in a reply: a header with the
/// name of its sender, and its content two columns narrower than the reply,
/// each behind the bar.
pub open spec fn quote_rows(
    target: Message,
    fill: usize,
    style: Style,
    settings: ApplicationSettings,
) -> TextView {
    let w: usize = if fill >= 2 {
        (fill - 2) as usize
    } else {
        0
    };
    let sender = settings.user_span(target.sender@);
    let header = quote_prefix(style) + seq![
        SpanView { content: sender.content, style: sender.style.patched(style) },
        SpanView { content: ":"@, style },
        blank_span(columns_left(w, str_width(sender.content) + 1), style),
    ];
    seq![header] + target.shown_msg(w, style, true).map_values(
        |line: Seq<SpanView>| quote_prefix(style) + line,
    )
}

/// Every row gives at least one line.
pub proof fn lemma_lines_for_text_len(f: FormatterView, rows: TextView, style: Style)
    ensures
        f.lines_for_text(rows, style).len() >= rows.len(),
    decreases rows.len(),
{
    if rows.len() > 0 {
        lemma_lines_for_text_len(f.taken(), rows.drop_first(), style);
    }
}

fn make_span(content: &str, style: Style) -> (r: Span)
    ensures
        r@ == (SpanView { content: content@, style }),
{
    Span::styled(String::from_str(content), style)
}

fn quote_line(line: Spans, style: Style) -> (r: Spans)
    ensures
        r@ == quote_prefix(style) + line@,
{
    let mut row = Spans::new();
    row.push(make_span(" ", style));
    row.push(make_span("\u{2503}", style));
    row.extend(line);
    assert(row@ =~= quote_prefix(style) + line@);
    row
}

impl Message {
    /// The message that this one replies to, where the room has it.
    pub open spec fn reply_of(self, info: RoomInfo) -> Option<Message> {
        match self.event.reply_target() {
            Some(id) => info.event_of(id@),
            None => None,
        }
    }

    /// The sender's name in front of the message. It is left out where the
    /// message before this one is from the same sender and the same day and
    /// this one is no emote.
    pub open spec fn sender_label(
        self,
        prev: Option<Message>,
        align_right: bool,
        settings: ApplicationSettings,
        same_day: bool,
    ) -> Option<SpanView> {
        if prev matches Some(p) && self.sender@ == p.sender@ && same_day && !self.event.emote() {
            None
        } else {
            let span = settings.user_span(self.sender@);
            Some(SpanView { content: name_cell(span.content, align_right), style: span.style })
        }
    }

    /// The formatter for the message: the columns that the width allows,
    /// the date where the message is the first of its day, the sender's
    /// name, the time where its column is shown, and the marks of the
    /// readers where theirs is.
    pub open spec fn render_format(
        self,
        prev: Option<Message>,
        width: usize,
        info: RoomInfo,
        settings: ApplicationSettings,
        day: DayContext,
    ) -> FormatterView {
        let cols = columns_for(width, settings.tunables.read_receipt_display);
        FormatterView {
            cols,
            orig: width,
            fill: fill_for(width, cols),
            user: self.sender_label(prev, !(cols is One), settings, day.same_day),
            time: if cols is Four || cols is Three {
                match day.time {
                    Some(t) => Some(time_cell(t@)),
                    None => None,
                }
            } else {
                None
            },
            date: if prev is Some && day.same_day {
                None
            } else {
                Some(date_cell(day.date@))
            },
            read: if cols is Four {
                info.receipts_of(self.event.id()@).map_values(
                    |user: String| settings.user_char_span(user@),
                )
            } else {
                Seq::empty()
            },
        }
    }

    /// The rows of the message at `fill` columns: the quotation of the
    /// message replied to, where the room has it, then the content, which
    /// shows the reply itself where the room has not; and one row of blanks
    /// where there is neither.
    pub open spec fn content_rows(
        self,
        fill: usize,
        style: Style,
        info: RoomInfo,
        settings: ApplicationSettings,
    ) -> TextView {
        let reply = self.reply_of(info);
        let quoted = match reply {
            Some(target) => quote_rows(target, fill, style, settings),
            None => Seq::empty(),
        };
        let rows = quoted + self.shown_msg(fill, style, reply is Some);
        if rows.len() == 0 {
            seq![seq![blank_span(fill as nat, style)]]
        } else {
            rows
        }
    }

    /// The rows of the reactions to the message, where they are shown.
    pub open spec fn reaction_rows(
        self,
        fill: usize,
        style: Style,
        info: RoomInfo,
        settings: ApplicationSettings,
    ) -> TextView {
        if settings.tunables.reaction_display {
            reaction_lines(
                info.reactions_of(self.event.id()@),
                fill,
                style,
                settings.tunables.reaction_shortcode_display,
            )
        } else {
            Seq::empty()
        }
    }

    /// The lines of the rendered message: its rows and the rows of its
    /// reactions, written between the cells of the columns.
    pub open spec fn shown(
        self,
        prev: Option<Message>,
        selected: bool,
        width: usize,
        info: RoomInfo,
        settings: ApplicationSettings,
        day: DayContext,
    ) -> TextView {
        let style = self.render_style(selected);
        let fmt = self.render_format(prev, width, info, settings, day);
        fmt.lines_for_text(
            self.content_rows(fmt.fill, style, info, settings) + self.reaction_rows(
                fmt.fill,
                style,
                info,
                settings,
            ),
            style,
        )
    }

    /// The sender's name as the settings write it.
    pub fn sender_span(&self, settings: &ApplicationSettings) -> (r: Span)
        ensures
            r@ == settings.user_span(self.sender@),
    {
        settings.get_user_span(self.sender.as_str())
    }

    /// The sender's name in front of the message, if it is shown.
    pub fn show_sender(
        &self,
        prev: Option<&Message>,
        align_right: bool,
        settings: &ApplicationSettings,
        same_day: bool,
    ) -> (r: Option<Span>)
        ensures
            opt_view(r) == self.sender_label(deref_opt(prev), align_right, *settings, same_day),
    {
        match prev {
            Some(p) => {
                if str_same(self.sender.as_str(), p.sender.as_str()) && same_day
                    && !self.event.is_emote() {
                    return None;
                }
            },
            None => {},
        }
        let span = self.sender_span(settings);
        let name = chars_of(span.content.as_str());
        let stop = if name.len() > NAME_WIDTH {
            NAME_WIDTH
        } else {
            name.len()
        };
        let shown = string_of(&name, 0, stop);
        let pad = space(NAME_WIDTH - stop);
        assert(name@.subrange(0, stop as int) =~= name@.take(stop as int));
        assert(name@.take(name@.len() as int) =~= name@);
        let mut sender = String::new();
        if align_right {
            sender.append(pad.as_str());
            sender.append(shown.as_str());
        } else {
            sender.append(shown.as_str());
            sender.append(pad.as_str());
        }
        sender.append("  ");
        assert(sender@ =~= name_cell(span@.content, align_right));
        Some(Span::styled(sender, span.style))
    }

    /// The marks of the users who have read up to the message.
    fn reader_marks(&self, info: &RoomInfo, settings: &ApplicationSettings) -> (r: Spans)
        ensures
            r@ == info.receipts_of(self.event.id()@).map_values(
                |user: String| settings.user_char_span(user@),
            ),
    {
        let mut marks = Spans::new();
        match find_listed(&info.receipts, self.event.event_id().as_str()) {
            Some(users) => {
                let mut i: usize = 0;
                while i < users.len()
                    invariant
                        i <= users@.len(),
                        marks@ == users@.take(i as int).map_values(
                            |user: String| settings.user_char_span(user@),
                        ),
                    decreases users@.len() - i,
                {
                    marks.push(settings.get_user_char_span(users[i].as_str()));
                    assert(marks@ =~= users@.take(i + 1).map_values(
                        |user: String| settings.user_char_span(user@),
                    ));
                    i = i + 1;
                }
                assert(users@.take(i as int) =~= users@);
            },
            None => {
                assert(marks@ =~= Seq::<String>::empty().map_values(
                    |user: String| settings.user_char_span(user@),
                ));
            },
        }
        marks
    }

    /// Makes the formatter for the message at `width` columns.
    pub fn get_render_format(
        &self,
        prev: Option<&Message>,
        width: usize,
        info: &RoomInfo,
        settings: &ApplicationSettings,
        day: &DayContext,
    ) -> (fmt: MessageFormatter)
        ensures
            fmt@ == self.render_format(deref_opt(prev), width, *info, *settings, *day),
    {
        let date = if prev.is_some() && day.same_day {
            None
        } else {
            Some(date_span(day.date.clone()))
        };
        let (cols, fill) = pick_columns(width, settings.tunables.read_receipt_display);
        let align_right = match cols {
            MessageColumns::One => false,
            _ => true,
        };
        let user = self.show_sender(prev, align_right, settings, day.same_day);
        let time = match cols {
            MessageColumns::Four | MessageColumns::Three => match &day.time {
                Some(t) => Some(time_span(t.as_str())),
                None => None,
            },
            _ => None,
        };
        let read = match cols {
            MessageColumns::Four => self.reader_marks(info, settings),
            _ => Spans::new(),
        };
        MessageFormatter::new(cols, width, fill, user, time, date, read)
    }

    /// The rows that quote this message in a reply to it.
    fn quote(&self, fill: usize, style: Style, settings: &ApplicationSettings) -> (text: Text)
        ensures
            text@ == quote_rows(*self, fill, style, *settings),
    {
        let w = fill.saturating_sub(2);
        let replied = self.show_msg(w, style, true);
        let sender = self.sender_span(settings);
        let sender_width = width_of_str(sender.content.as_str());
        let trailing = w.saturating_sub(sender_width.saturating_add(1));
        let mut header = Spans::new();
        header.push(make_span(" ", style));
        header.push(make_span("\u{2503}", style));
        header.push(Span::styled(sender.content, sender.style.patch(style)));
        header.push(make_span(":", style));
        header.push(space_span(trailing, style));
        let mut text = Text::new();
        let ghost head = header@;
        text.push(header);
        let ghost rows = replied@;
        let ghost all = replied.lines@;
        assert(rows.take(0) =~= Seq::<Seq<SpanView>>::empty());
        for line in it: replied.lines.into_iter()
            invariant
                rows == all.map_values(|l: Spans| l@),
                it.seq() == all,
                text@ == seq![head] + rows.take(it.index()).map_values(
                    |line: Seq<SpanView>| quote_prefix(style) + line,
                ),
        {
            let ghost done = it.index();
            assert(line == all[done]);
            text.push(quote_line(line, style));
            assert(text@ =~= seq![head] + rows.take(done + 1).map_values(
                |line: Seq<SpanView>| quote_prefix(style) + line,
            ));
        }
        assert(rows.take(all.len() as int) =~= rows);
        assert(seq![head] =~~= seq![
            quote_prefix(style) + seq![
                SpanView {
                    content: settings.user_span(self.sender@).content,
                    style: settings.user_span(self.sender@).style.patched(style),
                },
                SpanView { content: ":"@, style },
                blank_span(
                    columns_left(w, str_width(settings.user_span(self.sender@).content) + 1),
                    style,
                ),
            ],
        ]);
        text
    }

    /// Renders the message at `width` columns with what the calendar said
    /// of it. The lines depend on the arguments alone, and there is at least
    /// one, however narrow the width.
    pub fn show_with(
        &self,
        prev: Option<&Message>,
        selected: bool,
        width: usize,
        info: &RoomInfo,
        settings: &ApplicationSettings,
        day: &DayContext,
    ) -> (text: Text)
        ensures
            text@ == self.shown(deref_opt(prev), selected, width, *info, *settings, *day),
            text@.len() > 0,
    {
        let style = self.get_render_style(selected);
        let mut fmt = self.get_render_format(prev, width, info, settings, day);
        let ghost fmt0 = fmt@;
        let mut text = Text::new();
        let width = fmt.width();

        // Show the message that this one replied to, if any.
        let reply = match self.reply_to() {
            Some(id) => info.get_event(id.as_str()),
            None => None,
        };
        let ghost quoted = match deref_opt(reply) {
            Some(target) => quote_rows(target, width, style, *settings),
            None => Seq::empty(),
        };
        proof {
            assert(fmt0.lines_for_text(Seq::empty(), style) =~= Seq::<Seq<SpanView>>::empty());
            assert(fmt0.after_rows(0) == fmt0);
            assert(deref_opt(reply) == self.reply_of(*info));
        }
        match reply {
            Some(r) => {
                let rows = r.quote(width, style, settings);
                fmt.push_text(rows, style, &mut text);
            },
            None => {},
        }
        assert(text@ =~= fmt0.lines_for_text(quoted, style));

        // Now show the message contents, and the inlined reply if we couldn't find it above.
        let msg = self.show_msg(width, style, reply.is_some());
        let ghost body = msg@;
        fmt.push_text(msg, style, &mut text);
        proof {
            lemma_lines_for_text_concat(fmt0, quoted, body, style);
            lemma_lines_for_text_len(fmt0, quoted + body, style);
        }
        let ghost rows = self.content_rows(width, style, *info, *settings);
        if text.lines.len() == 0 {
            // If there was nothing in the body, just show an empty message.
            assert(text@.len() == 0);
            assert(quoted + body =~= Seq::<Seq<SpanView>>::empty());
            let mut blank = Spans::new();
            blank.push(space_span(width, style));
            proof {
                lemma_lines_for_one(fmt0, blank@, style);
                assert(blank@ =~= seq![blank_span(width as nat, style)]);
            }
            fmt.push_spans(blank, style, &mut text);
            assert(text@ =~= fmt0.lines_for_text(rows, style));
        } else {
            assert(text@.len() > 0);
            assert((quoted + body).len() > 0);
        }
        assert(text@ == fmt0.lines_for_text(rows, style));
        assert(fmt@ == fmt0.after_rows(rows.len()));

        if settings.tunables.reaction_display {
            let none: Vec<(String, usize)> = Vec::new();
            let reactions = match find_listed(&info.reactions, self.event.event_id().as_str()) {
                Some(reactions) => reactions,
                None => &none,
            };
            let emojis = show_reactions(
                reactions,
                width,
                style,
                settings.tunables.reaction_shortcode_display,
            );
            fmt.push_text(emojis, style, &mut text);
        }
        proof {
            let extra = self.reaction_rows(width, style, *info, *settings);
            lemma_lines_for_text_concat(fmt0, rows, extra, style);
            lemma_lines_for_text_len(fmt0, rows + extra, style);
            if !settings.tunables.reaction_display {
                assert(fmt0.after_rows(rows.len()).lines_for_text(extra, style)
                    =~= Seq::<Seq<SpanView>>::empty());
                assert(text@ =~= fmt0.lines_for_text(rows + extra, style));
            }
        }
        text
    }

    /// Renders the message at `width` columns. The calendar is asked for
    /// the day and the time of the message at the moment of the call, so
    /// the lines are those of [`Message::show_with`] for what it answered:
    /// the date of the message and, for a confirmed message, its time of
    /// day. A message of the same second as the one before it is on the
    /// same day, and one whose day in UTC is more than two days from that of
    /// the one before it is not.
    pub fn show(
        &self,
        prev: Option<&Message>,
        selected: bool,
        width: usize,
        info: &RoomInfo,
        settings: &ApplicationSettings,
    ) -> (text: Text)
        ensures
            exists|day: DayContext|
                text@ == #[trigger] self.shown(
                    deref_opt(prev),
                    selected,
                    width,
                    *info,
                    *settings,
                    day,
                ) && (prev is None ==> !day.same_day) && (prev matches Some(p) && same_second(
                    p.timestamp,
                    self.timestamp,
                ) ==> day.same_day) && (prev matches Some(p) && days_apart(
                    p.timestamp,
                    self.timestamp,
                ) ==> !day.same_day) && (day.time is Some <==> self.timestamp is OriginServer)
                    && dated(self.timestamp, day.date@) && (day.time matches Some(label)
                    ==> is_time_label(label@)),
            text@.len() > 0,
    {
        let day = match prev {
            Some(p) => DayContext::observe(&self.timestamp, Some(&p.timestamp)),
            None => DayContext::observe(&self.timestamp, None),
        };
        self.show_with(prev, selected, width, info, settings, &day)
    }
}

} // verus!
