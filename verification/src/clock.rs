//! The local calendar: on which day a timestamp falls, and how its date and
//! its time of day are written. A pending timestamp stands for the moment
//! at which it is asked about.

use crate::reaction::decimal;
use crate::reaction::digit;
use crate::style::Span;
use crate::style::SpanView;
use crate::style::Style;
use crate::timestamp::MessageTimeStamp;
use chrono::DateTime;
use chrono::Datelike;
use chrono::Local;
use vstd::prelude::*;
use vstd::string::StringExecFns;

verus! {

/// The latest time, in seconds since the epoch, that is placed on the
/// calendar: a day in the year 262134. A later time is shown as the epoch.
pub const MAX_LOCAL_SECS: i64 = 8_210_000_000_000;

/// The day on which a time falls in UTC, counted from the first day of the
/// year 1.
pub open spec fn utc_day(secs: int) -> int {
    secs / 86_400 + 719_163
}

/// Calls `DateTime::from_timestamp`, `DateTime::with_timezone` with `Local`,
/// `DateTime::date_naive` and `Datelike::num_days_from_ce` of chrono: the day
/// of the local calendar on which the time falls, as a day number. Which day
/// it is depends on the time zone of the machine. Local time is less than a
/// day from UTC, so the day is the one in UTC, the one before or the one
/// after.
#[verifier::external_body]
fn local_day(secs: i64) -> (day: i32)
    requires
        0 <= secs <= MAX_LOCAL_SECS,
    ensures
        utc_day(secs as int) - 1 <= day <= utc_day(secs as int) + 1,
{
    DateTime::from_timestamp(secs, 0).unwrap_or_default().with_timezone(&Local).date_naive()
        .num_days_from_ce()
}

/// Calls `Local::now`, `DateTime::date_naive` and
/// `Datelike::num_days_from_ce` of chrono: the local day of the present
/// moment. Nothing is claimed of the result.
#[verifier::external_body]
fn local_day_now() -> i32 {
    Local::now().date_naive().num_days_from_ce()
}

/// The formats in which the calendar is asked to write: a date with its
/// weekday and month written out, and a time of day in hours, minutes and
/// seconds.
pub open spec fn known_format(fmt: Seq<char>) -> bool {
    fmt == "%A, %B %d %Y"@ || fmt == "%T"@
}

/// The name of a day of the week, counted from Sunday.
pub open spec fn weekday_name(day: int) -> Seq<char> {
    if day == 0 {
        "Sunday"@
    } else if day == 1 {
        "Monday"@
    } else if day == 2 {
        "Tuesday"@
    } else if day == 3 {
        "Wednesday"@
    } else if day == 4 {
        "Thursday"@
    } else if day == 5 {
        "Friday"@
    } else {
        "Saturday"@
    }
}

/// The name of a month, counted from January as 0.
pub open spec fn month_name(month: int) -> Seq<char> {
    if month == 0 {
        "January"@
    } else if month == 1 {
        "February"@
    } else if month == 2 {
        "March"@
    } else if month == 3 {
        "April"@
    } else if month == 4 {
        "May"@
    } else if month == 5 {
        "June"@
    } else if month == 6 {
        "July"@
    } else if month == 7 {
        "August"@
    } else if month == 8 {
        "September"@
    } else if month == 9 {
        "October"@
    } else if month == 10 {
        "November"@
    } else {
        "December"@
    }
}

/// A number below a hundred in two digits.
pub open spec fn two_digits(n: int) -> Seq<char> {
    seq![digit((n / 10) as nat), digit((n % 10) as nat)]
}

/// A year from 1000 on as the calendar writes it: in its digits, behind a
/// plus sign where they are more than four.
pub open spec fn year_text(year: int) -> Seq<char> {
    if year <= 9999 {
        decimal(year as nat)
    } else {
        "+"@ + decimal(year as nat)
    }
}

/// A date written out: the weekday, a comma, the month, the day of the
/// month in two digits, and the year.
pub open spec fn date_text(weekday: int, month: int, day: int, year: int) -> Seq<char> {
    weekday_name(weekday) + ", "@ + month_name(month) + " "@ + two_digits(day) + " "@ + year_text(
        year,
    )
}

/// The text is a date written out, of a year that the calendar has from
/// the epoch on.
pub open spec fn is_date_label(s: Seq<char>) -> bool {
    exists|weekday: int, month: int, day: int, year: int|
        0 <= weekday < 7 && 0 <= month < 12 && 1 <= day <= 31 && 1969 <= year <= 262_143 && s
            == #[trigger] date_text(weekday, month, day, year)
}

/// A time of day written out: hours, minutes and seconds in two digits
/// each, with colons between them.
pub open spec fn time_text(hour: int, minute: int, second: int) -> Seq<char> {
    two_digits(hour) + ":"@ + two_digits(minute) + ":"@ + two_digits(second)
}

/// The text is a time of day written out. The seconds are 60 in a leap
/// second.
pub open spec fn is_time_label(s: Seq<char>) -> bool {
    exists|hour: int, minute: int, second: int|
        0 <= hour < 24 && 0 <= minute < 60 && 0 <= second <= 60 && s == #[trigger] time_text(
            hour,
            minute,
            second,
        )
}

/// What `DateTime::format` of chrono writes in the date format for a day of
/// the calendar, counted from the first day of the year 1.
pub uninterp spec fn date_written(day: int) -> Seq<char>;

/// The text is the date of the day `day`, of the day before it or of the
/// day after it.
pub open spec fn date_near(label: Seq<char>, day: int) -> bool {
    label == date_written(day - 1) || label == date_written(day) || label == date_written(day + 1)
}

/// Calls `DateTime::from_timestamp`, `DateTime::with_timezone` with `Local`
/// and `DateTime::format` of chrono: the local date and time of `secs`,
/// written in the format `fmt`. Which date and time it is depends on the
/// time zone of the machine; how they are written is what chrono documents
/// of the two formats. Local time is less than a day from UTC, so the date
/// is that of the day in UTC, of the day before or of the day after.
#[verifier::external_body]
fn format_local(secs: i64, fmt: &str) -> (r: String)
    requires
        0 <= secs <= MAX_LOCAL_SECS,
        known_format(fmt@),
    ensures
        fmt@ == "%A, %B %d %Y"@ ==> is_date_label(r@),
        fmt@ == "%A, %B %d %Y"@ ==> r@ == date_written(utc_day(secs as int) - 1) || r@
            == date_written(utc_day(secs as int)) || r@ == date_written(utc_day(secs as int) + 1),
        fmt@ == "%T"@ ==> is_time_label(r@),
{
    DateTime::from_timestamp(secs, 0).unwrap_or_default().with_timezone(&Local).format(fmt)
        .to_string()
}

/// Calls `Local::now` and `DateTime::format` of chrono: the local date and
/// time of the present moment, written in the format `fmt`. Which date and
/// time it is depends on the clock; how they are written is what chrono
/// documents of the two formats.
#[verifier::external_body]
fn format_now(fmt: &str) -> (r: String)
    requires
        known_format(fmt@),
    ensures
        fmt@ == "%A, %B %d %Y"@ ==> is_date_label(r@),
        fmt@ == "%T"@ ==> is_time_label(r@),
{
    Local::now().format(fmt).to_string()
}

/// The whole seconds of a millisecond count, and 0 for a count beyond the
/// calendar.
pub open spec fn calendar_secs(ms: u64) -> int {
    if ms / 1000 <= MAX_LOCAL_SECS {
        ms as int / 1000
    } else {
        0
    }
}

/// The seconds that are handed to the calendar for a millisecond count.
pub fn millis_to_secs(ms: u64) -> (secs: i64)
    ensures
        secs == calendar_secs(ms),
        0 <= secs <= MAX_LOCAL_SECS,
{
    let secs: u64 = ms / 1000;
    if secs <= MAX_LOCAL_SECS as u64 {
        secs as i64
    } else {
        0
    }
}

/// The fragment that shows a time of day: the label in square brackets
/// behind two blanks, in the plain style.
pub open spec fn time_cell(label: Seq<char>) -> SpanView {
    SpanView { content: "  ["@ + label + "]"@, style: Style::plain() }
}

/// The fragment that shows a date: the label in bold.
pub open spec fn date_cell(label: Seq<char>) -> SpanView {
    SpanView { content: label, style: Style::bold() }
}

/// Makes the fragment that shows a time of day.
pub fn time_span(label: &str) -> (r: Span)
    ensures
        r@ == time_cell(label@),
{
    let mut s = String::from_str("  [");
    s.append(label);
    s.append("]");
    Span::raw(s)
}

/// Makes the fragment that shows a date.
pub fn date_span(label: String) -> (r: Span)
    ensures
        r@ == date_cell(label@),
{
    Span::styled(label, Style::new_bold())
}

/// Both timestamps are confirmed, and the days on which they fall in UTC
/// are more than two days apart.
pub open spec fn days_apart(a: MessageTimeStamp, b: MessageTimeStamp) -> bool {
    a matches MessageTimeStamp::OriginServer(x) && b matches MessageTimeStamp::OriginServer(y) && (
    utc_day(calendar_secs(x)) - utc_day(calendar_secs(y)) > 2 || utc_day(calendar_secs(y))
        - utc_day(calendar_secs(x)) > 2)
}

/// Both timestamps are confirmed, and the same whole second is handed to
/// the calendar for them.
pub open spec fn same_second(a: MessageTimeStamp, b: MessageTimeStamp) -> bool {
    a matches MessageTimeStamp::OriginServer(x) && b matches MessageTimeStamp::OriginServer(y)
        && calendar_secs(x) == calendar_secs(y)
}

/// The text is a date written out, and for a confirmed timestamp it is the
/// date of the day on which its whole seconds fall in UTC, of the day before
/// or of the day after.
pub open spec fn dated(ts: MessageTimeStamp, label: Seq<char>) -> bool {
    is_date_label(label) && (ts matches MessageTimeStamp::OriginServer(ms) ==> date_near(
        label,
        utc_day(calendar_secs(ms)),
    ))
}

impl MessageTimeStamp {
    /// The day of the local calendar on which the timestamp falls, as a day
    /// number: for a confirmed timestamp the day of its whole seconds, which
    /// is the day in UTC or a neighbour of it; for a pending one the day of
    /// the present moment.
    fn local_day(&self) -> (day: i32)
        ensures
            *self matches MessageTimeStamp::OriginServer(ms) ==> utc_day(calendar_secs(ms)) - 1
                <= day <= utc_day(calendar_secs(ms)) + 1,
    {
        match self {
            MessageTimeStamp::OriginServer(ms) => local_day(millis_to_secs(*ms)),
            MessageTimeStamp::LocalEcho => local_day_now(),
        }
    }

    /// Whether two timestamps fall on the same day of the local calendar.
    /// Two confirmed timestamps of the same second do, and the calendar is
    /// not asked; two whose days in UTC are more than two days apart do not,
    /// in whatever time zone. For the rest the answer is that of the
    /// calendar, which depends on the time zone of the machine and, for a
    /// pending timestamp, on the moment of the call.
    pub fn same_day(&self, other: &Self) -> (r: bool)
        ensures
            same_second(*self, *other) ==> r,
            days_apart(*self, *other) ==> !r,
    {
        match (self, other) {
            (MessageTimeStamp::OriginServer(a), MessageTimeStamp::OriginServer(b)) => {
                if millis_to_secs(*a) == millis_to_secs(*b) {
                    return true;
                }
            },
            _ => {},
        }
        let d1 = self.local_day();
        let d2 = other.local_day();
        d1 == d2
    }

    /// The local date of the timestamp as the calendar writes it: the
    /// weekday, the month, the day of the month and the year. For a
    /// confirmed timestamp it is the date of its whole seconds, which is
    /// the date in UTC or that of a neighbouring day; for a pending one it
    /// is the date of the present moment.
    pub fn date_label(&self) -> (r: String)
        ensures
            dated(*self, r@),
    {
        match self {
            MessageTimeStamp::OriginServer(ms) => format_local(
                millis_to_secs(*ms),
                "%A, %B %d %Y",
            ),
            MessageTimeStamp::LocalEcho => format_now("%A, %B %d %Y"),
        }
    }

    /// The local time of day of a confirmed timestamp as the calendar
    /// writes it, in hours, minutes and seconds; a pending timestamp has
    /// none.
    pub fn time_label(&self) -> (r: Option<String>)
        ensures
            r is Some <==> *self is OriginServer,
            r matches Some(label) ==> is_time_label(label@),
    {
        match self {
            MessageTimeStamp::OriginServer(ms) => Some(format_local(millis_to_secs(*ms), "%T")),
            MessageTimeStamp::LocalEcho => None,
        }
    }

    /// The bold fragment that shows the date of the timestamp.
    pub fn show_date(&self) -> (r: Option<Span>)
        ensures
            r matches Some(s) && exists|label: Seq<char>|
                dated(*self, label) && s@ == #[trigger] date_cell(label),
    {
        let label = self.date_label();
        assert(date_cell(label@) == date_cell(label@));
        Some(date_span(label))
    }

    /// The fragment that shows the time of day of a confirmed timestamp; a
    /// pending timestamp has none.
    pub fn show_time(&self) -> (r: Option<Span>)
        ensures
            *self is LocalEcho ==> r is None,
            *self is OriginServer ==> (r matches Some(s) && exists|label: Seq<char>|
                is_time_label(label) && s@ == #[trigger] time_cell(label)),
    {
        match self.time_label() {
            Some(label) => {
                assert(time_cell(label@) == time_cell(label@));
                Some(time_span(label.as_str()))
            },
            None => None,
        }
    }
}

/// What the calendar says of a message at the moment it is drawn.
#[derive(Clone, Debug, PartialEq, Eq)]
pub struct DayContext {
    /// Whether the message before it was sent on the same local day; false
    /// where there is no message before it.
    pub same_day: bool,
    /// The local date of the message.
    pub date: String,
    /// The local time of day of the message, where its time is confirmed.
    pub time: Option<String>,
}

impl DayContext {
    /// Asks the calendar about a message sent at `ts` that follows a
    /// message sent at `prev`.
    pub fn observe(ts: &MessageTimeStamp, prev: Option<&MessageTimeStamp>) -> (r: DayContext)
        ensures
            prev is None ==> !r.same_day,
            prev matches Some(p) && same_second(*p, *ts) ==> r.same_day,
            prev matches Some(p) && days_apart(*p, *ts) ==> !r.same_day,
            dated(*ts, r.date@),
            r.time is Some <==> *ts is OriginServer,
            r.time matches Some(label) ==> is_time_label(label@),
    {
        let same_day = match prev {
            Some(p) => p.same_day(ts),
            None => false,
        };
        DayContext { same_day, date: ts.date_label(), time: ts.time_label() }
    }
}

} // verus!
