//! Time labels for Unix timestamps.
//!
//! The calendar and the locale are outside. A timestamp comes in as its local
//! date, and a function here picks the [`Label`] to show. The label names the
//! pattern that the locale fills in, and [`label_text`] turns what comes back
//! into the text that is shown.

use crate::text::{is_white_space, opt_view, trim_start, trimmed_start};
use vstd::prelude::*;

verus! {

/// A local calendar date.
#[derive(Clone, Copy, Debug, PartialEq, Eq, Structural)]
pub struct LocalDate {
    pub year: i32,
    /// 1 to 12.
    pub month: i32,
    /// 1 to 31.
    pub day: i32,
}

/// What to show for a timestamp.
#[derive(Clone, Copy, Debug, PartialEq, Eq, Structural)]
pub enum Label {
    /// Nothing: the timestamp or the current time has no local date.
    Nothing,
    /// The clock, such as `14:30`.
    Clock,
    Today,
    Yesterday,
    /// The short name of the weekday, such as `Mon`.
    Weekday,
    /// The date in figures, such as `09/08/25`.
    Date,
    /// The day and the month, such as `9 August`.
    DayMonth,
    /// The day, the month and the year, such as `9 August 2025`.
    DayMonthYear,
}

/// How many days back a sidebar label looks.
pub const WEEK_BACK: usize = 6;

/// The date `n` days ago out of `back`, which holds yesterday first.
pub open spec fn days_ago(back: Seq<Option<LocalDate>>, n: int) -> Option<LocalDate> {
    if 1 <= n <= back.len() {
        back[n - 1]
    } else {
        None
    }
}

/// The sidebar label of a date.
pub open spec fn sidebar_label(
    date: Option<LocalDate>,
    now: Option<LocalDate>,
    back: Seq<Option<LocalDate>>,
) -> Label {
    if date is None || now is None {
        Label::Nothing
    } else if date == now {
        Label::Clock
    } else if days_ago(back, 1) == date {
        Label::Yesterday
    } else if exists|n: int| 2 <= n <= WEEK_BACK && #[trigger] days_ago(back, n) == date {
        Label::Weekday
    } else {
        Label::Date
    }
}

/// The date-separator label of a date.
pub open spec fn separator_label(
    date: Option<LocalDate>,
    now: Option<LocalDate>,
    yesterday: Option<LocalDate>,
) -> Label {
    if date is None || now is None {
        Label::Nothing
    } else if date == now {
        Label::Today
    } else if yesterday == date {
        Label::Yesterday
    } else if date->0.year == now->0.year {
        Label::DayMonth
    } else {
        Label::DayMonthYear
    }
}

/// The pattern that the locale fills in for a label.
pub open spec fn pattern_of(label: Label) -> Option<Seq<char>> {
    match label {
        Label::Nothing | Label::Today | Label::Yesterday => None,
        Label::Clock => Some("%H:%M"@),
        Label::Weekday => Some("%a"@),
        Label::Date => Some("%d/%m/%y"@),
        Label::DayMonth => Some("%e %B"@),
        Label::DayMonthYear => Some("%e %B %Y"@),
    }
}

/// The text of a label. `%e` pads the day with a space, which is taken off.
pub open spec fn shown(label: Label, filled: Option<Seq<char>>) -> Seq<char> {
    let text = match filled {
        Some(t) => t,
        None => Seq::empty(),
    };
    match label {
        Label::Nothing => Seq::empty(),
        Label::Today => "Today"@,
        Label::Yesterday => "Yesterday"@,
        Label::Clock | Label::Weekday | Label::Date => text,
        Label::DayMonth | Label::DayMonthYear => trim_start(text),
    }
}

/// Whether two dates are the same day.
pub fn same_date(a: LocalDate, b: LocalDate) -> (r: bool)
    ensures
        r == (a == b),
{
    a.year == b.year && a.month == b.month && a.day == b.day
}

/// Whether two timestamps fall on the same local day; false where one of them
/// has no local date.
pub fn same_local_day(a: Option<LocalDate>, b: Option<LocalDate>) -> (r: bool)
    ensures
        r == (a is Some && a == b),
{
    match (a, b) {
        (Some(a), Some(b)) => same_date(a, b),
        _ => false,
    }
}

fn is_day(a: Option<LocalDate>, day: LocalDate) -> (r: bool)
    ensures
        r == (a == Some(day)),
{
    match a {
        Some(a) => same_date(a, day),
        None => false,
    }
}

/// The sidebar label of a timestamp: the clock today, then `Yesterday`, the
/// weekday within the last week, and the date before that. `back` holds the
/// dates one, two, ... days before now.
pub fn sidebar_time(
    date: Option<LocalDate>,
    now: Option<LocalDate>,
    back: &[Option<LocalDate>],
) -> (r: Label)
    ensures
        r == sidebar_label(date, now, back@),
{
    let (day, today): (LocalDate, LocalDate) = match (date, now) {
        (Some(d), Some(n)) => (d, n),
        _ => {
            return Label::Nothing;
        },
    };
    if same_date(day, today) {
        return Label::Clock;
    }
    if back.len() > 0 && is_day(back[0], day) {
        assert(days_ago(back@, 1) == date);
        return Label::Yesterday;
    }
    assert(days_ago(back@, 1) != date);
    for i in 1..WEEK_BACK
        invariant
            date == Some(day),
            now == Some(today),
            day != today,
            days_ago(back@, 1) != date,
            forall|n: int| 2 <= n <= i ==> #[trigger] days_ago(back@, n) != date,
    {
        if i < back.len() && is_day(back[i], day) {
            assert(days_ago(back@, i + 1) == date);
            return Label::Weekday;
        }
        assert(days_ago(back@, i + 1) != date);
    }
    Label::Date
}

/// The label of a message's time, the clock.
pub fn message_time(date: Option<LocalDate>) -> (r: Label)
    ensures
        r == (if date is Some {
            Label::Clock
        } else {
            Label::Nothing
        }),
{
    match date {
        Some(_) => Label::Clock,
        None => Label::Nothing,
    }
}

/// The label of a date separator.
pub fn date_separator(
    date: Option<LocalDate>,
    now: Option<LocalDate>,
    yesterday: Option<LocalDate>,
) -> (r: Label)
    ensures
        r == separator_label(date, now, yesterday),
{
    let (day, now): (LocalDate, LocalDate) = match (date, now) {
        (Some(d), Some(n)) => (d, n),
        _ => {
            return Label::Nothing;
        },
    };
    if same_date(day, now) {
        Label::Today
    } else if is_day(yesterday, day) {
        Label::Yesterday
    } else if day.year == now.year {
        Label::DayMonth
    } else {
        Label::DayMonthYear
    }
}

/// The pattern that the locale is to fill in for a label, if any.
pub fn pattern(label: Label) -> (r: Option<String>)
    ensures
        opt_view(r) == pattern_of(label),
{
    match label {
        Label::Nothing | Label::Today | Label::Yesterday => None,
        Label::Clock => Some("%H:%M".to_owned()),
        Label::Weekday => Some("%a".to_owned()),
        Label::Date => Some("%d/%m/%y".to_owned()),
        Label::DayMonth => Some("%e %B".to_owned()),
        Label::DayMonthYear => Some("%e %B %Y".to_owned()),
    }
}

/// The text to show for a label; `filled` is its pattern as the locale filled
/// it in, `None` where that failed.
pub fn label_text(label: Label, filled: Option<String>) -> (r: String)
    ensures
        r@ == shown(label, opt_view(filled)),
{
    let text: String = match filled {
        Some(t) => t,
        None => String::new(),
    };
    match label {
        Label::Nothing => String::new(),
        Label::Today => "Today".to_owned(),
        Label::Yesterday => "Yesterday".to_owned(),
        Label::Clock | Label::Weekday | Label::Date => text,
        Label::DayMonth | Label::DayMonthYear => trimmed_start(text.as_str()),
    }
}

// --- Laws --------------------------------------------------------------------

pub open spec fn is_leap(y: int) -> bool {
    y % 4 == 0 && (y % 100 != 0 || y % 400 == 0)
}

/// The length of a month.
pub open spec fn month_len(y: int, m: int) -> int {
    if m == 2 {
        if is_leap(y) {
            29
        } else {
            28
        }
    } else if m == 4 || m == 6 || m == 9 || m == 11 {
        30
    } else {
        31
    }
}

/// The days of a year before its month `m`.
pub open spec fn days_before_month(y: int, m: int) -> int
    decreases m,
{
    if m <= 1 {
        0
    } else {
        days_before_month(y, m - 1) + month_len(y, m - 1)
    }
}

/// The days before the year `y`, counted from the start of the calendar.
pub open spec fn days_before_year(y: int) -> int {
    365 * (y - 1) + (y - 1) / 4 - (y - 1) / 100 + (y - 1) / 400
}

/// Whether a date is in the Gregorian calendar.
pub open spec fn is_date(d: LocalDate) -> bool {
    1 <= d.month <= 12 && 1 <= d.day <= month_len(d.year as int, d.month as int)
}

/// The number of a day, counted from the start of the calendar.
pub open spec fn day_number(d: LocalDate) -> int {
    days_before_year(d.year as int) + days_before_month(d.year as int, d.month as int) + d.day
}

/// Whether `a` stands before `b` in the calendar, read from left to right.
pub open spec fn earlier(a: LocalDate, b: LocalDate) -> bool {
    a.year < b.year || (a.year == b.year && (a.month < b.month || (a.month == b.month && a.day
        < b.day)))
}

proof fn lemma_year_len(y: int)
    ensures
        days_before_month(y, 13) == if is_leap(y) {
            366int
        } else {
            365
        },
{
    assert(days_before_month(y, 1) == 0);
    assert(days_before_month(y, 2) == 31);
    assert(days_before_month(y, 3) == 31 + month_len(y, 2));
    assert(days_before_month(y, 4) == 62 + month_len(y, 2));
    assert(days_before_month(y, 5) == 92 + month_len(y, 2));
    assert(days_before_month(y, 6) == 123 + month_len(y, 2));
    assert(days_before_month(y, 7) == 153 + month_len(y, 2));
    assert(days_before_month(y, 8) == 184 + month_len(y, 2));
    assert(days_before_month(y, 9) == 215 + month_len(y, 2));
    assert(days_before_month(y, 10) == 245 + month_len(y, 2));
    assert(days_before_month(y, 11) == 276 + month_len(y, 2));
    assert(days_before_month(y, 12) == 306 + month_len(y, 2));
}

proof fn lemma_quotient_4(y: int)
    ensures
        y / 4 == (y - 1) / 4 + if y % 4 == 0 {
            1int
        } else {
            0
        },
{
}

proof fn lemma_quotient_100(y: int)
    ensures
        y / 100 == (y - 1) / 100 + if y % 100 == 0 {
            1int
        } else {
            0
        },
{
}

proof fn lemma_quotient_400(y: int)
    ensures
        y / 400 == (y - 1) / 400 + if y % 400 == 0 {
            1int
        } else {
            0
        },
{
}

proof fn lemma_multiples(y: int)
    ensures
        y % 400 == 0 ==> y % 100 == 0,
        y % 100 == 0 ==> y % 4 == 0,
{
    if y % 400 == 0 {
        assert(y == 100 * (4 * (y / 400)));
    }
    if y % 100 == 0 {
        assert(y == 4 * (25 * (y / 100)));
    }
}

proof fn lemma_year_step(y: int)
    ensures
        days_before_year(y + 1) == days_before_year(y) + days_before_month(y, 13),
{
    lemma_year_len(y);
    lemma_quotient_4(y);
    lemma_quotient_100(y);
    lemma_quotient_400(y);
    lemma_multiples(y);
}

proof fn lemma_year_mono(y: int, z: int)
    requires
        y < z,
    ensures
        days_before_year(y) + days_before_month(y, 13) <= days_before_year(z),
    decreases z - y,
{
    lemma_year_step(y);
    if y + 1 < z {
        lemma_year_mono(y + 1, z);
        lemma_month_mono(y + 1, 1, 13);
    }
}

proof fn lemma_month_mono(y: int, m: int, n: int)
    requires
        1 <= m <= n,
    ensures
        days_before_month(y, m) <= days_before_month(y, n),
        m < n ==> days_before_month(y, m) + month_len(y, m) <= days_before_month(y, n),
    decreases n - m,
{
    if m < n {
        lemma_month_mono(y, m, n - 1);
    }
}

proof fn lemma_number_mono(a: LocalDate, b: LocalDate)
    requires
        is_date(a),
        is_date(b),
        earlier(a, b),
    ensures
        day_number(a) < day_number(b),
{
    let (y, m) = (a.year as int, a.month as int);
    if a.year < b.year {
        lemma_month_mono(y, m, 13);
        lemma_year_mono(y, b.year as int);
        lemma_month_mono(b.year as int, 1, b.month as int);
    } else if a.month < b.month {
        lemma_month_mono(y, m, b.month as int);
    }
}

/// Different dates have different numbers.
pub proof fn day_number_is_injective(a: LocalDate, b: LocalDate)
    requires
        is_date(a),
        is_date(b),
        day_number(a) == day_number(b),
    ensures
        a == b,
{
    if earlier(a, b) {
        lemma_number_mono(a, b);
    } else if earlier(b, a) {
        lemma_number_mono(b, a);
    }
}

/// The sidebar label goes by the distance in days alone: the clock for today,
/// then `Yesterday`, the weekday for two to six days back, the date for
/// everything else.
pub proof fn sidebar_label_by_distance(
    date: LocalDate,
    now: LocalDate,
    back: Seq<Option<LocalDate>>,
)
    requires
        is_date(date),
        is_date(now),
        back.len() == WEEK_BACK,
        forall|n: int|
            1 <= n <= WEEK_BACK ==> {
                let day = #[trigger] days_ago(back, n);
                day is Some && is_date(day->0) && day_number(day->0) == day_number(now) - n
            },
    ensures
        sidebar_label(Some(date), Some(now), back) == {
            let distance = day_number(now) - day_number(date);
            if distance == 0 {
                Label::Clock
            } else if distance == 1 {
                Label::Yesterday
            } else if 2 <= distance <= 6 {
                Label::Weekday
            } else {
                Label::Date
            }
        },
{
    let distance = day_number(now) - day_number(date);
    if distance == 0 {
        day_number_is_injective(date, now);
    }
    if 1 <= distance <= WEEK_BACK {
        day_number_is_injective(date, days_ago(back, distance)->0);
        assert(days_ago(back, distance) == Some(date));
    }
    assert forall|n: int| 1 <= n <= WEEK_BACK && #[trigger] days_ago(back, n) == Some(
        date,
    ) implies n == distance by {}
    assert(days_ago(back, 1) is Some);
}

/// A separator says `Today` or `Yesterday` for exactly these two days, and
/// names the year only for a day of another year.
pub proof fn separator_label_by_distance(
    date: LocalDate,
    now: LocalDate,
    yesterday: LocalDate,
)
    requires
        is_date(date),
        is_date(now),
        is_date(yesterday),
        day_number(yesterday) == day_number(now) - 1,
    ensures
        separator_label(Some(date), Some(now), Some(yesterday)) == {
            let distance = day_number(now) - day_number(date);
            if distance == 0 {
                Label::Today
            } else if distance == 1 {
                Label::Yesterday
            } else if date.year == now.year {
                Label::DayMonth
            } else {
                Label::DayMonthYear
            }
        },
{
    let distance = day_number(now) - day_number(date);
    if distance == 0 {
        day_number_is_injective(date, now);
    }
    if distance == 1 {
        day_number_is_injective(date, yesterday);
    }
}

/// What the locale filled in is what a label says; the day of a separator loses
/// the padding before it, and nothing else. `Today` and `Yesterday` need nothing
/// filled in.
pub proof fn labels_say_what_was_filled_in(label: Label, text: Seq<char>, k: int)
    requires
        0 <= k <= text.len(),
        forall|i: int| 0 <= i < k ==> text[i] == ' ',
        k < text.len() ==> !is_white_space(text[k]),
    ensures
        label == Label::Clock || label == Label::Weekday || label == Label::Date ==> shown(
            label,
            Some(text),
        ) == text,
        label == Label::DayMonth || label == Label::DayMonthYear ==> shown(label, Some(text))
            == text.skip(k),
        shown(Label::Today, None) == "Today"@,
        shown(Label::Yesterday, None) == "Yesterday"@,
        label == Label::Nothing ==> shown(label, Some(text)).len() == 0,
        pattern_of(label) is None <==> label == Label::Nothing || label == Label::Today || label
            == Label::Yesterday,
    decreases k,
{
    if k > 0 {
        let rest = text.drop_first();
        assert forall|i: int| 0 <= i < k - 1 implies rest[i] == ' ' by {
            assert(rest[i] == text[i + 1]);
        }
        assert(text[0] == ' ');
        labels_say_what_was_filled_in(Label::DayMonth, rest, k - 1);
        assert(rest.skip(k - 1) =~= text.skip(k));
    } else {
        assert(text.skip(0) =~= text);
    }
}

/// A sidebar shows the clock, the weekday or the date in figures, a separator the
/// day and the month in words, with the year only where it is asked for.
pub proof fn patterns_name_their_parts()
    ensures
        pattern_of(Label::Clock) == Some("%H:%M"@),
        pattern_of(Label::Weekday) == Some("%a"@),
        pattern_of(Label::Date) == Some("%d/%m/%y"@),
        pattern_of(Label::DayMonth) == Some("%e %B"@),
        pattern_of(Label::DayMonthYear) == Some("%e %B %Y"@),
{
}

} // verus!
