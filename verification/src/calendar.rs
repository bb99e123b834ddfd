//! Moments, and the calendar of Greenwich.
//!
//! A moment that is counted with is a number of nanoseconds since the epoch. One
//! that is only compared and shown is a `Stamp`, which can lie in a leap second.
//! Dates are days since the epoch.

use vstd::prelude::*;
use vstd::string::*;

use crate::dup::Dup;

verus! {

/// A second in nanoseconds.
pub const SECOND_NS: i128 = 1_000_000_000;

/// A day in nanoseconds.
pub const DAY_NS: i128 = 86_400_000_000_000;

/// The first day of the calendar, with which the year -262143 begins.
pub const FIRST_DAY: i64 = -96_465_292;

/// The last second of the calendar, with which the year 262142 ends.
pub const LAST_SECOND: i64 = 8_210_266_876_799;

/// A second of the calendar.
pub open spec fn is_second(seconds: int) -> bool {
    -8_334_601_228_800 <= seconds <= 8_210_266_876_799
}

/// A day of the calendar.
pub open spec fn is_day(day: int) -> bool {
    -96_465_292 <= day <= 95_026_236
}

/// A moment of the calendar.
pub open spec fn in_calendar(ns: int) -> bool {
    -8_334_601_228_800_000_000_000 <= ns < 8_210_266_876_800_000_000_000
}

// ---------- Stamps ----------

/// A moment: a second, and how many nanoseconds of it have passed. Of a leap
/// second they go on beyond the second before it.
#[derive(Debug, Clone, Copy, PartialEq, Eq, Structural)]
pub struct Stamp {
    pub seconds: i64,
    pub nanos: u32,
}

impl DeepView for Stamp {
    type V = Stamp;

    open spec fn deep_view(&self) -> Stamp {
        *self
    }
}

impl Dup for Stamp {
    fn dup(&self) -> (r: Self) {
        *self
    }
}

/// The calendar holds the stamp; it ends without a leap second.
pub open spec fn is_stamp(s: Stamp) -> bool {
    &&& is_second(s.seconds as int)
    &&& s.nanos < 2_000_000_000
    &&& s.seconds == LAST_SECOND ==> s.nanos < 1_000_000_000
}

/// One stamp lies before another.
pub open spec fn earlier(a: Stamp, b: Stamp) -> bool {
    a.seconds < b.seconds || (a.seconds == b.seconds && a.nanos < b.nanos)
}

/// Whether one stamp lies before another.
pub fn is_earlier(a: Stamp, b: Stamp) -> (r: bool)
    ensures
        r == earlier(a, b),
{
    a.seconds < b.seconds || (a.seconds == b.seconds && a.nanos < b.nanos)
}

/// The whole milliseconds since the epoch.
pub open spec fn millis_of(s: Stamp) -> int {
    s.seconds * 1000 + s.nanos as int / 1_000_000
}

/// The whole milliseconds since the epoch.
pub fn stamp_millis(s: Stamp) -> (ms: i64)
    requires
        is_stamp(s),
    ensures
        ms == millis_of(s),
{
    s.seconds * 1000 + (s.nanos / 1_000_000) as i64
}

/// The stamp of a moment.
pub open spec fn stamp_of(ns: int) -> Stamp {
    Stamp { seconds: (ns / 1_000_000_000) as i64, nanos: (ns % 1_000_000_000) as u32 }
}

fn floor_div(a: i128, b: i128) -> (q: i128)
    requires
        b > 0,
    ensures
        q == a as int / b as int,
{
    if a >= 0 {
        a / b
    } else {
        let n: i128 = -(a + 1);
        let k: i128 = n / b;
        proof {
            let (x, y) = (a as int, b as int);
            vstd::arithmetic::div_mod::lemma_fundamental_div_mod(n as int, y);
            vstd::arithmetic::div_mod::lemma_mod_bound(n as int, y);
            let r = n as int % y;
            assert(x == y * (-k - 1) + (y - 1 - r)) by (nonlinear_arith)
                requires
                    n as int == y * k + r,
                    n as int == -(x + 1),
            ;
            vstd::arithmetic::div_mod::lemma_fundamental_div_mod_converse(x, y, -k - 1, y - 1 - r);
            assert(k <= n) by (nonlinear_arith)
                requires
                    n as int == y * k + r,
                    r >= 0,
                    y >= 1,
                    k >= 0,
            ;
        }
        -k - 1
    }
}

/// The stamp of a moment.
pub fn stamp_at(ns: i128) -> (s: Stamp)
    requires
        in_calendar(ns as int),
    ensures
        s == stamp_of(ns as int),
        is_stamp(s),
{
    let seconds = floor_div(ns, SECOND_NS);
    let nanos: i128 = ns - seconds * SECOND_NS;
    Stamp { seconds: seconds as i64, nanos: nanos as u32 }
}

// ---------- Years and months ----------

/// The year has a 29th of February.
pub open spec fn is_leap(year: int) -> bool {
    year % 4 == 0 && (year % 100 != 0 || year % 400 == 0)
}

/// The day with which a year begins: 365 days for each year since the year one,
/// and one for each of them that is a leap year.
pub open spec fn year_day(year: int) -> int {
    365 * (year - 1) + (year - 1) / 4 - (year - 1) / 100 + (year - 1) / 400 - 719_162
}

/// How many days of a common year lie before a month.
pub open spec fn days_before(month: int) -> int {
    if month <= 1 {
        0
    } else if month == 2 {
        31
    } else if month == 3 {
        59
    } else if month == 4 {
        90
    } else if month == 5 {
        120
    } else if month == 6 {
        151
    } else if month == 7 {
        181
    } else if month == 8 {
        212
    } else if month == 9 {
        243
    } else if month == 10 {
        273
    } else if month == 11 {
        304
    } else {
        334
    }
}

/// The day with which a month begins.
pub open spec fn month_day(year: int, month: int) -> int {
    year_day(year) + days_before(month) + (if month > 2 && is_leap(year) {
        1int
    } else {
        0
    })
}

/// The day after the last of a month.
pub open spec fn month_end(year: int, month: int) -> int {
    if month >= 12 {
        year_day(year + 1)
    } else {
        month_day(year, month + 1)
    }
}

/// A month of a year of the calendar.
pub open spec fn is_month(year: int, month: int) -> bool {
    1 <= month <= 12 && -262_143 <= year <= 262_142
}

/// The second lies in the month.
pub open spec fn lies_in(seconds: int, year: int, month: int) -> bool {
    &&& is_month(year, month)
    &&& 86_400 * month_day(year, month) <= seconds < 86_400 * month_end(year, month)
}

/// `chrono::DateTime::from_timestamp`, `year` and `month`: the year and the
/// month that a second of the calendar lies in.
#[verifier::external_body]
fn month_of(seconds: i64) -> (r: Option<(i32, u32)>)
    ensures
        (r is Some) == is_second(seconds as int),
        r is Some ==> lies_in(seconds as int, (r->0).0 as int, (r->0).1 as int),
{
    chrono::DateTime::from_timestamp(seconds, 0).map(
        |at| (chrono::Datelike::year(&at), chrono::Datelike::month(&at)),
    )
}

/// `chrono::NaiveDate::from_ymd_opt` with the first day of a month, and the
/// second with which that day begins: there is one for every month of the
/// calendar.
#[verifier::external_body]
fn begin_of_month(year: i32, month: u32) -> (r: Option<i64>)
    ensures
        (r is Some) == is_month(year as int, month as int),
        r is Some ==> r->0 == 86_400 * month_day(year as int, month as int),
{
    chrono::NaiveDate::from_ymd_opt(year, month, 1)
        .and_then(|date| date.and_hms_opt(0, 0, 0))
        .map(|at| at.and_utc().timestamp())
}

proof fn year_takes(year: int)
    ensures
        year_day(year + 1) == year_day(year) + (if is_leap(year) {
            366int
        } else {
            365
        }),
{
}

proof fn years_follow(a: int, b: int)
    requires
        a <= b,
    ensures
        year_day(a) + 365 * (b - a) <= year_day(b),
    decreases b - a,
{
    if a < b {
        years_follow(a, b - 1);
        year_takes(b - 1);
    }
}

/// The year that a day lies in.
pub open spec fn year_of(day: int) -> int {
    choose|year: int| year_day(year) <= day < #[trigger] year_day(year + 1)
}

proof fn year_is(day: int, year: int)
    requires
        year_day(year) <= day < year_day(year + 1),
    ensures
        year_of(day) == year,
{
    let other = year_of(day);
    assert(year_day(other) <= day < year_day(other + 1));
    if other < year {
        years_follow(other + 1, year);
    } else if year < other {
        years_follow(year + 1, other);
    }
}

/// A day lies in exactly one year.
pub proof fn days_have_one_year(day: int, year: int)
    requires
        is_day(day),
    ensures
        year_day(year_of(day)) <= day < year_day(year_of(day) + 1),
        -262_143 <= year_of(day) <= 262_142,
        year_day(year) <= day < year_day(year + 1) ==> year == year_of(day),
{
    find_year(day, -262_143);
    let found = choose|y: int| -262_143 <= y <= 262_142 && year_day(y) <= day < #[trigger] year_day(y + 1);
    year_is(day, found);
    if year_day(year) <= day < year_day(year + 1) {
        year_is(day, year);
    }
}

proof fn find_year(day: int, from: int)
    requires
        -262_143 <= from <= 262_142,
        year_day(from) <= day < year_day(262_143),
    ensures
        exists|y: int| -262_143 <= y <= 262_142 && year_day(y) <= day < #[trigger] year_day(y + 1),
    decreases 262_142 - from,
{
    if day >= year_day(from + 1) {
        find_year(day, from + 1);
    }
}

/// The day with which the quarter begins that a day lies in.
pub open spec fn quarter_day(day: int) -> int {
    let year = year_of(day);
    if month_day(year, 10) <= day {
        month_day(year, 10)
    } else if month_day(year, 7) <= day {
        month_day(year, 7)
    } else if month_day(year, 4) <= day {
        month_day(year, 4)
    } else {
        year_day(year)
    }
}

/// The first day of the year that a day lies in.
pub fn current_year_start(today: i64) -> (day: i64)
    requires
        is_day(today as int),
    ensures
        day == year_day(year_of(today as int)),
        is_day(day as int),
        day <= today,
{
    match month_of(today * 86_400) {
        Some((year, month)) => {
            proof {
                year_takes(year as int);
                year_is(today as int, year as int);
            }
            match begin_of_month(year, 1) {
                Some(seconds) => {
                    proof {
                        years_follow(-262_143, year as int);
                    }
                    floor_div(seconds as i128, 86_400) as i64
                },
                None => today,
            }
        },
        None => today,
    }
}

/// The first day of the quarter that a day lies in.
pub fn current_quarter_start(today: i64) -> (day: i64)
    requires
        is_day(today as int),
    ensures
        day == quarter_day(today as int),
        is_day(day as int),
        day <= today,
{
    match month_of(today * 86_400) {
        Some((year, month)) => {
            let first: u32 = if month <= 3 {
                1
            } else if month <= 6 {
                4
            } else if month <= 9 {
                7
            } else {
                10
            };
            proof {
                year_takes(year as int);
                year_is(today as int, year as int);
            }
            match begin_of_month(year, first) {
                Some(seconds) => {
                    proof {
                        years_follow(-262_143, year as int);
                    }
                    floor_div(seconds as i128, 86_400) as i64
                },
                None => today,
            }
        },
        None => today,
    }
}

/// The first day of a year of the calendar.
pub fn year_start(year: i32) -> (day: i64)
    requires
        -262_143 <= year <= 262_142,
    ensures
        day == year_day(year as int),
        is_day(day as int),
{
    match begin_of_month(year, 1) {
        Some(seconds) => {
            proof {
                years_follow(-262_143, year as int);
                years_follow(year as int, 262_142);
            }
            floor_div(seconds as i128, 86_400) as i64
        },
        None => 0,
    }
}

// ---------- Days and moments ----------

/// The day that a moment lies in.
pub open spec fn day_of(ns: int) -> int {
    ns / 86_400_000_000_000
}

/// The day that a moment lies in.
pub fn day_number(ns: i128) -> (d: i64)
    requires
        in_calendar(ns as int),
    ensures
        d == day_of(ns as int),
        is_day(d as int),
{
    floor_div(ns, DAY_NS) as i64
}

/// The moment with which a day begins.
pub fn date_start_datetime(day: i64) -> (ns: i128)
    requires
        is_day(day as int),
    ensures
        ns == day * 86_400_000_000_000,
        in_calendar(ns as int),
        day_of(ns as int) == day,
{
    day as i128 * DAY_NS
}

// ---------- Moments in words ----------

/// What `chrono` prints for a stamp in Greenwich, to the second.
pub uninterp spec fn utc_text(seconds: i64, nanos: u32) -> Option<Seq<char>>;

/// `chrono::DateTime::from_timestamp`, `with_nanosecond`, and `format` with
/// "%Y-%m-%d %H:%M:%S UTC". Every stamp of the calendar can be printed.
#[verifier::external_body]
pub(crate) fn format_utc(seconds: i64, nanos: u32) -> (r: Option<String>)
    ensures
        r.deep_view() == utc_text(seconds, nanos),
        is_stamp(Stamp { seconds, nanos }) ==> r is Some,
{
    chrono::DateTime::from_timestamp(seconds, 0)
        .and_then(|at| chrono::Timelike::with_nanosecond(&at, nanos))
        .map(|at| at.format("%Y-%m-%d %H:%M:%S UTC").to_string())
}

/// A stamp in words.
pub fn stamp_text(s: Stamp) -> (text: String)
    requires
        is_stamp(s),
    ensures
        utc_text(s.seconds, s.nanos) == Some(text@),
{
    match format_utc(s.seconds, s.nanos) {
        Some(text) => text,
        None => "".to_owned(),
    }
}

/// Days are counted from the first of January 1970. A year has 365 days, and
/// 366 where it can be divided by four and not by a hundred, or by four hundred.
pub proof fn years_have_their_days(year: int)
    ensures
        year_day(1970) == 0,
        (year % 4 == 0 && year % 100 != 0) || year % 400 == 0 ==> year_day(year + 1) == year_day(year) + 366,
        year % 4 != 0 || (year % 100 == 0 && year % 400 != 0) ==> year_day(year + 1) == year_day(year) + 365,
{
    year_takes(year);
}

/// The year 2020 starts fifty years on, twelve of them leap years.
pub proof fn year_day_of_2020()
    ensures
        year_day(2020) == 50 * 365 + 12,
{
}

/// The months of a year follow one another, with 31 days, with 30 for the
/// fourth, the sixth, the ninth and the eleventh, and with 28 for the second,
/// 29 in a leap year; the first starts with the year and the last ends with it.
pub proof fn months_have_their_days(year: int, month: int)
    requires
        1 <= month <= 12,
    ensures
        month_day(year, 1) == year_day(year),
        month_end(year, 12) == year_day(year + 1),
        month < 12 ==> month_end(year, month) == month_day(year, month + 1),
        month == 4 || month == 6 || month == 9 || month == 11 ==> month_end(year, month) - month_day(year, month) == 30,
        month == 1 || month == 3 || month == 5 || month == 7 || month == 8 || month == 10 || month == 12 ==> month_end(
            year,
            month,
        ) - month_day(year, month) == 31,
        month == 2 && year_day(year + 1) - year_day(year) == 365 ==> month_end(year, month) - month_day(year, month)
            == 28,
        month == 2 && year_day(year + 1) - year_day(year) == 366 ==> month_end(year, month) - month_day(year, month)
            == 29,
{
    year_takes(year);
}

/// A quarter starts with the first, fourth, seventh or tenth month of the year
/// that the day lies in, on or before the day and at most 92 days before its
/// end.
pub proof fn quarters_hold_their_day(day: int)
    requires
        is_day(day),
    ensures
        quarter_day(day) <= day < quarter_day(day) + 92,
        exists|month: int|
            (month == 1 || month == 4 || month == 7 || month == 10) && quarter_day(day) == #[trigger] month_day(
                year_of(day),
                month,
            ),
{
    days_have_one_year(day, 0);
    let year = year_of(day);
    year_takes(year);
    assert(month_day(year, 1) == year_day(year));
    assert(month_day(year, 4) >= year_day(year));
    assert(month_day(year, 7) >= year_day(year));
    assert(month_day(year, 10) >= year_day(year));
}

/// A moment is the second and the part of it, and its milliseconds are its
/// millions of nanoseconds, rounded down; a day holds the
/// moments of its 86400 seconds.
pub proof fn stamps_keep_their_moment(ns: int)
    requires
        in_calendar(ns),
    ensures
        stamp_of(ns).seconds * 1_000_000_000 + stamp_of(ns).nanos == ns,
        stamp_of(ns).nanos < 1_000_000_000,
        1_000_000 * millis_of(stamp_of(ns)) <= ns < 1_000_000 * millis_of(stamp_of(ns)) + 1_000_000,
        86_400_000_000_000 * day_of(ns) <= ns < 86_400_000_000_000 * (day_of(ns) + 1),
{
}

/// The earlier of two moments has the smaller second, or of the same second
/// the smaller part; of two moments that differ one is the earlier.
pub proof fn moments_are_ordered(a: int, b: int)
    requires
        in_calendar(a),
        in_calendar(b),
    ensures
        earlier(stamp_of(a), stamp_of(b)) <==> a < b,
{
}

} // verus!
