//! Functions on the local calendar.

use vstd::prelude::*;
use vstd::string::*;

use crate::automations::coerce;
use crate::automations::coerce::{num, to_number, to_text};
use crate::automations::functions::math_fns;
use crate::automations::functions::text_fns;
use crate::automations::functions::text_fns::argument;
use crate::automations::host;
use crate::automations::host::{
    ask_bits, ask_local, ask_whole, Answer, AnswerModel, Ask, AskModel, LocalTime, Oracle,
};
use crate::clock;
use crate::clock::{parse_hhmm, time_in_window};
use crate::text;
use crate::text::{decimal_text, same};
use crate::value::{Number, Value, ValueModel, NOT_A_NUMBER};

verus! {

/// A moment within the range of `u64`.
pub open spec fn moment(now_ms: u128) -> u64 {
    (now_ms % 0x1_0000_0000_0000_0000) as u64
}

/// A moment within the range of `u64`.
pub fn moment_ms(now_ms: u128) -> (r: u64)
    ensures
        r == moment(now_ms),
{
    (now_ms % 0x1_0000_0000_0000_0000) as u64
}

/// The moment that a date function reads: its first argument in milliseconds
/// since the epoch, or the clock.
pub open spec fn dated(args: Seq<ValueModel>, now_ms: u128, o: Oracle) -> u64 {
    if text_fns::arg(args, 0) is Null {
        moment(now_ms)
    } else {
        host::whole_in(o(AskModel::Whole(coerce::number_of(text_fns::arg(args, 0), o))))
    }
}

/// The local calendar at that moment.
pub open spec fn calendar(args: Seq<ValueModel>, now_ms: u128, o: Oracle) -> LocalTime {
    host::local_in(o(AskModel::Local(dated(args, now_ms, o))))
}

/// The local calendar at the moment that a date function reads.
pub fn local_dt<H: Fn(Ask) -> Answer>(args: &Vec<Value>, now_ms: u128, host: &H) -> (r: LocalTime)
    requires
        host::faithful(*host),
    ensures
        r == calendar(args.deep_view(), now_ms, host::oracle(*host)),
        r.wf(),
{
    let first = argument(args, 0);
    let ms: u64 = match &first {
        Value::Null => moment_ms(now_ms),
        _ => ask_whole(host, Ask::Whole(to_number(&first, host))),
    };
    ask_local(host, Ask::Local(ms))
}

/// The minutes since local midnight.
pub open spec fn minute_of_day(t: LocalTime) -> int {
    t.hour * 60 + t.minute
}

/// The minutes since local midnight at the moment `now_ms`.
pub open spec fn local_minute(now_ms: u128, o: Oracle) -> int {
    minute_of_day(host::local_in(o(AskModel::Local(moment(now_ms)))))
}

/// The minutes since local midnight at the moment `now_ms`.
pub fn local_now_minutes<H: Fn(Ask) -> Answer>(now_ms: u128, host: &H) -> (r: u32)
    requires
        host::faithful(*host),
    ensures
        r as int == local_minute(now_ms, host::oracle(*host)),
        r < 1440,
{
    let t = ask_local(host, Ask::Local(moment_ms(now_ms)));
    t.hour * 60 + t.minute
}

/// The value for a part of the calendar.
pub open spec fn part_value(n: int, o: Oracle) -> ValueModel {
    coerce::value_of(coerce::or_nan(host::bits_in(o(AskModel::Signed(n as i64)))), o)
}

fn part_num<H: Fn(Ask) -> Answer>(n: i64, host: &H) -> (r: Value)
    requires
        host::faithful(*host),
    ensures
        r.deep_view() == part_value(n as int, host::oracle(*host)),
{
    match ask_bits(host, Ask::Signed(n)) {
        Some(bits) => num(bits, host),
        None => num(NOT_A_NUMBER, host),
    }
}

/// The name of a day of the week, from Sunday on.
pub open spec fn weekday_name(d: int) -> Seq<char> {
    if d == 0 {
        "Sunday"@
    } else if d == 1 {
        "Monday"@
    } else if d == 2 {
        "Tuesday"@
    } else if d == 3 {
        "Wednesday"@
    } else if d == 4 {
        "Thursday"@
    } else if d == 5 {
        "Friday"@
    } else {
        "Saturday"@
    }
}

fn name_weekday(d: u32) -> (r: String)
    ensures
        r@ == weekday_name(d as int),
{
    match d {
        0 => "Sunday".to_owned(),
        1 => "Monday".to_owned(),
        2 => "Tuesday".to_owned(),
        3 => "Wednesday".to_owned(),
        4 => "Thursday".to_owned(),
        5 => "Friday".to_owned(),
        _ => "Saturday".to_owned(),
    }
}

/// The name of a month, from one on.
pub open spec fn month_name(m: int) -> Seq<char> {
    if m == 1 {
        "January"@
    } else if m == 2 {
        "February"@
    } else if m == 3 {
        "March"@
    } else if m == 4 {
        "April"@
    } else if m == 5 {
        "May"@
    } else if m == 6 {
        "June"@
    } else if m == 7 {
        "July"@
    } else if m == 8 {
        "August"@
    } else if m == 9 {
        "September"@
    } else if m == 10 {
        "October"@
    } else if m == 11 {
        "November"@
    } else {
        "December"@
    }
}

fn name_month(m: u32) -> (r: String)
    ensures
        r@ == month_name(m as int),
{
    match m {
        1 => "January".to_owned(),
        2 => "February".to_owned(),
        3 => "March".to_owned(),
        4 => "April".to_owned(),
        5 => "May".to_owned(),
        6 => "June".to_owned(),
        7 => "July".to_owned(),
        8 => "August".to_owned(),
        9 => "September".to_owned(),
        10 => "October".to_owned(),
        11 => "November".to_owned(),
        _ => "December".to_owned(),
    }
}

/// `n` in decimal, with zeros in front up to `width` digits.
pub open spec fn zero_padded(n: nat, width: nat) -> Seq<char> {
    zeros_before(text::decimal(n), width)
}

/// `s` with zeros in front up to `width` characters.
pub open spec fn zeros_before(s: Seq<char>, width: nat) -> Seq<char> {
    if s.len() >= width {
        s
    } else {
        Seq::new((width - s.len()) as nat, |i: int| '0') + s
    }
}

fn padded_decimal(n: u32, width: usize) -> (r: String)
    ensures
        r@ == zero_padded(n as nat, width as nat),
{
    let digits = decimal_text(n as u128);
    let len: usize = crate::text::chars_of(digits.as_str()).len();
    let mut out = String::new();
    if len < width {
        let mut i: usize = 0;
        while i < width - len
            invariant
                len < width,
                i <= width - len,
                out@ =~= Seq::new(i as nat, |j: int| '0'),
            decreases width - len - i,
        {
            out.push('0');
            i = i + 1;
        }
    }
    proof {
        if len >= width {
            assert(out@ + digits@ =~= digits@);
        }
    }
    out.append(digits.as_str());
    out
}

/// A day as year, month and day.
pub open spec fn date_text(t: LocalTime) -> Seq<char> {
    zero_padded(t.year as nat, 4) + "-"@ + zero_padded(t.month as nat, 2) + "-"@ + zero_padded(t.day as nat, 2)
}

/// A time of day as hour and minute.
pub open spec fn time_text(t: LocalTime) -> Seq<char> {
    zero_padded(t.hour as nat, 2) + ":"@ + zero_padded(t.minute as nat, 2)
}

/// The message for window bounds that are no times of day.
pub open spec fn between_error() -> Seq<char> {
    "between: expected start and end as \"HH:MM\", e.g. between(\"07:30\", \"01:00\")"@
}

/// Whether the local clock is in the window between two times of day.
pub open spec fn between_of(start: Seq<char>, end: Seq<char>, now_ms: u128, o: Oracle) -> Result<ValueModel, Seq<char>> {
    match (clock::minutes_of(start), clock::minutes_of(end)) {
        (Some(s), Some(e)) => Ok(
            ValueModel::Bool(clock::in_window(local_minute(now_ms, o), s as int, e as int)),
        ),
        _ => Err(between_error()),
    }
}

/// The functions on the calendar; nothing for a name that is none of them.
pub open spec fn time_call(name: Seq<char>, args: Seq<ValueModel>, now_ms: u128, o: Oracle) -> Option<Result<ValueModel, Seq<char>>> {
    let t = calendar(args, now_ms, o);
    if name == "now"@ {
        Some(Ok(coerce::value_of(coerce::or_nan(host::bits_in(o(AskModel::Unsigned(now_ms)))), o)))
    } else if name == "between"@ {
        Some(
            between_of(
                coerce::text_for(text_fns::arg(args, 0), o),
                coerce::text_for(text_fns::arg(args, 1), o),
                now_ms,
                o,
            ),
        )
    } else if name == "year"@ {
        Some(Ok(part_value(t.year as int, o)))
    } else if name == "month"@ {
        Some(Ok(part_value(t.month as int, o)))
    } else if name == "day"@ {
        Some(Ok(part_value(t.day as int, o)))
    } else if name == "hour"@ {
        Some(Ok(part_value(t.hour as int, o)))
    } else if name == "minute"@ {
        Some(Ok(part_value(t.minute as int, o)))
    } else if name == "second"@ {
        Some(Ok(part_value(t.second as int, o)))
    } else if name == "weekday"@ {
        Some(Ok(part_value(t.weekday as int, o)))
    } else if name == "weekdayName"@ {
        Some(Ok(ValueModel::Text(weekday_name(t.weekday as int))))
    } else if name == "monthName"@ {
        Some(Ok(ValueModel::Text(month_name(t.month as int))))
    } else if name == "isWeekend"@ {
        Some(Ok(ValueModel::Bool(t.weekday == 0 || t.weekday == 6)))
    } else if name == "date"@ {
        Some(Ok(ValueModel::Text(date_text(t))))
    } else if name == "time"@ {
        Some(Ok(ValueModel::Text(time_text(t))))
    } else {
        None
    }
}

fn between<H: Fn(Ask) -> Answer>(start: &str, end: &str, now_ms: u128, host: &H) -> (r: Result<Value, String>)
    requires
        host::faithful(*host),
    ensures
        host::outcome(r) == between_of(start@, end@, now_ms, host::oracle(*host)),
{
    match (parse_hhmm(start), parse_hhmm(end)) {
        (Some(s), Some(e)) => Ok(Value::Bool(time_in_window(local_now_minutes(now_ms, host), s, e))),
        _ => Err("between: expected start and end as \"HH:MM\", e.g. between(\"07:30\", \"01:00\")".to_owned()),
    }
}

fn show_date(t: LocalTime) -> (r: String)
    requires
        t.wf(),
    ensures
        r@ == date_text(t),
{
    let mut out = padded_decimal(t.year as u32, 4);
    out.append("-");
    out.append(padded_decimal(t.month, 2).as_str());
    out.append("-");
    out.append(padded_decimal(t.day, 2).as_str());
    out
}

fn show_time(t: LocalTime) -> (r: String)
    ensures
        r@ == time_text(t),
{
    let mut out = padded_decimal(t.hour, 2);
    out.append(":");
    out.append(padded_decimal(t.minute, 2).as_str());
    out
}

/// Calls a function on the calendar.
pub fn call_time<H: Fn(Ask) -> Answer>(name: &str, args: &Vec<Value>, now_ms: u128, host: &H) -> (r: Option<Result<Value, String>>)
    requires
        host::faithful(*host),
    ensures
        match r {
            Some(result) => time_call(name@, args.deep_view(), now_ms, host::oracle(*host)) == Some(
                host::outcome(result),
            ),
            None => time_call(name@, args.deep_view(), now_ms, host::oracle(*host)) is None,
        },
{
    if same(name, "now") {
        match ask_bits(host, Ask::Unsigned(now_ms)) {
            Some(bits) => Some(Ok(num(bits, host))),
            None => Some(Ok(num(NOT_A_NUMBER, host))),
        }
    } else if same(name, "between") {
        Some(
            between(
                to_text(&argument(args, 0), host).as_str(),
                to_text(&argument(args, 1), host).as_str(),
                now_ms,
                host,
            ),
        )
    } else if same(name, "year") {
        Some(Ok(part_num(local_dt(args, now_ms, host).year as i64, host)))
    } else if same(name, "month") {
        Some(Ok(part_num(local_dt(args, now_ms, host).month as i64, host)))
    } else if same(name, "day") {
        Some(Ok(part_num(local_dt(args, now_ms, host).day as i64, host)))
    } else if same(name, "hour") {
        Some(Ok(part_num(local_dt(args, now_ms, host).hour as i64, host)))
    } else if same(name, "minute") {
        Some(Ok(part_num(local_dt(args, now_ms, host).minute as i64, host)))
    } else if same(name, "second") {
        Some(Ok(part_num(local_dt(args, now_ms, host).second as i64, host)))
    } else if same(name, "weekday") {
        Some(Ok(part_num(local_dt(args, now_ms, host).weekday as i64, host)))
    } else if same(name, "weekdayName") {
        Some(Ok(Value::Text(name_weekday(local_dt(args, now_ms, host).weekday))))
    } else if same(name, "monthName") {
        Some(Ok(Value::Text(name_month(local_dt(args, now_ms, host).month))))
    } else if same(name, "isWeekend") {
        let d: u32 = local_dt(args, now_ms, host).weekday;
        Some(Ok(Value::Bool(d == 0 || d == 6)))
    } else if same(name, "date") {
        Some(Ok(Value::Text(show_date(local_dt(args, now_ms, host)))))
    } else if same(name, "time") {
        Some(Ok(Value::Text(show_time(local_dt(args, now_ms, host)))))
    } else {
        None
    }
}

proof fn names_differ()
    ensures
        "between"@ != "now"@,
        "year"@ != "now"@ && "year"@ != "between"@,
        "month"@ != "now"@ && "month"@ != "between"@ && "month"@ != "year"@,
        "day"@ != "now"@ && "day"@ != "between"@ && "day"@ != "year"@ && "day"@ != "month"@,
        "hour"@ != "now"@ && "hour"@ != "between"@ && "hour"@ != "year"@ && "hour"@ != "month"@ && "hour"@ !=
            "day"@,
        "minute"@ != "now"@ && "minute"@ != "between"@ && "minute"@ != "year"@ && "minute"@ != "month"@ &&
            "minute"@ != "day"@ && "minute"@ != "hour"@,
        "second"@ != "now"@ && "second"@ != "between"@ && "second"@ != "year"@ && "second"@ != "month"@ &&
            "second"@ != "day"@ && "second"@ != "hour"@ && "second"@ != "minute"@,
        "weekday"@ != "now"@ && "weekday"@ != "between"@ && "weekday"@ != "year"@ && "weekday"@ != "month"@ &&
            "weekday"@ != "day"@ && "weekday"@ != "hour"@ && "weekday"@ != "minute"@ && "weekday"@ != "second"@,
        "weekdayName"@ != "now"@ && "weekdayName"@ != "between"@ && "weekdayName"@ != "year"@ && "weekdayName"@
            != "month"@ && "weekdayName"@ != "day"@ && "weekdayName"@ != "hour"@ && "weekdayName"@ != "minute"@
            && "weekdayName"@ != "second"@ && "weekdayName"@ != "weekday"@,
        "monthName"@ != "now"@ && "monthName"@ != "between"@ && "monthName"@ != "year"@ && "monthName"@ !=
            "month"@ && "monthName"@ != "day"@ && "monthName"@ != "hour"@ && "monthName"@ != "minute"@ &&
            "monthName"@ != "second"@ && "monthName"@ != "weekday"@ && "monthName"@ != "weekdayName"@,
        "isWeekend"@ != "now"@ && "isWeekend"@ != "between"@ && "isWeekend"@ != "year"@ && "isWeekend"@ !=
            "month"@ && "isWeekend"@ != "day"@ && "isWeekend"@ != "hour"@ && "isWeekend"@ != "minute"@ &&
            "isWeekend"@ != "second"@ && "isWeekend"@ != "weekday"@ && "isWeekend"@ != "weekdayName"@ &&
            "isWeekend"@ != "monthName"@,
        "date"@ != "now"@ && "date"@ != "between"@ && "date"@ != "year"@ && "date"@ != "month"@ && "date"@ !=
            "day"@ && "date"@ != "hour"@ && "date"@ != "minute"@ && "date"@ != "second"@ && "date"@ !=
            "weekday"@ && "date"@ != "weekdayName"@ && "date"@ != "monthName"@ && "date"@ != "isWeekend"@,
        "time"@ != "now"@ && "time"@ != "between"@ && "time"@ != "year"@ && "time"@ != "month"@ && "time"@ !=
            "day"@ && "time"@ != "hour"@ && "time"@ != "minute"@ && "time"@ != "second"@ && "time"@ !=
            "weekday"@ && "time"@ != "weekdayName"@ && "time"@ != "monthName"@ && "time"@ != "isWeekend"@ &&
            "time"@ != "date"@,
{
    reveal_strlit("now");
    reveal_strlit("between");
    reveal_strlit("year");
    reveal_strlit("month");
    reveal_strlit("day");
    reveal_strlit("hour");
    reveal_strlit("minute");
    reveal_strlit("second");
    reveal_strlit("weekday");
    reveal_strlit("weekdayName");
    reveal_strlit("monthName");
    reveal_strlit("isWeekend");
    reveal_strlit("date");
    reveal_strlit("time");
    assert("now"@.len() == 3 && "now"@[0] == 'n' && "now"@[1] == 'o');
    assert("between"@.len() == 7 && "between"@[0] == 'b' && "between"@[1] == 'e' && "between"@[4] == 'e');
    assert("year"@.len() == 4 && "year"@[0] == 'y' && "year"@[1] == 'e');
    assert("month"@.len() == 5 && "month"@[0] == 'm' && "month"@[1] == 'o' && "month"@[4] == 'h');
    assert("day"@.len() == 3 && "day"@[0] == 'd' && "day"@[1] == 'a');
    assert("hour"@.len() == 4 && "hour"@[0] == 'h' && "hour"@[1] == 'o');
    assert("minute"@.len() == 6 && "minute"@[0] == 'm' && "minute"@[1] == 'i' && "minute"@[4] == 't');
    assert("second"@.len() == 6 && "second"@[0] == 's' && "second"@[1] == 'e' && "second"@[4] == 'n');
    assert("weekday"@.len() == 7 && "weekday"@[0] == 'w' && "weekday"@[1] == 'e' && "weekday"@[4] == 'd');
    assert("weekdayName"@.len() == 11 && "weekdayName"@[0] == 'w' && "weekdayName"@[1] == 'e' && "weekdayName"@[4] == 'd');
    assert("monthName"@.len() == 9 && "monthName"@[0] == 'm' && "monthName"@[1] == 'o' && "monthName"@[4] == 'h');
    assert("isWeekend"@.len() == 9 && "isWeekend"@[0] == 'i' && "isWeekend"@[1] == 's' && "isWeekend"@[4] == 'e');
    assert("date"@.len() == 4 && "date"@[0] == 'd' && "date"@[1] == 'a');
    assert("time"@.len() == 4 && "time"@[0] == 't' && "time"@[1] == 'i');
}

/// The parts of a moment are those that the local calendar shows: of now where
/// no moment is given, else of the moment given.
pub proof fn moments_show_their_parts(
    now_ms: u128,
    x: u64,
    given: u64,
    o: Oracle,
    t: LocalTime,
    n: Number,
)
    requires
        now_ms <= u64::MAX,
        t.wf(),
        o(AskModel::Local(now_ms as u64)) == AnswerModel::Local(t),
        o(AskModel::Whole(x)) == AnswerModel::Whole(given),
        given as u128 == now_ms,
    ensures
        ({
            let none = Seq::<ValueModel>::empty();
            let one = seq![ValueModel::Number(Number::Float(x))];
            let told = Some(Ok::<ValueModel, Seq<char>>(ValueModel::Number(n)));
            &&& math_fns::gives(o, AskModel::Signed(t.year as i64), n) ==> time_call("year"@, none, now_ms, o) == told
                && time_call("year"@, one, 0, o) == told
            &&& math_fns::gives(o, AskModel::Signed(t.month as i64), n) ==> time_call("month"@, none, now_ms, o) == told
                && time_call("month"@, one, 0, o) == told
            &&& math_fns::gives(o, AskModel::Signed(t.day as i64), n) ==> time_call("day"@, none, now_ms, o) == told
                && time_call("day"@, one, 0, o) == told
            &&& math_fns::gives(o, AskModel::Signed(t.hour as i64), n) ==> time_call("hour"@, none, now_ms, o) == told
                && time_call("hour"@, one, 0, o) == told
            &&& math_fns::gives(o, AskModel::Signed(t.minute as i64), n) ==> time_call("minute"@, none, now_ms, o)
                == told && time_call("minute"@, one, 0, o) == told
            &&& math_fns::gives(o, AskModel::Signed(t.second as i64), n) ==> time_call("second"@, none, now_ms, o)
                == told && time_call("second"@, one, 0, o) == told
            &&& math_fns::gives(o, AskModel::Signed(t.weekday as i64), n) ==> time_call("weekday"@, none, now_ms, o)
                == told && time_call("weekday"@, one, 0, o) == told
            &&& math_fns::gives(o, AskModel::Unsigned(now_ms), n) ==> time_call("now"@, none, now_ms, o) == told
        }),
{
    names_differ();
}

/// Days and months go by their names, Sunday being day zero and January month
/// one; the weekend is the days whose name begins with an S.
pub proof fn days_and_months_have_names(now_ms: u128, o: Oracle, t: LocalTime)
    requires
        now_ms <= u64::MAX,
        t.wf(),
        o(AskModel::Local(now_ms as u64)) == AnswerModel::Local(t),
    ensures
        ({
            let day = time_call("weekdayName"@, Seq::empty(), now_ms, o);
            let month = time_call("monthName"@, Seq::empty(), now_ms, o);
            &&& t.weekday == 0 ==> day == Some(Ok::<ValueModel, Seq<char>>(ValueModel::Text("Sunday"@)))
            &&& t.weekday == 1 ==> day == Some(Ok::<ValueModel, Seq<char>>(ValueModel::Text("Monday"@)))
            &&& t.weekday == 2 ==> day == Some(Ok::<ValueModel, Seq<char>>(ValueModel::Text("Tuesday"@)))
            &&& t.weekday == 3 ==> day == Some(Ok::<ValueModel, Seq<char>>(ValueModel::Text("Wednesday"@)))
            &&& t.weekday == 4 ==> day == Some(Ok::<ValueModel, Seq<char>>(ValueModel::Text("Thursday"@)))
            &&& t.weekday == 5 ==> day == Some(Ok::<ValueModel, Seq<char>>(ValueModel::Text("Friday"@)))
            &&& t.weekday == 6 ==> day == Some(Ok::<ValueModel, Seq<char>>(ValueModel::Text("Saturday"@)))
            &&& t.month == 1 ==> month == Some(Ok::<ValueModel, Seq<char>>(ValueModel::Text("January"@)))
            &&& t.month == 2 ==> month == Some(Ok::<ValueModel, Seq<char>>(ValueModel::Text("February"@)))
            &&& t.month == 3 ==> month == Some(Ok::<ValueModel, Seq<char>>(ValueModel::Text("March"@)))
            &&& t.month == 4 ==> month == Some(Ok::<ValueModel, Seq<char>>(ValueModel::Text("April"@)))
            &&& t.month == 5 ==> month == Some(Ok::<ValueModel, Seq<char>>(ValueModel::Text("May"@)))
            &&& t.month == 6 ==> month == Some(Ok::<ValueModel, Seq<char>>(ValueModel::Text("June"@)))
            &&& t.month == 7 ==> month == Some(Ok::<ValueModel, Seq<char>>(ValueModel::Text("July"@)))
            &&& t.month == 8 ==> month == Some(Ok::<ValueModel, Seq<char>>(ValueModel::Text("August"@)))
            &&& t.month == 9 ==> month == Some(Ok::<ValueModel, Seq<char>>(ValueModel::Text("September"@)))
            &&& t.month == 10 ==> month == Some(Ok::<ValueModel, Seq<char>>(ValueModel::Text("October"@)))
            &&& t.month == 11 ==> month == Some(Ok::<ValueModel, Seq<char>>(ValueModel::Text("November"@)))
            &&& t.month == 12 ==> month == Some(Ok::<ValueModel, Seq<char>>(ValueModel::Text("December"@)))
            &&& day matches Some(Ok(ValueModel::Text(name))) && time_call("isWeekend"@, Seq::empty(), now_ms, o) == Some(
                Ok::<ValueModel, Seq<char>>(ValueModel::Bool(name[0] == 'S')),
            )
        }),
{
    names_differ();
    reveal_strlit("Sunday");
    reveal_strlit("Monday");
    reveal_strlit("Tuesday");
    reveal_strlit("Wednesday");
    reveal_strlit("Thursday");
    reveal_strlit("Friday");
    reveal_strlit("Saturday");
}

/// A date is written as the year in four digits, the month in two and the day
/// in two, with dashes between them, and a time as the hour in two digits and
/// the minute in two, with a colon; each reads back as the number it shows.
pub proof fn dates_are_written_out(now_ms: u128, o: Oracle, t: LocalTime)
    requires
        now_ms <= u64::MAX,
        t.wf(),
        t.year <= 9999,
        o(AskModel::Local(now_ms as u64)) == AnswerModel::Local(t),
    ensures
        time_call("date"@, Seq::empty(), now_ms, o) matches Some(Ok(ValueModel::Text(s))) && s.len() == 10 && s[4] == '-'
            && s[7] == '-' && text::unsigned(s.subrange(0, 4), 9999) == Some(t.year as nat) && text::unsigned(
            s.subrange(5, 7),
            99,
        ) == Some(t.month as nat) && text::unsigned(s.subrange(8, 10), 99) == Some(t.day as nat),
        time_call("time"@, Seq::empty(), now_ms, o) matches Some(Ok(ValueModel::Text(s))) && s.len() == 5 && s[2] == ':'
            && text::unsigned(s.subrange(0, 2), 99) == Some(t.hour as nat) && text::unsigned(s.subrange(3, 5), 99)
            == Some(t.minute as nat),
{
    names_differ();
    reveal_strlit("-");
    reveal_strlit(":");
    padding_keeps_the_number(t.year as nat, 4, 9999);
    padding_keeps_the_number(t.month as nat, 2, 99);
    padding_keeps_the_number(t.day as nat, 2, 99);
    padding_keeps_the_number(t.hour as nat, 2, 99);
    padding_keeps_the_number(t.minute as nat, 2, 99);
    let d = date_text(t);
    assert(d.subrange(0, 4) =~= zero_padded(t.year as nat, 4));
    assert(d.subrange(5, 7) =~= zero_padded(t.month as nat, 2));
    assert(d.subrange(8, 10) =~= zero_padded(t.day as nat, 2));
    let c = time_text(t);
    assert(c.subrange(0, 2) =~= zero_padded(t.hour as nat, 2));
    assert(c.subrange(3, 5) =~= zero_padded(t.minute as nat, 2));
}

proof fn decimal_is_short(n: nat)
    ensures
        n <= 9 ==> text::decimal(n).len() == 1,
        n <= 99 ==> text::decimal(n).len() <= 2,
        n <= 999 ==> text::decimal(n).len() <= 3,
        n <= 9999 ==> text::decimal(n).len() <= 4,
{
    reveal_with_fuel(text::numeral, 5);
}

proof fn zeros_count_for_nothing(s: Seq<char>, k: nat)
    requires
        text::all_digits(s),
    ensures
        text::all_digits(Seq::new(k, |i: int| '0') + s),
        text::digits_value(Seq::new(k, |i: int| '0') + s) == text::digits_value(s),
    decreases k + s.len(),
{
    let zeros = Seq::new(k, |i: int| '0');
    let whole = zeros + s;
    assert forall|i: int| 0 <= i < whole.len() implies text::is_digit(#[trigger] whole[i]) by {
        if i >= k {
            assert(text::is_digit(s[i - k]));
        }
    }
    if s.len() > 0 {
        assert(whole.drop_last() =~= zeros + s.drop_last());
        assert forall|i: int| 0 <= i < s.drop_last().len() implies text::is_digit(#[trigger] s.drop_last()[i]) by {
            assert(text::is_digit(s[i]));
        }
        zeros_count_for_nothing(s.drop_last(), k);
    } else if k > 0 {
        let fewer = Seq::new((k - 1) as nat, |i: int| '0');
        assert(whole.drop_last() =~= fewer + s);
        zeros_count_for_nothing(s, (k - 1) as nat);
    } else {
        assert(whole =~= s);
    }
}

proof fn padding_keeps_the_number(n: nat, width: nat, max: nat)
    requires
        n <= max,
        width == 2 && max == 99 || width == 4 && max == 9999,
    ensures
        zero_padded(n, width).len() == width,
        text::unsigned(zero_padded(n, width), max) == Some(n),
{
    decimal_is_short(n);
    text::decimals_read_back(n);
    let s = text::decimal(n);
    if s.len() < width {
        zeros_count_for_nothing(s, (width - s.len()) as nat);
    }
    let p = zero_padded(n, width);
    assert(text::is_digit(p[0]));
}

/// `between` tells whether the minute of the local clock lies in the window of
/// two times of day: from the first to the second, both included, or through
/// midnight where the second comes first.
pub proof fn between_tells_the_window(
    start: Seq<char>,
    end: Seq<char>,
    now_ms: u128,
    o: Oracle,
    t: LocalTime,
    first: nat,
    last: nat,
)
    requires
        now_ms <= u64::MAX,
        t.wf(),
        o(AskModel::Local(now_ms as u64)) == AnswerModel::Local(t),
        clock::minutes_of(start) == Some(first),
        clock::minutes_of(end) == Some(last),
    ensures
        ({
            let minute = 60 * t.hour + t.minute;
            time_call("between"@, seq![ValueModel::Text(start), ValueModel::Text(end)], now_ms, o) == Some(
                Ok::<ValueModel, Seq<char>>(
                    ValueModel::Bool(
                        if first <= last {
                            first <= minute && minute <= last
                        } else {
                            minute >= first || minute <= last
                        },
                    ),
                ),
            )
        }),
        time_call("between"@, seq![ValueModel::Text(start)], now_ms, o) matches Some(r) && r is Err,
{
    names_differ();
    assert(clock::minutes_of(Seq::empty()) is None);
}

} // verus!
