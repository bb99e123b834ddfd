//! The clock, ids made from it, and labels.

use vstd::prelude::*;
use vstd::string::*;

use crate::automations::host::LocalTime;
use crate::calendar;
use crate::text;
use crate::text::{hex_text, trim};

verus! {

/// A time that a `std::time::Duration` can hold, whose seconds are a `u64`.
pub open spec fn is_duration_ms(ms: int) -> bool {
    0 <= ms <= 18_446_744_073_709_551_615_999
}

/// `SystemTime::now` as milliseconds since the epoch; zero before it. A
/// `Duration` holds the time in between; which it is depends on the clock, and
/// nothing more is said of it.
#[verifier::external_body]
fn system_time_ms() -> (ms: u128)
    ensures
        is_duration_ms(ms as int),
{
    std::time::SystemTime::now().duration_since(std::time::UNIX_EPOCH).unwrap_or_default().as_millis()
}

/// The system's clock can show `ms`.
pub closed spec fn clock_shows(ms: u128) -> bool {
    call_ensures(system_time_ms, (), ms)
}

/// Milliseconds since the epoch, by the system's clock.
pub fn now_ms() -> (ms: u128)
    ensures
        clock_shows(ms),
        is_duration_ms(ms as int),
{
    system_time_ms()
}

/// The last millisecond of the calendar.
pub const LAST_MOMENT_MS: u64 = 8_210_266_876_799_999;

/// A calendar and a clock show the second `s` since the epoch.
pub open spec fn shows(t: LocalTime, s: int) -> bool {
    &&& s / 86_400 == calendar::month_day(t.year as int, t.month as int) + t.day - 1
    &&& s % 86_400 == t.hour * 3600 + t.minute * 60 + t.second
    &&& t.weekday == (s / 86_400 + 4) % 7
}

/// A calendar and a clock show a moment as some time zone does, which lies less
/// than a day from Greenwich.
pub open spec fn shows_somewhere(t: LocalTime, ms: int) -> bool {
    exists|s: int| ms / 1000 - 86_400 < s < ms / 1000 + 86_400 && #[trigger] shows(t, s)
}

/// `chrono::DateTime::with_timezone` to `chrono::Local`, and the parts of the
/// calendar and the clock there. The parts are in their ranges, and show the
/// moment at a whole number of seconds from Greenwich, less than a day. Which
/// they are depends on the machine's time zone, of which no more is said.
#[verifier::external_body]
fn local_parts(ms: u64) -> (r: Option<LocalTime>)
    requires
        ms <= LAST_MOMENT_MS,
    ensures
        r is Some,
        (r->0).wf(),
        shows_somewhere(r->0, ms as int),
{
    chrono::DateTime::from_timestamp_millis(ms as i64).map(|utc| utc.with_timezone(&chrono::Local)).map(
        |at| LocalTime {
            year: chrono::Datelike::year(&at),
            month: chrono::Datelike::month(&at),
            day: chrono::Datelike::day(&at),
            hour: chrono::Timelike::hour(&at),
            minute: chrono::Timelike::minute(&at),
            second: chrono::Timelike::second(&at),
            weekday: chrono::Datelike::weekday(&at).num_days_from_sunday(),
        },
    )
}

/// The machine's time zone can show a moment so.
pub closed spec fn zone_shows(ms: u64, t: LocalTime) -> bool {
    call_ensures(local_parts, (ms,), Some(t))
}

/// The local calendar and clock at a moment; nothing for a moment beyond the
/// calendar. Which they are depends on the machine's time zone.
pub fn local_time(ms: u64) -> (r: Option<LocalTime>)
    ensures
        r is Some <==> ms <= LAST_MOMENT_MS,
        r matches Some(t) ==> t.wf() && shows_somewhere(t, ms as int) && zone_shows(ms, t),
{
    if ms <= LAST_MOMENT_MS {
        local_parts(ms)
    } else {
        None
    }
}

/// An id made of a moment and a count, both in hexadecimal, behind a prefix.
pub open spec fn stamped(prefix: Seq<char>, now_ms: u128, seq: u64) -> Seq<char> {
    prefix + text::numeral(now_ms as nat, 16) + "-"@ + text::numeral(seq as nat, 16)
}

/// Makes an id of a moment and a count.
pub fn stamped_id(prefix: &str, now_ms: u128, seq: u64) -> (id: String)
    ensures
        id@ == stamped(prefix@, now_ms, seq),
{
    let mut id = prefix.to_owned();
    id.append(hex_text(now_ms).as_str());
    id.append("-");
    id.append(hex_text(seq as u128).as_str());
    id
}

/// The label without outer white space, if anything is left of it.
pub open spec fn label_of(s: Seq<char>) -> Option<Seq<char>> {
    if text::trimmed(s).len() == 0 {
        None
    } else {
        Some(text::trimmed(s))
    }
}

/// A label, if one is given and anything is left of it.
pub open spec fn label_in(s: Option<Seq<char>>) -> Option<Seq<char>> {
    match s {
        Some(t) => label_of(t),
        None => None,
    }
}

/// The label without outer white space, if anything is left of it.
pub fn non_empty_label(label: String) -> (r: Option<String>)
    ensures
        r.deep_view() == label_of(label@),
{
    let trimmed = trim(label.as_str());
    if trimmed.as_str().is_empty() {
        None
    } else {
        Some(trimmed)
    }
}

/// A label, if one is given and anything is left of it.
pub fn optional_label(label: Option<String>) -> (r: Option<String>)
    ensures
        r.deep_view() == label_in(label.deep_view()),
{
    match label {
        Some(s) => non_empty_label(s),
        None => None,
    }
}

/// A label is its text without the space round it, and none where nothing is
/// left of it.
pub proof fn labels_are_trimmed(s: Seq<char>)
    ensures
        label_in(None) is None,
        text::trimmed(s).len() == 0 ==> label_in(Some(s)) is None,
        text::trimmed(s).len() > 0 ==> label_in(Some(s)) == Some(text::trimmed(s)),
        label_in(label_in(Some(s))) == label_in(Some(s)),
{
    text::trimmed_has_no_outer_space(s);
}

/// An id is its prefix, the moment and a number, both in base sixteen, with a
/// dash between them.
pub proof fn ids_tell_their_moment(prefix: Seq<char>, now: u128, seq: u64)
    ensures
        text::begins(stamped(prefix, now, seq), prefix),
        stamped(prefix, now, seq).len() == prefix.len() + text::numeral(now as nat, 16).len() + 1 + text::numeral(
            seq as nat,
            16,
        ).len(),
        text::finishes(stamped(prefix, now, seq), text::numeral(seq as nat, 16)),
        stamped(prefix, now, seq)[(prefix.len() + text::numeral(now as nat, 16).len()) as int] == '-',
        stamped(prefix, now, seq).subrange(
            prefix.len() as int,
            (prefix.len() + text::numeral(now as nat, 16).len()) as int,
        ) == text::numeral(now as nat, 16),
{
    reveal_strlit("-");
    let a = text::numeral(now as nat, 16);
    let b = text::numeral(seq as nat, 16);
    let s = stamped(prefix, now, seq);
    assert(s.subrange(0, prefix.len() as int) =~= prefix);
    assert(s.subrange(s.len() - b.len(), s.len() as int) =~= b);
    assert(s.subrange(prefix.len() as int, (prefix.len() + a.len()) as int) =~= a);
}

} // verus!
