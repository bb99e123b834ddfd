//! Times of day.

use vstd::prelude::*;

use crate::text;
use crate::text::{parse_unsigned, split_once, trim};

verus! {

/// The minutes since midnight that a time of day "HH:MM" writes.
pub open spec fn minutes_of(s: Seq<char>) -> Option<nat> {
    match text::parted(text::trimmed(s), ':') {
        None => None,
        Some((h, m)) => match (
            text::unsigned(text::trimmed(h), u32::MAX as nat),
            text::unsigned(text::trimmed(m), u32::MAX as nat),
        ) {
            (Some(hours), Some(minutes)) => if hours > 23 || minutes > 59 {
                None
            } else {
                Some(hours * 60 + minutes)
            },
            _ => None,
        },
    }
}

/// Reads "HH:MM" as minutes since midnight.
pub fn parse_hhmm(s: &str) -> (r: Option<u32>)
    ensures
        match r {
            Some(n) => minutes_of(s@) == Some(n as nat) && n <= 1439,
            None => minutes_of(s@) is None,
        },
{
    let (h, m) = match split_once(trim(s).as_str(), ':') {
        Some(parts) => parts,
        None => {
            return None;
        },
    };
    let hours: u64 = match parse_unsigned(trim(h.as_str()).as_str(), u32::MAX as u64) {
        Some(n) => n,
        None => {
            return None;
        },
    };
    let minutes: u64 = match parse_unsigned(trim(m.as_str()).as_str(), u32::MAX as u64) {
        Some(n) => n,
        None => {
            return None;
        },
    };
    if hours > 23 || minutes > 59 {
        return None;
    }
    Some((hours * 60 + minutes) as u32)
}

/// The minute `now` lies in the window from `start` to `end`, both included. A
/// window whose start is after its end runs past midnight.
pub open spec fn in_window(now: int, start: int, end: int) -> bool {
    if start <= end {
        start <= now <= end
    } else {
        now >= start || now <= end
    }
}

/// Whether the minute `now` lies in the window from `start` to `end`.
pub fn time_in_window(now: u32, start: u32, end: u32) -> (b: bool)
    ensures
        b == in_window(now as int, start as int, end as int),
{
    if start <= end {
        now >= start && now <= end
    } else {
        now >= start || now <= end
    }
}

/// A window and the window from its end to its start cover the whole day, and
/// share only their two bounds.
pub proof fn windows_complement(now: int, start: int, end: int)
    requires
        start != end,
    ensures
        in_window(now, start, end) || in_window(now, end, start),
        in_window(now, start, end) && in_window(now, end, start) ==> now == start || now == end,
{
}

/// A time of day is the minutes of its hours and its minutes, both in decimal
/// with a colon between them; there is none from 24 hours on, nor with 60
/// minutes or more.
pub proof fn times_of_day_are_minutes(hours: nat, minutes: nat)
    requires
        hours <= u32::MAX,
        minutes <= u32::MAX,
    ensures
        minutes_of(text::decimal(hours) + seq![':'] + text::decimal(minutes)) == if hours < 24 && minutes < 60 {
            Some(60 * hours + minutes)
        } else {
            None
        },
{
    let h = text::decimal(hours);
    let m = text::decimal(minutes);
    let s = h + seq![':'] + m;
    text::decimals_read_back(hours);
    text::decimals_read_back(minutes);
    text::decimal_is_trimmed(hours);
    text::decimal_is_trimmed(minutes);
    text::unsigned_reads_decimal(hours, u32::MAX as nat);
    text::unsigned_reads_decimal(minutes, u32::MAX as nat);
    assert(text::is_digit(h[0]) && s[0] == h[0]);
    assert(text::is_digit(m.last()) && s.last() == m.last());
    assert(text::trimmed(s) == s);
    text::parting_is_at_the_first(s, ':');
    assert(s[h.len() as int] == ':');
    assert(s.contains(':'));
    let (head, tail) = text::parted(s, ':')->0;
    assert(s == head + seq![':'] + tail);
    let k = head.len() as int;
    if k < h.len() {
        assert(text::is_digit(h[k]));
        assert((h + seq![':'] + m)[k] == h[k]);
        assert((head + seq![':'] + tail)[k] == ':');
    } else if k > h.len() {
        assert((head + seq![':'] + tail)[h.len() as int] == head[h.len() as int]);
        assert(head.contains(':'));
    }
    assert forall|i: int| 0 <= i < h.len() implies head[i] == h[i] by {
        assert((head + seq![':'] + tail)[i] == (h + seq![':'] + m)[i]);
    }
    assert forall|i: int| 0 <= i < m.len() implies tail[i] == m[i] by {
        assert((head + seq![':'] + tail)[k + 1 + i] == (h + seq![':'] + m)[k + 1 + i]);
    }
    assert(head =~= h);
    assert(tail =~= m);
}

/// A window that ends before it starts runs through midnight; any other runs
/// from its start to its end. Both ends belong to it.
pub proof fn windows_hold_their_ends(now: int, start: int, end: int)
    ensures
        in_window(start, start, end) && in_window(end, start, end),
        start <= end ==> (in_window(now, start, end) <==> start <= now <= end),
        start > end ==> (in_window(now, start, end) <==> !(end < now < start)),
{
}

} // verus!
