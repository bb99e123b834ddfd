//! What devices have used: which histories can be asked for, how they are cut
//! into requests, and how what comes back is put together.
//!
//! Moments are nanoseconds since the epoch, dates are days since it.

use vstd::prelude::*;
use vstd::string::*;

use crate::automations::coerce;
use crate::automations::host;
use crate::automations::host::{ask_bits, Answer, AnswerModel, Ask, AskModel, BinaryMath, Oracle};
use crate::calendar;
use crate::calendar::{
    current_quarter_start, current_year_start, date_start_datetime, day_number, is_earlier, stamp_at, stamp_millis,
    stamp_text, year_start, Stamp, DAY_NS, FIRST_DAY, SECOND_NS,
};
use crate::devices::{DeviceConfig, DeviceConfigModel, DeviceModel, ManagedDevice, ManagedDeviceModel};
use crate::dup::Dup;
use crate::lists;
use crate::table;
use crate::table::Table;
use crate::text;
use crate::text::{around, same};
use crate::value::NOT_A_NUMBER;

verus! {

/// The first year of all.
pub const ALL_TIME_USAGE_START_YEAR: i32 = 2020;

/// Half a day in nanoseconds: so much can be read every five minutes at once.
pub const HALF_DAY_NS: i128 = 43_200_000_000_000;

/// Six days in nanoseconds: so much can be read every hour at once.
pub const SIX_DAYS_NS: i128 = 518_400_000_000_000;

/// How finely power is read.
#[derive(Debug, Clone, Copy, PartialEq, Eq, Structural)]
pub enum PowerExportInterval {
    Every5Minutes,
    Hourly,
}

impl DeepView for PowerExportInterval {
    type V = PowerExportInterval;

    open spec fn deep_view(&self) -> PowerExportInterval {
        *self
    }
}

impl Dup for PowerExportInterval {
    fn dup(&self) -> (r: Self) {
        *self
    }
}

/// Where a history starts.
#[derive(Debug, Clone, Copy, PartialEq, Eq, Structural)]
pub enum UsageHistoryStart {
    /// So many nanoseconds ago.
    Duration(i128),
    /// With the year.
    YearToDate,
    /// With the first year of all.
    AllTime,
}

/// What a history shows.
#[derive(Debug, Clone, Copy, PartialEq, Eq, Structural)]
pub enum UsageHistoryKind {
    /// Power, read in parts of at most so many nanoseconds.
    Power { interval: PowerExportInterval, range_limit: i128 },
    EnergyDaily,
    EnergyMonthly,
}

/// A history that can be asked for.
pub struct UsageHistoryRange {
    pub key: &'static str,
    pub label: &'static str,
    pub interval_label: &'static str,
    pub unit: &'static str,
    pub start: UsageHistoryStart,
    pub kind: UsageHistoryKind,
}

/// What a `UsageHistoryRange` holds.
#[verifier::ext_equal]
pub struct UsageHistoryRangeModel {
    pub key: Seq<char>,
    pub label: Seq<char>,
    pub interval_label: Seq<char>,
    pub unit: Seq<char>,
    pub start: UsageHistoryStart,
    pub kind: UsageHistoryKind,
}

impl DeepView for UsageHistoryRange {
    type V = UsageHistoryRangeModel;

    open spec fn deep_view(&self) -> UsageHistoryRangeModel {
        UsageHistoryRangeModel {
            key: self.key@,
            label: self.label@,
            interval_label: self.interval_label@,
            unit: self.unit@,
            start: self.start,
            kind: self.kind,
        }
    }
}

/// A device whose use can be read.
pub struct ExportDevice {
    pub name: String,
    pub config: DeviceConfig,
}

/// The contents of `ExportDevice`.
#[verifier::ext_equal]
pub struct ExportDeviceModel {
    pub name: Seq<char>,
    pub config: DeviceConfigModel,
}

impl DeepView for ExportDevice {
    type V = ExportDeviceModel;

    open spec fn deep_view(&self) -> ExportDeviceModel {
        ExportDeviceModel {
            name: self.name.deep_view(),
            config: self.config.deep_view(),
        }
    }
}

impl Dup for ExportDevice {
    fn dup(&self) -> (r: Self) {
        ExportDevice {
            name: self.name.dup(),
            config: self.config.dup(),
        }
    }
}

/// What was used at one moment.
pub struct ExportRow {
    pub timestamp: Stamp,
    /// Doubles by device, as bit patterns.
    pub values: Table<u64>,
}

/// The contents of `ExportRow`.
#[verifier::ext_equal]
pub struct ExportRowModel {
    pub timestamp: Stamp,
    pub values: Seq<(Seq<char>, u64)>,
}

impl DeepView for ExportRow {
    type V = ExportRowModel;

    open spec fn deep_view(&self) -> ExportRowModel {
        ExportRowModel {
            timestamp: self.timestamp,
            values: self.values.deep_view(),
        }
    }
}

impl Dup for ExportRow {
    fn dup(&self) -> (r: Self) {
        ExportRow {
            timestamp: self.timestamp,
            values: self.values.dup(),
        }
    }
}

/// What was used at one moment.
#[derive(Debug, Clone, Copy, PartialEq, Eq, Structural)]
pub struct UsageHistoryPoint {
    pub timestamp_ms: i64,
    /// The bit pattern of a double.
    pub value: u64,
}

impl DeepView for UsageHistoryPoint {
    type V = UsageHistoryPoint;

    open spec fn deep_view(&self) -> UsageHistoryPoint {
        *self
    }
}

impl Dup for UsageHistoryPoint {
    fn dup(&self) -> (r: Self) {
        *self
    }
}

/// What a device says of one moment.
#[derive(Debug, Clone, Copy, PartialEq, Eq, Structural)]
pub struct Reading {
    pub timestamp: Stamp,
    /// The bit pattern of a double, if there is a value.
    pub value: Option<u64>,
}

impl DeepView for Reading {
    type V = Reading;

    open spec fn deep_view(&self) -> Reading {
        *self
    }
}

impl Dup for Reading {
    fn dup(&self) -> (r: Self) {
        *self
    }
}

/// What came back from a device.
pub enum ReadOutcome {
    Read { entries: Vec<Reading> },
    Failed { message: String },
}

/// The contents of `ReadOutcome`.
#[verifier::ext_equal]
pub enum ReadOutcomeModel {
    Read { entries: Seq<Reading> },
    Failed { message: Seq<char> },
}

impl DeepView for ReadOutcome {
    type V = ReadOutcomeModel;

    open spec fn deep_view(&self) -> ReadOutcomeModel {
        match self {
            ReadOutcome::Read { entries } => ReadOutcomeModel::Read { entries: entries.deep_view() },
            ReadOutcome::Failed { message } => ReadOutcomeModel::Failed { message: message.deep_view() },
        }
    }
}

impl Dup for ReadOutcome {
    fn dup(&self) -> (r: Self) {
        match self {
            ReadOutcome::Read { entries } => ReadOutcome::Read { entries: entries.dup() },
            ReadOutcome::Failed { message } => ReadOutcome::Failed { message: message.dup() },
        }
    }
}

/// What came back from a device, under its name.
pub struct DeviceReadings {
    pub device_name: String,
    pub outcome: ReadOutcome,
}

/// The contents of `DeviceReadings`.
#[verifier::ext_equal]
pub struct DeviceReadingsModel {
    pub device_name: Seq<char>,
    pub outcome: ReadOutcomeModel,
}

impl DeepView for DeviceReadings {
    type V = DeviceReadingsModel;

    open spec fn deep_view(&self) -> DeviceReadingsModel {
        DeviceReadingsModel {
            device_name: self.device_name.deep_view(),
            outcome: self.outcome.deep_view(),
        }
    }
}

impl Dup for DeviceReadings {
    fn dup(&self) -> (r: Self) {
        DeviceReadings {
            device_name: self.device_name.dup(),
            outcome: self.outcome.dup(),
        }
    }
}

/// A device that could not be read.
pub struct ReadError {
    pub device_name: String,
    pub message: String,
}

/// The contents of `ReadError`.
#[verifier::ext_equal]
pub struct ReadErrorModel {
    pub device_name: Seq<char>,
    pub message: Seq<char>,
}

impl DeepView for ReadError {
    type V = ReadErrorModel;

    open spec fn deep_view(&self) -> ReadErrorModel {
        ReadErrorModel {
            device_name: self.device_name.deep_view(),
            message: self.message.deep_view(),
        }
    }
}

impl Dup for ReadError {
    fn dup(&self) -> (r: Self) {
        ReadError {
            device_name: self.device_name.dup(),
            message: self.message.dup(),
        }
    }
}

/// What one device used.
pub struct UsageHistorySeries {
    pub device_name: String,
    pub points: Vec<UsageHistoryPoint>,
}

/// The contents of `UsageHistorySeries`.
#[verifier::ext_equal]
pub struct UsageHistorySeriesModel {
    pub device_name: Seq<char>,
    pub points: Seq<UsageHistoryPoint>,
}

impl DeepView for UsageHistorySeries {
    type V = UsageHistorySeriesModel;

    open spec fn deep_view(&self) -> UsageHistorySeriesModel {
        UsageHistorySeriesModel {
            device_name: self.device_name.deep_view(),
            points: self.points.deep_view(),
        }
    }
}

impl Dup for UsageHistorySeries {
    fn dup(&self) -> (r: Self) {
        UsageHistorySeries {
            device_name: self.device_name.dup(),
            points: self.points.dup(),
        }
    }
}

/// A history of what the devices used.
pub struct UsageHistoryResponse {
    pub series: Vec<UsageHistorySeries>,
    pub totals: Vec<UsageHistoryPoint>,
    pub errors: Vec<ReadError>,
    pub updated_at_ms: u128,
    pub range: String,
    pub range_label: String,
    pub interval: String,
    pub start_date: String,
    pub end_date: String,
    pub unit: String,
}

/// The contents of `UsageHistoryResponse`.
#[verifier::ext_equal]
pub struct UsageHistoryResponseModel {
    pub series: Seq<UsageHistorySeriesModel>,
    pub totals: Seq<UsageHistoryPoint>,
    pub errors: Seq<ReadErrorModel>,
    pub updated_at_ms: u128,
    pub range: Seq<char>,
    pub range_label: Seq<char>,
    pub interval: Seq<char>,
    pub start_date: Seq<char>,
    pub end_date: Seq<char>,
    pub unit: Seq<char>,
}

impl DeepView for UsageHistoryResponse {
    type V = UsageHistoryResponseModel;

    open spec fn deep_view(&self) -> UsageHistoryResponseModel {
        UsageHistoryResponseModel {
            series: self.series.deep_view(),
            totals: self.totals.deep_view(),
            errors: self.errors.deep_view(),
            updated_at_ms: self.updated_at_ms.deep_view(),
            range: self.range.deep_view(),
            range_label: self.range_label.deep_view(),
            interval: self.interval.deep_view(),
            start_date: self.start_date.deep_view(),
            end_date: self.end_date.deep_view(),
            unit: self.unit.deep_view(),
        }
    }
}

impl Dup for UsageHistoryResponse {
    fn dup(&self) -> (r: Self) {
        UsageHistoryResponse {
            series: self.series.dup(),
            totals: self.totals.dup(),
            errors: self.errors.dup(),
            updated_at_ms: self.updated_at_ms.dup(),
            range: self.range.dup(),
            range_label: self.range_label.dup(),
            interval: self.interval.dup(),
            start_date: self.start_date.dup(),
            end_date: self.end_date.dup(),
            unit: self.unit.dup(),
        }
    }
}

// ---------- Histories ----------

/// A history of power over the last `seconds`, read in parts of half a day every
/// five minutes, or of six days every hour.
pub open spec fn power_history(key: Seq<char>, label: Seq<char>, seconds: u32, hourly: bool) -> UsageHistoryRangeModel {
    UsageHistoryRangeModel {
        key,
        label,
        interval_label: if hourly {
            "hourly"@
        } else {
            "5-minute"@
        },
        unit: "W"@,
        start: ago(seconds),
        kind: if hourly {
            UsageHistoryKind::Power { interval: PowerExportInterval::Hourly, range_limit: SIX_DAYS_NS }
        } else {
            UsageHistoryKind::Power { interval: PowerExportInterval::Every5Minutes, range_limit: HALF_DAY_NS }
        },
    }
}

/// So many seconds ago.
pub open spec fn ago(seconds: u32) -> UsageHistoryStart {
    UsageHistoryStart::Duration((seconds * 1_000_000_000) as i128)
}

fn start_ago(seconds: u32) -> (r: UsageHistoryStart)
    ensures
        r == ago(seconds),
{
    UsageHistoryStart::Duration(seconds as i128 * SECOND_NS)
}

fn make_power(key: &'static str, label: &'static str, seconds: u32, hourly: bool) -> (r: UsageHistoryRange)
    ensures
        r.deep_view() == power_history(key@, label@, seconds, hourly),
{
    UsageHistoryRange {
        key,
        label,
        interval_label: if hourly {
            "hourly"
        } else {
            "5-minute"
        },
        unit: "W",
        start: start_ago(seconds),
        kind: if hourly {
            UsageHistoryKind::Power { interval: PowerExportInterval::Hourly, range_limit: SIX_DAYS_NS }
        } else {
            UsageHistoryKind::Power { interval: PowerExportInterval::Every5Minutes, range_limit: HALF_DAY_NS }
        },
    }
}

/// A history of energy, by the day or by the month.
pub open spec fn energy_history(
    key: Seq<char>,
    label: Seq<char>,
    start: UsageHistoryStart,
    monthly: bool,
) -> UsageHistoryRangeModel {
    UsageHistoryRangeModel {
        key,
        label,
        interval_label: if monthly {
            "monthly energy"@
        } else {
            "daily energy"@
        },
        unit: "kWh"@,
        start,
        kind: if monthly {
            UsageHistoryKind::EnergyMonthly
        } else {
            UsageHistoryKind::EnergyDaily
        },
    }
}

fn make_energy(key: &'static str, label: &'static str, start: UsageHistoryStart, monthly: bool) -> (r:
    UsageHistoryRange)
    ensures
        r.deep_view() == energy_history(key@, label@, start, monthly),
{
    UsageHistoryRange {
        key,
        label,
        interval_label: if monthly {
            "monthly energy"
        } else {
            "daily energy"
        },
        unit: "kWh",
        start,
        kind: if monthly {
            UsageHistoryKind::EnergyMonthly
        } else {
            UsageHistoryKind::EnergyDaily
        },
    }
}

/// The history that a key names; an unknown key, or none, names the last seven
/// days.
pub open spec fn history_of(key: Option<Seq<char>>) -> UsageHistoryRangeModel {
    let k = match key {
        Some(k) => k,
        None => ""@,
    };
    if k == "5m"@ {
        power_history("5m"@, "5 minutes"@, 300, false)
    } else if k == "30m"@ {
        power_history("30m"@, "30 minutes"@, 1_800, false)
    } else if k == "1h"@ {
        power_history("1h"@, "1 hour"@, 3_600, false)
    } else if k == "6h"@ {
        power_history("6h"@, "6 hours"@, 21_600, false)
    } else if k == "12h"@ {
        power_history("12h"@, "12 hours"@, 43_200, false)
    } else if k == "1d"@ {
        power_history("1d"@, "1 day"@, 86_400, false)
    } else if k == "3d"@ {
        power_history("3d"@, "3 days"@, 259_200, true)
    } else if k == "30d"@ {
        power_history("30d"@, "30 days"@, 2_592_000, true)
    } else if k == "3m"@ {
        energy_history("3m"@, "3 months"@, ago(7_948_800), false)
    } else if k == "6m"@ {
        energy_history("6m"@, "6 months"@, ago(15_811_200), false)
    } else if k == "1y"@ {
        energy_history("1y"@, "1 year"@, ago(31_536_000), false)
    } else if k == "ytd"@ {
        energy_history("ytd"@, "year to date"@, UsageHistoryStart::YearToDate, false)
    } else if k == "all"@ {
        energy_history("all"@, "all time"@, UsageHistoryStart::AllTime, true)
    } else {
        power_history("7d"@, "7 days"@, 604_800, true)
    }
}

/// The history that a key names.
pub fn usage_history_range(range_key: Option<&str>) -> (r: UsageHistoryRange)
    ensures
        r.deep_view() == history_of(range_key.deep_view()),
{
    let k = match range_key {
        Some(k) => k,
        None => "",
    };
    if same(k, "5m") {
        make_power("5m", "5 minutes", 300, false)
    } else if same(k, "30m") {
        make_power("30m", "30 minutes", 1_800, false)
    } else if same(k, "1h") {
        make_power("1h", "1 hour", 3_600, false)
    } else if same(k, "6h") {
        make_power("6h", "6 hours", 21_600, false)
    } else if same(k, "12h") {
        make_power("12h", "12 hours", 43_200, false)
    } else if same(k, "1d") {
        make_power("1d", "1 day", 86_400, false)
    } else if same(k, "3d") {
        make_power("3d", "3 days", 259_200, true)
    } else if same(k, "30d") {
        make_power("30d", "30 days", 2_592_000, true)
    } else if same(k, "3m") {
        make_energy("3m", "3 months", start_ago(7_948_800), false)
    } else if same(k, "6m") {
        make_energy("6m", "6 months", start_ago(15_811_200), false)
    } else if same(k, "1y") {
        make_energy("1y", "1 year", start_ago(31_536_000), false)
    } else if same(k, "ytd") {
        make_energy("ytd", "year to date", UsageHistoryStart::YearToDate, false)
    } else if same(k, "all") {
        make_energy("all", "all time", UsageHistoryStart::AllTime, true)
    } else {
        make_power("7d", "7 days", 604_800, true)
    }
}

/// Asking for a history by the key that it goes by gives the same history.
pub proof fn histories_go_by_their_keys(key: Option<Seq<char>>)
    ensures
        history_of(Some(history_of(key).key)) == history_of(key),
{
    reveal_strlit("");
    reveal_strlit("5m");
    reveal_strlit("30m");
    reveal_strlit("1h");
    reveal_strlit("6h");
    reveal_strlit("12h");
    reveal_strlit("1d");
    reveal_strlit("3d");
    reveal_strlit("30d");
    reveal_strlit("3m");
    reveal_strlit("6m");
    reveal_strlit("1y");
    reveal_strlit("ytd");
    reveal_strlit("all");
    reveal_strlit("7d");
    assert("7d"@[0] == '7' && "7d"@[1] == 'd' && "7d"@.len() == 2);
    assert("5m"@[0] == '5' && "1h"@[0] == '1' && "6h"@[0] == '6' && "1d"@[0] == '1' && "3d"@[0] == '3');
    assert("3m"@[0] == '3' && "6m"@[0] == '6' && "1y"@[0] == '1');
    assert("30m"@.len() == 3 && "12h"@.len() == 3 && "30d"@.len() == 3 && "ytd"@.len() == 3 && "all"@.len() == 3);
}

/// What counts back from now does so by some time, and what is read in parts is
/// read in parts that are not empty.
pub proof fn histories_look_back(key: Option<Seq<char>>)
    ensures
        history_of(key).start matches UsageHistoryStart::Duration(ns) ==> ns > 0,
        history_of(key).kind matches UsageHistoryKind::Power { interval, range_limit } ==> range_limit > 0,
{
}

// ---------- Where a history starts ----------

/// Where a history starts that ends now. A span that leads out of the calendar
/// counts for nothing.
pub open spec fn start_of(start: UsageHistoryStart, now: int) -> int {
    match start {
        UsageHistoryStart::Duration(ns) => if calendar::in_calendar(now - ns) {
            now - ns
        } else {
            now
        },
        UsageHistoryStart::YearToDate => calendar::year_day(calendar::year_of(calendar::day_of(now)))
            * 86_400_000_000_000,
        UsageHistoryStart::AllTime => calendar::year_day(2020) * 86_400_000_000_000,
    }
}

fn is_in_calendar(ns: i128) -> (r: bool)
    ensures
        r == calendar::in_calendar(ns as int),
{
    -8_334_601_228_800_000_000_000 <= ns && ns < 8_210_266_876_800_000_000_000
}

fn back_from(now: i128, ns: i128) -> (r: Option<i128>)
    ensures
        match r {
            Some(at) => at == now - ns && calendar::in_calendar(now - ns),
            None => !calendar::in_calendar(now - ns),
        },
{
    match now.checked_sub(ns) {
        Some(at) => if is_in_calendar(at) {
            Some(at)
        } else {
            None
        },
        None => None,
    }
}

/// Where a history starts that ends now.
pub fn usage_history_start_datetime(start: UsageHistoryStart, now: i128) -> (r: i128)
    requires
        calendar::in_calendar(now as int),
    ensures
        r == start_of(start, now as int),
        calendar::in_calendar(r as int),
{
    match start {
        UsageHistoryStart::Duration(ns) => match back_from(now, ns) {
            Some(at) => at,
            None => now,
        },
        UsageHistoryStart::YearToDate => date_start_datetime(current_year_start(day_number(now))),
        UsageHistoryStart::AllTime => date_start_datetime(year_start(ALL_TIME_USAGE_START_YEAR)),
    }
}

// ---------- Cutting a span into requests ----------

/// The span from `start` to `end`, cut into parts of at most `limit`.
pub open spec fn spans(start: int, end: int, limit: int) -> Seq<(i128, i128)>
    decreases end - start,
{
    if start >= end || limit <= 0 {
        Seq::empty()
    } else if end - start <= limit {
        seq![(start as i128, end as i128)]
    } else {
        seq![(start as i128, (start + limit) as i128)] + spans(start + limit, end, limit)
    }
}

/// The span from `start` to `end`, cut into parts of at most `limit`.
pub fn split_datetime_ranges(start: i128, end: i128, limit: i128) -> (r: Vec<(i128, i128)>)
    requires
        limit > 0,
    ensures
        r@ == spans(start as int, end as int, limit as int),
{
    let mut ranges: Vec<(i128, i128)> = Vec::new();
    let mut cursor: i128 = start;
    proof {
        assert(ranges@ + spans(start as int, end as int, limit as int) =~= spans(
            start as int,
            end as int,
            limit as int,
        ));
    }
    while cursor < end
        invariant
            limit > 0,
            ranges@ + spans(cursor as int, end as int, limit as int) == spans(
                start as int,
                end as int,
                limit as int,
            ),
        decreases end - cursor,
    {
        let ghost had = ranges@;
        let next: i128 = match cursor.checked_add(limit) {
            Some(next) => if next < end {
                next
            } else {
                end
            },
            None => end,
        };
        ranges.push((cursor, next));
        proof {
            assert(ranges@ + spans(next as int, end as int, limit as int) =~= had + spans(
                cursor as int,
                end as int,
                limit as int,
            ));
        }
        cursor = next;
    }
    proof {
        assert(spans(cursor as int, end as int, limit as int) =~= Seq::<(i128, i128)>::empty());
        assert(ranges@ + Seq::<(i128, i128)>::empty() =~= ranges@);
    }
    ranges
}

/// The parts of a span follow each other without a gap from its start to its
/// end, and none is empty or longer than the limit.
pub proof fn spans_cover(start: int, end: int, limit: int)
    requires
        i128::MIN <= start < end <= i128::MAX,
        limit > 0,
    ensures
        spans(start, end, limit).len() > 0,
        spans(start, end, limit)[0].0 == start,
        spans(start, end, limit).last().1 == end,
        forall|i: int|
            0 <= i < spans(start, end, limit).len() ==> 0 < (#[trigger] spans(start, end, limit)[i]).1 - spans(
                start,
                end,
                limit,
            )[i].0 <= limit,
        forall|i: int, j: int|
            0 <= i < spans(start, end, limit).len() && j == i + 1 && j < spans(start, end, limit).len() ==> (
            #[trigger] spans(start, end, limit)[i]).1 == (#[trigger] spans(start, end, limit)[j]).0,
    decreases end - start,
{
    let s = spans(start, end, limit);
    if end - start > limit {
        let rest = spans(start + limit, end, limit);
        spans_cover(start + limit, end, limit);
        assert(s =~= seq![(start as i128, (start + limit) as i128)] + rest);
        assert forall|i: int| 0 <= i < s.len() implies 0 < (#[trigger] s[i]).1 - s[i].0 <= limit by {
            if i > 0 {
                assert(s[i] == rest[i - 1]);
            }
        }
        assert forall|i: int, j: int| 0 <= i < s.len() && j == i + 1 && j < s.len() implies (#[trigger] s[i]).1 == (
        #[trigger] s[j]).0 by {
            assert(s[j] == rest[j - 1]);
            if i > 0 {
                assert(s[i] == rest[i - 1]);
            }
        }
        assert(s.last() == rest.last());
    }
}

// ---------- Sheets ----------

/// What a sheet of the workbook is read from.
pub enum ExportKind {
    EnergyHourly { start_day: i64, end_day: i64 },
    EnergyDaily { start_day: i64 },
    EnergyMonthly { start_day: i64 },
    PowerEvery5Minutes { ranges: Vec<(i128, i128)> },
    PowerHourly { ranges: Vec<(i128, i128)> },
}

/// What an `ExportKind` holds.
#[verifier::ext_equal]
pub enum ExportKindModel {
    EnergyHourly { start_day: i64, end_day: i64 },
    EnergyDaily { start_day: i64 },
    EnergyMonthly { start_day: i64 },
    PowerEvery5Minutes { ranges: Seq<(i128, i128)> },
    PowerHourly { ranges: Seq<(i128, i128)> },
}

impl DeepView for ExportKind {
    type V = ExportKindModel;

    open spec fn deep_view(&self) -> ExportKindModel {
        match self {
            ExportKind::EnergyHourly { start_day, end_day } => ExportKindModel::EnergyHourly {
                start_day: *start_day,
                end_day: *end_day,
            },
            ExportKind::EnergyDaily { start_day } => ExportKindModel::EnergyDaily { start_day: *start_day },
            ExportKind::EnergyMonthly { start_day } => ExportKindModel::EnergyMonthly { start_day: *start_day },
            ExportKind::PowerEvery5Minutes { ranges } => ExportKindModel::PowerEvery5Minutes { ranges: ranges@ },
            ExportKind::PowerHourly { ranges } => ExportKindModel::PowerHourly { ranges: ranges@ },
        }
    }
}

/// A sheet of the workbook.
pub struct ExportSpec {
    pub sheet_name: &'static str,
    pub value_format: &'static str,
    pub kind: ExportKind,
}

/// What an `ExportSpec` holds.
#[verifier::ext_equal]
pub struct ExportSpecModel {
    pub sheet_name: Seq<char>,
    pub value_format: Seq<char>,
    pub kind: ExportKindModel,
}

impl DeepView for ExportSpec {
    type V = ExportSpecModel;

    open spec fn deep_view(&self) -> ExportSpecModel {
        ExportSpecModel {
            sheet_name: self.sheet_name@,
            value_format: self.value_format@,
            kind: self.kind.deep_view(),
        }
    }
}

/// The sheets of a workbook that is made now; none where the calendar does not
/// reach back so far.
pub open spec fn sheets(now: int) -> Result<Seq<ExportSpecModel>, Seq<char>> {
    let today = calendar::day_of(now);
    if !calendar::is_day(today - 6) {
        Err("failed to calculate weekly energy export start date"@)
    } else if !calendar::in_calendar(now - 604_800_000_000_000) {
        Err("failed to calculate weekly power export start time"@)
    } else {
        Ok(
            seq![
                ExportSpecModel {
                    sheet_name: "Energy - Hourly (last week)"@,
                    value_format: "0.000"@,
                    kind: ExportKindModel::EnergyHourly { start_day: (today - 6) as i64, end_day: today as i64 },
                },
                ExportSpecModel {
                    sheet_name: "Energy - Daily (last 3 mo)"@,
                    value_format: "0.000"@,
                    kind: ExportKindModel::EnergyDaily { start_day: calendar::quarter_day(today) as i64 },
                },
                ExportSpecModel {
                    sheet_name: "Energy - Monthly (last year)"@,
                    value_format: "0.000"@,
                    kind: ExportKindModel::EnergyMonthly {
                        start_day: calendar::year_day(calendar::year_of(today)) as i64,
                    },
                },
                ExportSpecModel {
                    sheet_name: "Power - 5min (last 24h)"@,
                    value_format: "0.0"@,
                    kind: ExportKindModel::PowerEvery5Minutes {
                        ranges: spans(now - 86_400_000_000_000, now, 43_200_000_000_000),
                    },
                },
                ExportSpecModel {
                    sheet_name: "Power - Hourly (last week)"@,
                    value_format: "0.0"@,
                    kind: ExportKindModel::PowerHourly {
                        ranges: spans(now - 604_800_000_000_000, now, 518_400_000_000_000),
                    },
                },
            ],
        )
    }
}

/// The sheets of a workbook that is made now.
pub fn export_specs(now: i128) -> (r: Result<Vec<ExportSpec>, String>)
    requires
        calendar::in_calendar(now as int),
    ensures
        match r {
            Ok(specs) => sheets(now as int) == Ok::<Seq<ExportSpecModel>, Seq<char>>(specs.deep_view()),
            Err(m) => sheets(now as int) == Err::<Seq<ExportSpecModel>, Seq<char>>(m@),
        },
{
    let today: i64 = day_number(now);
    if today - 6 < FIRST_DAY {
        return Err("failed to calculate weekly energy export start date".to_owned());
    }
    let week_start: i128 = match back_from(now, 7 * DAY_NS) {
        Some(at) => at,
        None => {
            return Err("failed to calculate weekly power export start time".to_owned());
        },
    };
    let mut specs: Vec<ExportSpec> = Vec::new();
    specs.push(
        ExportSpec {
            sheet_name: "Energy - Hourly (last week)",
            value_format: "0.000",
            kind: ExportKind::EnergyHourly { start_day: today - 6, end_day: today },
        },
    );
    specs.push(
        ExportSpec {
            sheet_name: "Energy - Daily (last 3 mo)",
            value_format: "0.000",
            kind: ExportKind::EnergyDaily { start_day: current_quarter_start(today) },
        },
    );
    specs.push(
        ExportSpec {
            sheet_name: "Energy - Monthly (last year)",
            value_format: "0.000",
            kind: ExportKind::EnergyMonthly { start_day: current_year_start(today) },
        },
    );
    specs.push(
        ExportSpec {
            sheet_name: "Power - 5min (last 24h)",
            value_format: "0.0",
            kind: ExportKind::PowerEvery5Minutes { ranges: split_datetime_ranges(now - DAY_NS, now, HALF_DAY_NS) },
        },
    );
    specs.push(
        ExportSpec {
            sheet_name: "Power - Hourly (last week)",
            value_format: "0.0",
            kind: ExportKind::PowerHourly { ranges: split_datetime_ranges(week_start, now, SIX_DAYS_NS) },
        },
    );
    proof {
        let all = (sheets(now as int)->Ok_0);
        assert(specs.deep_view() =~= all);
    }
    Ok(specs)
}

// ---------- Devices that can be read ----------

/// The model measures what it uses.
pub open spec fn measures(model: DeviceModel) -> bool {
    model == DeviceModel::P110 || model == DeviceModel::P115
}

/// Why what a device has used cannot be read; nothing if it can.
pub fn monitoring_fault(config: &DeviceConfig) -> (r: Option<String>)
    ensures
        r is None <==> measures(config.model),
        r matches Some(m) ==> m@ == config.model_name@ + " at "@ + config.ip@ + " does not support energy monitoring"@,
{
    match config.model {
        DeviceModel::P110 | DeviceModel::P115 => None,
        _ => {
            let mut m = around(config.model_name.as_str(), " at ", config.ip.as_str());
            m.append(" does not support energy monitoring");
            Some(m)
        },
    }
}

/// Whether a device measures what it uses.
pub open spec fn device_measures() -> spec_fn(ManagedDeviceModel) -> bool {
    |d: ManagedDeviceModel| measures(d.config.model)
}

/// The devices that can be read.
pub open spec fn readable(t: Seq<(Seq<char>, ManagedDeviceModel)>) -> Seq<ExportDeviceModel> {
    t.map_values(|e: (Seq<char>, ManagedDeviceModel)| e.1).filter(device_measures()).map_values(
        |d: ManagedDeviceModel| ExportDeviceModel { name: d.name, config: d.config },
    )
}

/// The devices that can be read.
pub fn export_devices(devices: &Table<ManagedDevice>) -> (r: Vec<ExportDevice>)
    ensures
        r.deep_view() == readable(devices.deep_view()),
{
    let ghost values = devices.deep_view().map_values(|e: (Seq<char>, ManagedDeviceModel)| e.1);
    let ghost keep = device_measures();
    let ghost pick = |d: ManagedDeviceModel| ExportDeviceModel { name: d.name, config: d.config };
    let mut out: Vec<ExportDevice> = Vec::new();
    proof {
        reveal(Seq::filter);
        assert(out.deep_view() =~= values.take(0).filter(keep).map_values(pick));
    }
    let mut i: usize = 0;
    while i < devices.entries.len()
        invariant
            i <= devices.entries@.len(),
            values == devices.deep_view().map_values(|e: (Seq<char>, ManagedDeviceModel)| e.1),
            keep == device_measures(),
            pick == (|d: ManagedDeviceModel| ExportDeviceModel { name: d.name, config: d.config }),
            out.deep_view() == values.take(i as int).filter(keep).map_values(pick),
        decreases devices.entries@.len() - i,
    {
        let d = &devices.entries[i].1;
        let ghost had = out.deep_view();
        proof {
            assert(devices.deep_view()[i as int].1 == d.deep_view());
            assert(values[i as int] == d.deep_view());
            lists::filter_step(values, keep, i as int);
        }
        let measured = match d.config.model {
            DeviceModel::P110 | DeviceModel::P115 => true,
            _ => false,
        };
        if measured {
            let device = ExportDevice { name: d.name.clone(), config: d.config.dup() };
            let ghost m = device.deep_view();
            out.push(device);
            proof {
                assert(out.deep_view() =~= had.push(m));
                assert(values.take(i + 1).filter(keep).map_values(pick) =~= had.push(m));
            }
        }
        i = i + 1;
    }
    proof {
        assert(values.take(values.len() as int) =~= values);
    }
    out
}

// ---------- Rows ----------

/// The first row from `from` on that is not earlier than `at`.
pub open spec fn row_slot(rows: Seq<ExportRowModel>, at: Stamp, from: int) -> int
    decreases rows.len() - from,
{
    if from < 0 || from >= rows.len() {
        rows.len() as int
    } else if calendar::earlier(rows[from].timestamp, at) {
        row_slot(rows, at, from + 1)
    } else {
        from
    }
}

/// The rows with what a device used at a moment.
pub open spec fn with_reading(
    rows: Seq<ExportRowModel>,
    device: Seq<char>,
    at: Stamp,
    value: u64,
) -> Seq<ExportRowModel> {
    let i = row_slot(rows, at, 0);
    if i < rows.len() && rows[i].timestamp == at {
        rows.update(i, ExportRowModel { timestamp: at, values: table::put(rows[i].values, device, value) })
    } else {
        rows.insert(i, ExportRowModel { timestamp: at, values: table::put(Seq::empty(), device, value) })
    }
}

/// The rows with the first `n` readings of a device; a reading without a value
/// is left out.
pub open spec fn with_readings(
    rows: Seq<ExportRowModel>,
    device: Seq<char>,
    entries: Seq<Reading>,
    n: int,
) -> Seq<ExportRowModel>
    decreases n,
{
    if n <= 0 || n > entries.len() {
        rows
    } else {
        let before = with_readings(rows, device, entries, n - 1);
        match entries[n - 1].value {
            Some(value) => with_reading(before, device, entries[n - 1].timestamp, value),
            None => before,
        }
    }
}

fn add_reading(rows: &mut Vec<ExportRow>, device: &str, at: Stamp, value: u64)
    ensures
        final(rows).deep_view() == with_reading(old(rows).deep_view(), device@, at, value),
{
    let ghost r = rows.deep_view();
    let ghost before = rows@;
    let mut i: usize = 0;
    while i < rows.len() && is_earlier(rows[i].timestamp, at)
        invariant
            i <= rows@.len(),
            r == rows.deep_view(),
            before == rows@,
            row_slot(r, at, 0) == row_slot(r, at, i as int),
        decreases rows@.len() - i,
    {
        proof {
            assert(r[i as int] == rows@[i as int].deep_view());
        }
        i = i + 1;
    }
    proof {
        if i < rows@.len() {
            assert(r[i as int] == rows@[i as int].deep_view());
        }
    }
    if i < rows.len() && rows[i].timestamp == at {
        let mut values = rows[i].values.dup();
        values.insert(device.to_owned(), value);
        let row = ExportRow { timestamp: at, values };
        let ghost m = row.deep_view();
        rows.set(i, row);
        proof {
            assert(rows.deep_view() =~= r.update(i as int, m));
        }
    } else {
        let mut values: Table<u64> = Table::new();
        values.insert(device.to_owned(), value);
        let row = ExportRow { timestamp: at, values };
        let ghost m = row.deep_view();
        rows.insert(i, row);
        proof {
            assert forall|j: int| 0 <= j < rows@.len() implies rows.deep_view()[j] == r.insert(i as int, m)[j] by {
                if j < i {
                    assert(rows@[j] == before[j]);
                } else if j > i {
                    assert(rows@[j] == before[j - 1]);
                }
            }
            assert(rows.deep_view() =~= r.insert(i as int, m));
        }
    }
}

/// Puts the readings of a device into the rows of a sheet.
pub fn add_readings(rows: &mut Vec<ExportRow>, device: &str, entries: &Vec<Reading>)
    ensures
        final(rows).deep_view() == with_readings(old(rows).deep_view(), device@, entries@, entries@.len() as int),
{
    let ghost r = rows.deep_view();
    let mut i: usize = 0;
    while i < entries.len()
        invariant
            i <= entries@.len(),
            rows.deep_view() == with_readings(r, device@, entries@, i as int),
        decreases entries@.len() - i,
    {
        if let Some(value) = entries[i].value {
            add_reading(rows, device, entries[i].timestamp, value);
        }
        i = i + 1;
    }
}

/// The rows stand in the order of their moments, each moment once.
pub open spec fn rows_in_order(rows: Seq<ExportRowModel>) -> bool {
    forall|i: int, j: int|
        0 <= i < j < rows.len() ==> calendar::earlier((#[trigger] rows[i]).timestamp, (#[trigger] rows[j]).timestamp)
}

proof fn row_slot_facts(rows: Seq<ExportRowModel>, at: Stamp, from: int)
    requires
        0 <= from <= rows.len(),
    ensures
        from <= row_slot(rows, at, from) <= rows.len(),
        forall|j: int| from <= j < row_slot(rows, at, from) ==> calendar::earlier((#[trigger] rows[j]).timestamp, at),
        row_slot(rows, at, from) < rows.len() ==> !calendar::earlier(rows[row_slot(rows, at, from)].timestamp, at),
    decreases rows.len() - from,
{
    if from < rows.len() && calendar::earlier(rows[from].timestamp, at) {
        row_slot_facts(rows, at, from + 1);
    }
}

/// Readings of any number of devices keep the rows in order, each moment once.
pub proof fn readings_keep_rows_in_order(
    rows: Seq<ExportRowModel>,
    device: Seq<char>,
    entries: Seq<Reading>,
    n: int,
)
    requires
        rows_in_order(rows),
    ensures
        rows_in_order(with_readings(rows, device, entries, n)),
    decreases n,
{
    if 0 < n <= entries.len() {
        readings_keep_rows_in_order(rows, device, entries, n - 1);
        let before = with_readings(rows, device, entries, n - 1);
        if let Some(value) = entries[n - 1].value {
            let at = entries[n - 1].timestamp;
            row_slot_facts(before, at, 0);
            let k = row_slot(before, at, 0);
            let u = with_reading(before, device, at, value);
            if k < before.len() && before[k].timestamp == at {
                assert forall|i: int, j: int| 0 <= i < j < u.len() implies calendar::earlier(
                    (#[trigger] u[i]).timestamp,
                    (#[trigger] u[j]).timestamp,
                ) by {
                    assert(calendar::earlier(before[i].timestamp, before[j].timestamp));
                }
            } else {
                assert forall|i: int, j: int| 0 <= i < j < u.len() implies calendar::earlier(
                    (#[trigger] u[i]).timestamp,
                    (#[trigger] u[j]).timestamp,
                ) by {
                    let a = if i < k { i } else { i - 1 };
                    let b = if j < k { j } else { j - 1 };
                    if i != k && j != k {
                        assert(calendar::earlier(before[a].timestamp, before[b].timestamp));
                    } else if i == k && j - 1 > k {
                        assert(calendar::earlier(before[k].timestamp, before[j - 1].timestamp));
                    }
                }
            }
        }
    }
}

// ---------- Points and totals ----------

/// The calendar holds every reading.
pub open spec fn stamped(entries: Seq<Reading>) -> bool {
    forall|i: int| 0 <= i < entries.len() ==> calendar::is_stamp((#[trigger] entries[i]).timestamp)
}

/// A point of a history.
pub open spec fn point_at(at: Stamp, value: u64) -> UsageHistoryPoint {
    UsageHistoryPoint { timestamp_ms: calendar::millis_of(at) as i64, value }
}

/// The points of a history: the readings that have a value.
pub open spec fn points_of(entries: Seq<Reading>, n: int) -> Seq<UsageHistoryPoint>
    decreases n,
{
    if n <= 0 || n > entries.len() {
        Seq::empty()
    } else {
        match entries[n - 1].value {
            Some(value) => points_of(entries, n - 1).push(point_at(entries[n - 1].timestamp, value)),
            None => points_of(entries, n - 1),
        }
    }
}

/// The points of a history: the readings that have a value.
pub fn history_points(entries: &Vec<Reading>) -> (r: Vec<UsageHistoryPoint>)
    requires
        stamped(entries@),
    ensures
        r@ == points_of(entries@, entries@.len() as int),
{
    let mut points: Vec<UsageHistoryPoint> = Vec::new();
    let mut i: usize = 0;
    while i < entries.len()
        invariant
            stamped(entries@),
            i <= entries@.len(),
            points@ == points_of(entries@, i as int),
        decreases entries@.len() - i,
    {
        if let Some(value) = entries[i].value {
            proof {
                assert(calendar::is_stamp(entries@[i as int].timestamp));
            }
            points.push(UsageHistoryPoint { timestamp_ms: stamp_millis(entries[i].timestamp), value });
        }
        i = i + 1;
    }
    points
}

/// What all devices used at one moment.
#[derive(Debug, Clone, Copy, PartialEq, Eq, Structural)]
pub struct UsageTotal {
    pub timestamp: Stamp,
    /// The bit pattern of a double.
    pub value: u64,
}

/// The first total from `from` on that is not earlier than `at`.
pub open spec fn total_slot(totals: Seq<UsageTotal>, at: Stamp, from: int) -> int
    decreases totals.len() - from,
{
    if from < 0 || from >= totals.len() {
        totals.len() as int
    } else if calendar::earlier(totals[from].timestamp, at) {
        total_slot(totals, at, from + 1)
    } else {
        from
    }
}

/// The sum of two doubles.
pub open spec fn sum(a: u64, b: u64, o: Oracle) -> u64 {
    coerce::or_nan(host::bits_in(o(AskModel::Binary(BinaryMath::Add, a, b))))
}

/// The totals with a value added at its moment; a moment without a total has a
/// total of zero.
pub open spec fn with_value(totals: Seq<UsageTotal>, at: Stamp, value: u64, o: Oracle) -> Seq<UsageTotal> {
    let i = total_slot(totals, at, 0);
    if i < totals.len() && totals[i].timestamp == at {
        totals.update(i, UsageTotal { timestamp: at, value: sum(totals[i].value, value, o) })
    } else {
        totals.insert(i, UsageTotal { timestamp: at, value: sum(0, value, o) })
    }
}

/// The totals with the first `n` readings added; a reading without a value is
/// left out.
pub open spec fn with_values(totals: Seq<UsageTotal>, entries: Seq<Reading>, n: int, o: Oracle) -> Seq<UsageTotal>
    decreases n,
{
    if n <= 0 || n > entries.len() {
        totals
    } else {
        let before = with_values(totals, entries, n - 1, o);
        match entries[n - 1].value {
            Some(value) => with_value(before, entries[n - 1].timestamp, value, o),
            None => before,
        }
    }
}

fn add_value<H: Fn(Ask) -> Answer>(totals: &mut Vec<UsageTotal>, at: Stamp, added: u64, host: &H)
    requires
        host::faithful(*host),
    ensures
        final(totals)@ == with_value(old(totals)@, at, added, host::oracle(*host)),
{
    let ghost before = totals@;
    let mut i: usize = 0;
    while i < totals.len() && is_earlier(totals[i].timestamp, at)
        invariant
            i <= totals@.len(),
            before == totals@,
            total_slot(before, at, 0) == total_slot(before, at, i as int),
        decreases totals@.len() - i,
    {
        i = i + 1;
    }
    let same_moment = i < totals.len() && totals[i].timestamp == at;
    let old_value: u64 = if same_moment {
        totals[i].value
    } else {
        0
    };
    let value: u64 = match ask_bits(host, Ask::Binary(BinaryMath::Add, old_value, added)) {
        Some(bits) => bits,
        None => NOT_A_NUMBER,
    };
    let total = UsageTotal { timestamp: at, value };
    if same_moment {
        totals.set(i, total);
    } else {
        totals.insert(i, total);
    }
}

/// Adds the readings of a device to the totals of all devices.
pub fn add_to_totals<H: Fn(Ask) -> Answer>(totals: &mut Vec<UsageTotal>, entries: &Vec<Reading>, host: &H)
    requires
        host::faithful(*host),
    ensures
        final(totals)@ == with_values(old(totals)@, entries@, entries@.len() as int, host::oracle(*host)),
{
    let ghost before = totals@;
    let ghost o = host::oracle(*host);
    let mut i: usize = 0;
    while i < entries.len()
        invariant
            host::faithful(*host),
            o == host::oracle(*host),
            i <= entries@.len(),
            totals@ == with_values(before, entries@, i as int, o),
        decreases entries@.len() - i,
    {
        if let Some(value) = entries[i].value {
            add_value(totals, entries[i].timestamp, value, host);
        }
        i = i + 1;
    }
}

/// Minus zero, to which a double can be added without change.
pub const MINUS_ZERO: u64 = 0x8000_0000_0000_0000;

/// The sum of the first `n` values of a row.
pub open spec fn sum_of(values: Seq<(Seq<char>, u64)>, n: int, o: Oracle) -> u64
    decreases n,
{
    if n <= 0 || n > values.len() {
        MINUS_ZERO
    } else {
        sum(sum_of(values, n - 1, o), values[n - 1].1, o)
    }
}

/// What all devices of a row used together.
pub fn row_total<H: Fn(Ask) -> Answer>(row: &ExportRow, host: &H) -> (total: u64)
    requires
        host::faithful(*host),
    ensures
        total == sum_of(
            row.deep_view().values,
            row.deep_view().values.len() as int,
            host::oracle(*host),
        ),
{
    let ghost values = row.deep_view().values;
    let ghost o = host::oracle(*host);
    let mut total: u64 = MINUS_ZERO;
    let mut i: usize = 0;
    while i < row.values.entries.len()
        invariant
            host::faithful(*host),
            o == host::oracle(*host),
            values == row.deep_view().values,
            values.len() == row.values.entries@.len(),
            i <= values.len(),
            total == sum_of(values, i as int, o),
        decreases values.len() - i,
    {
        proof {
            assert(values[i as int].1 == row.values.entries@[i as int].1);
        }
        total = match ask_bits(host, Ask::Binary(BinaryMath::Add, total, row.values.entries[i].1)) {
            Some(bits) => bits,
            None => NOT_A_NUMBER,
        };
        i = i + 1;
    }
    total
}

/// Each moment has one total, and the totals stand in the order of their
/// moments.
pub open spec fn totals_in_order(totals: Seq<UsageTotal>) -> bool {
    forall|i: int, j: int|
        0 <= i < j < totals.len() ==> calendar::earlier((#[trigger] totals[i]).timestamp, (#[trigger] totals[j]).timestamp)
}

proof fn total_slot_facts(totals: Seq<UsageTotal>, at: Stamp, from: int)
    requires
        0 <= from <= totals.len(),
    ensures
        from <= total_slot(totals, at, from) <= totals.len(),
        forall|j: int|
            from <= j < total_slot(totals, at, from) ==> calendar::earlier((#[trigger] totals[j]).timestamp, at),
        total_slot(totals, at, from) < totals.len() ==> !calendar::earlier(
            totals[total_slot(totals, at, from)].timestamp,
            at,
        ),
    decreases totals.len() - from,
{
    if from < totals.len() && calendar::earlier(totals[from].timestamp, at) {
        total_slot_facts(totals, at, from + 1);
    }
}

/// Adding readings keeps the totals in order, each moment once.
pub proof fn readings_keep_totals_in_order(totals: Seq<UsageTotal>, entries: Seq<Reading>, n: int, o: Oracle)
    requires
        totals_in_order(totals),
    ensures
        totals_in_order(with_values(totals, entries, n, o)),
    decreases n,
{
    if 0 < n <= entries.len() {
        readings_keep_totals_in_order(totals, entries, n - 1, o);
        let before = with_values(totals, entries, n - 1, o);
        if let Some(value) = entries[n - 1].value {
            let at = entries[n - 1].timestamp;
            total_slot_facts(before, at, 0);
            let k = total_slot(before, at, 0);
            let u = with_value(before, at, value, o);
            if k < before.len() && before[k].timestamp == at {
                assert forall|i: int, j: int| 0 <= i < j < u.len() implies calendar::earlier(
                    (#[trigger] u[i]).timestamp,
                    (#[trigger] u[j]).timestamp,
                ) by {
                    assert(calendar::earlier(before[i].timestamp, before[j].timestamp));
                }
            } else {
                assert forall|i: int, j: int| 0 <= i < j < u.len() implies calendar::earlier(
                    (#[trigger] u[i]).timestamp,
                    (#[trigger] u[j]).timestamp,
                ) by {
                    let a = if i < k { i } else { i - 1 };
                    let b = if j < k { j } else { j - 1 };
                    if i != k && j != k {
                        assert(calendar::earlier(before[a].timestamp, before[b].timestamp));
                    } else if i == k && j - 1 > k {
                        assert(calendar::earlier(before[k].timestamp, before[j - 1].timestamp));
                    }
                }
            }
        }
    }
}

// ---------- What came back from all devices ----------

/// The rows of a sheet from what came back from the first `n` devices.
pub open spec fn rows_from(answers: Seq<DeviceReadingsModel>, n: int) -> Seq<ExportRowModel>
    decreases n,
{
    if n <= 0 || n > answers.len() {
        Seq::empty()
    } else {
        match answers[n - 1].outcome {
            ReadOutcomeModel::Read { entries } => with_readings(
                rows_from(answers, n - 1),
                answers[n - 1].device_name,
                entries,
                entries.len() as int,
            ),
            ReadOutcomeModel::Failed { message } => rows_from(answers, n - 1),
        }
    }
}

/// What went wrong with the first `n` devices.
pub open spec fn failures(answers: Seq<DeviceReadingsModel>, n: int) -> Seq<ReadErrorModel>
    decreases n,
{
    if n <= 0 || n > answers.len() {
        Seq::empty()
    } else {
        match answers[n - 1].outcome {
            ReadOutcomeModel::Read { entries } => failures(answers, n - 1),
            ReadOutcomeModel::Failed { message } => failures(answers, n - 1).push(
                ReadErrorModel { device_name: answers[n - 1].device_name, message },
            ),
        }
    }
}

/// The rows of a sheet, and the devices that could not be read.
pub fn collect_export_table(answers: &Vec<DeviceReadings>) -> (r: (Vec<ExportRow>, Vec<ReadError>))
    ensures
        r.0.deep_view() == rows_from(answers.deep_view(), answers.deep_view().len() as int),
        r.1.deep_view() == failures(answers.deep_view(), answers.deep_view().len() as int),
{
    let ghost all = answers.deep_view();
    let mut rows: Vec<ExportRow> = Vec::new();
    let mut errors: Vec<ReadError> = Vec::new();
    proof {
        assert(rows.deep_view() =~= rows_from(all, 0));
        assert(errors.deep_view() =~= failures(all, 0));
    }
    let mut i: usize = 0;
    while i < answers.len()
        invariant
            i <= answers@.len(),
            all == answers.deep_view(),
            all.len() == answers@.len(),
            rows.deep_view() == rows_from(all, i as int),
            errors.deep_view() == failures(all, i as int),
        decreases answers@.len() - i,
    {
        proof {
            assert(all[i as int] == answers@[i as int].deep_view());
        }
        match &answers[i].outcome {
            ReadOutcome::Read { entries } => {
                proof {
                    assert(entries.deep_view() =~= entries@);
                }
                add_readings(&mut rows, answers[i].device_name.as_str(), entries);
            },
            ReadOutcome::Failed { message } => {
                let ghost had = errors.deep_view();
                let error = ReadError { device_name: answers[i].device_name.clone(), message: message.clone() };
                let ghost m = error.deep_view();
                errors.push(error);
                proof {
                    assert(errors.deep_view() =~= had.push(m));
                }
            },
        }
        i = i + 1;
    }
    (rows, errors)
}

/// The points of each of the first `n` devices that could be read.
pub open spec fn series_of(answers: Seq<DeviceReadingsModel>, n: int) -> Seq<UsageHistorySeriesModel>
    decreases n,
{
    if n <= 0 || n > answers.len() {
        Seq::empty()
    } else {
        match answers[n - 1].outcome {
            ReadOutcomeModel::Read { entries } => series_of(answers, n - 1).push(
                UsageHistorySeriesModel {
                    device_name: answers[n - 1].device_name,
                    points: points_of(entries, entries.len() as int),
                },
            ),
            ReadOutcomeModel::Failed { message } => series_of(answers, n - 1),
        }
    }
}

/// The totals over the first `n` devices.
pub open spec fn totals_of(answers: Seq<DeviceReadingsModel>, n: int, o: Oracle) -> Seq<UsageTotal>
    decreases n,
{
    if n <= 0 || n > answers.len() {
        Seq::empty()
    } else {
        match answers[n - 1].outcome {
            ReadOutcomeModel::Read { entries } => with_values(
                totals_of(answers, n - 1, o),
                entries,
                entries.len() as int,
                o,
            ),
            ReadOutcomeModel::Failed { message } => totals_of(answers, n - 1, o),
        }
    }
}

/// Totals as the points of a history.
pub open spec fn total_points(totals: Seq<UsageTotal>) -> Seq<UsageHistoryPoint> {
    totals.map_values(|t: UsageTotal| point_at(t.timestamp, t.value))
}

/// The calendar holds every reading of every device.
pub open spec fn all_stamped(answers: Seq<DeviceReadingsModel>) -> bool {
    forall|i: int|
        0 <= i < answers.len() ==> ((#[trigger] answers[i]).outcome matches ReadOutcomeModel::Read { entries }
            ==> stamped(entries))
}

/// The calendar holds every total.
pub open spec fn totals_stamped(totals: Seq<UsageTotal>) -> bool {
    forall|i: int| 0 <= i < totals.len() ==> calendar::is_stamp((#[trigger] totals[i]).timestamp)
}

proof fn totals_stay_stamped(totals: Seq<UsageTotal>, entries: Seq<Reading>, n: int, o: Oracle)
    requires
        totals_stamped(totals),
        stamped(entries),
    ensures
        totals_stamped(with_values(totals, entries, n, o)),
    decreases n,
{
    if 0 < n <= entries.len() {
        totals_stay_stamped(totals, entries, n - 1, o);
        let before = with_values(totals, entries, n - 1, o);
        if let Some(value) = entries[n - 1].value {
            let at = entries[n - 1].timestamp;
            total_slot_facts(before, at, 0);
            let k = total_slot(before, at, 0);
            let u = with_value(before, at, value, o);
            assert forall|i: int| 0 <= i < u.len() implies calendar::is_stamp((#[trigger] u[i]).timestamp) by {
                if i != k {
                    let j = if u.len() > before.len() && i > k { i - 1 } else { i };
                    assert(u[i] == before[j]);
                }
            }
        }
    }
}

fn points_of_totals(totals: &Vec<UsageTotal>) -> (r: Vec<UsageHistoryPoint>)
    requires
        totals_stamped(totals@),
    ensures
        r@ == total_points(totals@),
{
    let mut r: Vec<UsageHistoryPoint> = Vec::new();
    let mut i: usize = 0;
    while i < totals.len()
        invariant
            totals_stamped(totals@),
            i <= totals@.len(),
            r@.len() == i,
            forall|j: int| 0 <= j < i ==> #[trigger] r@[j] == total_points(totals@)[j],
        decreases totals@.len() - i,
    {
        proof {
            assert(calendar::is_stamp(totals@[i as int].timestamp));
        }
        r.push(UsageHistoryPoint { timestamp_ms: stamp_millis(totals[i].timestamp), value: totals[i].value });
        i = i + 1;
    }
    proof {
        assert(r@ =~= total_points(totals@));
    }
    r
}

/// A moment in words.
pub open spec fn text_at(ns: int) -> Seq<char> {
    calendar::utc_text(calendar::stamp_of(ns).seconds, calendar::stamp_of(ns).nanos)->0
}

/// A history of what came back from all devices.
pub open spec fn history(
    range: UsageHistoryRangeModel,
    answers: Seq<DeviceReadingsModel>,
    start: int,
    now: int,
    updated_at_ms: u128,
    o: Oracle,
) -> UsageHistoryResponseModel {
    UsageHistoryResponseModel {
        series: series_of(answers, answers.len() as int),
        totals: total_points(totals_of(answers, answers.len() as int, o)),
        errors: failures(answers, answers.len() as int),
        updated_at_ms,
        range: range.key,
        range_label: range.label,
        interval: range.interval_label,
        start_date: text_at(start),
        end_date: text_at(now),
        unit: range.unit,
    }
}

/// Puts together the history of a range from what came back from each device.
pub fn build_usage_history<H: Fn(Ask) -> Answer>(
    range: &UsageHistoryRange,
    answers: &Vec<DeviceReadings>,
    start: i128,
    now: i128,
    updated_at_ms: u128,
    host: &H,
) -> (r: UsageHistoryResponse)
    requires
        host::faithful(*host),
        calendar::in_calendar(start as int),
        calendar::in_calendar(now as int),
        all_stamped(answers.deep_view()),
    ensures
        r.deep_view() == history(
            range.deep_view(),
            answers.deep_view(),
            start as int,
            now as int,
            updated_at_ms,
            host::oracle(*host),
        ),
{
    let ghost all = answers.deep_view();
    let ghost o = host::oracle(*host);
    let (_, errors) = collect_export_table(answers);
    let mut series: Vec<UsageHistorySeries> = Vec::new();
    let mut totals: Vec<UsageTotal> = Vec::new();
    proof {
        assert(series.deep_view() =~= series_of(all, 0));
        assert(totals@ =~= totals_of(all, 0, o));
    }
    let mut i: usize = 0;
    while i < answers.len()
        invariant
            host::faithful(*host),
            o == host::oracle(*host),
            i <= answers@.len(),
            all == answers.deep_view(),
            all.len() == answers@.len(),
            all_stamped(all),
            series.deep_view() == series_of(all, i as int),
            totals@ == totals_of(all, i as int, o),
            totals_stamped(totals@),
        decreases answers@.len() - i,
    {
        proof {
            assert(all[i as int] == answers@[i as int].deep_view());
        }
        if let ReadOutcome::Read { entries } = &answers[i].outcome {
            let ghost had = series.deep_view();
            proof {
                assert(entries.deep_view() =~= entries@);
                assert(stamped(entries@));
                totals_stay_stamped(totals@, entries@, entries@.len() as int, o);
            }
            let points = history_points(entries);
            add_to_totals(&mut totals, entries, host);
            proof {
                assert(points.deep_view() =~= points@);
            }
            let line = UsageHistorySeries { device_name: answers[i].device_name.clone(), points };
            let ghost m = line.deep_view();
            series.push(line);
            proof {
                assert(series.deep_view() =~= had.push(m));
            }
        }
        i = i + 1;
    }
    let totals = points_of_totals(&totals);
    proof {
        assert(totals.deep_view() =~= totals@);
    }
    UsageHistoryResponse {
        series,
        totals,
        errors,
        updated_at_ms,
        range: range.key.to_owned(),
        range_label: range.label.to_owned(),
        interval: range.interval_label.to_owned(),
        start_date: stamp_text(stamp_at(start)),
        end_date: stamp_text(stamp_at(now)),
        unit: range.unit.to_owned(),
    }
}

// ---------- What a history asks of a device ----------

/// What is asked of a device for a history.
pub open spec fn question_of(kind: UsageHistoryKind, start: int, end: int) -> ExportKindModel {
    match kind {
        UsageHistoryKind::Power { interval, range_limit } => {
            let ranges = spans(start, end, range_limit as int);
            match interval {
                PowerExportInterval::Every5Minutes => ExportKindModel::PowerEvery5Minutes { ranges },
                PowerExportInterval::Hourly => ExportKindModel::PowerHourly { ranges },
            }
        },
        UsageHistoryKind::EnergyDaily => ExportKindModel::EnergyDaily { start_day: calendar::day_of(start) as i64 },
        UsageHistoryKind::EnergyMonthly => ExportKindModel::EnergyMonthly { start_day: calendar::day_of(start) as i64 },
    }
}

/// What is asked of a device for a history.
pub fn history_question(kind: UsageHistoryKind, start: i128, end: i128) -> (r: ExportKind)
    requires
        calendar::in_calendar(start as int),
        kind matches UsageHistoryKind::Power { interval, range_limit } ==> range_limit > 0,
    ensures
        r.deep_view() == question_of(kind, start as int, end as int),
{
    match kind {
        UsageHistoryKind::Power { interval, range_limit } => {
            let ranges = split_datetime_ranges(start, end, range_limit);
            match interval {
                PowerExportInterval::Every5Minutes => ExportKind::PowerEvery5Minutes { ranges },
                PowerExportInterval::Hourly => ExportKind::PowerHourly { ranges },
            }
        },
        UsageHistoryKind::EnergyDaily => ExportKind::EnergyDaily { start_day: day_number(start) },
        UsageHistoryKind::EnergyMonthly => ExportKind::EnergyMonthly { start_day: day_number(start) },
    }
}

/// A history reaches back as far as its key says: the number in the key times
/// the minutes, hours or days that the key ends in. Months reach back as many
/// twelfths of 366 days, part days counting in full, and years 365 days each.
pub proof fn histories_reach_as_far_as_their_key(key: Option<Seq<char>>)
    ensures
        history_of(key).kind is Power ==> (history_of(key).start matches UsageHistoryStart::Duration(ns) && {
            let n = text::digits_value(history_of(key).key.drop_last());
            let unit = history_of(key).key.last();
            ||| unit == 'm' && ns == n * 60_000_000_000
            ||| unit == 'h' && ns == n * 3_600_000_000_000
            ||| unit == 'd' && ns == n * 86_400_000_000_000
        }),
        history_of(key).kind is EnergyDaily ==> (history_of(key).start matches UsageHistoryStart::Duration(ns) ==> {
            let n = text::digits_value(history_of(key).key.drop_last());
            let unit = history_of(key).key.last();
            ||| unit == 'm' && ns == (366 * n + 11) / 12 * 86_400_000_000_000
            ||| unit == 'y' && ns == 365 * n * 86_400_000_000_000
        }),
        history_of(key).start is Duration ==> text::all_digits(history_of(key).key.drop_last()) && text::digits_value(
            history_of(key).key.drop_last(),
        ) > 0,
        history_of(key).start is YearToDate <==> history_of(key).key == "ytd"@,
        history_of(key).start is AllTime <==> history_of(key).key == "all"@,
{
    reveal_strlit("5m");
    reveal_strlit("30m");
    reveal_strlit("1h");
    reveal_strlit("6h");
    reveal_strlit("12h");
    reveal_strlit("1d");
    reveal_strlit("3d");
    reveal_strlit("30d");
    reveal_strlit("3m");
    reveal_strlit("6m");
    reveal_strlit("1y");
    reveal_strlit("ytd");
    reveal_strlit("all");
    reveal_strlit("7d");
    assert("ytd"@[0] == 'y' && "all"@[0] == 'a' && "ytd"@.len() == 3 && "all"@.len() == 3);
    assert("30m"@[0] == '3' && "12h"@[0] == '1' && "30d"@[0] == '3');
    assert("5m"@.drop_last() =~= seq!['5'] && "30m"@.drop_last() =~= seq!['3', '0']);
    assert("1h"@.drop_last() =~= seq!['1'] && "6h"@.drop_last() =~= seq!['6'] && "12h"@.drop_last() =~= seq!['1', '2']);
    assert("1d"@.drop_last() =~= seq!['1'] && "3d"@.drop_last() =~= seq!['3'] && "30d"@.drop_last() =~= seq!['3', '0']);
    assert("3m"@.drop_last() =~= seq!['3'] && "6m"@.drop_last() =~= seq!['6'] && "1y"@.drop_last() =~= seq!['1']);
    assert("7d"@.drop_last() =~= seq!['7']);
    one_digit_counts('1');
    one_digit_counts('3');
    one_digit_counts('5');
    one_digit_counts('6');
    one_digit_counts('7');
    two_digits_count('1', '2');
    two_digits_count('3', '0');
    assert("5m"@.last() == 'm' && "30m"@.last() == 'm' && "3m"@.last() == 'm' && "6m"@.last() == 'm');
    assert("1h"@.last() == 'h' && "6h"@.last() == 'h' && "12h"@.last() == 'h' && "1y"@.last() == 'y');
    assert("1d"@.last() == 'd' && "3d"@.last() == 'd' && "7d"@.last() == 'd' && "30d"@.last() == 'd');
    assert(text::digits_value("1d"@.drop_last()) == 1);
    assert(text::digits_value("3d"@.drop_last()) == 3);
    assert(text::digits_value("30d"@.drop_last()) == 30);
    assert(text::digits_value("7d"@.drop_last()) == 7);
}

proof fn one_digit_counts(c: char)
    requires
        text::is_digit(c),
    ensures
        text::digits_value(seq![c]) == c as int - 48,
        text::all_digits(seq![c]),
{
    reveal_with_fuel(text::digits_value, 2);
    assert(seq![c].drop_last() =~= Seq::<char>::empty());
}

proof fn two_digits_count(c: char, d: char)
    requires
        text::is_digit(c),
        text::is_digit(d),
    ensures
        text::digits_value(seq![c, d]) == 10 * (c as int - 48) + (d as int - 48),
        text::all_digits(seq![c, d]),
{
    one_digit_counts(c);
    assert(seq![c, d].drop_last() =~= seq![c]);
}

/// Fourteen keys name a history of their own; any other, and none, names that
/// of a week.
pub proof fn histories_have_their_own_key(key: Seq<char>)
    ensures
        key == "5m"@ || key == "30m"@ || key == "1h"@ || key == "6h"@ || key == "12h"@ || key == "1d"@ || key == "3d"@
            || key == "7d"@ || key == "30d"@ || key == "3m"@ || key == "6m"@ || key == "1y"@ || key == "ytd"@ || key
            == "all"@ <==> history_of(Some(key)).key == key,
        history_of(Some(key)).key != key ==> history_of(Some(key)).key == "7d"@,
        history_of(None).key == "7d"@,
{
    histories_go_by_their_keys(None);
    reveal_strlit("");
    reveal_strlit("5m");
    reveal_strlit("30m");
    reveal_strlit("1h");
    reveal_strlit("6h");
    reveal_strlit("12h");
    reveal_strlit("1d");
    reveal_strlit("3d");
    reveal_strlit("30d");
    reveal_strlit("3m");
    reveal_strlit("6m");
    reveal_strlit("1y");
    reveal_strlit("ytd");
    reveal_strlit("all");
    reveal_strlit("7d");
    assert("7d"@[0] == '7' && "7d"@[1] == 'd' && "7d"@.len() == 2);
    assert("5m"@[0] == '5' && "1h"@[0] == '1' && "6h"@[0] == '6' && "1d"@[0] == '1' && "3d"@[0] == '3');
    assert("3m"@[0] == '3' && "6m"@[0] == '6' && "1y"@[0] == '1');
    assert("30m"@.len() == 3 && "12h"@.len() == 3 && "30d"@.len() == 3 && "ytd"@.len() == 3 && "all"@.len() == 3);
}

/// Power is told in watts and energy in kilowatt hours. Power of at most a day
/// is read every five minutes, half a day at a time; of more, every hour, six
/// days at a time. Energy of all time is read by the month, other by the day.
pub proof fn histories_say_what_they_show(key: Option<Seq<char>>)
    ensures
        ({
            let h = history_of(key);
            let day: int = 24 * 60 * 60 * 1_000_000_000int;
            &&& h.kind is Power ==> h.unit == "W"@
            &&& !(h.kind is Power) ==> h.unit == "kWh"@
            &&& h.kind matches UsageHistoryKind::Power { interval, range_limit } ==> (h.start
                matches UsageHistoryStart::Duration(ns) && {
                &&& ns <= day ==> interval is Every5Minutes && 2 * range_limit == day && h.interval_label == "5-minute"@
                &&& ns > day ==> interval is Hourly && range_limit == 6 * day && h.interval_label == "hourly"@
            })
            &&& h.kind is EnergyMonthly <==> h.start is AllTime
            &&& h.kind is EnergyMonthly ==> h.interval_label == "monthly energy"@
            &&& h.kind is EnergyDaily ==> h.interval_label == "daily energy"@
            &&& h.kind is EnergyDaily ==> (h.start matches UsageHistoryStart::Duration(ns) ==> ns > 30 * day)
            &&& h.kind is Power ==> (h.start matches UsageHistoryStart::Duration(ns) && ns <= 30 * day)
        }),
{
}

/// A history is called by the number in its key and the unit in words, with an
/// s where there is more than one.
pub proof fn histories_are_called_by_their_key(key: Option<Seq<char>>)
    ensures
        ({
            let h = history_of(key);
            let number = h.key.drop_last();
            let unit = h.key.last();
            let word = if unit == 'h' {
                " hour"@
            } else if unit == 'd' {
                " day"@
            } else if unit == 'y' {
                " year"@
            } else if h.kind is Power {
                " minute"@
            } else {
                " month"@
            };
            &&& h.start is Duration && text::digits_value(number) == 1 ==> h.label == number + word
            &&& h.start is Duration && text::digits_value(number) > 1 ==> h.label == (number + word).push('s')
            &&& h.start is YearToDate ==> h.label == "year to date"@
            &&& h.start is AllTime ==> h.label == "all time"@
        }),
{
    histories_reach_as_far_as_their_key(key);
    reveal_strlit("5m");
    reveal_strlit("30m");
    reveal_strlit("1h");
    reveal_strlit("6h");
    reveal_strlit("12h");
    reveal_strlit("1d");
    reveal_strlit("3d");
    reveal_strlit("30d");
    reveal_strlit("3m");
    reveal_strlit("6m");
    reveal_strlit("1y");
    reveal_strlit("7d");
    reveal_strlit(" hour");
    reveal_strlit(" day");
    reveal_strlit(" year");
    reveal_strlit(" minute");
    reveal_strlit(" month");
    reveal_strlit("5 minutes");
    reveal_strlit("30 minutes");
    reveal_strlit("1 hour");
    reveal_strlit("6 hours");
    reveal_strlit("12 hours");
    reveal_strlit("1 day");
    reveal_strlit("3 days");
    reveal_strlit("7 days");
    reveal_strlit("30 days");
    reveal_strlit("3 months");
    reveal_strlit("6 months");
    reveal_strlit("1 year");
    one_digit_counts('1');
    assert("1h"@.drop_last() =~= seq!['1'] && "1d"@.drop_last() =~= seq!['1'] && "1y"@.drop_last() =~= seq!['1']);
    assert("5 minutes"@ =~= ("5m"@.drop_last() + " minute"@).push('s'));
    assert("30 minutes"@ =~= ("30m"@.drop_last() + " minute"@).push('s'));
    assert("1 hour"@ =~= "1h"@.drop_last() + " hour"@);
    assert("6 hours"@ =~= ("6h"@.drop_last() + " hour"@).push('s'));
    assert("12 hours"@ =~= ("12h"@.drop_last() + " hour"@).push('s'));
    assert("1 day"@ =~= "1d"@.drop_last() + " day"@);
    assert("3 days"@ =~= ("3d"@.drop_last() + " day"@).push('s'));
    assert("7 days"@ =~= ("7d"@.drop_last() + " day"@).push('s'));
    assert("30 days"@ =~= ("30d"@.drop_last() + " day"@).push('s'));
    assert("3 months"@ =~= ("3m"@.drop_last() + " month"@).push('s'));
    assert("6 months"@ =~= ("6m"@.drop_last() + " month"@).push('s'));
    assert("1 year"@ =~= "1y"@.drop_last() + " year"@);
    one_digit_counts('3');
    one_digit_counts('5');
    one_digit_counts('6');
    one_digit_counts('7');
    two_digits_count('1', '2');
    two_digits_count('3', '0');
    assert("5m"@.drop_last() =~= seq!['5'] && "30m"@.drop_last() =~= seq!['3', '0']);
    assert("6h"@.drop_last() =~= seq!['6'] && "12h"@.drop_last() =~= seq!['1', '2']);
    assert("3d"@.drop_last() =~= seq!['3'] && "30d"@.drop_last() =~= seq!['3', '0']);
    assert("3m"@.drop_last() =~= seq!['3'] && "6m"@.drop_last() =~= seq!['6'] && "7d"@.drop_last() =~= seq!['7']);
    assert("5m"@.last() == 'm' && "30m"@.last() == 'm' && "3m"@.last() == 'm' && "6m"@.last() == 'm');
    assert("1h"@.last() == 'h' && "6h"@.last() == 'h' && "12h"@.last() == 'h' && "1y"@.last() == 'y');
    assert("1d"@.last() == 'd' && "3d"@.last() == 'd' && "7d"@.last() == 'd' && "30d"@.last() == 'd');
}

/// A history that reaches back some time starts that long before now; the one
/// of the year starts with the year that now lies in; the one of all time with
/// the year 2020.
pub proof fn histories_start_where_they_say(start: UsageHistoryStart, now: int)
    requires
        calendar::in_calendar(now),
    ensures
        start matches UsageHistoryStart::Duration(ns) ==> calendar::in_calendar(now - ns) ==> now - start_of(start, now)
            == ns,
        start is YearToDate ==> start_of(start, now) <= now < start_of(start, now) + 366 * 86_400_000_000_000
            && exists|year: int| start_of(start, now) == 86_400_000_000_000 * #[trigger] calendar::year_day(year),
        start is AllTime ==> start_of(start, now) == 18_262 * 86_400_000_000_000,
{
    let day = calendar::day_of(now);
    calendar::days_have_one_year(day, 0);
    let year = calendar::year_of(day);
    calendar::years_have_their_days(year);
    calendar::year_day_of_2020();
}

/// The rows hold that value of the device at that moment.
pub open spec fn tells(rows: Seq<ExportRowModel>, at: Stamp, device: Seq<char>, value: u64) -> bool {
    exists|i: int|
        0 <= i < rows.len() && (#[trigger] rows[i]).timestamp == at && table::lookup(rows[i].values, device) == Some(
            value,
        )
}

/// A reading is found again at its moment under its device, and everything that
/// the rows held of other moments or other devices is still there, and no more.
pub proof fn readings_are_found_again(
    rows: Seq<ExportRowModel>,
    device: Seq<char>,
    at: Stamp,
    value: u64,
    other: Seq<char>,
    then_at: Stamp,
    old_value: u64,
)
    ensures
        tells(with_reading(rows, device, at, value), at, device, value),
        other != device || then_at != at ==> (tells(with_reading(rows, device, at, value), then_at, other, old_value)
            <==> tells(rows, then_at, other, old_value)),
{
    row_slot_facts(rows, at, 0);
    let i = row_slot(rows, at, 0);
    let next = with_reading(rows, device, at, value);
    let none = Seq::<(Seq<char>, u64)>::empty();
    table::put_then_lookup(none, device, value, other);
    assert(table::lookup(none, other) is None);
    if i < rows.len() && rows[i].timestamp == at {
        table::put_then_lookup(rows[i].values, device, value, other);
        assert(next[i].timestamp == at);
        if tells(next, then_at, other, old_value) && (other != device || then_at != at) {
            let k = choose|k: int|
                0 <= k < next.len() && (#[trigger] next[k]).timestamp == then_at && table::lookup(next[k].values, other)
                    == Some(old_value);
            assert(rows[k].timestamp == then_at);
        }
        if tells(rows, then_at, other, old_value) && (other != device || then_at != at) {
            let k = choose|k: int|
                0 <= k < rows.len() && (#[trigger] rows[k]).timestamp == then_at && table::lookup(rows[k].values, other)
                    == Some(old_value);
            assert(next[k].timestamp == then_at);
        }
    } else {
        assert(next[i].timestamp == at);
        if tells(next, then_at, other, old_value) && (other != device || then_at != at) {
            let k = choose|k: int|
                0 <= k < next.len() && (#[trigger] next[k]).timestamp == then_at && table::lookup(next[k].values, other)
                    == Some(old_value);
            if k < i {
                assert(rows[k] == next[k]);
            } else if k > i {
                assert(rows[k - 1] == next[k]);
            }
        }
        if tells(rows, then_at, other, old_value) {
            let k = choose|k: int|
                0 <= k < rows.len() && (#[trigger] rows[k]).timestamp == then_at && table::lookup(rows[k].values, other)
                    == Some(old_value);
            if k < i {
                assert(rows[k] == next[k]);
            } else {
                assert(rows[k] == next[k + 1]);
            }
        }
    }
}

/// The total at a moment, if there is one.
pub open spec fn total_at(totals: Seq<UsageTotal>, at: Stamp, value: u64) -> bool {
    exists|i: int| 0 <= i < totals.len() && (#[trigger] totals[i]).timestamp == at && totals[i].value == value
}

/// A value is added to the total of its moment, or to zero where there is none
/// yet; the totals of other moments stay.
pub proof fn totals_add_up(
    totals: Seq<UsageTotal>,
    at: Stamp,
    value: u64,
    o: Oracle,
    stood: u64,
    sum: u64,
    other: Stamp,
    kept: u64,
)
    requires
        totals_in_order(totals),
    ensures
        total_at(totals, at, stood) && o(AskModel::Binary(BinaryMath::Add, stood, value)) == AnswerModel::Bits(Some(sum))
            ==> total_at(with_value(totals, at, value, o), at, sum),
        (forall|i: int| 0 <= i < totals.len() ==> (#[trigger] totals[i]).timestamp != at) && o(
            AskModel::Binary(BinaryMath::Add, 0, value),
        ) == AnswerModel::Bits(Some(sum)) ==> total_at(with_value(totals, at, value, o), at, sum),
        other != at ==> (total_at(with_value(totals, at, value, o), other, kept) <==> total_at(totals, other, kept)),
{
    total_slot_facts(totals, at, 0);
    let i = total_slot(totals, at, 0);
    let next = with_value(totals, at, value, o);
    if total_at(totals, at, stood) {
        let k = choose|k: int| 0 <= k < totals.len() && (#[trigger] totals[k]).timestamp == at && totals[k].value == stood;
        if i < k {
            assert(calendar::earlier(totals[i].timestamp, totals[k].timestamp));
        }
        assert(i == k);
        assert(next[i].timestamp == at);
    }
    if i < totals.len() && totals[i].timestamp == at {
        if total_at(next, other, kept) {
            let k = choose|k: int| 0 <= k < next.len() && (#[trigger] next[k]).timestamp == other && next[k].value == kept;
            assert(totals[k] == next[k] || k == i);
        }
        if total_at(totals, other, kept) {
            let k = choose|k: int|
                0 <= k < totals.len() && (#[trigger] totals[k]).timestamp == other && totals[k].value == kept;
            assert(totals[k] == next[k] || k == i);
        }
    } else {
        assert(next[i].timestamp == at);
        if total_at(next, other, kept) {
            let k = choose|k: int| 0 <= k < next.len() && (#[trigger] next[k]).timestamp == other && next[k].value == kept;
            if k < i {
                assert(totals[k] == next[k]);
            } else if k > i {
                assert(totals[k - 1] == next[k]);
            }
        }
        if total_at(totals, other, kept) {
            let k = choose|k: int|
                0 <= k < totals.len() && (#[trigger] totals[k]).timestamp == other && totals[k].value == kept;
            if k < i {
                assert(totals[k] == next[k]);
            } else {
                assert(totals[k] == next[k + 1]);
            }
        }
    }
}

/// The points of a series are its readings that have a value, each with its
/// value at its moment in milliseconds, in the order in which they came.
pub proof fn points_are_the_readings(entries: Seq<Reading>, n: int)
    requires
        0 <= n <= entries.len(),
    ensures
        points_of(entries, n).len() <= n,
        n > 0 && entries[n - 1].value is None ==> points_of(entries, n) == points_of(entries, n - 1),
        n > 0 ==> (entries[n - 1].value matches Some(v) ==> {
            &&& points_of(entries, n).drop_last() == points_of(entries, n - 1)
            &&& points_of(entries, n).last().value == v
            &&& points_of(entries, n).last().timestamp_ms == (1000 * entries[n - 1].timestamp.seconds
                + entries[n - 1].timestamp.nanos as int / 1_000_000) as i64
        }),
        points_of(entries, 0).len() == 0,
    decreases n,
{
    if n > 0 {
        points_are_the_readings(entries, n - 1);
        assert(points_of(entries, n - 1).push(points_of(entries, n).last()).drop_last() =~= points_of(entries, n - 1));
    }
}

/// Every device that answered has a series, under its name, and every one that
/// failed an error with what it said, under its name; none has both.
pub proof fn answers_are_told_apart(answers: Seq<DeviceReadingsModel>, n: int, k: int)
    requires
        0 <= k < n <= answers.len(),
    ensures
        series_of(answers, n).len() + failures(answers, n).len() == n,
        answers[k].outcome matches ReadOutcomeModel::Read { entries } ==> exists|i: int|
            0 <= i < series_of(answers, n).len() && (#[trigger] series_of(answers, n)[i]).device_name
                == answers[k].device_name && series_of(answers, n)[i].points == points_of(entries, entries.len() as int),
        answers[k].outcome matches ReadOutcomeModel::Failed { message } ==> exists|i: int|
            0 <= i < failures(answers, n).len() && (#[trigger] failures(answers, n)[i]).device_name
                == answers[k].device_name && failures(answers, n)[i].message == message,
    decreases n,
{
    answers_are_counted(answers, n);
    let series = series_of(answers, n);
    let failed = failures(answers, n);
    if k < n - 1 {
        answers_are_told_apart(answers, n - 1, k);
        let before = series_of(answers, n - 1);
        let failed_before = failures(answers, n - 1);
        match answers[k].outcome {
            ReadOutcomeModel::Read { entries } => {
                let i = choose|i: int|
                    0 <= i < before.len() && (#[trigger] before[i]).device_name == answers[k].device_name
                        && before[i].points == points_of(entries, entries.len() as int);
                assert(series[i] == before[i]);
            },
            ReadOutcomeModel::Failed { message } => {
                let i = choose|i: int|
                    0 <= i < failed_before.len() && (#[trigger] failed_before[i]).device_name == answers[k].device_name
                        && failed_before[i].message == message;
                assert(failed[i] == failed_before[i]);
            },
        }
    } else {
        match answers[k].outcome {
            ReadOutcomeModel::Read { entries } => {
                assert(series[series.len() - 1].device_name == answers[k].device_name);
            },
            ReadOutcomeModel::Failed { message } => {
                assert(failed[failed.len() - 1].device_name == answers[k].device_name);
            },
        }
    }
}

proof fn answers_are_counted(answers: Seq<DeviceReadingsModel>, n: int)
    requires
        0 <= n <= answers.len(),
    ensures
        series_of(answers, n).len() + failures(answers, n).len() == n,
    decreases n,
{
    if n > 0 {
        answers_are_counted(answers, n - 1);
    }
}

/// A question about power covers the time from the start to the end in parts
/// of at most the limit, at the fineness asked for; one about energy starts
/// with the day of the start.
pub proof fn questions_cover_their_time(interval: PowerExportInterval, limit: i128, start: int, end: int)
    requires
        i128::MIN <= start < end <= i128::MAX,
        limit > 0,
        calendar::in_calendar(start),
    ensures
        ({
            let power = question_of(UsageHistoryKind::Power { interval, range_limit: limit }, start, end);
            &&& interval is Hourly ==> (power matches ExportKindModel::PowerHourly { ranges } && ranges.len() > 0
                && ranges[0].0 == start && ranges.last().1 == end && ranges == spans(start, end, limit as int))
            &&& interval is Every5Minutes ==> (power matches ExportKindModel::PowerEvery5Minutes { ranges }
                && ranges.len() > 0 && ranges[0].0 == start && ranges.last().1 == end && ranges == spans(
                start,
                end,
                limit as int,
            ))
        }),
        question_of(UsageHistoryKind::EnergyDaily, start, end) matches ExportKindModel::EnergyDaily { start_day }
            && 86_400_000_000_000 * start_day <= start < 86_400_000_000_000 * (start_day + 1),
        question_of(UsageHistoryKind::EnergyMonthly, start, end) matches ExportKindModel::EnergyMonthly { start_day }
            && 86_400_000_000_000 * start_day <= start < 86_400_000_000_000 * (start_day + 1),
{
    spans_cover(start, end, limit as int);
}

/// The workbook has five sheets: energy by the hour for the seven days that end
/// today, by the day from the start of the quarter and by the month from the
/// start of the year, and power every five minutes of the last day and every
/// hour of the last seven.
pub proof fn workbooks_have_five_sheets(now: int)
    requires
        calendar::in_calendar(now),
        calendar::in_calendar(now - 604_800_000_000_000),
        calendar::is_day(calendar::day_of(now) - 6),
    ensures
        sheets(now) matches Ok(s) && s.len() == 5 && {
            let day: int = 86_400_000_000_000;
            &&& s[0].kind matches ExportKindModel::EnergyHourly { start_day, end_day } && end_day - start_day == 6
                && day * end_day <= now < day * (end_day + 1)
            &&& s[1].kind matches ExportKindModel::EnergyDaily { start_day } && start_day == calendar::quarter_day(
                calendar::day_of(now),
            )
            &&& s[2].kind matches ExportKindModel::EnergyMonthly { start_day } && start_day == calendar::year_day(
                calendar::year_of(calendar::day_of(now)),
            )
            &&& s[3].kind matches ExportKindModel::PowerEvery5Minutes { ranges } && ranges[0].0 == now - day
                && ranges.last().1 == now
            &&& s[4].kind matches ExportKindModel::PowerHourly { ranges } && ranges[0].0 == now - 7 * day
                && ranges.last().1 == now
            &&& s[0].value_format == "0.000"@ && s[1].value_format == "0.000"@ && s[2].value_format == "0.000"@
            &&& s[3].value_format == "0.0"@ && s[4].value_format == "0.0"@
        },
{
    spans_cover(now - 86_400_000_000_000, now, 43_200_000_000_000);
    spans_cover(now - 604_800_000_000_000, now, 518_400_000_000_000);
    let today = calendar::day_of(now);
    calendar::days_have_one_year(today, 0);
    calendar::quarters_hold_their_day(today);
}

/// Just the P110 and the P115 measure what they use, and just the devices of
/// these models are read.
pub proof fn measuring_devices_are_read(t: Seq<(Seq<char>, ManagedDeviceModel)>, k: int)
    requires
        0 <= k < t.len(),
    ensures
        t[k].1.config.model is P110 || t[k].1.config.model is P115 ==> readable(t).contains(
            ExportDeviceModel { name: t[k].1.name, config: t[k].1.config },
        ),
        forall|d: ExportDeviceModel| #[trigger] readable(t).contains(d) ==> d.config.model is P110 || d.config.model is P115,
{
    let all = t.map_values(|e: (Seq<char>, ManagedDeviceModel)| e.1);
    let some = all.filter(device_measures());
    broadcast use vstd::seq_lib::group_filter_ensures;

    assert(all[k] == t[k].1);
    if device_measures()(t[k].1) {
        assert(some.contains(t[k].1));
        let i = choose|i: int| 0 <= i < some.len() && some[i] == t[k].1;
        assert(readable(t)[i] == (ExportDeviceModel { name: t[k].1.name, config: t[k].1.config }));
    }
    assert forall|d: ExportDeviceModel| #[trigger] readable(t).contains(d) implies d.config.model is P110
        || d.config.model is P115 by {
        let i = choose|i: int| 0 <= i < readable(t).len() && readable(t)[i] == d;
        assert(device_measures()(some[i]));
    }
}

/// The answer tells the history that was asked for: its key, its label, its
/// interval, its unit, when it starts and ends, the series of each device, the
/// totals and the failures.
pub proof fn answers_tell_their_history(
    range: UsageHistoryRangeModel,
    answers: Seq<DeviceReadingsModel>,
    start: int,
    now: int,
    updated: u128,
    o: Oracle,
)
    requires
        calendar::in_calendar(start),
        calendar::in_calendar(now),
    ensures
        ({
            let h = history(range, answers, start, now, updated, o);
            &&& h.range == range.key && h.range_label == range.label && h.interval == range.interval_label && h.unit
                == range.unit
            &&& h.updated_at_ms == updated
            &&& h.series == series_of(answers, answers.len() as int)
            &&& h.errors == failures(answers, answers.len() as int)
            &&& h.totals.len() == totals_of(answers, answers.len() as int, o).len()
            &&& calendar::utc_text(calendar::stamp_of(start).seconds, calendar::stamp_of(start).nanos) matches Some(s)
                ==> h.start_date == s
            &&& calendar::utc_text(calendar::stamp_of(now).seconds, calendar::stamp_of(now).nanos) matches Some(s)
                ==> h.end_date == s
        }),
{
}

/// The total of a row of two values is the first and the second added in turn
/// to a zero that leaves the sign to them; the points of the totals carry the
/// totals.
pub proof fn rows_add_up_in_turn(
    a: Seq<char>,
    b: Seq<char>,
    x: u64,
    y: u64,
    first: u64,
    both: u64,
    o: Oracle,
    totals: Seq<UsageTotal>,
    i: int,
)
    requires
        o(AskModel::Binary(BinaryMath::Add, 0x8000_0000_0000_0000, x)) == AnswerModel::Bits(Some(first)),
        o(AskModel::Binary(BinaryMath::Add, first, y)) == AnswerModel::Bits(Some(both)),
    ensures
        sum_of(seq![(a, x), (b, y)], 2, o) == both,
        total_points(totals).len() == totals.len(),
        0 <= i < totals.len() ==> total_points(totals)[i].value == totals[i].value && total_points(totals)[i].timestamp_ms
            == (1000 * totals[i].timestamp.seconds + totals[i].timestamp.nanos as int / 1_000_000) as i64,
{
    reveal_with_fuel(sum_of, 3);
}

/// The rows and the totals of several devices hold the readings of each that
/// answered.
pub proof fn rows_hold_the_readings(answers: Seq<DeviceReadingsModel>, n: int, entries: Seq<Reading>, value: u64)
    requires
        0 < n <= answers.len(),
        answers[n - 1].outcome == (ReadOutcomeModel::Read { entries }),
        entries.len() > 0,
        entries.last().value == Some(value),
    ensures
        tells(rows_from(answers, n), entries.last().timestamp, answers[n - 1].device_name, value),
{
    let before = rows_from(answers, n - 1);
    let k = entries.len() as int;
    readings_are_found_again(
        with_readings(before, answers[n - 1].device_name, entries, k - 1),
        answers[n - 1].device_name,
        entries.last().timestamp,
        value,
        answers[n - 1].device_name,
        entries.last().timestamp,
        value,
    );
}

/// All parts of a span but the last are as long as they may be.
pub proof fn spans_are_filled(start: int, end: int, limit: int, i: int)
    requires
        i128::MIN <= start < end <= i128::MAX,
        limit > 0,
        0 <= i < spans(start, end, limit).len() - 1,
    ensures
        spans(start, end, limit)[i].0 == start + i * limit,
        spans(start, end, limit)[i].1 == start + (i + 1) * limit,
    decreases end - start,
{
    if end - start > limit {
        let rest = spans(start + limit, end, limit);
        assert(spans(start, end, limit) == seq![(start as i128, (start + limit) as i128)] + rest);
        if i > 0 {
            spans_are_filled(start + limit, end, limit, i - 1);
            assert(spans(start, end, limit)[i] == rest[i - 1]);
            assert(start + limit + (i - 1) * limit == start + i * limit) by (nonlinear_arith);
            assert(start + limit + i * limit == start + (i + 1) * limit) by (nonlinear_arith);
        } else {
            assert(0 * limit == 0 && 1 * limit == limit) by (nonlinear_arith);
        }
    }
}

} // verus!
