//! Schedules: switching a device by the calendar, or in phases of fixed length.

use vstd::prelude::*;
use vstd::string::*;

use crate::actions::{ScheduleAction, ScheduleKind};
use crate::dup::Dup;
use crate::lists;
use crate::lists::{has_text, list_out, Listed};
use crate::merge;
use crate::merge::{given_or, relabel};
use crate::table;
use crate::table::Table;
use crate::text;
use crate::text::{around, decimal_text, join, parse_unsigned, same, split_char, split_once, split_whitespace, starts_with, trim};
use crate::time;
use crate::time::{now_ms, optional_label, stamped_id};

verus! {

/// The shortest cycle of on and off phases.
pub const MIN_INTERVAL_CYCLE_SECONDS: u64 = 60;

/// When a device is to be switched, and how that went last.
pub struct ScheduleConfig {
    pub id: String,
    pub device_name: String,
    pub kind: ScheduleKind,
    pub cron: Option<String>,
    pub action: Option<ScheduleAction>,
    pub on_seconds: Option<u64>,
    pub off_seconds: Option<u64>,
    pub start_action: Option<ScheduleAction>,
    pub starts_at_ms: Option<u128>,
    pub enabled: bool,
    pub label: Option<String>,
    pub condition_ids: Vec<String>,
    pub created_at_ms: u128,
    pub last_fired_at_ms: Option<u128>,
    pub last_error: Option<String>,
}

/// The contents of `ScheduleConfig`.
#[verifier::ext_equal]
pub struct ScheduleConfigModel {
    pub id: Seq<char>,
    pub device_name: Seq<char>,
    pub kind: ScheduleKind,
    pub cron: Option<Seq<char>>,
    pub action: Option<ScheduleAction>,
    pub on_seconds: Option<u64>,
    pub off_seconds: Option<u64>,
    pub start_action: Option<ScheduleAction>,
    pub starts_at_ms: Option<u128>,
    pub enabled: bool,
    pub label: Option<Seq<char>>,
    pub condition_ids: Seq<Seq<char>>,
    pub created_at_ms: u128,
    pub last_fired_at_ms: Option<u128>,
    pub last_error: Option<Seq<char>>,
}

impl DeepView for ScheduleConfig {
    type V = ScheduleConfigModel;

    open spec fn deep_view(&self) -> ScheduleConfigModel {
        ScheduleConfigModel {
            id: self.id.deep_view(),
            device_name: self.device_name.deep_view(),
            kind: self.kind.deep_view(),
            cron: self.cron.deep_view(),
            action: self.action.deep_view(),
            on_seconds: self.on_seconds.deep_view(),
            off_seconds: self.off_seconds.deep_view(),
            start_action: self.start_action.deep_view(),
            starts_at_ms: self.starts_at_ms.deep_view(),
            enabled: self.enabled.deep_view(),
            label: self.label.deep_view(),
            condition_ids: self.condition_ids.deep_view(),
            created_at_ms: self.created_at_ms.deep_view(),
            last_fired_at_ms: self.last_fired_at_ms.deep_view(),
            last_error: self.last_error.deep_view(),
        }
    }
}

impl Dup for ScheduleConfig {
    fn dup(&self) -> (r: Self) {
        ScheduleConfig {
            id: self.id.dup(),
            device_name: self.device_name.dup(),
            kind: self.kind.dup(),
            cron: self.cron.dup(),
            action: self.action.dup(),
            on_seconds: self.on_seconds.dup(),
            off_seconds: self.off_seconds.dup(),
            start_action: self.start_action.dup(),
            starts_at_ms: self.starts_at_ms.dup(),
            enabled: self.enabled.dup(),
            label: self.label.dup(),
            condition_ids: self.condition_ids.dup(),
            created_at_ms: self.created_at_ms.dup(),
            last_fired_at_ms: self.last_fired_at_ms.dup(),
            last_error: self.last_error.dup(),
        }
    }
}

/// What a schedule by the calendar is made from.
pub struct CronRequest {
    pub device_name: String,
    pub cron: String,
    pub action: ScheduleAction,
    pub label: Option<String>,
    pub enabled: bool,
    pub condition_ids: Vec<String>,
}

/// The contents of `CronRequest`.
#[verifier::ext_equal]
pub struct CronRequestModel {
    pub device_name: Seq<char>,
    pub cron: Seq<char>,
    pub action: ScheduleAction,
    pub label: Option<Seq<char>>,
    pub enabled: bool,
    pub condition_ids: Seq<Seq<char>>,
}

impl DeepView for CronRequest {
    type V = CronRequestModel;

    open spec fn deep_view(&self) -> CronRequestModel {
        CronRequestModel {
            device_name: self.device_name.deep_view(),
            cron: self.cron.deep_view(),
            action: self.action.deep_view(),
            label: self.label.deep_view(),
            enabled: self.enabled.deep_view(),
            condition_ids: self.condition_ids.deep_view(),
        }
    }
}

impl Dup for CronRequest {
    fn dup(&self) -> (r: Self) {
        CronRequest {
            device_name: self.device_name.dup(),
            cron: self.cron.dup(),
            action: self.action.dup(),
            label: self.label.dup(),
            enabled: self.enabled.dup(),
            condition_ids: self.condition_ids.dup(),
        }
    }
}

/// What a schedule by the length of its phases is made from.
pub struct IntervalRequest {
    pub device_name: String,
    pub on_seconds: u64,
    pub off_seconds: u64,
    pub start_action: ScheduleAction,
    pub starts_at_ms: Option<u128>,
    pub label: Option<String>,
    pub enabled: bool,
    pub condition_ids: Vec<String>,
}

/// The contents of `IntervalRequest`.
#[verifier::ext_equal]
pub struct IntervalRequestModel {
    pub device_name: Seq<char>,
    pub on_seconds: u64,
    pub off_seconds: u64,
    pub start_action: ScheduleAction,
    pub starts_at_ms: Option<u128>,
    pub label: Option<Seq<char>>,
    pub enabled: bool,
    pub condition_ids: Seq<Seq<char>>,
}

impl DeepView for IntervalRequest {
    type V = IntervalRequestModel;

    open spec fn deep_view(&self) -> IntervalRequestModel {
        IntervalRequestModel {
            device_name: self.device_name.deep_view(),
            on_seconds: self.on_seconds.deep_view(),
            off_seconds: self.off_seconds.deep_view(),
            start_action: self.start_action.deep_view(),
            starts_at_ms: self.starts_at_ms.deep_view(),
            label: self.label.deep_view(),
            enabled: self.enabled.deep_view(),
            condition_ids: self.condition_ids.deep_view(),
        }
    }
}

impl Dup for IntervalRequest {
    fn dup(&self) -> (r: Self) {
        IntervalRequest {
            device_name: self.device_name.dup(),
            on_seconds: self.on_seconds.dup(),
            off_seconds: self.off_seconds.dup(),
            start_action: self.start_action.dup(),
            starts_at_ms: self.starts_at_ms.dup(),
            label: self.label.dup(),
            enabled: self.enabled.dup(),
            condition_ids: self.condition_ids.dup(),
        }
    }
}

/// What a new schedule is made from.
pub enum CreateScheduleRequest {
    Cron { cron: CronRequest },
    Interval { interval: IntervalRequest },
}

/// The contents of `CreateScheduleRequest`.
#[verifier::ext_equal]
pub enum CreateScheduleRequestModel {
    Cron { cron: CronRequestModel },
    Interval { interval: IntervalRequestModel },
}

impl DeepView for CreateScheduleRequest {
    type V = CreateScheduleRequestModel;

    open spec fn deep_view(&self) -> CreateScheduleRequestModel {
        match self {
            CreateScheduleRequest::Cron { cron } => CreateScheduleRequestModel::Cron { cron: cron.deep_view() },
            CreateScheduleRequest::Interval { interval } => CreateScheduleRequestModel::Interval { interval: interval.deep_view() },
        }
    }
}

impl Dup for CreateScheduleRequest {
    fn dup(&self) -> (r: Self) {
        match self {
            CreateScheduleRequest::Cron { cron } => CreateScheduleRequest::Cron { cron: cron.dup() },
            CreateScheduleRequest::Interval { interval } => CreateScheduleRequest::Interval { interval: interval.dup() },
        }
    }
}

/// What is to change in a schedule; what is `None` stays.
pub struct UpdateScheduleRequest {
    pub enabled: Option<bool>,
    pub cron: Option<String>,
    pub action: Option<ScheduleAction>,
    pub on_seconds: Option<u64>,
    pub off_seconds: Option<u64>,
    pub start_action: Option<ScheduleAction>,
    pub label: Option<Option<String>>,
    pub condition_ids: Option<Vec<String>>,
}

/// The contents of `UpdateScheduleRequest`.
#[verifier::ext_equal]
pub struct UpdateScheduleRequestModel {
    pub enabled: Option<bool>,
    pub cron: Option<Seq<char>>,
    pub action: Option<ScheduleAction>,
    pub on_seconds: Option<u64>,
    pub off_seconds: Option<u64>,
    pub start_action: Option<ScheduleAction>,
    pub label: Option<Option<Seq<char>>>,
    pub condition_ids: Option<Seq<Seq<char>>>,
}

impl DeepView for UpdateScheduleRequest {
    type V = UpdateScheduleRequestModel;

    open spec fn deep_view(&self) -> UpdateScheduleRequestModel {
        UpdateScheduleRequestModel {
            enabled: self.enabled.deep_view(),
            cron: self.cron.deep_view(),
            action: self.action.deep_view(),
            on_seconds: self.on_seconds.deep_view(),
            off_seconds: self.off_seconds.deep_view(),
            start_action: self.start_action.deep_view(),
            label: self.label.deep_view(),
            condition_ids: self.condition_ids.deep_view(),
        }
    }
}

impl Dup for UpdateScheduleRequest {
    fn dup(&self) -> (r: Self) {
        UpdateScheduleRequest {
            enabled: self.enabled.dup(),
            cron: self.cron.dup(),
            action: self.action.dup(),
            on_seconds: self.on_seconds.dup(),
            off_seconds: self.off_seconds.dup(),
            start_action: self.start_action.dup(),
            label: self.label.dup(),
            condition_ids: self.condition_ids.dup(),
        }
    }
}

/// A schedule as callers see it, with the time at which it fires next.
pub struct ScheduleView {
    pub id: String,
    pub device_name: String,
    pub kind: ScheduleKind,
    pub cron: Option<String>,
    pub action: Option<ScheduleAction>,
    pub on_seconds: Option<u64>,
    pub off_seconds: Option<u64>,
    pub start_action: Option<ScheduleAction>,
    pub starts_at_ms: Option<u128>,
    pub enabled: bool,
    pub label: Option<String>,
    pub condition_ids: Vec<String>,
    pub created_at_ms: u128,
    pub last_fired_at_ms: Option<u128>,
    pub last_error: Option<String>,
    pub next_fire_at_ms: Option<i64>,
}

/// The contents of `ScheduleView`.
#[verifier::ext_equal]
pub struct ScheduleViewModel {
    pub id: Seq<char>,
    pub device_name: Seq<char>,
    pub kind: ScheduleKind,
    pub cron: Option<Seq<char>>,
    pub action: Option<ScheduleAction>,
    pub on_seconds: Option<u64>,
    pub off_seconds: Option<u64>,
    pub start_action: Option<ScheduleAction>,
    pub starts_at_ms: Option<u128>,
    pub enabled: bool,
    pub label: Option<Seq<char>>,
    pub condition_ids: Seq<Seq<char>>,
    pub created_at_ms: u128,
    pub last_fired_at_ms: Option<u128>,
    pub last_error: Option<Seq<char>>,
    pub next_fire_at_ms: Option<i64>,
}

impl DeepView for ScheduleView {
    type V = ScheduleViewModel;

    open spec fn deep_view(&self) -> ScheduleViewModel {
        ScheduleViewModel {
            id: self.id.deep_view(),
            device_name: self.device_name.deep_view(),
            kind: self.kind.deep_view(),
            cron: self.cron.deep_view(),
            action: self.action.deep_view(),
            on_seconds: self.on_seconds.deep_view(),
            off_seconds: self.off_seconds.deep_view(),
            start_action: self.start_action.deep_view(),
            starts_at_ms: self.starts_at_ms.deep_view(),
            enabled: self.enabled.deep_view(),
            label: self.label.deep_view(),
            condition_ids: self.condition_ids.deep_view(),
            created_at_ms: self.created_at_ms.deep_view(),
            last_fired_at_ms: self.last_fired_at_ms.deep_view(),
            last_error: self.last_error.deep_view(),
            next_fire_at_ms: self.next_fire_at_ms.deep_view(),
        }
    }
}

impl Dup for ScheduleView {
    fn dup(&self) -> (r: Self) {
        ScheduleView {
            id: self.id.dup(),
            device_name: self.device_name.dup(),
            kind: self.kind.dup(),
            cron: self.cron.dup(),
            action: self.action.dup(),
            on_seconds: self.on_seconds.dup(),
            off_seconds: self.off_seconds.dup(),
            start_action: self.start_action.dup(),
            starts_at_ms: self.starts_at_ms.dup(),
            enabled: self.enabled.dup(),
            label: self.label.dup(),
            condition_ids: self.condition_ids.dup(),
            created_at_ms: self.created_at_ms.dup(),
            last_fired_at_ms: self.last_fired_at_ms.dup(),
            last_error: self.last_error.dup(),
            next_fire_at_ms: self.next_fire_at_ms.dup(),
        }
    }
}

/// A schedule as callers see it, if it fires next at `next`.
pub open spec fn view_of(s: ScheduleConfigModel, next: Option<i64>) -> ScheduleViewModel {
    ScheduleViewModel {
        id: s.id,
        device_name: s.device_name,
        kind: s.kind,
        cron: s.cron,
        action: s.action,
        on_seconds: s.on_seconds,
        off_seconds: s.off_seconds,
        start_action: s.start_action,
        starts_at_ms: s.starts_at_ms,
        enabled: s.enabled,
        label: s.label,
        condition_ids: s.condition_ids,
        created_at_ms: s.created_at_ms,
        last_fired_at_ms: s.last_fired_at_ms,
        last_error: s.last_error,
        next_fire_at_ms: next,
    }
}

/// A schedule as callers see it, if it fires next at `next`.
pub fn schedule_view_with(schedule: &ScheduleConfig, next: Option<i64>) -> (v: ScheduleView)
    ensures
        v.deep_view() == view_of(schedule.deep_view(), next),
{
    ScheduleView {
        id: schedule.id.dup(),
        device_name: schedule.device_name.dup(),
        kind: schedule.kind.dup(),
        cron: schedule.cron.dup(),
        action: schedule.action.dup(),
        on_seconds: schedule.on_seconds.dup(),
        off_seconds: schedule.off_seconds.dup(),
        start_action: schedule.start_action.dup(),
        starts_at_ms: schedule.starts_at_ms.dup(),
        enabled: schedule.enabled.dup(),
        label: schedule.label.dup(),
        condition_ids: schedule.condition_ids.dup(),
        created_at_ms: schedule.created_at_ms.dup(),
        last_fired_at_ms: schedule.last_fired_at_ms.dup(),
        last_error: schedule.last_error.dup(),
        next_fire_at_ms: next,
    }
}

/// What an automation, a condition, a hook or a schedule starts as: enabled.
pub fn default_true() -> (b: bool)
    ensures
        b,
{
    true
}

/// Fails where no device has that name.
pub fn ensure_device_exists<V: DeepView>(devices: &Table<V>, device_name: &str) -> (r: Result<(), String>)
    ensures
        match r {
            Ok(_) => table::has_key(devices.deep_view(), device_name@),
            Err(m) => !table::has_key(devices.deep_view(), device_name@) && m@ == "unknown device '"@ + device_name@
                + "'"@,
        },
{
    if !devices.contains_key(device_name) {
        return Err(around("unknown device '", device_name, "'"));
    }
    Ok(())
}

/// The first of `ids` from `i` on that the table does not hold.
pub open spec fn unknown_from<V>(t: Seq<(Seq<char>, V)>, ids: Seq<Seq<char>>, i: int) -> Option<Seq<char>>
    decreases ids.len() - i,
{
    if i < 0 || i >= ids.len() {
        None
    } else if !table::has_key(t, ids[i]) {
        Some(ids[i])
    } else {
        unknown_from(t, ids, i + 1)
    }
}

/// The conditions that `ids` name, each once; or the first that is unknown.
pub open spec fn conditions_check<V>(
    t: Seq<(Seq<char>, V)>,
    ids: Seq<Seq<char>>,
) -> Result<Seq<Seq<char>>, Seq<char>> {
    match unknown_from(t, ids, 0) {
        Some(id) => Err("unknown condition '"@ + id + "'"@),
        None => Ok(lists::distinct(ids)),
    }
}

/// The conditions that `ids` name, each once. Fails where one is unknown.
pub fn ensure_conditions_exist<V: DeepView>(conditions: &Table<V>, ids: &Vec<String>) -> (r: Result<
    Vec<String>,
    String,
>)
    ensures
        match r {
            Ok(kept) => conditions_check(conditions.deep_view(), ids.deep_view()) == Ok::<
                Seq<Seq<char>>,
                Seq<char>,
            >(kept.deep_view()),
            Err(m) => conditions_check(conditions.deep_view(), ids.deep_view()) == Err::<
                Seq<Seq<char>>,
                Seq<char>,
            >(m@),
        },
{
    let ghost t = conditions.deep_view();
    let ghost all = ids.deep_view();
    let mut kept: Vec<String> = Vec::new();
    proof {
        assert(kept.deep_view() =~= Seq::<Seq<char>>::empty());
        assert(all.take(0) =~= Seq::<Seq<char>>::empty());
    }
    let mut i: usize = 0;
    while i < ids.len()
        invariant
            i <= ids@.len(),
            t == conditions.deep_view(),
            all == ids.deep_view(),
            unknown_from(t, all, 0) == unknown_from(t, all, i as int),
            kept.deep_view() == lists::distinct(all.take(i as int)),
        decreases ids@.len() - i,
    {
        let ghost had = kept.deep_view();
        proof {
            assert(all[i as int] == ids@[i as int]@);
            assert(all.take(i + 1).drop_last() =~= all.take(i as int));
            assert(all.take(i + 1).last() == ids@[i as int]@);
        }
        if !conditions.contains_key(ids[i].as_str()) {
            return Err(around("unknown condition '", ids[i].as_str(), "'"));
        }
        if !has_text(&kept, ids[i].as_str()) {
            kept.push(ids[i].clone());
            proof {
                assert(kept.deep_view() =~= had.push(ids@[i as int]@));
            }
        }
        i = i + 1;
    }
    proof {
        assert(all.take(all.len() as int) =~= all);
    }
    Ok(kept)
}

/// Fails where a cycle of the two phases is too short.
pub open spec fn interval_check(on_seconds: u64, off_seconds: u64) -> Result<(), Seq<char>> {
    if on_seconds + off_seconds < 60 {
        Err(
            "on + off duration must be at least 60 seconds (got "@ + text::decimal((on_seconds + off_seconds) as nat)
                + ")"@,
        )
    } else {
        Ok(())
    }
}

/// Fails where a cycle of the two phases is too short.
pub fn validate_interval(on_seconds: u64, off_seconds: u64) -> (r: Result<(), String>)
    ensures
        match r {
            Ok(_) => interval_check(on_seconds, off_seconds) is Ok,
            Err(m) => interval_check(on_seconds, off_seconds) == Err::<(), Seq<char>>(m@),
        },
{
    let cycle: u64 = on_seconds.saturating_add(off_seconds);
    if cycle < MIN_INTERVAL_CYCLE_SECONDS {
        return Err(
            around(
                "on + off duration must be at least 60 seconds (got ",
                decimal_text(cycle as u128).as_str(),
                ")",
            ),
        );
    }
    Ok(())
}

// ---------- Cron expressions ----------

/// A day of the week in the numbering of the `cron` crate, which counts from
/// Sunday as 1: standard expressions count from Sunday as 0, and 7 is Sunday
/// again. What is no number stays.
pub open spec fn dow_value(value: Seq<char>) -> Seq<char> {
    let t = text::trimmed(value);
    match text::unsigned(t, u32::MAX as nat) {
        Some(n) => text::decimal(n % 7 + 1),
        None => t,
    }
}

/// A day of the week in the numbering of the `cron` crate.
pub fn translate_dow_value(value: &str) -> (r: String)
    ensures
        r@ == dow_value(value@),
{
    let t = trim(value);
    match parse_unsigned(t.as_str(), u32::MAX as u64) {
        Some(n) => decimal_text((n % 7 + 1) as u128),
        None => t,
    }
}

/// A day or a range of days, without a step.
pub open spec fn dow_head(value: Seq<char>) -> Seq<char> {
    let t = text::trimmed(value);
    if t == "*"@ || t == "?"@ {
        t
    } else {
        match text::parted(t, '-') {
            Some((start, end)) => dow_value(start) + "-"@ + dow_value(end),
            None => dow_value(t),
        }
    }
}

/// A day or a range of days, without a step.
pub fn translate_dow_head(value: &str) -> (r: String)
    ensures
        r@ == dow_head(value@),
{
    let t = trim(value);
    if same(t.as_str(), "*") || same(t.as_str(), "?") {
        return t;
    }
    match split_once(t.as_str(), '-') {
        Some((start, end)) => around(
            translate_dow_value(start.as_str()).as_str(),
            "-",
            translate_dow_value(end.as_str()).as_str(),
        ),
        None => translate_dow_value(t.as_str()),
    }
}

/// One part of a list of days; a step stays as it is.
pub open spec fn dow_part(part: Seq<char>) -> Seq<char> {
    let t = text::trimmed(part);
    match text::parted(t, '/') {
        Some((head, step)) => dow_head(head) + "/"@ + text::trimmed(step),
        None => dow_head(t),
    }
}

/// One part of a list of days; a step stays as it is.
pub fn translate_dow_part(part: &str) -> (r: String)
    ensures
        r@ == dow_part(part@),
{
    let t = trim(part);
    match split_once(t.as_str(), '/') {
        Some((head, step)) => around(
            translate_dow_head(head.as_str()).as_str(),
            "/",
            trim(step.as_str()).as_str(),
        ),
        None => translate_dow_head(t.as_str()),
    }
}

/// The parts of a list of days.
pub open spec fn dow_parts(field: Seq<char>) -> Seq<Seq<char>> {
    text::pieces(field, ',').map_values(|part: Seq<char>| dow_part(part))
}

/// The field that names days of the week.
pub open spec fn dow_field(field: Seq<char>) -> Seq<char> {
    text::joined(dow_parts(field), ","@)
}

/// The field that names days of the week.
pub fn translate_dow_field(field: &str) -> (r: String)
    ensures
        r@ == dow_field(field@),
{
    let parts = split_char(field, ',');
    let mut out: Vec<String> = Vec::new();
    let mut i: usize = 0;
    while i < parts.len()
        invariant
            i <= parts@.len(),
            parts.deep_view() == text::pieces(field@, ','),
            out@.len() == i,
            forall|j: int| 0 <= j < i ==> (#[trigger] out@[j])@ == dow_parts(field@)[j],
        decreases parts@.len() - i,
    {
        proof {
            assert(parts.deep_view()[i as int] == parts@[i as int]@);
        }
        out.push(translate_dow_part(parts[i].as_str()));
        i = i + 1;
    }
    proof {
        assert(out.deep_view() =~= dow_parts(field@));
    }
    join(&out, ",")
}

/// The expression as the `cron` crate reads it: with its day of the week
/// renumbered. Shorthands, and what has another number of fields, stay.
pub open spec fn crate_format(expression: Seq<char>) -> Seq<char> {
    let t = text::trimmed(expression);
    let fields = text::fields(t);
    if text::begins(t, "@"@) {
        t
    } else if fields.len() == 5 {
        text::joined(fields.update(4, dow_field(fields[4])), " "@)
    } else if fields.len() == 6 || fields.len() == 7 {
        text::joined(fields.update(5, dow_field(fields[5])), " "@)
    } else {
        t
    }
}

/// The expression as the `cron` crate reads it.
pub fn translate_cron_to_crate_format(expression: &str) -> (r: String)
    ensures
        r@ == crate_format(expression@),
{
    let t = trim(expression);
    if starts_with(t.as_str(), "@") {
        return t;
    }
    let mut fields = split_whitespace(t.as_str());
    let n: usize = fields.len();
    if n < 5 || n > 7 {
        return t;
    }
    let dow: usize = if n == 5 { 4 } else { 5 };
    let ghost before = fields.deep_view();
    proof {
        assert(before[dow as int] == fields@[dow as int]@);
    }
    let field = translate_dow_field(fields[dow].as_str());
    fields.set(dow, field);
    proof {
        assert(fields.deep_view() =~= before.update(dow as int, dow_field(before[dow as int])));
    }
    join(&fields, " ")
}

/// A schedule as the `cron` crate holds it.
#[verifier::external_type_specification]
#[verifier::external_body]
pub struct ExCronSchedule(cron::Schedule);

/// Why `cron::Schedule::from_str` does not read a text; `None` if it does.
pub uninterp spec fn cron_fault(expression: Seq<char>) -> Option<Seq<char>>;

/// What `cron::Schedule::source` gives: the expression that a schedule was read
/// from.
pub uninterp spec fn cron_source(schedule: cron::Schedule) -> Seq<char>;

/// `cron::Schedule::from_str`: reads an expression into a schedule that keeps
/// it as its source, or says in the words of its error why it does not.
#[verifier::external_body]
fn cron_from_str(expression: &str) -> (r: Result<cron::Schedule, String>)
    ensures
        match r {
            Ok(schedule) => cron_fault(expression@) is None && cron_source(schedule) == expression@,
            Err(m) => cron_fault(expression@) == Some(m@),
        },
{
    <cron::Schedule as std::str::FromStr>::from_str(expression).map_err(|error| error.to_string())
}

/// The message for an expression that the `cron` crate does not read.
pub open spec fn cron_message(fault: Seq<char>) -> Seq<char> {
    "invalid cron expression: "@ + fault
}

/// Reads a cron expression in standard numbering.
pub fn parse_cron(expression: &str) -> (r: Result<cron::Schedule, String>)
    ensures
        match r {
            Ok(schedule) => cron_fault(crate_format(expression@)) is None && cron_source(schedule) == crate_format(
                expression@,
            ),
            Err(m) => cron_fault(crate_format(expression@)) matches Some(fault) && m@ == cron_message(fault),
        },
{
    match cron_from_str(translate_cron_to_crate_format(expression).as_str()) {
        Ok(schedule) => Ok(schedule),
        Err(fault) => {
            let mut m = "invalid cron expression: ".to_owned();
            m.append(fault.as_str());
            Err(m)
        },
    }
}

/// The expression with a field for seconds: one is added to five fields, and
/// shorthands stay.
pub open spec fn candidate(expression: Seq<char>) -> Result<Seq<char>, Seq<char>> {
    let t = text::trimmed(expression);
    let n = text::fields(t).len();
    if t.len() == 0 {
        Err("cron expression is empty"@)
    } else if text::begins(t, "@"@) || n == 6 || n == 7 {
        Ok(t)
    } else if n == 5 {
        Ok("0 "@ + t)
    } else {
        Err("cron expression must have 5, 6, or 7 fields (got "@ + text::decimal(n) + ")"@)
    }
}

/// The expression with a field for seconds.
pub fn cron_candidate(expression: &str) -> (r: Result<String, String>)
    ensures
        match r {
            Ok(c) => candidate(expression@) == Ok::<Seq<char>, Seq<char>>(c@),
            Err(m) => candidate(expression@) == Err::<Seq<char>, Seq<char>>(m@),
        },
{
    let t = trim(expression);
    if t.as_str().is_empty() {
        return Err("cron expression is empty".to_owned());
    }
    if starts_with(t.as_str(), "@") {
        return Ok(t);
    }
    let n: usize = split_whitespace(t.as_str()).len();
    if n == 6 || n == 7 {
        return Ok(t);
    }
    if n == 5 {
        let mut c = "0 ".to_owned();
        c.append(t.as_str());
        return Ok(c);
    }
    Err(
        around(
            "cron expression must have 5, 6, or 7 fields (got ",
            decimal_text(n as u128).as_str(),
            ")",
        ),
    )
}

/// The expression as it is stored, or why it cannot be.
pub open spec fn normalized(expression: Seq<char>) -> Result<Seq<char>, Seq<char>> {
    match candidate(expression) {
        Err(m) => Err(m),
        Ok(c) => match cron_fault(crate_format(c)) {
            None => Ok(c),
            Some(fault) => Err(cron_message(fault)),
        },
    }
}

/// The expression as it is stored, if it can be read.
pub fn normalize_cron(expression: &str) -> (r: Result<String, String>)
    ensures
        match r {
            Ok(c) => normalized(expression@) == Ok::<Seq<char>, Seq<char>>(c@),
            Err(m) => normalized(expression@) == Err::<Seq<char>, Seq<char>>(m@),
        },
{
    match cron_candidate(expression) {
        Err(m) => Err(m),
        Ok(c) => match parse_cron(c.as_str()) {
            Ok(_) => Ok(c),
            Err(m) => Err(m),
        },
    }
}

/// The latest moment that can be asked for a following one: a second lies behind
/// it in the calendar.
pub const MAX_MOMENT_MS: i64 = 8_210_266_876_798_999;

/// The moment lies in the calendar, and so does the second behind it.
pub open spec fn is_moment(ms: int) -> bool {
    -8_334_601_228_800_000 <= ms <= 8_210_266_876_798_999
}

/// A moment that a schedule can name when it is asked for the next one behind
/// `after`: a whole second that the local clock shows later than `after`. Two
/// readings of that clock can differ in their offset by less than two days, so
/// the moment lies less than two days before `after`, if at all.
pub open spec fn can_follow(at: int, after: int) -> bool {
    &&& at % 1000 == 0
    &&& after - 172_800_000 < at
}

/// `cron::Schedule::after` in the machine's own time zone: the first moment that
/// the schedule names whose local time is later than that of `after_ms`. Which
/// one that is, and whether there is one, depends on the zone; and where the
/// clock is turned back it may name an hour's first pass though its second has
/// begun. So no more is said of it than what holds in every zone.
#[verifier::external_body]
fn cron_after(schedule: &cron::Schedule, after_ms: i64) -> (r: Option<i64>)
    requires
        is_moment(after_ms as int),
    ensures
        r matches Some(ms) ==> can_follow(ms as int, after_ms as int),
{
    chrono::DateTime::from_timestamp_millis(after_ms)
        .and_then(|utc| schedule.after(&utc.with_timezone(&chrono::Local)).next())
        .map(|fire| fire.timestamp_millis())
}

/// The `cron` crate can answer `fire` when a schedule is asked for the next
/// moment behind `after_ms`.
pub closed spec fn cron_answers(schedule: cron::Schedule, after_ms: i64, fire: Option<i64>) -> bool {
    call_ensures(cron_after, (&schedule, after_ms), fire)
}

/// The `cron` crate can answer `fire` when a cron expression in standard
/// numbering is asked for the next moment behind `after_ms`.
pub open spec fn can_name(expression: Seq<char>, after_ms: i64, fire: Option<i64>) -> bool {
    exists|schedule: cron::Schedule|
        cron_source(schedule) == crate_format(expression) && #[trigger] cron_answers(schedule, after_ms, fire)
}

/// The moment that a cron expression names next when it is asked for one behind
/// `after_ms`, on this machine's clock; none if it cannot be read. Which moment
/// that is depends on the machine's time zone.
pub fn next_cron_fire(expression: &str, after_ms: i64) -> (r: Option<i64>)
    requires
        is_moment(after_ms as int),
    ensures
        cron_fault(crate_format(expression@)) is Some ==> r is None,
        cron_fault(crate_format(expression@)) is None ==> can_name(expression@, after_ms, r),
        r matches Some(ms) ==> can_follow(ms as int, after_ms as int),
{
    match parse_cron(expression) {
        Ok(schedule) => {
            let fire = cron_after(&schedule, after_ms);
            proof {
                assert(cron_answers(schedule, after_ms, fire));
            }
            fire
        },
        Err(_) => None,
    }
}

// ---------- Phases of fixed length ----------

/// What an interval schedule is made of, if it is complete: the lengths of its
/// on and off phases, the phase that it starts with, and when.
pub open spec fn interval_of(s: ScheduleConfigModel) -> Option<(int, int, ScheduleAction, int)> {
    match (s.on_seconds, s.off_seconds, s.start_action, s.starts_at_ms) {
        (Some(on), Some(off), Some(start), Some(at)) => if on + off > 0 {
            Some((on * 1000, off * 1000, start, at as int))
        } else {
            None
        },
        _ => None,
    }
}

/// The length of the phase that a cycle begins with.
pub open spec fn first_phase(on: int, off: int, start: ScheduleAction) -> int {
    if start == ScheduleAction::Off {
        off
    } else {
        on
    }
}

/// The phase that an interval schedule is in at `at`; none before it starts.
pub open spec fn phase_at(s: ScheduleConfigModel, at: int) -> Option<ScheduleAction> {
    match interval_of(s) {
        None => None,
        Some((on, off, start, begins)) => if at < begins {
            None
        } else {
            let in_first = (at - begins) % (on + off) < first_phase(on, off, start);
            Some(
                if in_first == (start == ScheduleAction::Off) {
                    ScheduleAction::Off
                } else {
                    ScheduleAction::On
                },
            )
        },
    }
}

/// The phase that an interval schedule is in.
pub fn interval_phase_at(schedule: &ScheduleConfig, at_ms: u128) -> (r: Option<ScheduleAction>)
    ensures
        r == phase_at(schedule.deep_view(), at_ms as int),
{
    let (on_seconds, off_seconds, start_action, starts_at) = match (
        schedule.on_seconds,
        schedule.off_seconds,
        schedule.start_action,
        schedule.starts_at_ms,
    ) {
        (Some(on), Some(off), Some(start), Some(at)) => (on, off, start, at),
        _ => {
            return None;
        },
    };
    let on: u128 = on_seconds as u128 * 1000;
    let off: u128 = off_seconds as u128 * 1000;
    let cycle: u128 = on + off;
    if cycle == 0 || at_ms < starts_at {
        return None;
    }
    let offset: u128 = (at_ms - starts_at) % cycle;
    match start_action {
        ScheduleAction::Off => if offset < off {
            Some(ScheduleAction::Off)
        } else {
            Some(ScheduleAction::On)
        },
        _ => if offset < on {
            Some(ScheduleAction::On)
        } else {
            Some(ScheduleAction::Off)
        },
    }
}

/// When the next phase of an interval schedule begins.
pub open spec fn flip_after(s: ScheduleConfigModel, now: int) -> Option<int> {
    match interval_of(s) {
        None => None,
        Some((on, off, start, begins)) => if now < begins {
            Some(begins)
        } else {
            let offset = (now - begins) % (on + off);
            let first = first_phase(on, off, start);
            Some(
                if offset < first {
                    now + (first - offset)
                } else {
                    now + (on + off - offset)
                },
            )
        },
    }
}

/// When the next phase of an interval schedule begins.
pub fn next_interval_fire_ms(schedule: &ScheduleConfig, now: u128) -> (r: Option<u128>)
    requires
        flip_after(schedule.deep_view(), now as int) matches Some(at) ==> at <= u128::MAX,
    ensures
        match r {
            Some(at) => flip_after(schedule.deep_view(), now as int) == Some(at as int),
            None => flip_after(schedule.deep_view(), now as int) is None,
        },
{
    let (on_seconds, off_seconds, start_action, starts_at) = match (
        schedule.on_seconds,
        schedule.off_seconds,
        schedule.start_action,
        schedule.starts_at_ms,
    ) {
        (Some(on), Some(off), Some(start), Some(at)) => (on, off, start, at),
        _ => {
            return None;
        },
    };
    let on: u128 = on_seconds as u128 * 1000;
    let off: u128 = off_seconds as u128 * 1000;
    let cycle: u128 = on + off;
    if cycle == 0 {
        return None;
    }
    if now < starts_at {
        return Some(starts_at);
    }
    let offset: u128 = (now - starts_at) % cycle;
    let first: u128 = match start_action {
        ScheduleAction::Off => off,
        _ => on,
    };
    let ahead: u128 = if offset < first {
        first - offset
    } else {
        cycle - offset
    };
    Some(now + ahead)
}

proof fn remainder_moves_on(x: int, d: int, c: int)
    requires
        0 <= x,
        0 <= d,
        0 < c,
        x % c + d < c,
    ensures
        (x + d) % c == x % c + d,
{
    let q = x / c;
    vstd::arithmetic::div_mod::lemma_fundamental_div_mod(x, c);
    vstd::arithmetic::div_mod::lemma_fundamental_div_mod_converse(x + d, c, q, x % c + d);
}

proof fn remainder_starts_anew(x: int, c: int)
    requires
        0 <= x,
        0 < c,
    ensures
        (x + (c - x % c)) % c == 0,
{
    let q = x / c;
    vstd::arithmetic::div_mod::lemma_fundamental_div_mod(x, c);
    assert(x + (c - x % c) == (q + 1) * c) by (nonlinear_arith)
        requires
            x == c * q + x % c,
    ;
    vstd::arithmetic::div_mod::lemma_fundamental_div_mod_converse(x + (c - x % c), c, q + 1, 0);
}

/// From a moment until the next flip a schedule stays in its phase, and at the
/// flip, if it has two phases, it is in the other. The flip lies ahead, and not
/// by more than a cycle.
pub proof fn phase_holds_until_the_flip(s: ScheduleConfigModel, now: int, at: int)
    requires
        interval_of(s) is Some,
        now >= (interval_of(s)->0).3,
        now <= at <= flip_after(s, now)->0,
    ensures
        now < flip_after(s, now)->0 <= now + (interval_of(s)->0).0 + (interval_of(s)->0).1,
        at < flip_after(s, now)->0 ==> phase_at(s, at) == phase_at(s, now),
        at == flip_after(s, now)->0 && s.on_seconds->0 > 0 && s.off_seconds->0 > 0 ==> phase_at(s, at) != phase_at(
            s,
            now,
        ),
{
    let (on, off, start, begins) = interval_of(s)->0;
    let cycle = on + off;
    let x = now - begins;
    let first = first_phase(on, off, start);
    vstd::arithmetic::div_mod::lemma_mod_bound(x, cycle);
    if x % cycle + (at - now) < cycle {
        remainder_moves_on(x, at - now, cycle);
    } else {
        remainder_starts_anew(x, cycle);
    }
    assert(at - begins == x + (at - now));
}

proof fn flips_are_near(s: ScheduleConfigModel, now: int)
    requires
        0 <= now <= 8_210_266_876_798_999,
    ensures
        flip_after(s, now) matches Some(at) ==> 0 <= at <= u128::MAX,
{
    if let Some((on, off, start, begins)) = interval_of(s) {
        if now >= begins {
            vstd::arithmetic::div_mod::lemma_mod_bound(now - begins, on + off);
        }
    }
}

/// Before it starts a schedule is in no phase, and it starts with the phase
/// that it names, unless that has no length.
pub proof fn phase_starts_as_named(s: ScheduleConfigModel, at: int)
    requires
        interval_of(s) is Some,
    ensures
        at < (interval_of(s)->0).3 ==> phase_at(s, at) is None && flip_after(s, at) == Some((interval_of(s)->0).3),
        s.on_seconds->0 > 0 && s.off_seconds->0 > 0 ==> phase_at(s, (interval_of(s)->0).3) == Some(
            if s.start_action->0 == ScheduleAction::Off {
                ScheduleAction::Off
            } else {
                ScheduleAction::On
            },
        ),
{
    let (on, off, start, begins) = interval_of(s)->0;
    vstd::arithmetic::div_mod::lemma_small_mod(0, (on + off) as nat);
}

// ---------- When a schedule fires ----------

/// When a schedule fires next, seen from `now`: of an interval schedule, when
/// its next phase begins; of a cron schedule, what the calendar of this machine
/// says.
pub fn next_fire_at(schedule: &ScheduleConfig, now: u128) -> (r: Option<i64>)
    requires
        now <= 8_210_266_876_798_999,
    ensures
        schedule.kind == ScheduleKind::Interval ==> match flip_after(schedule.deep_view(), now as int) {
            Some(at) => r == Some(at as i64),
            None => r is None,
        },
        schedule.kind == ScheduleKind::Cron ==> match schedule.deep_view().cron {
            None => r is None,
            Some(expression) => {
                &&& cron_fault(crate_format(expression)) is Some ==> r is None
                &&& cron_fault(crate_format(expression)) is None ==> can_name(expression, now as i64, r)
                &&& r matches Some(at) ==> can_follow(at as int, now as int)
            },
        },
{
    match schedule.kind {
        ScheduleKind::Cron => match &schedule.cron {
            Some(expression) => next_cron_fire(expression.as_str(), now as i64),
            None => None,
        },
        ScheduleKind::Interval => {
            proof {
                flips_are_near(schedule.deep_view(), now as int);
            }
            match next_interval_fire_ms(schedule, now) {
                Some(at) => Some(#[verifier::truncate] (at as i64)),
                None => None,
            }
        },
    }
}

/// A schedule as callers see it at `now`.
pub fn schedule_view(schedule: &ScheduleConfig, now: u128) -> (v: ScheduleView)
    requires
        now <= 8_210_266_876_798_999,
    ensures
        v.deep_view() == view_of(schedule.deep_view(), v.next_fire_at_ms),
        schedule.kind == ScheduleKind::Interval ==> match flip_after(schedule.deep_view(), now as int) {
            Some(at) => v.next_fire_at_ms == Some(at as i64),
            None => v.next_fire_at_ms is None,
        },
        schedule.kind == ScheduleKind::Cron ==> match schedule.deep_view().cron {
            None => v.next_fire_at_ms is None,
            Some(expression) => {
                &&& cron_fault(crate_format(expression)) is Some ==> v.next_fire_at_ms is None
                &&& cron_fault(crate_format(expression)) is None ==> can_name(
                    expression,
                    now as i64,
                    v.next_fire_at_ms,
                )
                &&& v.next_fire_at_ms matches Some(at) ==> can_follow(at as int, now as int)
            },
        },
{
    let next = next_fire_at(schedule, now);
    schedule_view_with(schedule, next)
}

impl Listed for ScheduleView {
    open spec fn listed_name(m: ScheduleViewModel) -> Seq<char> {
        m.device_name
    }

    open spec fn listed_stamp(m: ScheduleViewModel) -> u128 {
        m.created_at_ms
    }

    fn name_of(&self) -> (s: &str) {
        self.device_name.as_str()
    }

    fn stamp_of(&self) -> (n: u128) {
        self.created_at_ms
    }
}

/// Schedules as they are listed: by device and then by age.
pub fn list_schedules(views: Vec<ScheduleView>) -> (r: Vec<ScheduleView>)
    ensures
        r.deep_view() == lists::listing::<ScheduleView>(views.deep_view()),
{
    list_out(views)
}

/// How long to wait, in nanoseconds, until the minute is over.
pub fn wait_for_minute(second: u32, nanosecond: u32) -> (nanos: u64)
    ensures
        second <= 60 && nanosecond <= (60 - second) * 1_000_000_000 ==> nanos == (60 - second) * 1_000_000_000
            - nanosecond,
        !(second <= 60 && nanosecond <= (60 - second) * 1_000_000_000) ==> nanos == 0,
{
    let left: u64 = 60u64.saturating_sub(second as u64) * 1_000_000_000;
    left.saturating_sub(nanosecond as u64)
}

/// What a tick means for a schedule.
pub enum Due {
    /// It does nothing.
    Rest,
    /// It does its action.
    Fire(ScheduleAction),
    /// It cannot be read; the message says why.
    Fault(String),
}

/// What a tick means for a schedule.
#[verifier::ext_equal]
pub enum DueModel {
    Rest,
    Fire(ScheduleAction),
    Fault(Seq<char>),
}

impl DeepView for Due {
    type V = DueModel;

    open spec fn deep_view(&self) -> DueModel {
        match self {
            Due::Rest => DueModel::Rest,
            Due::Fire(action) => DueModel::Fire(*action),
            Due::Fault(m) => DueModel::Fault(m@),
        }
    }
}

/// What a tick at `now` means for a cron schedule that names the moment `fire`
/// next after the tick before.
pub open spec fn cron_due(s: ScheduleConfigModel, fire: Option<i64>, now: i64) -> DueModel {
    match (fire, s.action) {
        (Some(at), Some(action)) => if at <= now {
            DueModel::Fire(action)
        } else {
            DueModel::Rest
        },
        _ => DueModel::Rest,
    }
}

/// What a tick at `now` means for a cron schedule that names the moment `fire`
/// next after the tick before.
pub fn cron_schedule_due(schedule: &ScheduleConfig, fire: Option<i64>, now: i64) -> (r: Due)
    ensures
        r.deep_view() == cron_due(schedule.deep_view(), fire, now),
{
    match (fire, schedule.action) {
        (Some(at), Some(action)) => if at <= now {
            Due::Fire(action)
        } else {
            Due::Rest
        },
        _ => Due::Rest,
    }
}

/// A moment before the epoch counts as the epoch.
pub open spec fn since_epoch(ms: i64) -> int {
    if ms < 0 {
        0
    } else {
        ms as int
    }
}

/// What a tick means for an interval schedule: it fires where its phase is
/// another than at the tick before, and at its first tick.
pub open spec fn interval_due(s: ScheduleConfigModel, previous: i64, now: i64) -> DueModel {
    match phase_at(s, since_epoch(now)) {
        None => DueModel::Rest,
        Some(phase) => if s.last_fired_at_ms is None || phase_at(s, since_epoch(previous)) != Some(phase) {
            DueModel::Fire(phase)
        } else {
            DueModel::Rest
        },
    }
}

fn clip_to_epoch(ms: i64) -> (n: u128)
    ensures
        n == since_epoch(ms),
{
    if ms < 0 {
        0
    } else {
        ms as u128
    }
}

/// What a tick means for an interval schedule.
pub fn interval_schedule_due(schedule: &ScheduleConfig, previous: i64, now: i64) -> (r: Due)
    ensures
        r.deep_view() == interval_due(schedule.deep_view(), previous, now),
{
    match interval_phase_at(schedule, clip_to_epoch(now)) {
        None => Due::Rest,
        Some(phase) => {
            let unchanged = match interval_phase_at(schedule, clip_to_epoch(previous)) {
                Some(before) => before == phase,
                None => false,
            };
            if schedule.last_fired_at_ms.is_none() || !unchanged {
                Due::Fire(phase)
            } else {
                Due::Rest
            }
        },
    }
}

/// What a tick at `now` means for a schedule, when the tick before it was at
/// `previous`. A disabled schedule rests. A cron schedule goes by the moment that
/// it names next when it is asked for one behind `previous`, which depends on
/// the machine's time zone.
pub fn schedule_due(schedule: &ScheduleConfig, previous: i64, now: i64) -> (r: Due)
    requires
        is_moment(previous as int),
    ensures
        !schedule.enabled ==> r.deep_view() == DueModel::Rest,
        schedule.enabled && schedule.kind == ScheduleKind::Interval ==> r.deep_view() == interval_due(
            schedule.deep_view(),
            previous,
            now,
        ),
        schedule.enabled && schedule.kind == ScheduleKind::Cron ==> match schedule.deep_view().cron {
            None => r.deep_view() == DueModel::Fault("missing cron expression"@),
            Some(expression) => match cron_fault(crate_format(expression)) {
                Some(fault) => r.deep_view() == DueModel::Fault(cron_message(fault)),
                None => exists|fire: Option<i64>| #[trigger]
                    can_name(expression, previous, fire) && (fire matches Some(at) ==> can_follow(
                        at as int,
                        previous as int,
                    )) && r.deep_view() == cron_due(schedule.deep_view(), fire, now),
            },
        },
{
    if !schedule.enabled {
        return Due::Rest;
    }
    match schedule.kind {
        ScheduleKind::Cron => {
            let parsed = match &schedule.cron {
                None => {
                    return Due::Fault("missing cron expression".to_owned());
                },
                Some(expression) => match parse_cron(expression.as_str()) {
                    Ok(parsed) => parsed,
                    Err(m) => {
                        return Due::Fault(m);
                    },
                },
            };
            let fire = cron_after(&parsed, previous);
            proof {
                assert(cron_answers(parsed, previous, fire));
                assert(can_name(schedule.deep_view().cron->0, previous, fire));
            }
            cron_schedule_due(schedule, fire, now)
        },
        ScheduleKind::Interval => interval_schedule_due(schedule, previous, now),
    }
}

/// The state that an action asks of a device that stands at `current`, or why
/// it cannot be told.
pub open spec fn target_of(action: ScheduleAction, current: Option<bool>) -> Result<bool, Seq<char>> {
    match (action, current) {
        (ScheduleAction::On, _) => Ok(true),
        (ScheduleAction::Off, _) => Ok(false),
        (ScheduleAction::Toggle, Some(on)) => Ok(!on),
        (ScheduleAction::Toggle, None) => Err("device snapshot unavailable for toggle"@),
    }
}

/// The state that an action asks of a device that stands at `current`.
pub fn fire_target(action: ScheduleAction, current: Option<bool>) -> (r: Result<bool, String>)
    ensures
        match r {
            Ok(on) => target_of(action, current) == Ok::<bool, Seq<char>>(on),
            Err(m) => target_of(action, current) == Err::<bool, Seq<char>>(m@),
        },
{
    match action {
        ScheduleAction::On => Ok(true),
        ScheduleAction::Off => Ok(false),
        ScheduleAction::Toggle => match current {
            Some(on) => Ok(!on),
            None => Err("device snapshot unavailable for toggle".to_owned()),
        },
    }
}

/// The table after the schedule `id` fired at `now`, with the error that it
/// left.
pub open spec fn fired(
    t: Seq<(Seq<char>, ScheduleConfigModel)>,
    id: Seq<char>,
    error: Option<Seq<char>>,
    now: u128,
) -> Seq<(Seq<char>, ScheduleConfigModel)> {
    match table::lookup(t, id) {
        Some(s) => table::amended(
            t,
            id,
            ScheduleConfigModel { last_fired_at_ms: Some(now), last_error: error, ..s },
        ),
        None => t,
    }
}

fn record_fire(schedules: &mut Table<ScheduleConfig>, id: &str, error: Option<String>, now: u128) -> (known: bool)
    ensures
        known == table::has_key(old(schedules).deep_view(), id@),
        final(schedules).deep_view() == fired(old(schedules).deep_view(), id@, error.deep_view(), now),
{
    let mut schedule = match schedules.get(id) {
        Some(s) => s.dup(),
        None => {
            return false;
        },
    };
    schedule.last_fired_at_ms = Some(now);
    schedule.last_error = error;
    schedules.amend(id, schedule)
}

/// Notes that the schedule `id` fired; says whether there is one.
pub fn record_schedule_success(schedules: &mut Table<ScheduleConfig>, id: &str, now: u128) -> (known: bool)
    ensures
        known == table::has_key(old(schedules).deep_view(), id@),
        final(schedules).deep_view() == fired(old(schedules).deep_view(), id@, None, now),
        table::lookup(final(schedules).deep_view(), id@) matches Some(s) ==> s.last_fired_at_ms == Some(now)
            && s.last_error is None,
{
    proof {
        firing_is_noted(schedules.deep_view(), id@, id@, None, now);
    }
    record_fire(schedules, id, None, now)
}

/// Notes that the schedule `id` could not fire; says whether there is one.
pub fn record_schedule_error(schedules: &mut Table<ScheduleConfig>, id: &str, message: String, now: u128) -> (known:
    bool)
    ensures
        known == table::has_key(old(schedules).deep_view(), id@),
        final(schedules).deep_view() == fired(old(schedules).deep_view(), id@, Some(message@), now),
        table::lookup(final(schedules).deep_view(), id@) matches Some(s) ==> s.last_fired_at_ms == Some(now)
            && s.last_error == Some(message@),
{
    proof {
        firing_is_noted(schedules.deep_view(), id@, id@, Some(message@), now);
    }
    record_fire(schedules, id, Some(message), now)
}

// ---------- Making, changing and removing schedules ----------

/// An id for a schedule made at `now_ms`, told apart by a count.
pub fn new_schedule_id(now_ms: u128, seq: u64) -> (id: String)
    ensures
        id@ == time::stamped(""@, now_ms, seq),
{
    stamped_id("", now_ms, seq)
}

/// The schedule that a request makes, or why it makes none.
pub open spec fn made<D, C>(
    request: CreateScheduleRequestModel,
    devices: Seq<(Seq<char>, D)>,
    conditions: Seq<(Seq<char>, C)>,
    id: Seq<char>,
    now: u128,
) -> Result<ScheduleConfigModel, Seq<char>> {
    match request {
        CreateScheduleRequestModel::Cron { cron: r } => if !table::has_key(devices, r.device_name) {
            Err("unknown device '"@ + r.device_name + "'"@)
        } else {
            match (normalized(r.cron), conditions_check(conditions, r.condition_ids)) {
                (Err(m), _) => Err(m),
                (Ok(_), Err(m)) => Err(m),
                (Ok(cron), Ok(ids)) => Ok(
                    ScheduleConfigModel {
                        id,
                        device_name: r.device_name,
                        kind: ScheduleKind::Cron,
                        cron: Some(cron),
                        action: Some(r.action),
                        on_seconds: None,
                        off_seconds: None,
                        start_action: None,
                        starts_at_ms: None,
                        enabled: r.enabled,
                        label: time::label_in(r.label),
                        condition_ids: ids,
                        created_at_ms: now,
                        last_fired_at_ms: None,
                        last_error: None,
                    },
                ),
            }
        },
        CreateScheduleRequestModel::Interval { interval: r } => if !table::has_key(devices, r.device_name) {
            Err("unknown device '"@ + r.device_name + "'"@)
        } else {
            match (interval_check(r.on_seconds, r.off_seconds), conditions_check(conditions, r.condition_ids)) {
                (Err(m), _) => Err(m),
                (Ok(_), Err(m)) => Err(m),
                (Ok(_), Ok(ids)) => Ok(
                    ScheduleConfigModel {
                        id,
                        device_name: r.device_name,
                        kind: ScheduleKind::Interval,
                        cron: None,
                        action: None,
                        on_seconds: Some(r.on_seconds),
                        off_seconds: Some(r.off_seconds),
                        start_action: Some(r.start_action),
                        starts_at_ms: Some(merge::either(r.starts_at_ms, now)),
                        enabled: r.enabled,
                        label: time::label_in(r.label),
                        condition_ids: ids,
                        created_at_ms: now,
                        last_fired_at_ms: None,
                        last_error: None,
                    },
                ),
            }
        },
    }
}

fn make_schedule<D: DeepView, C: DeepView>(
    devices: &Table<D>,
    conditions: &Table<C>,
    request: CreateScheduleRequest,
    id: String,
    now: u128,
) -> (r: Result<ScheduleConfig, String>)
    ensures
        match r {
            Ok(s) => made(request.deep_view(), devices.deep_view(), conditions.deep_view(), id@, now) == Ok::<
                ScheduleConfigModel,
                Seq<char>,
            >(s.deep_view()),
            Err(m) => made(request.deep_view(), devices.deep_view(), conditions.deep_view(), id@, now) == Err::<
                ScheduleConfigModel,
                Seq<char>,
            >(m@),
        },
{
    match request {
        CreateScheduleRequest::Cron { cron: r } => {
            if let Err(m) = ensure_device_exists(devices, r.device_name.as_str()) {
                return Err(m);
            }
            let cron = match normalize_cron(r.cron.as_str()) {
                Ok(cron) => cron,
                Err(m) => {
                    return Err(m);
                },
            };
            let condition_ids = match ensure_conditions_exist(conditions, &r.condition_ids) {
                Ok(ids) => ids,
                Err(m) => {
                    return Err(m);
                },
            };
            Ok(
                ScheduleConfig {
                    id,
                    device_name: r.device_name,
                    kind: ScheduleKind::Cron,
                    cron: Some(cron),
                    action: Some(r.action),
                    on_seconds: None,
                    off_seconds: None,
                    start_action: None,
                    starts_at_ms: None,
                    enabled: r.enabled,
                    label: optional_label(r.label),
                    condition_ids,
                    created_at_ms: now,
                    last_fired_at_ms: None,
                    last_error: None,
                },
            )
        },
        CreateScheduleRequest::Interval { interval: r } => {
            if let Err(m) = ensure_device_exists(devices, r.device_name.as_str()) {
                return Err(m);
            }
            if let Err(m) = validate_interval(r.on_seconds, r.off_seconds) {
                return Err(m);
            }
            let condition_ids = match ensure_conditions_exist(conditions, &r.condition_ids) {
                Ok(ids) => ids,
                Err(m) => {
                    return Err(m);
                },
            };
            Ok(
                ScheduleConfig {
                    id,
                    device_name: r.device_name,
                    kind: ScheduleKind::Interval,
                    cron: None,
                    action: None,
                    on_seconds: Some(r.on_seconds),
                    off_seconds: Some(r.off_seconds),
                    start_action: Some(r.start_action),
                    starts_at_ms: Some(given_or(r.starts_at_ms, now)),
                    enabled: r.enabled,
                    label: optional_label(r.label),
                    condition_ids,
                    created_at_ms: now,
                    last_fired_at_ms: None,
                    last_error: None,
                },
            )
        },
    }
}

/// Makes a schedule and stores it under its id.
pub fn create_schedule<D: DeepView, C: DeepView>(
    schedules: &mut Table<ScheduleConfig>,
    devices: &Table<D>,
    conditions: &Table<C>,
    request: CreateScheduleRequest,
    id: String,
    now: u128,
) -> (r: Result<(), String>)
    ensures
        match r {
            Ok(_) => made(request.deep_view(), devices.deep_view(), conditions.deep_view(), id@, now) is Ok
                && final(schedules).deep_view() == table::put(
                old(schedules).deep_view(),
                id@,
                made(request.deep_view(), devices.deep_view(), conditions.deep_view(), id@, now)->Ok_0,
            ),
            Err(m) => made(request.deep_view(), devices.deep_view(), conditions.deep_view(), id@, now) == Err::<
                ScheduleConfigModel,
                Seq<char>,
            >(m@) && final(schedules).deep_view() == old(schedules).deep_view(),
        },
        table::sorted(old(schedules).deep_view()) ==> table::sorted(final(schedules).deep_view()),
{
    match make_schedule(devices, conditions, request, id.clone(), now) {
        Ok(schedule) => {
            schedules.insert(id, schedule);
            Ok(())
        },
        Err(m) => Err(m),
    }
}

/// The lengths of the phases that a request leaves.
pub open spec fn new_phases(s: ScheduleConfigModel, r: UpdateScheduleRequestModel) -> (u64, u64) {
    (
        merge::either(r.on_seconds, merge::either(s.on_seconds, 0)),
        merge::either(r.off_seconds, merge::either(s.off_seconds, 0)),
    )
}

/// The request changes the length of a phase.
pub open spec fn rephases(r: UpdateScheduleRequestModel) -> bool {
    r.on_seconds is Some || r.off_seconds is Some
}

/// The schedule with the request's changes. A new expression or new phases
/// clear the last error; new phases, or another phase to start with, start the
/// cycle anew.
pub open spec fn changed(
    s: ScheduleConfigModel,
    r: UpdateScheduleRequestModel,
    cron: Option<Seq<char>>,
    ids: Option<Seq<Seq<char>>>,
    now: u128,
) -> ScheduleConfigModel {
    let common = ScheduleConfigModel {
        enabled: merge::either(r.enabled, s.enabled),
        label: merge::label_or(r.label, s.label),
        condition_ids: merge::either(ids, s.condition_ids),
        ..s
    };
    match s.kind {
        ScheduleKind::Cron => ScheduleConfigModel {
            cron: if cron is Some {
                cron
            } else {
                s.cron
            },
            last_error: merge::cleared_if(cron is Some, s.last_error),
            action: if r.action is Some {
                r.action
            } else {
                s.action
            },
            ..common
        },
        ScheduleKind::Interval => ScheduleConfigModel {
            on_seconds: if rephases(r) {
                Some(new_phases(s, r).0)
            } else {
                s.on_seconds
            },
            off_seconds: if rephases(r) {
                Some(new_phases(s, r).1)
            } else {
                s.off_seconds
            },
            last_error: merge::cleared_if(rephases(r), s.last_error),
            start_action: if r.start_action is Some {
                r.start_action
            } else {
                s.start_action
            },
            starts_at_ms: if rephases(r) || r.start_action is Some {
                Some(now)
            } else {
                s.starts_at_ms
            },
            ..common
        },
    }
}

/// The expression that a request brings, as it is stored.
pub open spec fn requested_cron(r: UpdateScheduleRequestModel) -> Result<Option<Seq<char>>, Seq<char>> {
    match r.cron {
        None => Ok(None),
        Some(expression) => match normalized(expression) {
            Ok(cron) => Ok(Some(cron)),
            Err(m) => Err(m),
        },
    }
}

/// The conditions that a request brings, each once.
pub open spec fn requested_conditions<C>(
    r: UpdateScheduleRequestModel,
    conditions: Seq<(Seq<char>, C)>,
) -> Result<Option<Seq<Seq<char>>>, Seq<char>> {
    match r.condition_ids {
        None => Ok(None),
        Some(ids) => match conditions_check(conditions, ids) {
            Ok(kept) => Ok(Some(kept)),
            Err(m) => Err(m),
        },
    }
}

/// The table after a request to change the schedule `id`, and why it was
/// refused. A request with phases that are too short is refused only once the
/// schedule has been enabled or disabled as it asks.
pub open spec fn updated<C>(
    t: Seq<(Seq<char>, ScheduleConfigModel)>,
    conditions: Seq<(Seq<char>, C)>,
    id: Seq<char>,
    r: UpdateScheduleRequestModel,
    now: u128,
) -> (Seq<(Seq<char>, ScheduleConfigModel)>, Option<Seq<char>>) {
    match (requested_cron(r), requested_conditions(r, conditions)) {
        (Err(m), _) => (t, Some(m)),
        (Ok(_), Err(m)) => (t, Some(m)),
        (Ok(cron), Ok(ids)) => match table::lookup(t, id) {
            None => (t, Some("unknown schedule '"@ + id + "'"@)),
            Some(s) => {
                let (on, off) = new_phases(s, r);
                if s.kind == ScheduleKind::Interval && rephases(r) && interval_check(on, off) is Err {
                    (
                        table::amended(
                            t,
                            id,
                            ScheduleConfigModel { enabled: merge::either(r.enabled, s.enabled), ..s },
                        ),
                        Some(interval_check(on, off)->Err_0),
                    )
                } else {
                    (table::amended(t, id, changed(s, r, cron, ids, now)), None)
                }
            },
        },
    }
}

fn apply_to_cron(schedule: &mut ScheduleConfig, cron: Option<String>, action: Option<ScheduleAction>)
    ensures
        final(schedule).deep_view() == (ScheduleConfigModel {
            cron: if cron is Some {
                cron.deep_view()
            } else {
                old(schedule).deep_view().cron
            },
            last_error: merge::cleared_if(cron is Some, old(schedule).deep_view().last_error),
            action: if action is Some {
                action
            } else {
                old(schedule).action
            },
            ..old(schedule).deep_view()
        }),
{
    if cron.is_some() {
        schedule.cron = cron;
        schedule.last_error = None;
    }
    if action.is_some() {
        schedule.action = action;
    }
}

fn apply_to_interval(
    schedule: &mut ScheduleConfig,
    phases: Option<(u64, u64)>,
    start_action: Option<ScheduleAction>,
    now: u128,
)
    ensures
        final(schedule).deep_view() == (ScheduleConfigModel {
            on_seconds: if phases is Some {
                Some((phases->0).0)
            } else {
                old(schedule).on_seconds
            },
            off_seconds: if phases is Some {
                Some((phases->0).1)
            } else {
                old(schedule).off_seconds
            },
            last_error: merge::cleared_if(phases is Some, old(schedule).deep_view().last_error),
            start_action: if start_action is Some {
                start_action
            } else {
                old(schedule).start_action
            },
            starts_at_ms: if phases is Some || start_action is Some {
                Some(now)
            } else {
                old(schedule).starts_at_ms
            },
            ..old(schedule).deep_view()
        }),
{
    if let Some((on, off)) = phases {
        schedule.on_seconds = Some(on);
        schedule.off_seconds = Some(off);
        schedule.starts_at_ms = Some(now);
        schedule.last_error = None;
    }
    if start_action.is_some() {
        schedule.start_action = start_action;
        schedule.starts_at_ms = Some(now);
    }
}

/// Changes the schedule `id` as requested.
pub fn update_schedule<C: DeepView>(
    schedules: &mut Table<ScheduleConfig>,
    conditions: &Table<C>,
    id: &str,
    request: UpdateScheduleRequest,
    now: u128,
) -> (r: Result<(), String>)
    ensures
        final(schedules).deep_view() == updated(
            old(schedules).deep_view(),
            conditions.deep_view(),
            id@,
            request.deep_view(),
            now,
        ).0,
        match r {
            Ok(_) => updated(
                old(schedules).deep_view(),
                conditions.deep_view(),
                id@,
                request.deep_view(),
                now,
            ).1 is None,
            Err(m) => updated(
                old(schedules).deep_view(),
                conditions.deep_view(),
                id@,
                request.deep_view(),
                now,
            ).1 == Some(m@),
        },
        table::sorted(old(schedules).deep_view()) ==> table::sorted(final(schedules).deep_view()),
{
    let cron = match &request.cron {
        Some(expression) => match normalize_cron(expression.as_str()) {
            Ok(cron) => Some(cron),
            Err(m) => {
                return Err(m);
            },
        },
        None => None,
    };
    let condition_ids = match &request.condition_ids {
        Some(ids) => match ensure_conditions_exist(conditions, ids) {
            Ok(kept) => Some(kept),
            Err(m) => {
                return Err(m);
            },
        },
        None => None,
    };
    let mut schedule = match schedules.get(id) {
        Some(s) => s.dup(),
        None => {
            return Err(around("unknown schedule '", id, "'"));
        },
    };
    schedule.enabled = given_or(request.enabled, schedule.enabled);
    match schedule.kind {
        ScheduleKind::Cron => {
            apply_to_cron(&mut schedule, cron, request.action);
        },
        ScheduleKind::Interval => {
            let phases = if request.on_seconds.is_some() || request.off_seconds.is_some() {
                let on: u64 = given_or(request.on_seconds, given_or(schedule.on_seconds, 0));
                let off: u64 = given_or(request.off_seconds, given_or(schedule.off_seconds, 0));
                if let Err(m) = validate_interval(on, off) {
                    schedules.amend(id, schedule);
                    return Err(m);
                }
                Some((on, off))
            } else {
                None
            };
            apply_to_interval(&mut schedule, phases, request.start_action, now);
        },
    }
    schedule.label = relabel(request.label, schedule.label);
    schedule.condition_ids = given_or(condition_ids, schedule.condition_ids);
    schedules.amend(id, schedule);
    Ok(())
}

/// Removes the schedule `id`.
pub fn delete_schedule(schedules: &mut Table<ScheduleConfig>, id: &str) -> (r: Result<(), String>)
    ensures
        match r {
            Ok(_) => table::has_key(old(schedules).deep_view(), id@),
            Err(m) => !table::has_key(old(schedules).deep_view(), id@) && m@ == "unknown schedule '"@ + id@ + "'"@,
        },
        final(schedules).deep_view() == table::without(old(schedules).deep_view(), id@),
        table::sorted(old(schedules).deep_view()) ==> table::sorted(final(schedules).deep_view()),
{
    if !schedules.remove(id) {
        return Err(around("unknown schedule '", id, "'"));
    }
    Ok(())
}

/// A day in standard numbering is the day one higher in the `cron` crate's, and
/// 7 is Sunday as 0 is.
pub proof fn days_are_renumbered(n: nat)
    requires
        n <= u32::MAX,
    ensures
        dow_value(text::decimal(n)) == text::decimal(n % 7 + 1),
        dow_value(text::decimal(7)) == dow_value(text::decimal(0)),
{
    text::decimal_is_trimmed(n);
    text::unsigned_reads_decimal(n, u32::MAX as nat);
    text::decimal_is_trimmed(7);
    text::unsigned_reads_decimal(7, u32::MAX as nat);
    text::decimal_is_trimmed(0);
    text::unsigned_reads_decimal(0, u32::MAX as nat);
}

/// A stored expression, normalized again, stays as it is.
pub proof fn normalizing_settles(expression: Seq<char>)
    ensures
        candidate(expression) matches Ok(c) ==> candidate(c) == Ok::<Seq<char>, Seq<char>>(c),
        normalized(expression) matches Ok(c) ==> normalized(c) == Ok::<Seq<char>, Seq<char>>(c),
{
    let t = text::trimmed(expression);
    text::trimmed_has_no_outer_space(expression);
    if t.len() > 0 && !text::begins(t, "@"@) && text::fields(t).len() == 5 {
        reveal_strlit("0 ");
        reveal_strlit("@");
        let c = "0 "@ + t;
        assert("0 "@ =~= seq!['0', ' ']);
        text::one_field_more('0', t);
        assert(c[0] == '0');
        assert(c.last() == t.last());
        assert(text::trimmed(c) == c);
        assert("@"@[0] == '@');
        assert(!text::begins(c, "@"@)) by {
            if text::begins(c, "@"@) {
                assert(c.take(1)[0] == c[0]);
            }
        }
    }
}

/// On asks for on and off asks for off, whatever the device was last seen to
/// be, so the two never ask for the same. Toggling asks for the opposite of
/// what was seen, and toggled twice a device is where it was; of a device
/// that was not seen it asks for nothing.
pub proof fn actions_ask_for_their_state(current: Option<bool>, other: Option<bool>, on: bool)
    ensures
        target_of(ScheduleAction::On, current) matches Ok(asked) && asked,
        target_of(ScheduleAction::Off, current) matches Ok(asked) && !asked,
        target_of(ScheduleAction::On, current) != target_of(ScheduleAction::Off, other),
        target_of(ScheduleAction::Toggle, Some(on)) matches Ok(asked) && asked != on,
        target_of(ScheduleAction::Toggle, Some(target_of(ScheduleAction::Toggle, Some(on))->Ok_0)) matches Ok(asked)
            && asked == on,
        target_of(ScheduleAction::Toggle, None) is Err,
{
}

/// A schedule of phases repeats itself: in every cycle counted from its start
/// a device is on for the on phase and off for the off phase, the phase that
/// it starts with first. The next flip is the end of the phase.
pub proof fn phases_alternate(s: ScheduleConfigModel, cycle: int, into: int)
    requires
        s.on_seconds is Some,
        s.off_seconds is Some,
        s.start_action is Some,
        s.starts_at_ms is Some,
        cycle >= 0,
        0 <= into < 1000 * (s.on_seconds->0 + s.off_seconds->0),
    ensures
        ({
            let on = 1000 * s.on_seconds->0;
            let off = 1000 * s.off_seconds->0;
            let begun = s.starts_at_ms->0 + cycle * (on + off);
            &&& s.start_action == Some(ScheduleAction::Off) && into < off ==> phase_at(s, begun + into) == Some(
                ScheduleAction::Off,
            ) && flip_after(s, begun + into) == Some(begun + off)
            &&& s.start_action == Some(ScheduleAction::Off) && into >= off ==> phase_at(s, begun + into) == Some(
                ScheduleAction::On,
            ) && flip_after(s, begun + into) == Some(begun + off + on)
            &&& s.start_action != Some(ScheduleAction::Off) && into < on ==> phase_at(s, begun + into) == Some(
                ScheduleAction::On,
            ) && flip_after(s, begun + into) == Some(begun + on)
            &&& s.start_action != Some(ScheduleAction::Off) && into >= on ==> phase_at(s, begun + into) == Some(
                ScheduleAction::Off,
            ) && flip_after(s, begun + into) == Some(begun + on + off)
        }),
{
    let on = 1000 * s.on_seconds->0;
    let off = 1000 * s.off_seconds->0;
    let period = on + off;
    let begins = s.starts_at_ms->0 as int;
    let at = begins + cycle * period + into;
    assert(cycle * period >= 0) by (nonlinear_arith)
        requires
            cycle >= 0,
            period >= 0,
    ;
    assert((cycle * period + into) % period == into) by {
        vstd::arithmetic::div_mod::lemma_mod_multiples_vanish(cycle, into, period);
        assert(period * cycle == cycle * period) by (nonlinear_arith);
        vstd::arithmetic::div_mod::lemma_small_mod(into as nat, period as nat);
    }
    assert((at - begins) % period == into);
}

/// A schedule that lacks one of its four times has no phases, and one that
/// has them all has none before its start.
pub proof fn phases_need_their_times(s: ScheduleConfigModel, at: int)
    ensures
        s.on_seconds is None || s.off_seconds is None || s.start_action is None || s.starts_at_ms is None ==> phase_at(
            s,
            at,
        ) is None && flip_after(s, at) is None,
        s.on_seconds == Some(0u64) && s.off_seconds == Some(0u64) ==> phase_at(s, at) is None && flip_after(s, at)
            is None,
        s.starts_at_ms matches Some(begins) && at < begins ==> phase_at(s, at) is None,
{
}

/// A calendar schedule fires its own action, once the moment has come and not
/// before; without a moment or an action it rests.
pub proof fn calendar_fires_when_due(s: ScheduleConfigModel, at: i64, now: i64)
    ensures
        s.action matches Some(action) ==> at <= now ==> cron_due(s, Some(at), now) == DueModel::Fire(action),
        at > now ==> cron_due(s, Some(at), now) is Rest,
        s.action is None ==> cron_due(s, Some(at), now) is Rest,
        cron_due(s, None, now) is Rest,
{
}

/// A schedule of phases fires the phase that it is in: at the first look, and
/// then when the phase has changed since the look before.
pub proof fn phases_fire_on_entry(s: ScheduleConfigModel, previous: i64, now: i64)
    requires
        previous >= 0,
        now >= 0,
    ensures
        interval_due(s, previous, now) matches DueModel::Fire(action) ==> phase_at(s, now as int) == Some(action),
        s.last_fired_at_ms is None && phase_at(s, now as int) is Some ==> interval_due(s, previous, now) is Fire,
        s.last_fired_at_ms is Some && phase_at(s, previous as int) == phase_at(s, now as int) ==> interval_due(
            s,
            previous,
            now,
        ) is Rest,
        phase_at(s, now as int) is Some && phase_at(s, previous as int) != phase_at(s, now as int) ==> interval_due(
            s,
            previous,
            now,
        ) is Fire,
        phase_at(s, now as int) is None ==> interval_due(s, previous, now) is Rest,
{
}

/// What a firing came to is noted with the schedule that fired, with the
/// moment, and nothing else changes.
pub proof fn firing_is_noted(
    t: Seq<(Seq<char>, ScheduleConfigModel)>,
    id: Seq<char>,
    other: Seq<char>,
    error: Option<Seq<char>>,
    now: u128,
)
    ensures
        table::lookup(t, id) matches Some(s) ==> table::lookup(fired(t, id, error, now), id) == Some(
            (ScheduleConfigModel { last_fired_at_ms: Some(now), last_error: error, ..s }),
        ),
        other != id ==> table::lookup(fired(t, id, error, now), other) == table::lookup(t, other),
        table::lookup(t, id) is None ==> fired(t, id, error, now) == t,
{
    if table::lookup(t, id) is Some {
        let s = table::lookup(t, id)->0;
        table::amended_then_lookup(
            t,
            id,
            ScheduleConfigModel { last_fired_at_ms: Some(now), last_error: error, ..s },
            id,
        );
        table::amended_then_lookup(
            t,
            id,
            ScheduleConfigModel { last_fired_at_ms: Some(now), last_error: error, ..s },
            other,
        );
    }
}

/// Lists of conditions are kept without repeats, in the order given; the first
/// condition that is not known refuses the list by its name.
pub proof fn conditions_are_known<V>(t: Seq<(Seq<char>, V)>, ids: Seq<Seq<char>>)
    ensures
        conditions_check(t, ids) is Ok <==> forall|i: int| 0 <= i < ids.len() ==> table::has_key(t, #[trigger] ids[i]),
        conditions_check(t, ids) matches Ok(kept) ==> kept.no_duplicates() && forall|id: Seq<char>|
            #[trigger] kept.contains(id) <==> ids.contains(id),
        conditions_check(t, ids) matches Err(m) ==> exists|i: int|
            0 <= i < ids.len() && !table::has_key(t, #[trigger] ids[i]) && m == "unknown condition '"@ + ids[i] + "'"@,
{
    first_unknown(t, ids, 0);
    lists::distinct_holds_each_once(ids);
}

proof fn first_unknown<V>(t: Seq<(Seq<char>, V)>, ids: Seq<Seq<char>>, i: int)
    requires
        0 <= i,
    ensures
        unknown_from(t, ids, i) is None <==> forall|j: int| i <= j < ids.len() ==> table::has_key(t, #[trigger] ids[j]),
        unknown_from(t, ids, i) matches Some(id) ==> exists|j: int|
            i <= j < ids.len() && !table::has_key(t, #[trigger] ids[j]) && id == ids[j],
    decreases ids.len() - i,
{
    if i < ids.len() && table::has_key(t, ids[i]) {
        first_unknown(t, ids, i + 1);
    }
}

/// A calendar schedule comes out as it was asked for: for the device, with the
/// action and whether it is enabled as given, never fired. It is refused
/// exactly where the device or a condition is unknown or the expression bad.
pub proof fn calendar_schedules_are_made_as_asked<D, C>(
    r: CronRequestModel,
    devices: Seq<(Seq<char>, D)>,
    conditions: Seq<(Seq<char>, C)>,
    id: Seq<char>,
    now: u128,
)
    ensures
        made(CreateScheduleRequestModel::Cron { cron: r }, devices, conditions, id, now) is Ok <==> table::has_key(
            devices,
            r.device_name,
        ) && normalized(r.cron) is Ok && conditions_check(conditions, r.condition_ids) is Ok,
        made(CreateScheduleRequestModel::Cron { cron: r }, devices, conditions, id, now) matches Ok(s) ==> {
            &&& s.id == id
            &&& s.device_name == r.device_name
            &&& s.kind is Cron
            &&& s.action == Some(r.action)
            &&& s.enabled == r.enabled
            &&& s.created_at_ms == now
            &&& s.last_fired_at_ms is None
            &&& s.last_error is None
            &&& normalized(r.cron) matches Ok(c) && s.cron == Some(c)
            &&& s.on_seconds is None && s.off_seconds is None && s.start_action is None && s.starts_at_ms is None
            &&& forall|k: Seq<char>| #[trigger] s.condition_ids.contains(k) <==> r.condition_ids.contains(k)
        },
        !table::has_key(devices, r.device_name) ==> (made(
            CreateScheduleRequestModel::Cron { cron: r },
            devices,
            conditions,
            id,
            now,
        ) matches Err(m) && m == "unknown device '"@ + r.device_name + "'"@),
{
    conditions_are_known(conditions, r.condition_ids);
}

/// A schedule of phases comes out with the phases and the first action that it
/// was asked for, from the start given or from now on. It is refused exactly
/// where the device or a condition is unknown or a cycle is under a minute.
pub proof fn phase_schedules_are_made_as_asked<D, C>(
    r: IntervalRequestModel,
    devices: Seq<(Seq<char>, D)>,
    conditions: Seq<(Seq<char>, C)>,
    id: Seq<char>,
    now: u128,
)
    ensures
        made(CreateScheduleRequestModel::Interval { interval: r }, devices, conditions, id, now) is Ok
            <==> table::has_key(devices, r.device_name) && r.on_seconds + r.off_seconds >= 60 && conditions_check(
            conditions,
            r.condition_ids,
        ) is Ok,
        made(CreateScheduleRequestModel::Interval { interval: r }, devices, conditions, id, now) matches Ok(s) ==> {
            &&& s.id == id
            &&& s.device_name == r.device_name
            &&& s.kind is Interval
            &&& s.on_seconds == Some(r.on_seconds)
            &&& s.off_seconds == Some(r.off_seconds)
            &&& s.start_action == Some(r.start_action)
            &&& r.starts_at_ms is Some ==> s.starts_at_ms == r.starts_at_ms
            &&& r.starts_at_ms is None ==> s.starts_at_ms == Some(now)
            &&& s.enabled == r.enabled
            &&& s.created_at_ms == now
            &&& s.last_fired_at_ms is None
            &&& s.last_error is None
            &&& s.cron is None && s.action is None
            &&& forall|k: Seq<char>| #[trigger] s.condition_ids.contains(k) <==> r.condition_ids.contains(k)
        },
{
    conditions_are_known(conditions, r.condition_ids);
}

/// Expressions of five fields gain the seconds, those of six or seven and the
/// named ones stand as they are, and no other number of fields is taken.
pub proof fn expressions_gain_seconds(expression: Seq<char>)
    ensures
        ({
            let t = text::trimmed(expression);
            let n = text::fields(t).len();
            let named = t.len() > 0 && t[0] == '@';
            &&& candidate(expression) is Ok <==> t.len() > 0 && (named || 5 <= n <= 7)
            &&& candidate(expression) matches Ok(c) ==> c == if named || n != 5 {
                t
            } else {
                seq!['0', ' '] + t
            }
            &&& normalized(expression) matches Ok(c) ==> candidate(expression) == Ok::<Seq<char>, Seq<char>>(c)
        }),
{
    let t = text::trimmed(expression);
    reveal_strlit("@");
    reveal_strlit("0 ");
    assert("0 "@ =~= seq!['0', ' ']);
    if t.len() > 0 {
        assert(t.subrange(0, 1) =~= seq![t[0]]);
        assert("@"@ =~= seq!['@']);
        if t[0] != '@' {
            assert(t.subrange(0, 1)[0] != "@"@[0]);
        }
    }
}

/// A change to a stored schedule touches no other. Where the schedule is
/// known and what the change brings is acceptable, each field that the change
/// names is as it says, and each that it does not name is as it was.
pub proof fn schedule_changes_are_field_by_field<C>(
    t: Seq<(Seq<char>, ScheduleConfigModel)>,
    conditions: Seq<(Seq<char>, C)>,
    id: Seq<char>,
    other: Seq<char>,
    r: UpdateScheduleRequestModel,
    now: u128,
)
    ensures
        other != id ==> table::lookup(updated(t, conditions, id, r, now).0, other) == table::lookup(t, other),
        table::lookup(t, id) is None ==> updated(t, conditions, id, r, now).0 == t && updated(
            t,
            conditions,
            id,
            r,
            now,
        ).1 is Some,
        updated(t, conditions, id, r, now).1 is None ==> (table::lookup(t, id) matches Some(s) && table::lookup(
            updated(t, conditions, id, r, now).0,
            id,
        ) matches Some(u) && {
            &&& u.id == s.id && u.device_name == s.device_name && u.kind == s.kind
            &&& u.created_at_ms == s.created_at_ms && u.last_fired_at_ms == s.last_fired_at_ms
            &&& r.enabled matches Some(enabled) ==> u.enabled == enabled
            &&& r.enabled is None ==> u.enabled == s.enabled
            &&& r.label is None ==> u.label == s.label
            &&& r.label == Some(None::<Seq<char>>) ==> u.label is None
            &&& r.condition_ids is None ==> u.condition_ids == s.condition_ids
            &&& r.condition_ids matches Some(ids) ==> forall|k: Seq<char>|
                #[trigger] u.condition_ids.contains(k) <==> ids.contains(k)
            &&& s.kind is Cron ==> {
                &&& r.action is Some ==> u.action == r.action
                &&& r.action is None ==> u.action == s.action
                &&& r.cron is None ==> u.cron == s.cron && u.last_error == s.last_error
                &&& r.cron matches Some(e) ==> (normalized(e) matches Ok(c) && u.cron == Some(c)) && u.last_error is None
                &&& u.on_seconds == s.on_seconds && u.off_seconds == s.off_seconds
                &&& u.start_action == s.start_action && u.starts_at_ms == s.starts_at_ms
            }
            &&& s.kind is Interval ==> {
                &&& u.cron == s.cron && u.action == s.action
                &&& r.on_seconds is Some ==> u.on_seconds == r.on_seconds
                &&& r.off_seconds is Some ==> u.off_seconds == r.off_seconds
                &&& r.on_seconds is None && s.on_seconds is Some ==> u.on_seconds == s.on_seconds
                &&& r.off_seconds is None && s.off_seconds is Some ==> u.off_seconds == s.off_seconds
                &&& r.start_action is Some ==> u.start_action == r.start_action
                &&& r.start_action is None ==> u.start_action == s.start_action
                &&& r.on_seconds is Some || r.off_seconds is Some || r.start_action is Some ==> u.starts_at_ms == Some(
                    now,
                )
                &&& r.on_seconds is None && r.off_seconds is None && r.start_action is None ==> u.starts_at_ms
                    == s.starts_at_ms
                &&& r.on_seconds is Some || r.off_seconds is Some ==> u.last_error is None && u.on_seconds->0
                    + u.off_seconds->0 >= 60
                &&& r.on_seconds is None && r.off_seconds is None ==> u.last_error == s.last_error
            }
        }),
{
    if let Some(ids) = r.condition_ids {
        conditions_are_known(conditions, ids);
    }
    if let Some(s) = table::lookup(t, id) {
        let u = updated(t, conditions, id, r, now).0;
        let kept = ScheduleConfigModel { enabled: merge::either(r.enabled, s.enabled), ..s };
        table::amended_then_lookup(t, id, kept, other);
        if requested_cron(r) is Ok && requested_conditions(r, conditions) is Ok {
            let next = changed(s, r, requested_cron(r)->Ok_0, requested_conditions(r, conditions)->Ok_0, now);
            table::amended_then_lookup(t, id, next, other);
        }
    }
}

/// The wait, added to the part of the minute that has passed, makes a minute.
pub proof fn waits_make_up_the_minute(second: u32, nanosecond: u32, wait: u64)
    requires
        second < 60,
        nanosecond < 1_000_000_000,
        call_ensures(wait_for_minute, (second, nanosecond), wait),
    ensures
        1_000_000_000 * second + nanosecond + wait == 60 * 1_000_000_000,
{
}

/// A day of the week is renumbered alone, at both ends of a range and before a
/// step; `*` and `?` stay, and so do names.
pub proof fn weekdays_are_renumbered_in_place(a: nat, b: nat, step: nat)
    requires
        a <= u32::MAX,
        b <= u32::MAX,
    ensures
        dow_part(text::decimal(a)) == text::decimal(a % 7 + 1),
        dow_part(text::decimal(a) + seq!['-'] + text::decimal(b)) == text::decimal(a % 7 + 1) + seq!['-'] + text::decimal(
            b % 7 + 1,
        ),
        dow_part(text::decimal(a) + seq!['/'] + text::decimal(step)) == text::decimal(a % 7 + 1) + seq!['/']
            + text::decimal(step),
        dow_part(seq!['*']) == seq!['*'],
        dow_part(seq!['?']) == seq!['?'],
        dow_part(seq!['*', '/'] + text::decimal(step)) == seq!['*', '/'] + text::decimal(step),
        dow_field(text::decimal(a) + seq![','] + text::decimal(b)) == text::decimal(a % 7 + 1) + seq![',']
            + text::decimal(b % 7 + 1),
{
    reveal_strlit("*");
    reveal_strlit("?");
    reveal_strlit("-");
    reveal_strlit("/");
    reveal_strlit(",");
    assert("-"@ =~= seq!['-'] && "/"@ =~= seq!['/'] && ","@ =~= seq![',']);
    assert("*"@ =~= seq!['*'] && "?"@ =~= seq!['?']);
    let x = text::decimal(a);
    let y = text::decimal(b);
    let z = text::decimal(step);
    text::decimals_read_back(a);
    text::decimals_read_back(b);
    text::decimals_read_back(step);
    text::decimal_is_trimmed(a);
    text::decimal_is_trimmed(b);
    text::decimal_is_trimmed(step);
    days_are_renumbered(a);
    days_are_renumbered(b);
    assert(text::is_digit(x[0]) && text::is_digit(y[0]) && text::is_digit(z[0]));
    assert(text::is_digit(x.last()) && text::is_digit(y.last()) && text::is_digit(z.last()));
    text::decimals_hold_digits_only(a, '-');
    text::decimals_hold_digits_only(b, '-');
    text::decimals_hold_digits_only(a, '/');
    text::decimals_hold_digits_only(b, '/');
    text::decimals_hold_digits_only(step, '/');
    text::decimals_hold_digits_only(a, ',');
    text::decimals_hold_digits_only(b, ',');
    text::plain_texts_are_pieces(x, y, '-');
    text::plain_texts_are_pieces(y, x, '-');
    text::plain_texts_are_pieces(x, z, '/');
    text::plain_texts_are_pieces(y, z, '/');
    text::plain_texts_are_pieces(x, y, ',');
    assert(x[0] != '*' && x[0] != '?');
    assert(x != "*"@ && x != "?"@) by {
        assert("*"@[0] == '*' && "?"@[0] == '?');
    }
    assert(y != "*"@ && y != "?"@) by {
        assert("*"@[0] == '*' && "?"@[0] == '?');
    }
    assert(dow_part(x) == text::decimal(a % 7 + 1));
    assert(dow_part(y) == text::decimal(b % 7 + 1));
    let range = x + seq!['-'] + y;
    assert(range[0] == x[0] && range.last() == y.last());
    assert(text::trimmed(range) == range);
    assert(range != "*"@ && range != "?"@) by {
        assert("*"@[0] == '*' && "?"@[0] == '?');
    }
    assert(!range.contains('/')) by {
        if range.contains('/') {
            let k = choose|k: int| 0 <= k < range.len() && range[k] == '/';
            if k < x.len() {
                assert(x[k] == '/');
            } else if k > x.len() {
                assert(y[k - x.len() - 1] == '/');
            }
        }
    }
    text::plain_texts_are_pieces(range, z, '/');
    let stepped = x + seq!['/'] + z;
    assert(stepped[0] == x[0] && stepped.last() == z.last());
    assert(text::trimmed(stepped) == stepped);
    let star = seq!['*'];
    let query = seq!['?'];
    assert(text::trimmed(star) == star && text::trimmed(query) == query);
    assert(!star.contains('/') && !query.contains('/'));
    text::plain_texts_are_pieces(star, z, '/');
    text::plain_texts_are_pieces(query, z, '/');
    let every = seq!['*', '/'] + z;
    assert(every =~= star + seq!['/'] + z);
    assert(every[0] == '*' && every.last() == z.last());
    assert(text::trimmed(every) == every);
    let list = x + seq![','] + y;
    assert(dow_parts(list) =~= seq![dow_part(x), dow_part(y)]);
    text::joining_from_the_front(dow_part(x), seq![dow_part(y)], ","@);
    assert(seq![dow_part(x)] + seq![dow_part(y)] =~= seq![dow_part(x), dow_part(y)]);
    assert(seq![dow_part(y)][0] == dow_part(y));
}

/// In an expression only the day of the week is rewritten: the fifth of five
/// fields, the sixth of six or seven. A named expression stays.
pub proof fn only_weekdays_are_rewritten(expression: Seq<char>)
    ensures
        ({
            let t = text::trimmed(expression);
            let f = text::fields(t);
            let named = text::begins(t, "@"@);
            &&& named || f.len() < 5 || f.len() > 7 ==> crate_format(expression) == t
            &&& !named && f.len() == 5 ==> crate_format(expression) == text::joined(
                seq![f[0], f[1], f[2], f[3], dow_field(f[4])],
                " "@,
            )
            &&& !named && f.len() == 6 ==> crate_format(expression) == text::joined(
                seq![f[0], f[1], f[2], f[3], f[4], dow_field(f[5])],
                " "@,
            )
            &&& !named && f.len() == 7 ==> crate_format(expression) == text::joined(
                seq![f[0], f[1], f[2], f[3], f[4], dow_field(f[5]), f[6]],
                " "@,
            )
        }),
{
    let t = text::trimmed(expression);
    let f = text::fields(t);
    if f.len() == 5 {
        assert(f.update(4, dow_field(f[4])) =~= seq![f[0], f[1], f[2], f[3], dow_field(f[4])]);
    } else if f.len() == 6 {
        assert(f.update(5, dow_field(f[5])) =~= seq![f[0], f[1], f[2], f[3], f[4], dow_field(f[5])]);
    } else if f.len() == 7 {
        assert(f.update(5, dow_field(f[5])) =~= seq![f[0], f[1], f[2], f[3], f[4], dow_field(f[5]), f[6]]);
    }
}

/// What is shown of a schedule is what is stored of it, with the moment of its
/// next firing; schedules are listed by their device.
pub proof fn schedules_are_shown_as_stored(s: ScheduleConfigModel, next: Option<i64>)
    ensures
        ({
            let v = view_of(s, next);
            &&& v.id == s.id && v.device_name == s.device_name && v.kind == s.kind && v.cron == s.cron && v.action
                == s.action
            &&& v.on_seconds == s.on_seconds && v.off_seconds == s.off_seconds && v.start_action == s.start_action
                && v.starts_at_ms == s.starts_at_ms
            &&& v.enabled == s.enabled && v.label == s.label && v.condition_ids == s.condition_ids && v.created_at_ms
                == s.created_at_ms
            &&& v.last_fired_at_ms == s.last_fired_at_ms && v.last_error == s.last_error && v.next_fire_at_ms == next
            &&& <ScheduleView as Listed>::listed_name(v) == s.device_name
            &&& <ScheduleView as Listed>::listed_stamp(v) == s.created_at_ms
        }),
{
}

/// A disabled schedule never fires. A schedule of phases that fires asks for
/// the phase it is in, and one whose phase has changed since the look before
/// does fire. A calendar schedule that fires asks for its action, and does so
/// for a moment that has come and that its expression named after the look
/// before; one without an expression, or with one that cannot be read, says so.
pub proof fn schedules_fire_as_they_say(schedule: &ScheduleConfig, previous: i64, now: i64, r: Due)
    requires
        previous >= 0,
        now >= 0,
        call_ensures(schedule_due, (schedule, previous, now), r),
    ensures
        ({
            let s = schedule.deep_view();
            let before = phase_at(s, previous as int);
            let phase = phase_at(s, now as int);
            let d = r.deep_view();
            &&& d is Fire ==> schedule.enabled
            &&& d is Fault ==> schedule.enabled && schedule.kind == ScheduleKind::Cron
            &&& schedule.kind == ScheduleKind::Interval ==> {
                &&& d matches DueModel::Fire(action) ==> phase == Some(action)
                &&& schedule.enabled && phase is Some && phase != before ==> d is Fire
                &&& s.last_fired_at_ms is Some && phase == before ==> d is Rest
            }
            &&& schedule.kind == ScheduleKind::Cron ==> {
                &&& d matches DueModel::Fire(action) ==> s.action == Some(action) && s.cron is Some && exists|at: i64|
                    at <= now && #[trigger] can_name(s.cron->0, previous, Some(at))
                &&& schedule.enabled && s.cron is None ==> d is Fault
                &&& schedule.enabled && s.cron is Some ==> (d is Fault <==> cron_fault(crate_format(s.cron->0)) is Some)
            }
        }),
{
}

/// The next firing of a schedule of phases lies ahead, and the phase stays the
/// same until then; it is told where it can be written as a moment. A calendar
/// schedule names a moment of its expression's.
pub proof fn next_firings_lie_ahead(schedule: &ScheduleConfig, now: u128, at: int, r: Option<i64>)
    requires
        now <= 8_210_266_876_798_999,
        flip_after(schedule.deep_view(), now as int) matches Some(flip) ==> flip <= i64::MAX,
        call_ensures(next_fire_at, (schedule, now), r),
    ensures
        ({
            let s = schedule.deep_view();
            &&& schedule.kind == ScheduleKind::Interval ==> (r matches Some(next) ==> {
                &&& now < next
                &&& now <= at < next ==> phase_at(s, at) == phase_at(s, now as int)
            })
            &&& schedule.kind == ScheduleKind::Cron ==> {
                &&& s.cron is None ==> r is None
                &&& s.cron is Some && r is Some ==> can_name(s.cron->0, now as i64, r) && cron_fault(
                    crate_format(s.cron->0),
                ) is None
            }
        }),
{
    let s = schedule.deep_view();
    flips_are_near(s, now as int);
    if let Some((on, off, start, begins)) = interval_of(s) {
        let flip = flip_after(s, now as int)->0;
        if now < begins {
            phase_starts_as_named(s, now as int);
            phase_starts_as_named(s, at);
        } else {
            phase_holds_until_the_flip(s, now as int, now as int);
            if now <= at <= flip {
                phase_holds_until_the_flip(s, now as int, at);
            }
        }
    }
}

} // verus!
