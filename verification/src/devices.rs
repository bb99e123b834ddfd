//! Devices: what is known of them, what is wanted of them, and what hooks are
//! told when they change.

use vstd::prelude::*;
use vstd::string::*;

use crate::actions::{HookEvent, HookSource};
use crate::automations::host;
use crate::automations::host::{ask_bits, Answer, AnswerModel, Ask, AskModel, BinaryMath, Oracle};
use crate::automations::coerce;
use crate::automations::types::{Automation, AutomationModel, AutomationNode, AutomationNodeConfig, AutomationNodeConfigModel, AutomationNodeModel};
use crate::conditions;
use crate::conditions::{condition_intent_for_device, ConditionConfig, ConditionConfigModel};
use crate::dup::Dup;
use crate::hooks::{HookTemplateContext, HookTemplateContextModel};
use crate::lists;
use crate::schedules::{ScheduleConfig, ScheduleConfigModel};
use crate::table;
use crate::table::Table;
use crate::text;
use crate::text::{around, contains, same};
use crate::value::NOT_A_NUMBER;

verus! {

/// How many readings in a row must fail before a device counts as offline.
pub const DEVICE_OFFLINE_FAILURE_THRESHOLD: u32 = 3;

/// How long a manual override lasts where nothing is said of it.
pub const DEFAULT_MANUAL_OVERRIDE_SECONDS: u64 = 3600;

/// The shortest manual override.
pub const MIN_MANUAL_OVERRIDE_SECONDS: u64 = 30;

/// The longest manual override.
pub const MAX_MANUAL_OVERRIDE_SECONDS: u64 = 86_400;

/// How often an operation on a device is tried.
pub const TAPO_HANDSHAKE_RETRY_ATTEMPTS: usize = 3;

/// The bit pattern of one thousand as a double.
pub const THOUSAND: u64 = 0x408F_4000_0000_0000;

/// The plugs that can be managed.
#[derive(Debug, Clone, Copy, PartialEq, Eq, Structural)]
pub enum DeviceModel {
    P100,
    P105,
    P110,
    P115,
}

impl DeepView for DeviceModel {
    type V = DeviceModel;

    open spec fn deep_view(&self) -> DeviceModel {
        *self
    }
}

impl Dup for DeviceModel {
    fn dup(&self) -> (r: Self) {
        *self
    }
}

/// Where a device is and what it is.
pub struct DeviceConfig {
    pub ip: String,
    pub model: DeviceModel,
    /// The model as it is shown.
    pub model_name: String,
}

/// The contents of `DeviceConfig`.
#[verifier::ext_equal]
pub struct DeviceConfigModel {
    pub ip: Seq<char>,
    pub model: DeviceModel,
    pub model_name: Seq<char>,
}

impl DeepView for DeviceConfig {
    type V = DeviceConfigModel;

    open spec fn deep_view(&self) -> DeviceConfigModel {
        DeviceConfigModel {
            ip: self.ip.deep_view(),
            model: self.model.deep_view(),
            model_name: self.model_name.deep_view(),
        }
    }
}

impl Dup for DeviceConfig {
    fn dup(&self) -> (r: Self) {
        DeviceConfig {
            ip: self.ip.dup(),
            model: self.model.dup(),
            model_name: self.model_name.dup(),
        }
    }
}

/// What a device has used.
#[derive(Debug, Clone, Copy, PartialEq, Eq, Structural)]
pub struct EnergySnapshot {
    pub current_power_mw: Option<u64>,
    pub current_power_w: Option<u64>,
    pub today_energy_wh: u64,
    pub month_energy_wh: u64,
    pub today_runtime_minutes: u64,
    pub month_runtime_minutes: u64,
}

impl DeepView for EnergySnapshot {
    type V = EnergySnapshot;

    open spec fn deep_view(&self) -> EnergySnapshot {
        *self
    }
}

impl Dup for EnergySnapshot {
    fn dup(&self) -> (r: Self) {
        *self
    }
}

/// What a device said of itself when it was last read.
pub struct DeviceSnapshot {
    pub device_model: String,
    pub device_type: String,
    pub nickname: String,
    pub device_on: bool,
    pub on_time_seconds: u64,
    pub energy: Option<EnergySnapshot>,
}

/// The contents of `DeviceSnapshot`.
#[verifier::ext_equal]
pub struct DeviceSnapshotModel {
    pub device_model: Seq<char>,
    pub device_type: Seq<char>,
    pub nickname: Seq<char>,
    pub device_on: bool,
    pub on_time_seconds: u64,
    pub energy: Option<EnergySnapshot>,
}

impl DeepView for DeviceSnapshot {
    type V = DeviceSnapshotModel;

    open spec fn deep_view(&self) -> DeviceSnapshotModel {
        DeviceSnapshotModel {
            device_model: self.device_model.deep_view(),
            device_type: self.device_type.deep_view(),
            nickname: self.nickname.deep_view(),
            device_on: self.device_on.deep_view(),
            on_time_seconds: self.on_time_seconds.deep_view(),
            energy: self.energy.deep_view(),
        }
    }
}

impl Dup for DeviceSnapshot {
    fn dup(&self) -> (r: Self) {
        DeviceSnapshot {
            device_model: self.device_model.dup(),
            device_type: self.device_type.dup(),
            nickname: self.nickname.dup(),
            device_on: self.device_on.dup(),
            on_time_seconds: self.on_time_seconds.dup(),
            energy: self.energy.dup(),
        }
    }
}

/// A device of the board.
pub struct ManagedDevice {
    pub name: String,
    pub config: DeviceConfig,
    pub snapshot: Option<DeviceSnapshot>,
    pub last_error: Option<String>,
    pub discovered_at_ms: u128,
    pub updated_at_ms: Option<u128>,
    /// How often in a row reading it has failed.
    pub consecutive_failures: u32,
    /// Whether this outage has been announced.
    pub offline_announced: bool,
}

/// The contents of `ManagedDevice`.
#[verifier::ext_equal]
pub struct ManagedDeviceModel {
    pub name: Seq<char>,
    pub config: DeviceConfigModel,
    pub snapshot: Option<DeviceSnapshotModel>,
    pub last_error: Option<Seq<char>>,
    pub discovered_at_ms: u128,
    pub updated_at_ms: Option<u128>,
    pub consecutive_failures: u32,
    pub offline_announced: bool,
}

impl DeepView for ManagedDevice {
    type V = ManagedDeviceModel;

    open spec fn deep_view(&self) -> ManagedDeviceModel {
        ManagedDeviceModel {
            name: self.name.deep_view(),
            config: self.config.deep_view(),
            snapshot: self.snapshot.deep_view(),
            last_error: self.last_error.deep_view(),
            discovered_at_ms: self.discovered_at_ms.deep_view(),
            updated_at_ms: self.updated_at_ms.deep_view(),
            consecutive_failures: self.consecutive_failures.deep_view(),
            offline_announced: self.offline_announced.deep_view(),
        }
    }
}

impl Dup for ManagedDevice {
    fn dup(&self) -> (r: Self) {
        ManagedDevice {
            name: self.name.dup(),
            config: self.config.dup(),
            snapshot: self.snapshot.dup(),
            last_error: self.last_error.dup(),
            discovered_at_ms: self.discovered_at_ms.dup(),
            updated_at_ms: self.updated_at_ms.dup(),
            consecutive_failures: self.consecutive_failures.dup(),
            offline_announced: self.offline_announced.dup(),
        }
    }
}

/// What is wanted of a device.
#[derive(Debug, Clone, Copy, PartialEq, Eq, Structural)]
pub struct DeviceIntent {
    pub schedule_intent: Option<bool>,
    pub manual_override: Option<bool>,
    /// When the override ends by itself; without it, it stays until it is
    /// released.
    pub manual_override_until_ms: Option<u128>,
}

impl DeepView for DeviceIntent {
    type V = DeviceIntent;

    open spec fn deep_view(&self) -> DeviceIntent {
        *self
    }
}

impl Dup for DeviceIntent {
    fn dup(&self) -> (r: Self) {
        *self
    }
}

/// What a device has used, and what that costs.
#[derive(Debug, Clone, Copy, PartialEq, Eq, Structural)]
pub struct EnergyView {
    pub current_power_mw: Option<u64>,
    pub current_power_w: Option<u64>,
    pub today_energy_wh: u64,
    pub month_energy_wh: u64,
    /// The bit pattern of a double.
    pub today_cost_pence: u64,
    /// The bit pattern of a double.
    pub month_cost_pence: u64,
    pub today_runtime_minutes: u64,
    pub month_runtime_minutes: u64,
}

impl DeepView for EnergyView {
    type V = EnergyView;

    open spec fn deep_view(&self) -> EnergyView {
        *self
    }
}

impl Dup for EnergyView {
    fn dup(&self) -> (r: Self) {
        *self
    }
}

/// A device as callers see it.
pub struct DeviceView {
    pub name: String,
    pub ip: String,
    pub configured_model: DeviceModel,
    pub model: String,
    pub nickname: String,
    pub device_type: String,
    pub device_on: Option<bool>,
    pub on_time_seconds: Option<u64>,
    pub energy: Option<EnergyView>,
    pub last_error: Option<String>,
    pub discovered_at_ms: u128,
    pub updated_at_ms: Option<u128>,
    pub manual_override: Option<bool>,
    pub manual_override_until_ms: Option<u128>,
    pub schedule_intent: Option<bool>,
    pub condition_intent: Option<bool>,
    pub effective_intent: Option<bool>,
}

/// The contents of `DeviceView`.
#[verifier::ext_equal]
pub struct DeviceViewModel {
    pub name: Seq<char>,
    pub ip: Seq<char>,
    pub configured_model: DeviceModel,
    pub model: Seq<char>,
    pub nickname: Seq<char>,
    pub device_type: Seq<char>,
    pub device_on: Option<bool>,
    pub on_time_seconds: Option<u64>,
    pub energy: Option<EnergyView>,
    pub last_error: Option<Seq<char>>,
    pub discovered_at_ms: u128,
    pub updated_at_ms: Option<u128>,
    pub manual_override: Option<bool>,
    pub manual_override_until_ms: Option<u128>,
    pub schedule_intent: Option<bool>,
    pub condition_intent: Option<bool>,
    pub effective_intent: Option<bool>,
}

impl DeepView for DeviceView {
    type V = DeviceViewModel;

    open spec fn deep_view(&self) -> DeviceViewModel {
        DeviceViewModel {
            name: self.name.deep_view(),
            ip: self.ip.deep_view(),
            configured_model: self.configured_model.deep_view(),
            model: self.model.deep_view(),
            nickname: self.nickname.deep_view(),
            device_type: self.device_type.deep_view(),
            device_on: self.device_on.deep_view(),
            on_time_seconds: self.on_time_seconds.deep_view(),
            energy: self.energy.deep_view(),
            last_error: self.last_error.deep_view(),
            discovered_at_ms: self.discovered_at_ms.deep_view(),
            updated_at_ms: self.updated_at_ms.deep_view(),
            manual_override: self.manual_override.deep_view(),
            manual_override_until_ms: self.manual_override_until_ms.deep_view(),
            schedule_intent: self.schedule_intent.deep_view(),
            condition_intent: self.condition_intent.deep_view(),
            effective_intent: self.effective_intent.deep_view(),
        }
    }
}

impl Dup for DeviceView {
    fn dup(&self) -> (r: Self) {
        DeviceView {
            name: self.name.dup(),
            ip: self.ip.dup(),
            configured_model: self.configured_model.dup(),
            model: self.model.dup(),
            nickname: self.nickname.dup(),
            device_type: self.device_type.dup(),
            device_on: self.device_on.dup(),
            on_time_seconds: self.on_time_seconds.dup(),
            energy: self.energy.dup(),
            last_error: self.last_error.dup(),
            discovered_at_ms: self.discovered_at_ms.dup(),
            updated_at_ms: self.updated_at_ms.dup(),
            manual_override: self.manual_override.dup(),
            manual_override_until_ms: self.manual_override_until_ms.dup(),
            schedule_intent: self.schedule_intent.dup(),
            condition_intent: self.condition_intent.dup(),
            effective_intent: self.effective_intent.dup(),
        }
    }
}

/// What hooks are to be told of a device.
pub struct Transition {
    pub nickname: String,
    pub model: String,
    pub previous_on: Option<bool>,
    pub new_on: Option<bool>,
    pub events: Vec<HookEvent>,
}

/// The contents of `Transition`.
#[verifier::ext_equal]
pub struct TransitionModel {
    pub nickname: Seq<char>,
    pub model: Seq<char>,
    pub previous_on: Option<bool>,
    pub new_on: Option<bool>,
    pub events: Seq<HookEvent>,
}

impl DeepView for Transition {
    type V = TransitionModel;

    open spec fn deep_view(&self) -> TransitionModel {
        TransitionModel {
            nickname: self.nickname.deep_view(),
            model: self.model.deep_view(),
            previous_on: self.previous_on.deep_view(),
            new_on: self.new_on.deep_view(),
            events: self.events.deep_view(),
        }
    }
}

impl Dup for Transition {
    fn dup(&self) -> (r: Self) {
        Transition {
            nickname: self.nickname.dup(),
            model: self.model.dup(),
            previous_on: self.previous_on.dup(),
            new_on: self.new_on.dup(),
            events: self.events.dup(),
        }
    }
}

/// A device to switch, and what to tell of it.
pub struct Switch {
    pub target: bool,
    pub previous: Option<bool>,
    pub nickname: String,
    pub model: String,
    pub event: HookEvent,
}

/// The contents of `Switch`.
#[verifier::ext_equal]
pub struct SwitchModel {
    pub target: bool,
    pub previous: Option<bool>,
    pub nickname: Seq<char>,
    pub model: Seq<char>,
    pub event: HookEvent,
}

impl DeepView for Switch {
    type V = SwitchModel;

    open spec fn deep_view(&self) -> SwitchModel {
        SwitchModel {
            target: self.target.deep_view(),
            previous: self.previous.deep_view(),
            nickname: self.nickname.deep_view(),
            model: self.model.deep_view(),
            event: self.event.deep_view(),
        }
    }
}

impl Dup for Switch {
    fn dup(&self) -> (r: Self) {
        Switch {
            target: self.target.dup(),
            previous: self.previous.dup(),
            nickname: self.nickname.dup(),
            model: self.model.dup(),
            event: self.event.dup(),
        }
    }
}

/// A device that has just been found.
pub open spec fn found(name: Seq<char>, config: DeviceConfigModel, now: u128) -> ManagedDeviceModel {
    ManagedDeviceModel {
        name,
        config,
        snapshot: None,
        last_error: None,
        discovered_at_ms: now,
        updated_at_ms: None,
        consecutive_failures: 0,
        offline_announced: false,
    }
}

/// A device that has just been found.
pub fn managed_device_from_config(name: String, config: DeviceConfig, now: u128) -> (d: ManagedDevice)
    ensures
        d.deep_view() == found(name@, config.deep_view(), now),
{
    ManagedDevice {
        name,
        config,
        snapshot: None,
        last_error: None,
        discovered_at_ms: now,
        updated_at_ms: None,
        consecutive_failures: 0,
        offline_announced: false,
    }
}

/// Whether the device is on, as far as that is known.
pub open spec fn known_on(d: ManagedDeviceModel) -> Option<bool> {
    match d.snapshot {
        Some(s) => Some(s.device_on),
        None => None,
    }
}

/// Whether the device of that name is on, as far as that is known.
pub open spec fn device_on(t: Seq<(Seq<char>, ManagedDeviceModel)>, name: Seq<char>) -> Option<bool> {
    match table::lookup(t, name) {
        Some(d) => known_on(d),
        None => None,
    }
}

/// Whether the device of that name is on, as far as that is known.
pub fn current_state(devices: &Table<ManagedDevice>, name: &str) -> (r: Option<bool>)
    ensures
        r == device_on(devices.deep_view(), name@),
{
    match devices.get(name) {
        Some(d) => match &d.snapshot {
            Some(s) => Some(s.device_on),
            None => None,
        },
        None => None,
    }
}

/// What the device calls itself, or else its name.
pub open spec fn shown_name(t: Seq<(Seq<char>, ManagedDeviceModel)>, name: Seq<char>) -> Seq<char> {
    match table::lookup(t, name) {
        Some(d) => match d.snapshot {
            Some(s) => s.nickname,
            None => name,
        },
        None => name,
    }
}

fn nickname_of(devices: &Table<ManagedDevice>, name: &str) -> (r: String)
    ensures
        r@ == shown_name(devices.deep_view(), name@),
{
    match devices.get(name) {
        Some(d) => match &d.snapshot {
            Some(s) => s.nickname.clone(),
            None => name.to_owned(),
        },
        None => name.to_owned(),
    }
}

/// What the device says it is, or else what it was entered as.
pub open spec fn shown_model(t: Seq<(Seq<char>, ManagedDeviceModel)>, name: Seq<char>) -> Seq<char> {
    match table::lookup(t, name) {
        Some(d) => match d.snapshot {
            Some(s) => s.device_model,
            None => d.config.model_name,
        },
        None => ""@,
    }
}

fn model_of(devices: &Table<ManagedDevice>, name: &str) -> (r: String)
    ensures
        r@ == shown_model(devices.deep_view(), name@),
{
    match devices.get(name) {
        Some(d) => match &d.snapshot {
            Some(s) => s.device_model.clone(),
            None => d.config.model_name.clone(),
        },
        None => "".to_owned(),
    }
}

/// The device of that name, or the message that there is none.
pub fn get_device_config(devices: &Table<ManagedDevice>, name: &str) -> (r: Result<DeviceConfig, String>)
    ensures
        match r {
            Ok(c) => table::lookup(devices.deep_view(), name@) matches Some(d) && c.deep_view() == d.config,
            Err(m) => !table::has_key(devices.deep_view(), name@) && m@ == "device '"@ + name@ + "' was not found"@,
        },
{
    match devices.get(name) {
        Some(d) => Ok(d.config.dup()),
        None => Err(around("device '", name, "' was not found")),
    }
}

// ---------- What expressions see of devices ----------

/// Whether each of the first `n` devices is on, by its name and by its
/// nickname, as far as that is known.
pub open spec fn states_of(t: Seq<(Seq<char>, ManagedDeviceModel)>, n: int) -> Seq<(Seq<char>, bool)>
    decreases n,
{
    if n <= 0 || n > t.len() {
        Seq::empty()
    } else {
        let before = states_of(t, n - 1);
        match t[n - 1].1.snapshot {
            None => before,
            Some(s) => {
                let named = table::put(before, t[n - 1].0, s.device_on);
                if s.nickname.len() > 0 {
                    table::put(named, s.nickname, s.device_on)
                } else {
                    named
                }
            },
        }
    }
}

/// Whether each device is on, by its name and by its nickname.
pub fn collect_device_states(devices: &Table<ManagedDevice>) -> (r: Table<bool>)
    ensures
        r.deep_view() == states_of(devices.deep_view(), devices.deep_view().len() as int),
        table::sorted(r.deep_view()),
{
    let ghost t = devices.deep_view();
    let mut states: Table<bool> = Table::new();
    let mut i: usize = 0;
    while i < devices.entries.len()
        invariant
            i <= devices.entries@.len(),
            t == devices.deep_view(),
            states.deep_view() == states_of(t, i as int),
            table::sorted(states.deep_view()),
        decreases devices.entries@.len() - i,
    {
        let entry = &devices.entries[i];
        proof {
            assert(t[i as int] == (entry.0@, entry.1.deep_view()));
        }
        if let Some(s) = &entry.1.snapshot {
            states.insert(entry.0.clone(), s.device_on);
            if !s.nickname.as_str().is_empty() {
                states.insert(s.nickname.clone(), s.device_on);
            }
        }
        i = i + 1;
    }
    states
}

/// Of each device, whether it is on, if that is known, and whether it has been
/// announced as offline.
pub open spec fn readings_of(t: Seq<(Seq<char>, ManagedDeviceModel)>) -> Seq<(Seq<char>, (Option<bool>, bool))> {
    t.map_values(|e: (Seq<char>, ManagedDeviceModel)| (e.0, (known_on(e.1), e.1.offline_announced)))
}

/// Of each device, whether it is on, if that is known, and whether it has been
/// announced as offline.
pub fn device_readings(devices: &Table<ManagedDevice>) -> (r: Table<(Option<bool>, bool)>)
    ensures
        r.deep_view() == readings_of(devices.deep_view()),
{
    let ghost t = devices.deep_view();
    let mut out: Table<(Option<bool>, bool)> = Table { entries: Vec::new() };
    let mut i: usize = 0;
    while i < devices.entries.len()
        invariant
            i <= devices.entries@.len(),
            t == devices.deep_view(),
            out.entries@.len() == i,
            forall|j: int| 0 <= j < i ==> (#[trigger] out.entries@[j]).deep_view() == readings_of(t)[j],
        decreases devices.entries@.len() - i,
    {
        let entry = &devices.entries[i];
        proof {
            assert(t[i as int] == (entry.0@, entry.1.deep_view()));
        }
        let on = match &entry.1.snapshot {
            Some(s) => Some(s.device_on),
            None => None,
        };
        out.entries.push((entry.0.clone(), (on, entry.1.offline_announced)));
        i = i + 1;
    }
    proof {
        assert(out.deep_view() =~= readings_of(t));
    }
    out
}

// ---------- What is wanted of a device ----------

/// What a device is to be: a manual override decides; failing conditions switch
/// off; then the schedule decides, and where there is none, passing conditions
/// switch on.
pub open spec fn effective(manual: Option<bool>, schedule: Option<bool>, condition: Option<bool>) -> Option<bool> {
    if manual is Some {
        manual
    } else if condition == Some(false) {
        Some(false)
    } else if schedule is Some {
        schedule
    } else {
        condition
    }
}

/// What a device is to be.
pub fn compute_effective(
    manual_override: Option<bool>,
    schedule_intent: Option<bool>,
    condition_intent: Option<bool>,
) -> (r: Option<bool>)
    ensures
        r == effective(manual_override, schedule_intent, condition_intent),
{
    if manual_override.is_some() {
        return manual_override;
    }
    if let Some(false) = condition_intent {
        return Some(false);
    }
    if schedule_intent.is_some() {
        return schedule_intent;
    }
    condition_intent
}

/// An override outranks everything, failing conditions outrank the schedule,
/// and where nothing is wanted nothing is done.
pub proof fn effective_ranks(manual: Option<bool>, schedule: Option<bool>, condition: Option<bool>)
    ensures
        manual is Some ==> effective(manual, schedule, condition) == manual,
        manual is None && condition == Some(false) ==> effective(manual, schedule, condition) == Some(false),
        manual is None && condition != Some(false) && schedule is Some ==> effective(manual, schedule, condition)
            == schedule,
        effective(manual, schedule, condition) is None <==> manual is None && schedule is None && condition is None,
{
}

/// Nothing is wanted.
pub open spec fn no_intent() -> DeviceIntent {
    DeviceIntent { schedule_intent: None, manual_override: None, manual_override_until_ms: None }
}

/// What is wanted of the device of that name.
pub open spec fn intent_for(t: Seq<(Seq<char>, DeviceIntent)>, name: Seq<char>) -> DeviceIntent {
    match table::lookup(t, name) {
        Some(i) => i,
        None => no_intent(),
    }
}

/// What is wanted of the device of that name.
pub fn device_intent(intents: &Table<DeviceIntent>, name: &str) -> (r: DeviceIntent)
    ensures
        r == intent_for(intents.deep_view(), name@),
{
    match intents.get(name) {
        Some(i) => *i,
        None => DeviceIntent { schedule_intent: None, manual_override: None, manual_override_until_ms: None },
    }
}

/// Notes what the schedule wants of a device. A manual override stays: it has
/// its own end.
pub fn set_schedule_intent(intents: &mut Table<DeviceIntent>, name: &str, intent: bool)
    ensures
        final(intents).deep_view() == table::put(
            old(intents).deep_view(),
            name@,
            (DeviceIntent {
                schedule_intent: Some(intent),
                ..intent_for(old(intents).deep_view(), name@)
            }),
        ),
        table::lookup(final(intents).deep_view(), name@) matches Some(i) && i.schedule_intent == Some(intent),
        table::sorted(old(intents).deep_view()) ==> table::sorted(final(intents).deep_view()),
{
    let mut entry = device_intent(intents, name);
    entry.schedule_intent = Some(intent);
    proof {
        table::put_then_lookup(intents.deep_view(), name@, entry, name@);
    }
    intents.insert(name.to_owned(), entry);
}

/// A time in the bounds of an override.
pub open spec fn bounded(seconds: u64) -> int {
    if seconds < 30 {
        30
    } else if seconds > 86400 {
        86400
    } else {
        seconds as int
    }
}

fn bound_override(seconds: u64) -> (n: u128)
    ensures
        n == bounded(seconds),
{
    if seconds < MIN_MANUAL_OVERRIDE_SECONDS {
        MIN_MANUAL_OVERRIDE_SECONDS as u128
    } else if seconds > MAX_MANUAL_OVERRIDE_SECONDS {
        MAX_MANUAL_OVERRIDE_SECONDS as u128
    } else {
        seconds as u128
    }
}

/// The intent with a manual override from `now` on, for a time or for good.
pub open spec fn overridden(i: DeviceIntent, target: bool, seconds: Option<u64>, now: u128) -> DeviceIntent {
    DeviceIntent {
        manual_override: Some(target),
        manual_override_until_ms: match seconds {
            Some(s) => Some((now + bounded(s) * 1000) as u128),
            None => None,
        },
        ..i
    }
}

/// Overrides a device by hand, for a time or for good.
pub fn set_manual_override(
    intents: &mut Table<DeviceIntent>,
    name: &str,
    target: bool,
    duration_seconds: Option<u64>,
    now: u128,
)
    requires
        now + 86_400_000 <= u128::MAX,
    ensures
        final(intents).deep_view() == table::put(
            old(intents).deep_view(),
            name@,
            overridden(intent_for(old(intents).deep_view(), name@), target, duration_seconds, now),
        ),
        table::lookup(final(intents).deep_view(), name@) matches Some(i) && i.manual_override == Some(target) && (
        i.manual_override_until_ms is Some <==> duration_seconds is Some),
        table::sorted(old(intents).deep_view()) ==> table::sorted(final(intents).deep_view()),
{
    let mut entry = device_intent(intents, name);
    entry.manual_override = Some(target);
    entry.manual_override_until_ms = match duration_seconds {
        Some(seconds) => Some(now + bound_override(seconds) * 1000),
        None => None,
    };
    proof {
        table::put_then_lookup(intents.deep_view(), name@, entry, name@);
    }
    intents.insert(name.to_owned(), entry);
}

/// The intent without its override.
pub open spec fn released(i: DeviceIntent) -> DeviceIntent {
    DeviceIntent { manual_override: None, manual_override_until_ms: None, ..i }
}

/// Ends the override of a device, if it has one.
pub fn clear_manual_override(intents: &mut Table<DeviceIntent>, name: &str)
    ensures
        final(intents).deep_view() == (match table::lookup(old(intents).deep_view(), name@) {
            Some(i) => table::amended(old(intents).deep_view(), name@, released(i)),
            None => old(intents).deep_view(),
        }),
        table::lookup(final(intents).deep_view(), name@) matches Some(i) ==> i.manual_override is None,
        table::sorted(old(intents).deep_view()) ==> table::sorted(final(intents).deep_view()),
{
    let mut entry = match intents.get(name) {
        Some(i) => *i,
        None => {
            return ;
        },
    };
    entry.manual_override = None;
    entry.manual_override_until_ms = None;
    proof {
        table::amended_then_lookup(intents.deep_view(), name@, entry, name@);
    }
    intents.amend(name, entry);
}

/// When an override ends that is extended at `now`: its time is added to what
/// is left of it, up to the longest override counted from now.
pub open spec fn extended_until(until: Option<u128>, seconds: u64, now: u128) -> int {
    let base = match until {
        Some(ms) => if ms > now {
            ms as int
        } else {
            now as int
        },
        None => now as int,
    };
    let end = base + bounded(seconds) * 1000;
    let latest = now + 86_400_000;
    if end < latest {
        end
    } else {
        latest
    }
}

/// Extends the override of a device; says whether it has one.
pub fn extend_manual_override(intents: &mut Table<DeviceIntent>, name: &str, duration_seconds: u64, now: u128) -> (had:
    bool)
    requires
        now + 86_400_000 <= u128::MAX,
    ensures
        had == (intent_for(old(intents).deep_view(), name@).manual_override is Some),
        final(intents).deep_view() == (if had {
            table::amended(
                old(intents).deep_view(),
                name@,
                (DeviceIntent {
                    manual_override_until_ms: Some(
                        extended_until(
                            intent_for(old(intents).deep_view(), name@).manual_override_until_ms,
                            duration_seconds,
                            now,
                        ) as u128,
                    ),
                    ..intent_for(old(intents).deep_view(), name@)
                }),
            )
        } else {
            old(intents).deep_view()
        }),
        table::sorted(old(intents).deep_view()) ==> table::sorted(final(intents).deep_view()),
{
    let mut entry = match intents.get(name) {
        Some(i) => *i,
        None => {
            return false;
        },
    };
    if entry.manual_override.is_none() {
        return false;
    }
    let base: u128 = match entry.manual_override_until_ms {
        Some(ms) => if ms > now {
            ms
        } else {
            now
        },
        None => now,
    };
    let latest: u128 = now + 86_400_000;
    let add: u128 = bound_override(duration_seconds) * 1000;
    let until: u128 = if base >= latest || add > latest - base {
        latest
    } else {
        base + add
    };
    entry.manual_override_until_ms = Some(until);
    intents.amend(name, entry);
    true
}

/// An override with a time ends within a day, and not at once; extending one
/// never ends it before what was left of it, up to a day, and never beyond a
/// day.
pub proof fn overrides_stay_in_bounds(i: DeviceIntent, target: bool, seconds: u64, now: u128)
    requires
        now + 86_400_000 <= u128::MAX,
    ensures
        overridden(i, target, Some(seconds), now).manual_override_until_ms matches Some(until) && now + 30_000
            <= until <= now + 86_400_000,
        now + 30_000 <= extended_until(i.manual_override_until_ms, seconds, now) <= now + 86_400_000,
        i.manual_override_until_ms matches Some(until) ==> until <= now + 86_400_000 ==> extended_until(
            i.manual_override_until_ms,
            seconds,
            now,
        ) >= until,
{
}

/// The override is over at `now`.
pub open spec fn is_expired(now: u128) -> spec_fn((Seq<char>, DeviceIntent)) -> bool {
    |e: (Seq<char>, DeviceIntent)|
        e.1.manual_override is Some && (e.1.manual_override_until_ms matches Some(until) && until <= now)
}

/// The devices whose overrides are over.
pub fn expired_overrides(intents: &Table<DeviceIntent>, now: u128) -> (r: Vec<String>)
    ensures
        r.deep_view() == table::keys_of(intents.deep_view().filter(is_expired(now))),
{
    let ghost t = intents.deep_view();
    let ghost keep = is_expired(now);
    let mut names: Vec<String> = Vec::new();
    proof {
        reveal(Seq::filter);
        assert(names.deep_view() =~= table::keys_of(t.take(0).filter(keep)));
    }
    let mut i: usize = 0;
    while i < intents.entries.len()
        invariant
            i <= intents.entries@.len(),
            t == intents.deep_view(),
            keep == is_expired(now),
            names.deep_view() == table::keys_of(t.take(i as int).filter(keep)),
        decreases intents.entries@.len() - i,
    {
        let entry = &intents.entries[i];
        let ghost had = names.deep_view();
        proof {
            assert(t[i as int] == (entry.0@, entry.1));
            lists::filter_step(t, keep, i as int);
        }
        let over = match entry.1.manual_override_until_ms {
            Some(until) => until <= now && entry.1.manual_override.is_some(),
            None => false,
        };
        if over {
            names.push(entry.0.clone());
            proof {
                assert(names.deep_view() =~= had.push(entry.0@));
                assert(table::keys_of(t.take(i + 1).filter(keep)) =~= had.push(entry.0@));
            }
        }
        i = i + 1;
    }
    proof {
        assert(t.take(t.len() as int) =~= t);
    }
    names
}

/// A block switches the device.
pub open spec fn drives(node: AutomationNodeModel, device: Seq<char>) -> bool {
    match node.config {
        AutomationNodeConfigModel::SetDevice { set_device } => set_device.device_name == device,
        AutomationNodeConfigModel::ToggleDevice { toggle_device } => toggle_device.device_name == device,
        _ => false,
    }
}

/// Something could take the device back from a manual override: an enabled
/// schedule, condition or automation that bears on it.
pub open spec fn under_control(
    schedules: Seq<(Seq<char>, ScheduleConfigModel)>,
    conditions: Seq<(Seq<char>, ConditionConfigModel)>,
    automations: Seq<(Seq<char>, AutomationModel)>,
    device: Seq<char>,
) -> bool {
    ||| exists|i: int| 0 <= i < schedules.len() && (#[trigger] schedules[i]).1.enabled && schedules[i].1.device_name == device
    ||| exists|i: int| 0 <= i < conditions.len() && conditions::bears_on((#[trigger] conditions[i]).1, device)
    ||| exists|i: int, j: int|
        0 <= i < automations.len() && automations[i].1.enabled && 0 <= j < automations[i].1.nodes.len() && drives(
            #[trigger] automations[i].1.nodes[j],
            device,
        )
}

fn some_schedule(schedules: &Table<ScheduleConfig>, device: &str) -> (b: bool)
    ensures
        b == exists|i: int|
            0 <= i < schedules.deep_view().len() && (#[trigger] schedules.deep_view()[i]).1.enabled
                && schedules.deep_view()[i].1.device_name == device@,
{
    let ghost t = schedules.deep_view();
    let mut i: usize = 0;
    while i < schedules.entries.len()
        invariant
            i <= schedules.entries@.len(),
            t == schedules.deep_view(),
            forall|j: int| 0 <= j < i ==> !((#[trigger] t[j]).1.enabled && t[j].1.device_name == device@),
        decreases schedules.entries@.len() - i,
    {
        let s = &schedules.entries[i].1;
        proof {
            assert(t[i as int].1 == s.deep_view());
        }
        if s.enabled && same(s.device_name.as_str(), device) {
            return true;
        }
        i = i + 1;
    }
    false
}

fn some_condition(conditions: &Table<ConditionConfig>, device: &str) -> (b: bool)
    ensures
        b == exists|i: int|
            0 <= i < conditions.deep_view().len() && conditions::bears_on(
                (#[trigger] conditions.deep_view()[i]).1,
                device@,
            ),
{
    let ghost t = conditions.deep_view();
    let mut i: usize = 0;
    while i < conditions.entries.len()
        invariant
            i <= conditions.entries@.len(),
            t == conditions.deep_view(),
            forall|j: int| 0 <= j < i ==> !conditions::bears_on((#[trigger] t[j]).1, device@),
        decreases conditions.entries@.len() - i,
    {
        let c = &conditions.entries[i].1;
        proof {
            assert(t[i as int].1 == c.deep_view());
        }
        if c.enabled && same(c.device_name.as_str(), device) {
            return true;
        }
        i = i + 1;
    }
    false
}

fn node_drives(node: &AutomationNode, device: &str) -> (b: bool)
    ensures
        b == drives(node.deep_view(), device@),
{
    match &node.config {
        AutomationNodeConfig::SetDevice { set_device } => same(set_device.device_name.as_str(), device),
        AutomationNodeConfig::ToggleDevice { toggle_device } => same(toggle_device.device_name.as_str(), device),
        _ => false,
    }
}

fn some_node(nodes: &Vec<AutomationNode>, device: &str) -> (b: bool)
    ensures
        b == exists|j: int| 0 <= j < nodes.deep_view().len() && drives(#[trigger] nodes.deep_view()[j], device@),
{
    let ghost all = nodes.deep_view();
    let mut i: usize = 0;
    while i < nodes.len()
        invariant
            i <= nodes@.len(),
            all == nodes.deep_view(),
            forall|j: int| 0 <= j < i ==> !drives(#[trigger] all[j], device@),
        decreases nodes@.len() - i,
    {
        proof {
            assert(all[i as int] == nodes@[i as int].deep_view());
        }
        if node_drives(&nodes[i], device) {
            return true;
        }
        i = i + 1;
    }
    false
}

/// Whether something could take the device back from a manual override.
pub fn device_under_automatic_control(
    schedules: &Table<ScheduleConfig>,
    conditions: &Table<ConditionConfig>,
    automations: &Table<Automation>,
    device: &str,
) -> (b: bool)
    ensures
        b == under_control(
            schedules.deep_view(),
            conditions.deep_view(),
            automations.deep_view(),
            device@,
        ),
{
    if some_schedule(schedules, device) || some_condition(conditions, device) {
        return true;
    }
    let ghost t = automations.deep_view();
    let mut i: usize = 0;
    while i < automations.entries.len()
        invariant
            i <= automations.entries@.len(),
            t == automations.deep_view(),
            forall|k: int, j: int|
                0 <= k < i && t[k].1.enabled && 0 <= j < t[k].1.nodes.len() ==> !drives(
                    #[trigger] t[k].1.nodes[j],
                    device@,
                ),
        decreases automations.entries@.len() - i,
    {
        let a = &automations.entries[i].1;
        proof {
            assert(t[i as int].1 == a.deep_view());
        }
        if a.enabled && some_node(&a.nodes, device) {
            proof {
                let j = choose|j: int|
                    0 <= j < a.nodes.deep_view().len() && drives(#[trigger] a.nodes.deep_view()[j], device@);
                assert(drives(t[i as int].1.nodes[j], device@));
            }
            return true;
        }
        proof {
            assert forall|j: int| t[i as int].1.enabled && 0 <= j < t[i as int].1.nodes.len() implies !drives(
                #[trigger] t[i as int].1.nodes[j],
                device@,
            ) by {
                assert(t[i as int].1.nodes[j] == a.nodes.deep_view()[j]);
            }
        }
        i = i + 1;
    }
    false
}

/// How long a new override lasts: the requested time if something could take
/// the device back, and otherwise for good.
pub fn override_duration(
    schedules: &Table<ScheduleConfig>,
    conditions: &Table<ConditionConfig>,
    automations: &Table<Automation>,
    device: &str,
    requested: Option<u64>,
) -> (r: Option<u64>)
    ensures
        r == lasting(
            schedules.deep_view(),
            conditions.deep_view(),
            automations.deep_view(),
            device@,
            requested,
        ),
{
    if device_under_automatic_control(schedules, conditions, automations, device) {
        Some(
            match requested {
                Some(n) => n,
                None => DEFAULT_MANUAL_OVERRIDE_SECONDS,
            },
        )
    } else {
        None
    }
}

// ---------- What a person asks of a device ----------

/// How long an override lasts that a person asked for: for ever where nothing
/// else drives the device.
pub open spec fn lasting(
    schedules: Seq<(Seq<char>, ScheduleConfigModel)>,
    conditions: Seq<(Seq<char>, ConditionConfigModel)>,
    automations: Seq<(Seq<char>, AutomationModel)>,
    device: Seq<char>,
    requested: Option<u64>,
) -> Option<u64> {
    if under_control(schedules, conditions, automations, device) {
        Some(
            match requested {
                Some(n) => n,
                None => 3600u64,
            },
        )
    } else {
        None
    }
}

/// Records that a person switched a device.
pub fn set_device_power(
    intents: &mut Table<DeviceIntent>,
    schedules: &Table<ScheduleConfig>,
    conditions: &Table<ConditionConfig>,
    automations: &Table<Automation>,
    name: &str,
    on: bool,
    requested: Option<u64>,
    now: u128,
)
    requires
        now + 86_400_000 <= u128::MAX,
    ensures
        final(intents).deep_view() == table::put(
            old(intents).deep_view(),
            name@,
            overridden(
                intent_for(old(intents).deep_view(), name@),
                on,
                lasting(
                    schedules.deep_view(),
                    conditions.deep_view(),
                    automations.deep_view(),
                    name@,
                    requested,
                ),
                now,
            ),
        ),
        table::lookup(final(intents).deep_view(), name@) matches Some(i) && i.manual_override == Some(on),
        table::sorted(old(intents).deep_view()) ==> table::sorted(final(intents).deep_view()),
{
    let seconds = override_duration(schedules, conditions, automations, name, requested);
    set_manual_override(intents, name, on, seconds, now);
}

/// Takes a person's override back.
pub fn release_device_override(devices: &Table<ManagedDevice>, intents: &mut Table<DeviceIntent>, name: &str) -> (r:
    Result<(), String>)
    ensures
        match r {
            Ok(_) => table::has_key(devices.deep_view(), name@) && final(intents).deep_view() == (match table::lookup(
                old(intents).deep_view(),
                name@,
            ) {
                Some(i) => table::amended(old(intents).deep_view(), name@, released(i)),
                None => old(intents).deep_view(),
            }),
            Err(m) => !table::has_key(devices.deep_view(), name@) && m@ == "unknown device '"@ + name@ + "'"@
                && final(intents).deep_view() == old(intents).deep_view(),
        },
        table::sorted(old(intents).deep_view()) ==> table::sorted(final(intents).deep_view()),
{
    if !devices.contains_key(name) {
        return Err(around("unknown device '", name, "'"));
    }
    clear_manual_override(intents, name);
    Ok(())
}

/// Lets a person's override last longer.
pub fn extend_device_override(
    devices: &Table<ManagedDevice>,
    intents: &mut Table<DeviceIntent>,
    name: &str,
    requested: Option<u64>,
    now: u128,
) -> (r: Result<(), String>)
    requires
        now + 86_400_000 <= u128::MAX,
    ensures
        (r is Ok) == (table::has_key(devices.deep_view(), name@) && intent_for(
            old(intents).deep_view(),
            name@,
        ).manual_override is Some),
        match r {
            Ok(_) => final(intents).deep_view() == table::amended(
                old(intents).deep_view(),
                name@,
                (DeviceIntent {
                    manual_override_until_ms: Some(
                        extended_until(
                            intent_for(old(intents).deep_view(), name@).manual_override_until_ms,
                            (match requested {
                                Some(n) => n,
                                None => 3600u64,
                            }),
                            now,
                        ) as u128,
                    ),
                    ..intent_for(old(intents).deep_view(), name@)
                }),
            ),
            Err(m) => final(intents).deep_view() == old(intents).deep_view() && m@ == (if table::has_key(
                devices.deep_view(),
                name@,
            ) {
                "device '"@ + name@ + "' has no manual override to extend"@
            } else {
                "unknown device '"@ + name@ + "'"@
            }),
        },
        table::sorted(old(intents).deep_view()) ==> table::sorted(final(intents).deep_view()),
{
    if !devices.contains_key(name) {
        return Err(around("unknown device '", name, "'"));
    }
    let seconds: u64 = match requested {
        Some(n) => n,
        None => DEFAULT_MANUAL_OVERRIDE_SECONDS,
    };
    if !extend_manual_override(intents, name, seconds, now) {
        return Err(around("device '", name, "' has no manual override to extend"));
    }
    Ok(())
}

/// Releasing an override leaves what a schedule wants of the device as it was
/// before the override, and no override.
pub proof fn releasing_undoes_an_override(i: DeviceIntent, target: bool, seconds: Option<u64>, now: u128)
    ensures
        released(overridden(i, target, seconds, now)) == released(i),
        released(i).schedule_intent == i.schedule_intent,
        released(i).manual_override is None,
        released(i).manual_override_until_ms is None,
{
}

/// The devices with the first `n` of those that were found.
pub open spec fn with_found(
    t: Seq<(Seq<char>, ManagedDeviceModel)>,
    candidates: Seq<(Seq<char>, DeviceConfigModel)>,
    now: u128,
    n: int,
) -> Seq<(Seq<char>, ManagedDeviceModel)>
    decreases n,
{
    if n <= 0 || n > candidates.len() {
        t
    } else {
        table::put(
            with_found(t, candidates, now, n - 1),
            candidates[n - 1].0,
            found(candidates[n - 1].0, candidates[n - 1].1, now),
        )
    }
}

/// A search adds the devices that it found and takes none away.
pub proof fn searches_take_none_away(
    t: Seq<(Seq<char>, ManagedDeviceModel)>,
    candidates: Seq<(Seq<char>, DeviceConfigModel)>,
    now: u128,
    n: int,
    name: Seq<char>,
)
    requires
        0 <= n <= candidates.len(),
    ensures
        table::has_key(with_found(t, candidates, now, n), name) <==> table::has_key(t, name) || exists|i: int|
            0 <= i < n && (#[trigger] candidates[i]).0 == name,
    decreases n,
{
    if n > 0 {
        searches_take_none_away(t, candidates, now, n - 1, name);
        table::put_adds_key(
            with_found(t, candidates, now, n - 1),
            candidates[n - 1].0,
            found(candidates[n - 1].0, candidates[n - 1].1, now),
            name,
        );
    }
}

/// Takes in devices that a search found.
pub fn admit_devices(devices: &mut Table<ManagedDevice>, candidates: &Vec<(String, DeviceConfig)>, now: u128)
    ensures
        final(devices).deep_view() == with_found(
            old(devices).deep_view(),
            candidates.deep_view(),
            now,
            candidates.deep_view().len() as int,
        ),
        table::sorted(old(devices).deep_view()) ==> table::sorted(final(devices).deep_view()),
{
    let ghost t = devices.deep_view();
    let ghost all = candidates.deep_view();
    let mut i: usize = 0;
    while i < candidates.len()
        invariant
            i <= candidates@.len(),
            all == candidates.deep_view(),
            all.len() == candidates@.len(),
            devices.deep_view() == with_found(t, all, now, i as int),
            table::sorted(t) ==> table::sorted(devices.deep_view()),
        decreases candidates@.len() - i,
    {
        proof {
            assert(all[i as int] == candidates@[i as int].deep_view());
        }
        let name = candidates[i].0.clone();
        let config = candidates[i].1.dup();
        devices.insert(candidates[i].0.clone(), managed_device_from_config(name, config, now));
        i = i + 1;
    }
}

// ---------- Bringing a device to what is wanted ----------

/// The switch that brings a device to what is wanted; none if it is unknown, if
/// nothing is wanted, or if it is known to be there.
pub open spec fn switch_for(
    devices: Seq<(Seq<char>, ManagedDeviceModel)>,
    intents: Seq<(Seq<char>, DeviceIntent)>,
    conditions: Seq<(Seq<char>, ConditionConfigModel)>,
    name: Seq<char>,
) -> Option<SwitchModel> {
    let i = intent_for(intents, name);
    let wanted = effective(i.manual_override, i.schedule_intent, conditions::intent_of(conditions, name));
    let current = device_on(devices, name);
    if !table::has_key(devices, name) || wanted is None || current == wanted {
        None
    } else {
        Some(
            SwitchModel {
                target: wanted->0,
                previous: current,
                nickname: shown_name(devices, name),
                model: shown_model(devices, name),
                event: if wanted->0 {
                    HookEvent::On
                } else {
                    HookEvent::Off
                },
            },
        )
    }
}

/// The switch that brings a device to what is wanted.
pub fn reconcile_device(
    devices: &Table<ManagedDevice>,
    intents: &Table<DeviceIntent>,
    conditions: &Table<ConditionConfig>,
    name: &str,
) -> (r: Option<Switch>)
    ensures
        r.deep_view() == switch_for(devices.deep_view(), intents.deep_view(), conditions.deep_view(), name@),
{
    if !devices.contains_key(name) {
        return None;
    }
    let intent = device_intent(intents, name);
    let condition = condition_intent_for_device(conditions, name);
    let target = match compute_effective(intent.manual_override, intent.schedule_intent, condition) {
        Some(on) => on,
        None => {
            return None;
        },
    };
    let current = current_state(devices, name);
    if let Some(on) = current {
        if on == target {
            return None;
        }
    }
    Some(
        Switch {
            target,
            previous: current,
            nickname: nickname_of(devices, name),
            model: model_of(devices, name),
            event: if target {
                HookEvent::On
            } else {
                HookEvent::Off
            },
        },
    )
}

/// The device once it has been switched.
pub open spec fn switched(d: ManagedDeviceModel, target: bool, now: u128) -> ManagedDeviceModel {
    ManagedDeviceModel {
        snapshot: match d.snapshot {
            Some(s) => Some(DeviceSnapshotModel { device_on: target, ..s }),
            None => None,
        },
        updated_at_ms: Some(now),
        ..d
    }
}

/// Notes that a device has been switched, before it has been read again.
pub fn note_switched(devices: &mut Table<ManagedDevice>, name: &str, target: bool, now: u128)
    ensures
        final(devices).deep_view() == (match table::lookup(old(devices).deep_view(), name@) {
            Some(d) => table::amended(old(devices).deep_view(), name@, switched(d, target, now)),
            None => old(devices).deep_view(),
        }),
        device_on(old(devices).deep_view(), name@) is Some ==> device_on(final(devices).deep_view(), name@) == Some(target),
{
    let mut device = match devices.get(name) {
        Some(d) => d.dup(),
        None => {
            return ;
        },
    };
    device.snapshot = match device.snapshot {
        Some(s) => Some(
            DeviceSnapshot {
                device_model: s.device_model,
                device_type: s.device_type,
                nickname: s.nickname,
                device_on: target,
                on_time_seconds: s.on_time_seconds,
                energy: s.energy,
            },
        ),
        None => None,
    };
    device.updated_at_ms = Some(now);
    proof {
        table::amended_then_lookup(devices.deep_view(), name@, device.deep_view(), name@);
    }
    devices.amend(name, device);
}

/// A device that has been read is at peace with what was wanted: reading it as
/// it was switched sends no second event.
pub proof fn switching_is_told_once(
    devices: Seq<(Seq<char>, ManagedDeviceModel)>,
    name: Seq<char>,
    target: bool,
    now: u128,
)
    requires
        device_on(devices, name) is Some,
    ensures
        !events_of(
            table::amended(devices, name, switched(table::lookup(devices, name)->0, target, now)),
            name,
            target,
        ).contains(HookEvent::On),
        !events_of(
            table::amended(devices, name, switched(table::lookup(devices, name)->0, target, now)),
            name,
            target,
        ).contains(HookEvent::Off),
{
    table::amended_then_lookup(devices, name, switched(table::lookup(devices, name)->0, target, now), name);
}

// ---------- Reading a device ----------

/// What a successful reading is told as: that the device is back, if its outage
/// was announced, and that it was switched, if it was known to be otherwise.
pub open spec fn events_of(
    devices: Seq<(Seq<char>, ManagedDeviceModel)>,
    name: Seq<char>,
    on: bool,
) -> Seq<HookEvent> {
    let back = match table::lookup(devices, name) {
        Some(d) => if d.offline_announced {
            seq![HookEvent::Online]
        } else {
            Seq::empty()
        },
        None => Seq::empty(),
    };
    match device_on(devices, name) {
        Some(before) => if before == on {
            back
        } else if on {
            back.push(HookEvent::On)
        } else {
            back.push(HookEvent::Off)
        },
        None => back,
    }
}

/// The device after a successful reading.
pub open spec fn read(
    d: ManagedDeviceModel,
    snapshot: DeviceSnapshotModel,
    error: Option<Seq<char>>,
    now: u128,
) -> ManagedDeviceModel {
    ManagedDeviceModel {
        snapshot: Some(snapshot),
        last_error: error,
        updated_at_ms: Some(now),
        consecutive_failures: 0,
        offline_announced: false,
        ..d
    }
}

/// Stores what a device said of itself; gives what hooks are to be told.
pub fn update_device_snapshot(
    devices: &mut Table<ManagedDevice>,
    name: &str,
    snapshot: DeviceSnapshot,
    last_error: Option<String>,
    now: u128,
) -> (t: Transition)
    ensures
        final(devices).deep_view() == (match table::lookup(old(devices).deep_view(), name@) {
            Some(d) => table::amended(
                old(devices).deep_view(),
                name@,
                read(d, snapshot.deep_view(), last_error.deep_view(), now),
            ),
            None => old(devices).deep_view(),
        }),
        t.deep_view() == (TransitionModel {
            nickname: shown_name(old(devices).deep_view(), name@),
            model: snapshot.device_model@,
            previous_on: device_on(old(devices).deep_view(), name@),
            new_on: Some(snapshot.device_on),
            events: events_of(old(devices).deep_view(), name@, snapshot.device_on),
        }),
        t.previous_on == Some(false) && snapshot.device_on ==> t.deep_view().events.contains(HookEvent::On),
        t.previous_on == Some(true) && !snapshot.device_on ==> t.deep_view().events.contains(HookEvent::Off),
        t.previous_on == Some(snapshot.device_on) ==> !t.deep_view().events.contains(HookEvent::On)
            && !t.deep_view().events.contains(HookEvent::Off),
{
    let ghost before = devices.deep_view();
    let previous_on = current_state(devices, name);
    let new_on = snapshot.device_on;
    let nickname = nickname_of(devices, name);
    let model = snapshot.device_model.clone();
    let was_offline = match devices.get(name) {
        Some(d) => d.offline_announced,
        None => false,
    };
    if let Some(d) = devices.get(name) {
        let mut device = d.dup();
        device.snapshot = Some(snapshot);
        device.last_error = last_error;
        device.updated_at_ms = Some(now);
        device.consecutive_failures = 0;
        device.offline_announced = false;
        devices.amend(name, device);
    }
    let mut events: Vec<HookEvent> = Vec::new();
    if was_offline {
        events.push(HookEvent::Online);
    }
    if let Some(on) = previous_on {
        if on != new_on {
            if new_on {
                events.push(HookEvent::On);
            } else {
                events.push(HookEvent::Off);
            }
        }
    }
    proof {
        assert(events.deep_view() =~= events_of(before, name@, new_on));
        readings_tell_which_way(before, name@, new_on);
    }
    Transition { nickname, model, previous_on, new_on: Some(new_on), events }
}

/// One failure more.
pub open spec fn one_more(failures: u32) -> u32 {
    if failures == u32::MAX {
        failures
    } else {
        (failures + 1) as u32
    }
}

/// A failed reading is told: it is the one that makes the outage, of a device
/// that was read before, and it has not been told yet.
pub open spec fn announces(d: ManagedDeviceModel) -> bool {
    !d.offline_announced && one_more(d.consecutive_failures) >= 3 && d.snapshot is Some
}

/// The device after a failed reading.
pub open spec fn unread(d: ManagedDeviceModel, error: Seq<char>, now: u128) -> ManagedDeviceModel {
    ManagedDeviceModel {
        last_error: Some(error),
        updated_at_ms: Some(now),
        consecutive_failures: one_more(d.consecutive_failures),
        offline_announced: d.offline_announced || announces(d),
        ..d
    }
}

/// Notes that a device could not be read; gives what hooks are to be told.
pub fn update_device_error(devices: &mut Table<ManagedDevice>, name: &str, error: String, now: u128) -> (t: Transition)
    ensures
        final(devices).deep_view() == (match table::lookup(old(devices).deep_view(), name@) {
            Some(d) => table::amended(old(devices).deep_view(), name@, unread(d, error@, now)),
            None => old(devices).deep_view(),
        }),
        t.deep_view() == (TransitionModel {
            nickname: shown_name(old(devices).deep_view(), name@),
            model: shown_model(old(devices).deep_view(), name@),
            previous_on: device_on(old(devices).deep_view(), name@),
            new_on: device_on(old(devices).deep_view(), name@),
            events: match table::lookup(old(devices).deep_view(), name@) {
                Some(d) => if announces(d) {
                    seq![HookEvent::Offline]
                } else {
                    Seq::empty()
                },
                None => Seq::empty(),
            },
        }),
        t.deep_view().events.len() <= 1,
        t.deep_view().events.len() == 1 <==> (table::lookup(old(devices).deep_view(), name@) matches Some(d) && d.snapshot
            is Some && !d.offline_announced && d.consecutive_failures >= 2),
        t.deep_view().events.len() == 1 ==> t.deep_view().events[0] is Offline,
{
    let ghost before = devices.deep_view();
    let on = current_state(devices, name);
    let nickname = nickname_of(devices, name);
    let model = model_of(devices, name);
    let mut events: Vec<HookEvent> = Vec::new();
    proof {
        assert(events.deep_view() =~= Seq::<HookEvent>::empty());
    }
    if let Some(d) = devices.get(name) {
        let mut device = d.dup();
        device.consecutive_failures = device.consecutive_failures.saturating_add(1);
        if !device.offline_announced && device.consecutive_failures >= DEVICE_OFFLINE_FAILURE_THRESHOLD
            && on.is_some() {
            device.offline_announced = true;
            events.push(HookEvent::Offline);
            proof {
                assert(events.deep_view() =~= seq![HookEvent::Offline]);
            }
        }
        device.last_error = Some(error);
        device.updated_at_ms = Some(now);
        devices.amend(name, device);
    }
    Transition { nickname, model, previous_on: on, new_on: on, events }
}

/// The device after `n` failed readings in a row.
pub open spec fn after_failures(d: ManagedDeviceModel, error: Seq<char>, now: u128, n: nat) -> ManagedDeviceModel
    decreases n,
{
    if n == 0 {
        d
    } else {
        unread(after_failures(d, error, now, (n - 1) as nat), error, now)
    }
}

/// However many readings fail in a row, an outage of a device that was read
/// before is announced at the third failure and at no other.
pub proof fn outage_is_told_once(d: ManagedDeviceModel, error: Seq<char>, now: u128, n: nat)
    requires
        d.snapshot is Some,
        !d.offline_announced,
        d.consecutive_failures == 0,
    ensures
        announces(after_failures(d, error, now, n)) <==> n == 2,
        after_failures(d, error, now, n).offline_announced <==> n >= 3,
        after_failures(d, error, now, n).snapshot == d.snapshot,
        n <= u32::MAX ==> after_failures(d, error, now, n).consecutive_failures == n,
        n > u32::MAX ==> after_failures(d, error, now, n).consecutive_failures == u32::MAX,
    decreases n,
{
    if n > 0 {
        outage_is_told_once(d, error, now, (n - 1) as nat);
    }
}

/// A device is told as back exactly if its outage was told, the first reading
/// of a device is told as nothing, and a reading that finds a device as it was
/// switches nothing.
pub proof fn readings_tell_changes_only(
    devices: Seq<(Seq<char>, ManagedDeviceModel)>,
    name: Seq<char>,
    on: bool,
)
    requires
        table::has_key(devices, name),
    ensures
        events_of(devices, name, on).contains(HookEvent::Online) <==> table::lookup(
            devices,
            name,
        )->0.offline_announced,
        (events_of(devices, name, on).contains(HookEvent::On) || events_of(devices, name, on).contains(
            HookEvent::Off,
        )) <==> (device_on(devices, name) is Some && device_on(devices, name) != Some(on)),
        !events_of(devices, name, on).contains(HookEvent::Offline),
        device_on(devices, name) is None && !table::lookup(devices, name)->0.offline_announced ==> events_of(
            devices,
            name,
            on,
        ).len() == 0,
{
    let d = table::lookup(devices, name)->0;
    let e = events_of(devices, name, on);
    if d.offline_announced {
        assert(e[0] == HookEvent::Online);
        if device_on(devices, name) is Some && device_on(devices, name) != Some(on) {
            assert(e[1] == (if on { HookEvent::On } else { HookEvent::Off }));
        }
    } else if device_on(devices, name) is Some && device_on(devices, name) != Some(on) {
        assert(e[0] == (if on { HookEvent::On } else { HookEvent::Off }));
    }
}

/// What a hook is told of a transition.
pub open spec fn told(
    device: Seq<char>,
    t: TransitionModel,
    event: HookEvent,
    source: HookSource,
    now: u128,
) -> HookTemplateContextModel {
    HookTemplateContextModel {
        device,
        nickname: t.nickname,
        model: t.model,
        event,
        source,
        previous_on: t.previous_on,
        new_on: t.new_on,
        timestamp_ms: now,
    }
}

/// What a hook is told of a transition.
pub fn transition_context(
    device: &str,
    transition: &Transition,
    event: HookEvent,
    source: HookSource,
    now: u128,
) -> (c: HookTemplateContext)
    ensures
        c.deep_view() == told(device@, transition.deep_view(), event, source, now),
{
    HookTemplateContext {
        device: device.to_owned(),
        nickname: transition.nickname.clone(),
        model: transition.model.clone(),
        event,
        source,
        previous_on: transition.previous_on,
        new_on: transition.new_on,
        timestamp_ms: now,
    }
}

// ---------- Trying again ----------

/// Some cause is a failed handshake.
pub open spec fn names_handshake(causes: Seq<Seq<char>>) -> bool {
    exists|i: int| 0 <= i < causes.len() && text::holds(#[trigger] causes[i], "Handshake2 failed"@)
}

/// Whether some cause is a failed handshake.
pub fn mentions_handshake(causes: &Vec<String>) -> (b: bool)
    ensures
        b == names_handshake(causes.deep_view()),
{
    let ghost all = causes.deep_view();
    let mut i: usize = 0;
    while i < causes.len()
        invariant
            i <= causes@.len(),
            all == causes.deep_view(),
            forall|j: int| 0 <= j < i ==> !text::holds(#[trigger] all[j], "Handshake2 failed"@),
        decreases causes@.len() - i,
    {
        proof {
            assert(all[i as int] == causes@[i as int]@);
        }
        if contains(causes[i].as_str(), "Handshake2 failed") {
            return true;
        }
        i = i + 1;
    }
    false
}

/// An error of the `anyhow` crate.
#[verifier::external_type_specification]
#[verifier::external_body]
pub struct ExAnyhowError(anyhow::Error);

/// `anyhow::Error::chain`: the messages that an error is made of, its own first
/// and then those of its causes, so at least one. What a message says is up to
/// the type of the error that it comes from, and nothing is said of it.
#[verifier::external_body]
fn error_causes(error: &anyhow::Error) -> (r: Vec<String>)
    ensures
        r@.len() > 0,
{
    error.chain().map(|cause| cause.to_string()).collect()
}

/// The messages that an error is made of can read so.
pub closed spec fn can_read(error: anyhow::Error, causes: Seq<Seq<char>>) -> bool {
    exists|messages: Vec<String>| #[trigger]
        call_ensures(error_causes, (&error,), messages) && messages.deep_view() == causes
}

/// Whether an error comes of a failed handshake: one of the messages that it is
/// made of names it. What they say is up to the types that they come from.
pub fn is_tapo_handshake_error(error: &anyhow::Error) -> (b: bool)
    ensures
        exists|causes: Seq<Seq<char>>| #[trigger]
            can_read(*error, causes) && causes.len() > 0 && b == names_handshake(causes),
{
    let causes = error_causes(error);
    let b = mentions_handshake(&causes);
    proof {
        assert(can_read(*error, causes.deep_view()));
        assert(causes.deep_view().len() > 0);
    }
    b
}

/// Whether an operation that failed at the given attempt, counted from one, is
/// tried again: only after a failed handshake, and three times in all.
pub fn tries_again(attempt: usize, handshake_failed: bool) -> (b: bool)
    ensures
        b == (attempt < 3 && handshake_failed),
{
    attempt < TAPO_HANDSHAKE_RETRY_ATTEMPTS && handshake_failed
}

// ---------- Devices as callers see them ----------

/// What the energy costs: its kilowatt hours times the price.
pub open spec fn cost(energy_wh: u64, price: u64, o: Oracle) -> u64 {
    let wh = coerce::or_nan(host::bits_in(o(AskModel::Unsigned(energy_wh as u128))));
    let kwh = coerce::or_nan(host::bits_in(o(AskModel::Binary(BinaryMath::Div, wh, THOUSAND))));
    coerce::or_nan(host::bits_in(o(AskModel::Binary(BinaryMath::Mul, kwh, price))))
}

fn bits_or_nan(b: Option<u64>) -> (r: u64)
    ensures
        r == coerce::or_nan(b),
{
    match b {
        Some(x) => x,
        None => NOT_A_NUMBER,
    }
}

/// What the energy costs, in pence; prices and costs are bit patterns of
/// doubles.
pub fn estimate_energy_cost_pence<H: Fn(Ask) -> Answer>(energy_wh: u64, price_pence_per_kwh: u64, host: &H) -> (r: u64)
    requires
        host::faithful(*host),
    ensures
        r == cost(energy_wh, price_pence_per_kwh, host::oracle(*host)),
{
    let wh: u64 = bits_or_nan(ask_bits(host, Ask::Unsigned(energy_wh as u128)));
    let kwh: u64 = bits_or_nan(ask_bits(host, Ask::Binary(BinaryMath::Div, wh, THOUSAND)));
    bits_or_nan(ask_bits(host, Ask::Binary(BinaryMath::Mul, kwh, price_pence_per_kwh)))
}

/// What a device has used, and what that costs.
pub open spec fn energy_view(e: EnergySnapshot, price: u64, o: Oracle) -> EnergyView {
    EnergyView {
        current_power_mw: e.current_power_mw,
        current_power_w: e.current_power_w,
        today_energy_wh: e.today_energy_wh,
        month_energy_wh: e.month_energy_wh,
        today_cost_pence: cost(e.today_energy_wh, price, o),
        month_cost_pence: cost(e.month_energy_wh, price, o),
        today_runtime_minutes: e.today_runtime_minutes,
        month_runtime_minutes: e.month_runtime_minutes,
    }
}

/// A device as callers see it.
pub open spec fn view_of(
    d: ManagedDeviceModel,
    price: u64,
    intent: DeviceIntent,
    condition: Option<bool>,
    o: Oracle,
) -> DeviceViewModel {
    DeviceViewModel {
        name: d.name,
        ip: d.config.ip,
        configured_model: d.config.model,
        model: match d.snapshot {
            Some(s) => s.device_model,
            None => d.config.model_name,
        },
        nickname: match d.snapshot {
            Some(s) => s.nickname,
            None => d.name,
        },
        device_type: match d.snapshot {
            Some(s) => s.device_type,
            None => "Tapo device"@,
        },
        device_on: known_on(d),
        on_time_seconds: match d.snapshot {
            Some(s) => Some(s.on_time_seconds),
            None => None,
        },
        energy: match d.snapshot {
            Some(s) => match s.energy {
                Some(e) => Some(energy_view(e, price, o)),
                None => None,
            },
            None => None,
        },
        last_error: d.last_error,
        discovered_at_ms: d.discovered_at_ms,
        updated_at_ms: d.updated_at_ms,
        manual_override: intent.manual_override,
        manual_override_until_ms: intent.manual_override_until_ms,
        schedule_intent: intent.schedule_intent,
        condition_intent: condition,
        effective_intent: effective(intent.manual_override, intent.schedule_intent, condition),
    }
}

impl ManagedDevice {
    /// The device as callers see it.
    pub fn view<H: Fn(Ask) -> Answer>(
        &self,
        energy_price_pence_per_kwh: u64,
        intent: DeviceIntent,
        condition_intent: Option<bool>,
        host: &H,
    ) -> (v: DeviceView)
        requires
            host::faithful(*host),
        ensures
            v.deep_view() == view_of(
                self.deep_view(),
                energy_price_pence_per_kwh,
                intent,
                condition_intent,
                host::oracle(*host),
            ),
    {
        let (model, nickname, device_type, device_on, on_time_seconds, energy) = match &self.snapshot {
            Some(s) => (
                s.device_model.clone(),
                s.nickname.clone(),
                s.device_type.clone(),
                Some(s.device_on),
                Some(s.on_time_seconds),
                match s.energy {
                    Some(e) => Some(
                        EnergyView {
                            current_power_mw: e.current_power_mw,
                            current_power_w: e.current_power_w,
                            today_energy_wh: e.today_energy_wh,
                            month_energy_wh: e.month_energy_wh,
                            today_cost_pence: estimate_energy_cost_pence(
                                e.today_energy_wh,
                                energy_price_pence_per_kwh,
                                host,
                            ),
                            month_cost_pence: estimate_energy_cost_pence(
                                e.month_energy_wh,
                                energy_price_pence_per_kwh,
                                host,
                            ),
                            today_runtime_minutes: e.today_runtime_minutes,
                            month_runtime_minutes: e.month_runtime_minutes,
                        },
                    ),
                    None => None,
                },
            ),
            None => (
                self.config.model_name.clone(),
                self.name.clone(),
                "Tapo device".to_owned(),
                None,
                None,
                None,
            ),
        };
        DeviceView {
            name: self.name.clone(),
            ip: self.config.ip.clone(),
            configured_model: self.config.model,
            model,
            nickname,
            device_type,
            device_on,
            on_time_seconds,
            energy,
            last_error: self.last_error.dup(),
            discovered_at_ms: self.discovered_at_ms,
            updated_at_ms: self.updated_at_ms,
            manual_override: intent.manual_override,
            manual_override_until_ms: intent.manual_override_until_ms,
            schedule_intent: intent.schedule_intent,
            condition_intent,
            effective_intent: compute_effective(intent.manual_override, intent.schedule_intent, condition_intent),
        }
    }
}

/// A device as callers see it, with what is wanted of it.
pub fn get_device_view<H: Fn(Ask) -> Answer>(
    devices: &Table<ManagedDevice>,
    intents: &Table<DeviceIntent>,
    conditions: &Table<ConditionConfig>,
    price: u64,
    name: &str,
    host: &H,
) -> (r: Result<DeviceView, String>)
    requires
        host::faithful(*host),
    ensures
        match r {
            Ok(v) => table::lookup(devices.deep_view(), name@) matches Some(d) && v.deep_view() == view_of(
                d,
                price,
                intent_for(intents.deep_view(), name@),
                conditions::intent_of(conditions.deep_view(), name@),
                host::oracle(*host),
            ),
            Err(m) => !table::has_key(devices.deep_view(), name@) && m@ == "device '"@ + name@ + "' was not found"@,
        },
{
    match devices.get(name) {
        Some(d) => Ok(
            d.view(
                price,
                device_intent(intents, name),
                condition_intent_for_device(conditions, name),
                host,
            ),
        ),
        None => Err(around("device '", name, "' was not found")),
    }
}

/// Every device as callers see it.
pub open spec fn views_of(
    devices: Seq<(Seq<char>, ManagedDeviceModel)>,
    intents: Seq<(Seq<char>, DeviceIntent)>,
    conditions: Seq<(Seq<char>, ConditionConfigModel)>,
    price: u64,
    o: Oracle,
) -> Seq<DeviceViewModel> {
    devices.map_values(
        |e: (Seq<char>, ManagedDeviceModel)|
            view_of(e.1, price, intent_for(intents, e.0), conditions::intent_of(conditions, e.0), o),
    )
}

/// Every device as callers see it.
pub fn device_views<H: Fn(Ask) -> Answer>(
    devices: &Table<ManagedDevice>,
    intents: &Table<DeviceIntent>,
    conditions: &Table<ConditionConfig>,
    price: u64,
    host: &H,
) -> (r: Vec<DeviceView>)
    requires
        host::faithful(*host),
    ensures
        r.deep_view() == views_of(
            devices.deep_view(),
            intents.deep_view(),
            conditions.deep_view(),
            price,
            host::oracle(*host),
        ),
{
    let ghost t = devices.deep_view();
    let ghost all = views_of(t, intents.deep_view(), conditions.deep_view(), price, host::oracle(*host));
    let mut views: Vec<DeviceView> = Vec::new();
    let mut i: usize = 0;
    while i < devices.entries.len()
        invariant
            host::faithful(*host),
            i <= devices.entries@.len(),
            t == devices.deep_view(),
            all == views_of(t, intents.deep_view(), conditions.deep_view(), price, host::oracle(*host)),
            views@.len() == i,
            forall|j: int| 0 <= j < i ==> (#[trigger] views@[j]).deep_view() == all[j],
        decreases devices.entries@.len() - i,
    {
        let entry = &devices.entries[i];
        proof {
            assert(t[i as int] == (entry.0@, entry.1.deep_view()));
        }
        let view = entry.1.view(
            price,
            device_intent(intents, entry.0.as_str()),
            condition_intent_for_device(conditions, entry.0.as_str()),
            host,
        );
        views.push(view);
        i = i + 1;
    }
    proof {
        assert(views.deep_view() =~= all);
    }
    views
}

/// What a device was last seen to be is what its reading says; without a
/// reading, or without the device, nothing is known.
pub proof fn devices_are_as_they_were_seen(t: Seq<(Seq<char>, ManagedDeviceModel)>, name: Seq<char>)
    ensures
        table::lookup(t, name) is None ==> device_on(t, name) is None && shown_name(t, name) == name && shown_model(
            t,
            name,
        ).len() == 0,
        table::lookup(t, name) matches Some(d) ==> {
            &&& d.snapshot is None ==> device_on(t, name) is None && shown_name(t, name) == name && shown_model(t, name)
                == d.config.model_name
            &&& d.snapshot matches Some(s) ==> device_on(t, name) == Some(s.device_on) && shown_name(t, name)
                == s.nickname && shown_model(t, name) == s.device_model
        },
        table::lookup(readings_of(t), name) == match table::lookup(t, name) {
            Some(d) => Some((device_on(t, name), d.offline_announced)),
            None => None,
        },
{
    reveal_strlit("");
    readings_are_looked_up(t, name, 0);
    table::place_from_facts(t, name, 0);
}

proof fn readings_are_looked_up(t: Seq<(Seq<char>, ManagedDeviceModel)>, name: Seq<char>, from: int)
    requires
        0 <= from,
    ensures
        table::place_from(readings_of(t), name, from) == table::place_from(t, name, from),
    decreases t.len() - from,
{
    if from < t.len() {
        readings_are_looked_up(t, name, from + 1);
    }
}

/// Expressions find a device that was read under its name, and under its
/// nickname where it has one, as it was seen.
pub proof fn states_go_by_both_names(t: Seq<(Seq<char>, ManagedDeviceModel)>, n: int)
    requires
        0 < n <= t.len(),
    ensures
        t[n - 1].1.snapshot matches Some(s) ==> {
            &&& s.nickname.len() > 0 ==> table::lookup(states_of(t, n), s.nickname) == Some(s.device_on)
            &&& table::lookup(states_of(t, n), t[n - 1].0) == Some(s.device_on)
        },
        t[n - 1].1.snapshot is None ==> states_of(t, n) == states_of(t, n - 1),
{
    if let Some(s) = t[n - 1].1.snapshot {
        let before = states_of(t, n - 1);
        let named = table::put(before, t[n - 1].0, s.device_on);
        table::put_then_lookup(before, t[n - 1].0, s.device_on, s.nickname);
        table::put_then_lookup(named, s.nickname, s.device_on, t[n - 1].0);
    }
}

/// Without an override or a schedule the conditions decide alone.
pub proof fn conditions_decide_alone(condition: Option<bool>)
    ensures
        effective(None, None, condition) == condition,
        effective(None, Some(true), Some(false)) == Some(false),
        effective(None, Some(false), Some(true)) == Some(false),
        effective(None, Some(true), Some(true)) == Some(true),
        effective(Some(true), Some(false), Some(false)) == Some(true),
{
}

/// An override holds the device at its target, until its seconds have passed
/// where any are given, at least half a minute and at most a day; the schedule's
/// intent stays. It has expired once that moment has come.
pub proof fn overrides_last_their_time(
    i: DeviceIntent,
    name: Seq<char>,
    target: bool,
    seconds: u64,
    now: u128,
    later: u128,
)
    requires
        now + 86_400_000 <= u128::MAX,
    ensures
        ({
            let held = overridden(i, target, Some(seconds), now);
            let open = overridden(i, target, None, now);
            &&& held.manual_override == Some(target) && open.manual_override == Some(target)
            &&& held.schedule_intent == i.schedule_intent && open.schedule_intent == i.schedule_intent
            &&& open.manual_override_until_ms is None && !is_expired(later)((name, open))
            &&& 30 <= seconds <= 86_400 ==> held.manual_override_until_ms == Some((now + 1000 * seconds) as u128) && (
            is_expired(later)((name, held)) <==> later >= now + 1000 * seconds)
            &&& seconds < 30 ==> held.manual_override_until_ms == Some((now + 30_000) as u128)
            &&& seconds > 86_400 ==> held.manual_override_until_ms == Some((now + 86_400_000) as u128)
            &&& !is_expired(later)((name, released(held)))
        }),
{
}

/// Extending an override adds its seconds to what is left, and to now where
/// nothing is left, up to a day from now.
pub proof fn extending_adds_to_what_is_left(until: Option<u128>, seconds: u64, now: u128)
    requires
        30 <= seconds <= 86_400,
    ensures
        until is None ==> extended_until(until, seconds, now) == now + 1000 * seconds,
        until matches Some(end) ==> end <= now ==> extended_until(until, seconds, now) == now + 1000 * seconds,
        until matches Some(end) ==> end > now && end + 1000 * seconds <= now + 86_400_000 ==> extended_until(
            until,
            seconds,
            now,
        ) == end + 1000 * seconds,
        until matches Some(end) ==> end + 1000 * seconds > now + 86_400_000 ==> extended_until(until, seconds, now) == now
            + 86_400_000 || end <= now,
{
}

/// A device is under control where an enabled schedule, condition or automation
/// acts on it. An override of such a device lasts as long as asked, or an hour;
/// of any other it has no end.
pub proof fn control_limits_overrides(
    schedules: Seq<(Seq<char>, ScheduleConfigModel)>,
    conditions: Seq<(Seq<char>, ConditionConfigModel)>,
    automations: Seq<(Seq<char>, AutomationModel)>,
    device: Seq<char>,
    requested: Option<u64>,
    i: int,
    j: int,
)
    ensures
        0 <= i < schedules.len() && schedules[i].1.enabled && schedules[i].1.device_name == device ==> under_control(
            schedules,
            conditions,
            automations,
            device,
        ),
        0 <= i < conditions.len() && conditions[i].1.enabled && conditions[i].1.device_name == device ==> under_control(
            schedules,
            conditions,
            automations,
            device,
        ),
        0 <= i < automations.len() && automations[i].1.enabled && 0 <= j < automations[i].1.nodes.len() && (
        automations[i].1.nodes[j].config matches AutomationNodeConfigModel::SetDevice { set_device }
            && set_device.device_name == device) ==> under_control(schedules, conditions, automations, device),
        0 <= i < automations.len() && automations[i].1.enabled && 0 <= j < automations[i].1.nodes.len() && (
        automations[i].1.nodes[j].config matches AutomationNodeConfigModel::ToggleDevice { toggle_device }
            && toggle_device.device_name == device) ==> under_control(schedules, conditions, automations, device),
        (forall|k: int| 0 <= k < schedules.len() ==> !(#[trigger] schedules[k]).1.enabled) && (forall|k: int|
            0 <= k < conditions.len() ==> !(#[trigger] conditions[k]).1.enabled) && (forall|k: int|
            0 <= k < automations.len() ==> !(#[trigger] automations[k]).1.enabled) ==> !under_control(
            schedules,
            conditions,
            automations,
            device,
        ),
        !under_control(schedules, conditions, automations, device) ==> lasting(
            schedules,
            conditions,
            automations,
            device,
            requested,
        ) is None,
        under_control(schedules, conditions, automations, device) ==> lasting(
            schedules,
            conditions,
            automations,
            device,
            requested,
        ) == Some(
            if requested is Some {
                requested->0
            } else {
                3600u64
            },
        ),
{
    if 0 <= i < schedules.len() {
        assert(schedules[i] == schedules[i]);
    }
    if 0 <= i < conditions.len() {
        assert(conditions::bears_on(conditions[i].1, device) <==> conditions[i].1.enabled && conditions[i].1.device_name
            == device);
    }
    if 0 <= i < automations.len() && 0 <= j < automations[i].1.nodes.len() {
        assert(drives(automations[i].1.nodes[j], device) ==> drives(automations[i].1.nodes[j], device));
    }
}

/// A device is switched where it is known, something is wanted of it and it was
/// not seen to be so; it is switched to what is wanted, and hooks are told on
/// for on and off for off.
pub proof fn devices_are_switched_to_what_is_wanted(
    devices: Seq<(Seq<char>, ManagedDeviceModel)>,
    intents: Seq<(Seq<char>, DeviceIntent)>,
    conditions: Seq<(Seq<char>, ConditionConfigModel)>,
    name: Seq<char>,
    i: DeviceIntent,
)
    requires
        table::lookup(intents, name) == Some(i),
    ensures
        ({
            let wanted = effective(i.manual_override, i.schedule_intent, conditions::intent_of(conditions, name));
            let r = switch_for(devices, intents, conditions, name);
            &&& r is Some <==> table::has_key(devices, name) && wanted is Some && device_on(devices, name) != wanted
            &&& r matches Some(s) ==> wanted == Some(s.target) && s.previous == device_on(devices, name) && (s.target
                <==> s.event is On) && (!s.target <==> s.event is Off) && s.nickname == shown_name(devices, name)
                && s.model == shown_model(devices, name)
        }),
{
}

/// After a switch a device that was read is at the target, and the moment is
/// noted; nothing else of it changes.
pub proof fn switching_reaches_the_target(d: ManagedDeviceModel, target: bool, now: u128)
    ensures
        ({
            let e = switched(d, target, now);
            &&& d.snapshot matches Some(s) ==> e.snapshot == Some((DeviceSnapshotModel { device_on: target, ..s }))
            &&& d.snapshot is None ==> e.snapshot is None
            &&& e.updated_at_ms == Some(now)
            &&& e.name == d.name && e.config == d.config && e.last_error == d.last_error && e.offline_announced
                == d.offline_announced && e.consecutive_failures == d.consecutive_failures
        }),
{
}

/// A reading tells on where the device was off and is on, off where it was on
/// and is off, and online where it was told to be offline, which comes first.
pub proof fn readings_tell_which_way(devices: Seq<(Seq<char>, ManagedDeviceModel)>, name: Seq<char>, on: bool)
    ensures
        ({
            let events = events_of(devices, name, on);
            let was = device_on(devices, name);
            let away = table::lookup(devices, name) matches Some(d) && d.offline_announced;
            &&& events.contains(HookEvent::On) <==> on && was == Some(false)
            &&& events.contains(HookEvent::Off) <==> !on && was == Some(true)
            &&& events.contains(HookEvent::Online) <==> away
            &&& away ==> events[0] is Online
            &&& events.len() <= 2
        }),
{
    let events = events_of(devices, name, on);
    let none = Seq::<HookEvent>::empty();
    assert(!none.contains(HookEvent::On) && !none.contains(HookEvent::Off) && !none.contains(HookEvent::Online));
    if events.len() > 0 {
        assert(events.contains(events[0]));
    }
    if events.len() > 1 {
        assert(events.contains(events[1]));
    }
    let was = device_on(devices, name);
    if on && was == Some(false) {
        assert(events.last() is On);
        assert(events.contains(events.last()));
    }
    if !on && was == Some(true) {
        assert(events.last() is Off);
        assert(events.contains(events.last()));
    }
}

/// A reading is kept with its moment and ends any row of failures and any
/// outage; a failure is kept with its message and counts on.
pub proof fn readings_end_outages(
    d: ManagedDeviceModel,
    s: DeviceSnapshotModel,
    error: Seq<char>,
    partly: Option<Seq<char>>,
    now: u128,
)
    ensures
        ({
            let e = read(d, s, partly, now);
            &&& e.snapshot == Some(s) && e.last_error == partly && e.updated_at_ms == Some(now)
            &&& e.consecutive_failures == 0 && !e.offline_announced
            &&& e.name == d.name && e.config == d.config && e.discovered_at_ms == d.discovered_at_ms
        }),
        ({
            let e = unread(d, error, now);
            &&& e.snapshot == d.snapshot && e.last_error == Some(error) && e.updated_at_ms == Some(now)
            &&& d.consecutive_failures < u32::MAX ==> e.consecutive_failures == d.consecutive_failures + 1
            &&& d.offline_announced ==> e.offline_announced
            &&& !d.offline_announced && d.snapshot is Some ==> (e.offline_announced <==> d.consecutive_failures >= 2)
            &&& d.snapshot is None ==> e.offline_announced == d.offline_announced
        }),
{
}

/// A device that is found has its name and its configuration, was never read
/// and never failed.
pub proof fn found_devices_are_new(name: Seq<char>, config: DeviceConfigModel, now: u128)
    ensures
        ({
            let d = found(name, config, now);
            &&& d.name == name && d.config == config && d.discovered_at_ms == now
            &&& d.snapshot is None && d.last_error is None && d.updated_at_ms is None
            &&& d.consecutive_failures == 0 && !d.offline_announced
        }),
{
}

/// The cost of energy is its kilowatt hours times the price: the watt hours
/// divided by a thousand, and that multiplied by the pence of one.
pub proof fn energy_costs_its_price(
    energy_wh: u64,
    price: u64,
    o: Oracle,
    wh: u64,
    thousand: u64,
    kwh: u64,
    pence: u64,
)
    requires
        o(AskModel::Unsigned(energy_wh as u128)) == AnswerModel::Bits(Some(wh)),
        o(AskModel::Binary(BinaryMath::Div, wh, 0x408F_4000_0000_0000)) == AnswerModel::Bits(Some(kwh)),
        o(AskModel::Binary(BinaryMath::Mul, kwh, price)) == AnswerModel::Bits(Some(pence)),
    ensures
        cost(energy_wh, price, o) == pence,
{
}

/// What is shown of a device is what is stored and known of it: its reading
/// where it has one, what is intended of it, and what that comes to.
pub proof fn devices_are_shown_as_known(
    d: ManagedDeviceModel,
    price: u64,
    intent: DeviceIntent,
    condition: Option<bool>,
    o: Oracle,
)
    ensures
        ({
            let v = view_of(d, price, intent, condition, o);
            &&& v.name == d.name && v.ip == d.config.ip && v.configured_model == d.config.model
            &&& v.last_error == d.last_error && v.discovered_at_ms == d.discovered_at_ms && v.updated_at_ms
                == d.updated_at_ms
            &&& d.snapshot matches Some(s) ==> v.device_on == Some(s.device_on) && v.nickname == s.nickname && v.model
                == s.device_model && v.device_type == s.device_type && v.on_time_seconds == Some(s.on_time_seconds)
            &&& d.snapshot matches Some(s) ==> (s.energy matches Some(e) ==> (v.energy matches Some(shown)
                && shown.current_power_mw == e.current_power_mw && shown.current_power_w == e.current_power_w
                && shown.today_energy_wh == e.today_energy_wh && shown.month_energy_wh == e.month_energy_wh
                && shown.today_runtime_minutes == e.today_runtime_minutes && shown.month_runtime_minutes
                == e.month_runtime_minutes && shown.today_cost_pence == cost(e.today_energy_wh, price, o)
                && shown.month_cost_pence == cost(e.month_energy_wh, price, o)))
            &&& d.snapshot is None ==> v.device_on is None && v.nickname == d.name && v.model == d.config.model_name
                && v.energy is None && v.on_time_seconds is None
            &&& v.manual_override == intent.manual_override && v.manual_override_until_ms
                == intent.manual_override_until_ms && v.schedule_intent == intent.schedule_intent && v.condition_intent
                == condition
            &&& v.effective_intent == effective(intent.manual_override, intent.schedule_intent, condition)
        }),
{
}

/// A hook is told of the device, of the event and its source, of the state
/// before and after, and of the moment.
pub proof fn hooks_are_told_the_change(
    device: Seq<char>,
    t: TransitionModel,
    event: HookEvent,
    source: HookSource,
    now: u128,
)
    ensures
        ({
            let c = told(device, t, event, source, now);
            &&& c.device == device && c.nickname == t.nickname && c.model == t.model
            &&& c.event == event && c.source == source
            &&& c.previous_on == t.previous_on && c.new_on == t.new_on
            &&& c.timestamp_ms == now
        }),
{
}

/// A failure is one of the handshake where one of its causes holds the words
/// that say so.
pub proof fn handshakes_are_told_by_their_words(causes: Seq<Seq<char>>, ahead: Seq<char>, behind: Seq<char>, i: int)
    requires
        0 <= i < causes.len(),
    ensures
        causes[i] == ahead + "Handshake2 failed"@ + behind ==> names_handshake(causes),
        names_handshake(causes) ==> exists|k: int, at: int|
            0 <= k < causes.len() && 0 <= at <= causes[k].len() - "Handshake2 failed"@.len() && #[trigger] causes[k].subrange(
                at,
                at + "Handshake2 failed"@.len(),
            ) == "Handshake2 failed"@,
{
    text::ends_are_what_stands_there(ahead, "Handshake2 failed"@, behind);
    if causes[i] == ahead + "Handshake2 failed"@ + behind {
        assert(text::holds(causes[i], "Handshake2 failed"@));
    }
    if names_handshake(causes) {
        let k = choose|k: int| 0 <= k < causes.len() && text::holds(#[trigger] causes[k], "Handshake2 failed"@);
        text::ends_are_what_stands_there("Handshake2 failed"@, ahead, causes[k]);
    }
}

/// An operation is tried again only after a failed handshake, and three times
/// in all.
pub proof fn tries_end_after_three(attempt: usize, again: bool, otherwise: bool)
    requires
        call_ensures(tries_again, (attempt, true), again),
        call_ensures(tries_again, (attempt, false), otherwise),
    ensures
        again <==> attempt <= 2,
        !otherwise,
        DEVICE_OFFLINE_FAILURE_THRESHOLD == 3,
        TAPO_HANDSHAKE_RETRY_ATTEMPTS == 3,
        DEFAULT_MANUAL_OVERRIDE_SECONDS == 60 * 60,
        MIN_MANUAL_OVERRIDE_SECONDS == 30,
        MAX_MANUAL_OVERRIDE_SECONDS == 24 * 60 * 60,
{
}

/// A search leaves each device that it found as new, with the configuration that
/// it was last found with.
pub proof fn searches_renew_what_they_find(
    t: Seq<(Seq<char>, ManagedDeviceModel)>,
    candidates: Seq<(Seq<char>, DeviceConfigModel)>,
    now: u128,
    n: int,
)
    requires
        0 < n <= candidates.len(),
    ensures
        table::lookup(with_found(t, candidates, now, n), candidates[n - 1].0) matches Some(d) && d.name
            == candidates[n - 1].0 && d.config == candidates[n - 1].1 && d.discovered_at_ms == now && d.snapshot is None,
{
    table::put_then_lookup(
        with_found(t, candidates, now, n - 1),
        candidates[n - 1].0,
        found(candidates[n - 1].0, candidates[n - 1].1, now),
        candidates[n - 1].0,
    );
}

/// Of a device that nothing was noted of, nothing is intended.
pub proof fn nothing_is_intended_unasked(t: Seq<(Seq<char>, DeviceIntent)>, name: Seq<char>)
    ensures
        table::lookup(t, name) is None ==> intent_for(t, name).manual_override is None && intent_for(t, name).schedule_intent
            is None && intent_for(t, name).manual_override_until_ms is None,
        table::lookup(t, name) matches Some(i) ==> intent_for(t, name) == i,
{
}

} // verus!
