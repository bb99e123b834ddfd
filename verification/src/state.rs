//! What is on a board, and what of it is kept from one run to the next.

use vstd::prelude::*;
use vstd::string::*;

use crate::automations::types::{Automation, AutomationModel};
use crate::conditions;
use crate::conditions::{ConditionConfig, ConditionConfigModel};
use crate::devices;
use crate::devices::{
    managed_device_from_config, DeviceConfig, DeviceConfigModel, DeviceIntent, ManagedDevice, ManagedDeviceModel,
};
use crate::dup::Dup;
use crate::hooks::{HookConfig, HookConfigModel};
use crate::migration;
use crate::migration::{convert_probes, migrate_to_automations};
use crate::schedules::{ScheduleConfig, ScheduleConfigModel};
use crate::table;
use crate::table::Table;
use crate::text;
use crate::text::{around, decimal_text};

verus! {

/// The version of what is kept.
pub const STATE_VERSION: u32 = 2;

/// What is kept of a board from one run to the next.
pub struct PersistedState {
    pub version: u32,
    pub devices: Table<DeviceConfig>,
    pub schedules: Table<ScheduleConfig>,
    pub conditions: Table<ConditionConfig>,
    pub device_intents: Table<DeviceIntent>,
    pub hooks: Table<HookConfig>,
    pub automations: Table<Automation>,
}

/// The contents of `PersistedState`.
#[verifier::ext_equal]
pub struct PersistedStateModel {
    pub version: u32,
    pub devices: Seq<(Seq<char>, DeviceConfigModel)>,
    pub schedules: Seq<(Seq<char>, ScheduleConfigModel)>,
    pub conditions: Seq<(Seq<char>, ConditionConfigModel)>,
    pub device_intents: Seq<(Seq<char>, DeviceIntent)>,
    pub hooks: Seq<(Seq<char>, HookConfigModel)>,
    pub automations: Seq<(Seq<char>, AutomationModel)>,
}

impl DeepView for PersistedState {
    type V = PersistedStateModel;

    open spec fn deep_view(&self) -> PersistedStateModel {
        PersistedStateModel {
            version: self.version.deep_view(),
            devices: self.devices.deep_view(),
            schedules: self.schedules.deep_view(),
            conditions: self.conditions.deep_view(),
            device_intents: self.device_intents.deep_view(),
            hooks: self.hooks.deep_view(),
            automations: self.automations.deep_view(),
        }
    }
}

impl Dup for PersistedState {
    fn dup(&self) -> (r: Self) {
        PersistedState {
            version: self.version.dup(),
            devices: self.devices.dup(),
            schedules: self.schedules.dup(),
            conditions: self.conditions.dup(),
            device_intents: self.device_intents.dup(),
            hooks: self.hooks.dup(),
            automations: self.automations.dup(),
        }
    }
}

/// Everything on a board.
pub struct Board {
    pub devices: Table<ManagedDevice>,
    pub schedules: Table<ScheduleConfig>,
    pub conditions: Table<ConditionConfig>,
    pub device_intents: Table<DeviceIntent>,
    pub hooks: Table<HookConfig>,
    pub automations: Table<Automation>,
}

/// The contents of `Board`.
#[verifier::ext_equal]
pub struct BoardModel {
    pub devices: Seq<(Seq<char>, ManagedDeviceModel)>,
    pub schedules: Seq<(Seq<char>, ScheduleConfigModel)>,
    pub conditions: Seq<(Seq<char>, ConditionConfigModel)>,
    pub device_intents: Seq<(Seq<char>, DeviceIntent)>,
    pub hooks: Seq<(Seq<char>, HookConfigModel)>,
    pub automations: Seq<(Seq<char>, AutomationModel)>,
}

impl DeepView for Board {
    type V = BoardModel;

    open spec fn deep_view(&self) -> BoardModel {
        BoardModel {
            devices: self.devices.deep_view(),
            schedules: self.schedules.deep_view(),
            conditions: self.conditions.deep_view(),
            device_intents: self.device_intents.deep_view(),
            hooks: self.hooks.deep_view(),
            automations: self.automations.deep_view(),
        }
    }
}

impl Dup for Board {
    fn dup(&self) -> (r: Self) {
        Board {
            devices: self.devices.dup(),
            schedules: self.schedules.dup(),
            conditions: self.conditions.dup(),
            device_intents: self.device_intents.dup(),
            hooks: self.hooks.dup(),
            automations: self.automations.dup(),
        }
    }
}

/// Where each device is and what it is.
pub open spec fn configs_of(t: Seq<(Seq<char>, ManagedDeviceModel)>) -> Seq<(Seq<char>, DeviceConfigModel)> {
    t.map_values(|e: (Seq<char>, ManagedDeviceModel)| (e.0, e.1.config))
}

/// What is kept of a board.
pub open spec fn saved(b: BoardModel) -> PersistedStateModel {
    PersistedStateModel {
        version: 2,
        devices: configs_of(b.devices),
        schedules: b.schedules,
        conditions: b.conditions,
        device_intents: b.device_intents,
        hooks: b.hooks,
        automations: b.automations,
    }
}

/// What is to be kept of a board: of devices only where they are and what they
/// are.
pub fn save_persisted_state(board: &Board) -> (r: PersistedState)
    ensures
        r.deep_view() == saved(board.deep_view()),
{
    let ghost t = board.devices.deep_view();
    let mut configs: Table<DeviceConfig> = Table { entries: Vec::new() };
    let mut i: usize = 0;
    while i < board.devices.entries.len()
        invariant
            i <= board.devices.entries@.len(),
            t == board.devices.deep_view(),
            configs.entries@.len() == i,
            forall|j: int| 0 <= j < i ==> (#[trigger] configs.entries@[j]).deep_view() == configs_of(t)[j],
        decreases board.devices.entries@.len() - i,
    {
        let entry = &board.devices.entries[i];
        proof {
            assert(t[i as int] == (entry.0@, entry.1.deep_view()));
        }
        configs.entries.push((entry.0.clone(), entry.1.config.dup()));
        i = i + 1;
    }
    proof {
        assert(configs.deep_view() =~= configs_of(t));
    }
    PersistedState {
        version: STATE_VERSION,
        devices: configs,
        schedules: board.schedules.dup(),
        conditions: board.conditions.dup(),
        device_intents: board.device_intents.dup(),
        hooks: board.hooks.dup(),
        automations: board.automations.dup(),
    }
}

/// What was kept, as this version reads it: for an older version's schedules and
/// conditions automations are made, and a newer version is refused.
pub open spec fn adopted(p: PersistedStateModel, now: u128) -> Result<PersistedStateModel, Seq<char>> {
    if p.version < 2 {
        Ok(PersistedStateModel { version: 2, ..migration::migrated(p, now) })
    } else if p.version > 2 {
        Err("unsupported state version "@ + text::decimal(p.version as nat) + "; expected 2"@)
    } else {
        Ok(p)
    }
}

/// What was kept, as this version reads it.
pub fn adopt_state(persisted: PersistedState, now: u128) -> (r: Result<PersistedState, String>)
    ensures
        match r {
            Ok(p) => adopted(persisted.deep_view(), now) == Ok::<PersistedStateModel, Seq<char>>(p.deep_view()),
            Err(m) => adopted(persisted.deep_view(), now) == Err::<PersistedStateModel, Seq<char>>(m@),
        },
{
    let mut p = persisted;
    if p.version < STATE_VERSION {
        migrate_to_automations(&mut p, now);
        p.version = STATE_VERSION;
    } else if p.version > STATE_VERSION {
        return Err(
            around("unsupported state version ", decimal_text(p.version as u128).as_str(), "; expected 2"),
        );
    }
    Ok(p)
}

/// Schedules of which none is enabled.
pub open spec fn resting_schedules(t: Seq<(Seq<char>, ScheduleConfigModel)>) -> Seq<(Seq<char>, ScheduleConfigModel)> {
    t.map_values(
        |e: (Seq<char>, ScheduleConfigModel)| (e.0, (ScheduleConfigModel { enabled: false, ..e.1 })),
    )
}

/// Conditions of which none is enabled.
pub open spec fn resting_conditions(t: Seq<(Seq<char>, ConditionConfigModel)>) -> Seq<
    (Seq<char>, ConditionConfigModel),
> {
    t.map_values(
        |e: (Seq<char>, ConditionConfigModel)| (e.0, (ConditionConfigModel { enabled: false, ..e.1 })),
    )
}

/// What was kept, as a board takes it up: requests take the place of blocks that
/// probe, and once there are automations, an older version's schedules and
/// conditions rest, so that nothing fires twice.
pub open spec fn taken_up(p: PersistedStateModel, now: u128) -> Result<PersistedStateModel, Seq<char>> {
    match adopted(p, now) {
        Ok(q) => {
            let rests = p.version < 2 && q.automations.len() > 0;
            Ok(
                PersistedStateModel {
                    schedules: if rests {
                        resting_schedules(q.schedules)
                    } else {
                        q.schedules
                    },
                    conditions: if rests {
                        resting_conditions(q.conditions)
                    } else {
                        q.conditions
                    },
                    automations: migration::converted(q.automations),
                    ..q
                },
            )
        },
        Err(m) => Err(m),
    }
}

fn rest_schedules(t: &Table<ScheduleConfig>) -> (r: Table<ScheduleConfig>)
    ensures
        r.deep_view() == resting_schedules(t.deep_view()),
{
    let ghost m = t.deep_view();
    let mut r: Table<ScheduleConfig> = Table { entries: Vec::new() };
    let mut i: usize = 0;
    while i < t.entries.len()
        invariant
            i <= t.entries@.len(),
            m == t.deep_view(),
            r.entries@.len() == i,
            forall|j: int| 0 <= j < i ==> (#[trigger] r.entries@[j]).deep_view() == resting_schedules(m)[j],
        decreases t.entries@.len() - i,
    {
        let entry = &t.entries[i];
        proof {
            assert(m[i as int] == (entry.0@, entry.1.deep_view()));
        }
        let mut schedule = entry.1.dup();
        schedule.enabled = false;
        r.entries.push((entry.0.clone(), schedule));
        i = i + 1;
    }
    proof {
        assert(r.deep_view() =~= resting_schedules(m));
    }
    r
}

fn rest_conditions(t: &Table<ConditionConfig>) -> (r: Table<ConditionConfig>)
    ensures
        r.deep_view() == resting_conditions(t.deep_view()),
{
    let ghost m = t.deep_view();
    let mut r: Table<ConditionConfig> = Table { entries: Vec::new() };
    let mut i: usize = 0;
    while i < t.entries.len()
        invariant
            i <= t.entries@.len(),
            m == t.deep_view(),
            r.entries@.len() == i,
            forall|j: int| 0 <= j < i ==> (#[trigger] r.entries@[j]).deep_view() == resting_conditions(m)[j],
        decreases t.entries@.len() - i,
    {
        let entry = &t.entries[i];
        proof {
            assert(m[i as int] == (entry.0@, entry.1.deep_view()));
        }
        let mut condition = entry.1.dup();
        condition.enabled = false;
        r.entries.push((entry.0.clone(), condition));
        i = i + 1;
    }
    proof {
        assert(r.deep_view() =~= resting_conditions(m));
    }
    r
}

/// A table with the first `n` entries of another stored in it.
pub open spec fn absorbed<V>(t: Seq<(Seq<char>, V)>, more: Seq<(Seq<char>, V)>, n: int) -> Seq<(Seq<char>, V)>
    decreases n,
{
    if n <= 0 || n > more.len() {
        t
    } else {
        table::put(absorbed(t, more, n - 1), more[n - 1].0, more[n - 1].1)
    }
}

fn absorb<V: Dup>(t: &mut Table<V>, more: &Table<V>)
    ensures
        final(t).deep_view() == absorbed(old(t).deep_view(), more.deep_view(), more.deep_view().len() as int),
{
    let ghost before = t.deep_view();
    let ghost m = more.deep_view();
    let mut i: usize = 0;
    while i < more.entries.len()
        invariant
            i <= more.entries@.len(),
            m == more.deep_view(),
            t.deep_view() == absorbed(before, m, i as int),
        decreases more.entries@.len() - i,
    {
        let entry = &more.entries[i];
        proof {
            assert(m[i as int] == (entry.0@, entry.1.deep_view()));
        }
        t.insert(entry.0.clone(), entry.1.dup());
        i = i + 1;
    }
}

/// Devices that have just been found, one for each entry.
pub open spec fn found_all(t: Seq<(Seq<char>, DeviceConfigModel)>, now: u128) -> Seq<(Seq<char>, ManagedDeviceModel)> {
    t.map_values(|e: (Seq<char>, DeviceConfigModel)| (e.0, devices::found(e.0, e.1, now)))
}

/// The board with what was kept stored in it.
pub open spec fn loaded(b: BoardModel, p: PersistedStateModel, now: u128) -> BoardModel {
    BoardModel {
        devices: absorbed(b.devices, found_all(p.devices, now), p.devices.len() as int),
        schedules: absorbed(b.schedules, p.schedules, p.schedules.len() as int),
        conditions: absorbed(b.conditions, p.conditions, p.conditions.len() as int),
        device_intents: absorbed(b.device_intents, p.device_intents, p.device_intents.len() as int),
        hooks: absorbed(b.hooks, p.hooks, p.hooks.len() as int),
        automations: absorbed(b.automations, p.automations, p.automations.len() as int),
    }
}

/// Stores what was kept in a board; gives the version that it came from, if
/// that was an older one. Blocks that probe are taken up as requests. Once there
/// are automations, an older version's schedules and conditions are taken up
/// disabled: they are still kept, and the automations act for them. Where it is
/// refused, the board stays as it is.
pub fn load_persisted_state(board: &mut Board, persisted: PersistedState, now: u128) -> (r: Result<
    Option<u32>,
    String,
>)
    ensures
        match r {
            Ok(from) => taken_up(persisted.deep_view(), now) matches Ok(p) && final(board).deep_view() == loaded(
                old(board).deep_view(),
                p,
                now,
            ) && from == (if persisted.version < 2 {
                Some(persisted.version)
            } else {
                None
            }),
            Err(m) => taken_up(persisted.deep_view(), now) == Err::<PersistedStateModel, Seq<char>>(m@)
                && final(board).deep_view() == old(board).deep_view(),
        },
{
    let version = persisted.version;
    let mut p = match adopt_state(persisted, now) {
        Ok(p) => p,
        Err(m) => {
            return Err(m);
        },
    };
    if version < STATE_VERSION && p.automations.len() > 0 {
        p.schedules = rest_schedules(&p.schedules);
        p.conditions = rest_conditions(&p.conditions);
    }
    p.automations = convert_probes(&p.automations);
    let mut found: Table<ManagedDevice> = Table { entries: Vec::new() };
    let ghost configs = p.devices.deep_view();
    let mut i: usize = 0;
    while i < p.devices.entries.len()
        invariant
            i <= p.devices.entries@.len(),
            configs == p.devices.deep_view(),
            found.entries@.len() == i,
            forall|j: int| 0 <= j < i ==> (#[trigger] found.entries@[j]).deep_view() == found_all(configs, now)[j],
        decreases p.devices.entries@.len() - i,
    {
        let entry = &p.devices.entries[i];
        proof {
            assert(configs[i as int] == (entry.0@, entry.1.deep_view()));
        }
        found.entries.push(
            (entry.0.clone(), managed_device_from_config(entry.0.clone(), entry.1.dup(), now)),
        );
        i = i + 1;
    }
    proof {
        assert(found.deep_view() =~= found_all(configs, now));
    }
    absorb(&mut board.devices, &found);
    absorb(&mut board.schedules, &p.schedules);
    absorb(&mut board.conditions, &p.conditions);
    absorb(&mut board.device_intents, &p.device_intents);
    absorb(&mut board.hooks, &p.hooks);
    absorb(&mut board.automations, &p.automations);
    if version < STATE_VERSION {
        Ok(Some(version))
    } else {
        Ok(None)
    }
}

/// A board with nothing on it.
pub open spec fn bare() -> BoardModel {
    BoardModel {
        devices: Seq::empty(),
        schedules: Seq::empty(),
        conditions: Seq::empty(),
        device_intents: Seq::empty(),
        hooks: Seq::empty(),
        automations: Seq::empty(),
    }
}

impl Board {
    /// A board with nothing on it.
    pub fn new() -> (b: Self)
        ensures
            b.deep_view() == bare(),
    {
        Board {
            devices: Table::new(),
            schedules: Table::new(),
            conditions: Table::new(),
            device_intents: Table::new(),
            hooks: Table::new(),
            automations: Table::new(),
        }
    }
}

/// Every table of the board is in the order of its keys.
pub open spec fn in_order(b: BoardModel) -> bool {
    &&& table::sorted(b.devices)
    &&& table::sorted(b.schedules)
    &&& table::sorted(b.conditions)
    &&& table::sorted(b.device_intents)
    &&& table::sorted(b.hooks)
    &&& table::sorted(b.automations)
}

proof fn sorted_tables_are_given_back<V>(t: Seq<(Seq<char>, V)>, n: int)
    requires
        table::sorted(t),
        0 <= n <= t.len(),
    ensures
        absorbed(Seq::<(Seq<char>, V)>::empty(), t, n) == t.take(n),
    decreases n,
{
    let none = Seq::<(Seq<char>, V)>::empty();
    if n == 0 {
        assert(t.take(0) =~= none);
    } else {
        sorted_tables_are_given_back(t, n - 1);
        let u = t.take(n - 1);
        let key = t[n - 1].0;
        table::slot_from_facts(u, key, 0);
        let i = table::slot_from(u, key, 0);
        if i < u.len() {
            assert(text::before(t[i].0, t[n - 1].0));
        }
        assert(table::put(u, key, t[n - 1].1) =~= t.take(n));
    }
}

/// A bare board that takes up what an older version kept still keeps its
/// schedules and conditions at the next save. Once there are automations they
/// are as they were but for being disabled: no schedule is enabled, no condition
/// is probed, and none has a say in a device.
pub proof fn migrated_entries_rest(p: PersistedStateModel, now: u128, later: u128, device: Seq<char>)
    requires
        p.version < 2,
        table::sorted(p.schedules),
        table::sorted(p.conditions),
    ensures
        taken_up(p, now) matches Ok(q) && {
            let b = loaded(bare(), q, now);
            if q.automations.len() > 0 {
                &&& saved(b).schedules == resting_schedules(p.schedules)
                &&& saved(b).conditions == resting_conditions(p.conditions)
                &&& forall|i: int| 0 <= i < b.schedules.len() ==> !(#[trigger] b.schedules[i]).1.enabled
                &&& forall|i: int| 0 <= i < b.conditions.len() ==> !(#[trigger] b.conditions[i]).1.enabled
                &&& conditions::due_ids(b.conditions, later) == Seq::<Seq<char>>::empty()
                &&& conditions::intent_of(b.conditions, device) is None
            } else {
                &&& saved(b).schedules == p.schedules
                &&& saved(b).conditions == p.conditions
            }
        },
{
    let q = taken_up(p, now)->Ok_0;
    assert(q.automations.len() == (adopted(p, now)->Ok_0).automations.len());
    assert(table::sorted(q.schedules)) by {
        assert forall|i: int, j: int| 0 <= i < j < q.schedules.len() implies text::before(
            #[trigger] q.schedules[i].0,
            #[trigger] q.schedules[j].0,
        ) by {
            assert(text::before(p.schedules[i].0, p.schedules[j].0));
        }
    }
    assert(table::sorted(q.conditions)) by {
        assert forall|i: int, j: int| 0 <= i < j < q.conditions.len() implies text::before(
            #[trigger] q.conditions[i].0,
            #[trigger] q.conditions[j].0,
        ) by {
            assert(text::before(p.conditions[i].0, p.conditions[j].0));
        }
    }
    sorted_tables_are_given_back(q.schedules, q.schedules.len() as int);
    sorted_tables_are_given_back(q.conditions, q.conditions.len() as int);
    assert(q.schedules.take(q.schedules.len() as int) =~= q.schedules);
    assert(q.conditions.take(q.conditions.len() as int) =~= q.conditions);
    if q.automations.len() > 0 {
        conditions::disabled_are_not_probed(q.conditions, later);
    }
}

/// What is kept of a board and loaded into a bare one gives the board back: its
/// schedules, conditions, intents and hooks as they were, its devices as if they
/// had just been found, and its automations as they were but for blocks that
/// probe, which are requests. Keeping it again keeps the same.
pub proof fn loading_gives_back_saving(b: BoardModel, now: u128)
    requires
        in_order(b),
    ensures
        taken_up(saved(b), now) matches Ok(q) && {
            &&& loaded(bare(), q, now) == (BoardModel {
                devices: found_all(configs_of(b.devices), now),
                automations: migration::converted(b.automations),
                ..b
            })
            &&& saved(loaded(bare(), q, now)) == q
            &&& migration::without_probes(b.automations) ==> q == saved(b) && loaded(bare(), q, now) == (BoardModel {
                devices: found_all(configs_of(b.devices), now),
                ..b
            })
        },
{
    let automations = migration::converted(b.automations);
    migration::converting_settles(b.automations);
    assert(table::sorted(automations)) by {
        assert forall|i: int, j: int| 0 <= i < j < automations.len() implies text::before(
            #[trigger] automations[i].0,
            #[trigger] automations[j].0,
        ) by {
            assert(text::before(b.automations[i].0, b.automations[j].0));
        }
    }
    let found = found_all(configs_of(b.devices), now);
    assert(table::sorted(found)) by {
        assert forall|i: int, j: int| 0 <= i < j < found.len() implies text::before(
            #[trigger] found[i].0,
            #[trigger] found[j].0,
        ) by {
            assert(text::before(b.devices[i].0, b.devices[j].0));
        }
    }
    sorted_tables_are_given_back(found, found.len() as int);
    sorted_tables_are_given_back(b.schedules, b.schedules.len() as int);
    sorted_tables_are_given_back(b.conditions, b.conditions.len() as int);
    sorted_tables_are_given_back(b.device_intents, b.device_intents.len() as int);
    sorted_tables_are_given_back(b.hooks, b.hooks.len() as int);
    sorted_tables_are_given_back(automations, automations.len() as int);
    assert(found.take(found.len() as int) =~= found);
    assert(b.schedules.take(b.schedules.len() as int) =~= b.schedules);
    assert(b.conditions.take(b.conditions.len() as int) =~= b.conditions);
    assert(b.device_intents.take(b.device_intents.len() as int) =~= b.device_intents);
    assert(b.hooks.take(b.hooks.len() as int) =~= b.hooks);
    assert(automations.take(automations.len() as int) =~= automations);
    assert(configs_of(found) =~= configs_of(b.devices));
}

/// What is kept of a device is its configuration: what was last read of it, and
/// how that went, leaves no trace.
pub proof fn readings_are_not_kept(b: BoardModel, devices: Seq<(Seq<char>, ManagedDeviceModel)>)
    requires
        devices.len() == b.devices.len(),
        forall|i: int|
            0 <= i < devices.len() ==> (#[trigger] devices[i]).0 == b.devices[i].0 && devices[i].1.config
                == b.devices[i].1.config,
    ensures
        saved(BoardModel { devices, ..b }) == saved(b),
{
    assert(configs_of(devices) =~= configs_of(b.devices));
}

/// What is saved is of the second version and holds what the board holds, of the
/// devices their configurations.
pub proof fn boards_are_saved_whole(b: BoardModel, i: int)
    ensures
        saved(b).version == 2,
        saved(b).schedules == b.schedules,
        saved(b).conditions == b.conditions,
        saved(b).device_intents == b.device_intents,
        saved(b).hooks == b.hooks,
        saved(b).automations == b.automations,
        saved(b).devices.len() == b.devices.len(),
        0 <= i < b.devices.len() ==> saved(b).devices[i] == (b.devices[i].0, b.devices[i].1.config),
{
}

/// States of the second version are taken as they are, earlier ones are brought
/// up to it, and later ones are refused.
pub proof fn later_versions_are_refused(p: PersistedStateModel, now: u128)
    ensures
        p.version > 2 ==> adopted(p, now) is Err && taken_up(p, now) is Err,
        p.version == 2 ==> adopted(p, now) == Ok::<PersistedStateModel, Seq<char>>(p),
        p.version < 2 ==> (adopted(p, now) matches Ok(q) && q.version == 2 && q.automations == migration::migrated(
            p,
            now,
        ).automations && q.hooks == p.hooks && q.devices == p.devices && q.device_intents == p.device_intents),
        p.version == 2 ==> (taken_up(p, now) matches Ok(q) && q.schedules == p.schedules && q.conditions == p.conditions
            && q.automations == migration::converted(p.automations)),
{
}

/// Loading adds to a board: what the state holds under a name prevails, and
/// what it does not name stays.
pub proof fn loading_adds_to_the_board<V>(t: Seq<(Seq<char>, V)>, more: Seq<(Seq<char>, V)>, n: int, name: Seq<char>)
    requires
        table::sorted(more),
        0 <= n <= more.len(),
    ensures
        table::lookup(absorbed(t, more, n), name) == match table::lookup(more.take(n), name) {
            Some(v) => Some(v),
            None => table::lookup(t, name),
        },
    decreases n,
{
    let some = more.take(n);
    table::place_from_facts(some, name, 0);
    if n > 0 {
        let fewer = more.take(n - 1);
        loading_adds_to_the_board(t, more, n - 1, name);
        table::put_then_lookup(absorbed(t, more, n - 1), more[n - 1].0, more[n - 1].1, name);
        table::place_from_facts(fewer, name, 0);
        if more[n - 1].0 == name {
            assert forall|j: int| 0 <= j < n - 1 implies (#[trigger] some[j]).0 != name by {
                text::before_is_total(name, name);
                assert(text::before(more[j].0, more[n - 1].0));
            }
            table::place_from_is(some, name, 0, n - 1);
        } else if let Some(i) = table::place_from(fewer, name, 0) {
            assert forall|j: int| 0 <= j < i implies (#[trigger] some[j]).0 != name by {
                assert(fewer[j].0 != name);
            }
            assert(some[i] == fewer[i]);
            table::place_from_is(some, name, 0, i);
        } else {
            assert forall|j: int| 0 <= j < some.len() implies (#[trigger] some[j]).0 != name by {
                if j < fewer.len() {
                    assert(fewer[j].0 != name);
                }
            }
            table::place_from_none(some, name, 0);
        }
    } else {
        table::place_from_none(some, name, 0);
    }
}

/// A bare board holds nothing.
pub proof fn bare_boards_are_empty(name: Seq<char>)
    ensures
        !table::has_key(bare().devices, name),
        !table::has_key(bare().schedules, name),
        !table::has_key(bare().conditions, name),
        !table::has_key(bare().device_intents, name),
        !table::has_key(bare().hooks, name),
        !table::has_key(bare().automations, name),
{
}

} // verus!
