//! Forecasts: the changes of devices that automations are expected to bring,
//! found by running them ahead on a clock of their own.

use vstd::prelude::*;

use crate::actions::ScheduleAction;
use crate::automations::flow;
use crate::automations::flow::{device_action, find_node, gather_inputs, is_turning_true, settle, stored_state};
use crate::automations::graph;
use crate::automations::graph::topo_sort_nodes;
use crate::automations::host;
use crate::automations::host::{Answer, Ask, Oracle};
use crate::automations::node;
use crate::automations::node::{evaluate_node, Scene, SceneModel};
use crate::automations::types::{
    Automation, AutomationModel, AutomationNodeConfig, AutomationNodeConfigModel, AutomationNodeModel, NodeRuntimeState,
    NodeRuntimeStateModel, SetDeviceCfgModel, ToggleDeviceCfgModel,
};
use crate::dup::Dup;
use crate::table;
use crate::table::Table;
use crate::value::{Value, ValueModel};

verus! {

/// How many changes a forecast holds at most.
pub const MAX_EVENTS: usize = 500;

/// A change of a device that is expected.
pub struct ForecastEvent {
    pub at_ms: u128,
    pub device_name: String,
    pub action: ScheduleAction,
    pub automation_id: String,
    pub automation_name: String,
}

/// The contents of `ForecastEvent`.
#[verifier::ext_equal]
pub struct ForecastEventModel {
    pub at_ms: u128,
    pub device_name: Seq<char>,
    pub action: ScheduleAction,
    pub automation_id: Seq<char>,
    pub automation_name: Seq<char>,
}

impl DeepView for ForecastEvent {
    type V = ForecastEventModel;

    open spec fn deep_view(&self) -> ForecastEventModel {
        ForecastEventModel {
            at_ms: self.at_ms.deep_view(),
            device_name: self.device_name.deep_view(),
            action: self.action.deep_view(),
            automation_id: self.automation_id.deep_view(),
            automation_name: self.automation_name.deep_view(),
        }
    }
}

impl Dup for ForecastEvent {
    fn dup(&self) -> (r: Self) {
        ForecastEvent {
            at_ms: self.at_ms.dup(),
            device_name: self.device_name.dup(),
            action: self.action.dup(),
            automation_id: self.automation_id.dup(),
            automation_name: self.automation_name.dup(),
        }
    }
}

/// An automation that is run ahead, with its blocks in their order.
pub struct Sim {
    pub automation: Automation,
    pub order: Vec<String>,
}

/// The contents of `Sim`.
#[verifier::ext_equal]
pub struct SimModel {
    pub automation: AutomationModel,
    pub order: Seq<Seq<char>>,
}

impl DeepView for Sim {
    type V = SimModel;

    open spec fn deep_view(&self) -> SimModel {
        SimModel {
            automation: self.automation.deep_view(),
            order: self.order.deep_view(),
        }
    }
}

impl Dup for Sim {
    fn dup(&self) -> (r: Self) {
        Sim {
            automation: self.automation.dup(),
            order: self.order.dup(),
        }
    }
}

/// What an automation that is run ahead has come to.
pub struct SimState {
    pub states: Table<NodeRuntimeState>,
    pub variables: Table<Value>,
}

/// The contents of `SimState`.
#[verifier::ext_equal]
pub struct SimStateModel {
    pub states: Seq<(Seq<char>, NodeRuntimeStateModel)>,
    pub variables: Seq<(Seq<char>, ValueModel)>,
}

impl DeepView for SimState {
    type V = SimStateModel;

    open spec fn deep_view(&self) -> SimStateModel {
        SimStateModel {
            states: self.states.deep_view(),
            variables: self.variables.deep_view(),
        }
    }
}

impl Dup for SimState {
    fn dup(&self) -> (r: Self) {
        SimState {
            states: self.states.dup(),
            variables: self.variables.dup(),
        }
    }
}

// ---------- What is run ahead ----------

/// The automations among the first `n` that are run ahead: those that are
/// enabled and whose blocks can be put in order.
pub open spec fn sims_of(t: Seq<(Seq<char>, AutomationModel)>, n: int) -> Seq<SimModel>
    decreases n,
{
    if n <= 0 || n > t.len() {
        Seq::empty()
    } else {
        let before = sims_of(t, n - 1);
        let a = t[n - 1].1;
        match graph::sorted_ids(a.nodes, a.edges) {
            Some(order) => if a.enabled {
                before.push(SimModel { automation: a, order })
            } else {
                before
            },
            None => before,
        }
    }
}

/// Where the automations stand when a forecast begins.
pub open spec fn standing_of(sims: Seq<SimModel>) -> Seq<SimStateModel> {
    sims.map_values(
        |s: SimModel| SimStateModel { states: s.automation.status.node_states, variables: s.automation.variables },
    )
}

fn collect_sims(automations: &Table<Automation>) -> (r: Vec<Sim>)
    ensures
        r.deep_view() == sims_of(automations.deep_view(), automations.deep_view().len() as int),
{
    let ghost t = automations.deep_view();
    let mut sims: Vec<Sim> = Vec::new();
    proof {
        assert(sims.deep_view() =~= Seq::<SimModel>::empty());
    }
    let mut i: usize = 0;
    while i < automations.entries.len()
        invariant
            i <= automations.entries@.len(),
            t == automations.deep_view(),
            sims.deep_view() == sims_of(t, i as int),
        decreases automations.entries@.len() - i,
    {
        let a = &automations.entries[i].1;
        proof {
            assert(t[i as int].1 == a.deep_view());
        }
        if a.enabled {
            if let Some(order) = topo_sort_nodes(&a.nodes, &a.edges) {
                let ghost had = sims.deep_view();
                let sim = Sim { automation: a.dup(), order };
                let ghost m = sim.deep_view();
                sims.push(sim);
                proof {
                    assert(sims.deep_view() =~= had.push(m));
                }
            }
        }
        i = i + 1;
    }
    sims
}

fn begin_states(sims: &Vec<Sim>) -> (r: Vec<SimState>)
    ensures
        r.deep_view() == standing_of(sims.deep_view()),
{
    let mut out: Vec<SimState> = Vec::new();
    let mut i: usize = 0;
    while i < sims.len()
        invariant
            i <= sims@.len(),
            out@.len() == i,
            forall|j: int| 0 <= j < i ==> (#[trigger] out@[j]).deep_view() == standing_of(sims.deep_view())[j],
        decreases sims@.len() - i,
    {
        proof {
            assert(sims.deep_view()[i as int] == sims@[i as int].deep_view());
        }
        out.push(
            SimState {
                states: sims[i].automation.status.node_states.dup(),
                variables: sims[i].automation.variables.dup(),
            },
        );
        i = i + 1;
    }
    proof {
        assert(out.deep_view() =~= standing_of(sims.deep_view()));
    }
    out
}

// ---------- One automation at one moment ----------

/// An automation that is run ahead, in the middle of a moment.
#[verifier::ext_equal]
pub struct Pass {
    pub outputs: Seq<(Seq<char>, Option<bool>)>,
    pub fresh: Seq<(Seq<char>, NodeRuntimeStateModel)>,
    pub standing: SimStateModel,
    pub devices: Seq<(Seq<char>, bool)>,
    pub events: Seq<ForecastEventModel>,
}

/// What the blocks see of a moment that is run ahead.
pub open spec fn ahead_scene(
    sim: SimModel,
    p: Pass,
    readings: Seq<(Seq<char>, (Option<bool>, bool))>,
    previous: u128,
    at: u128,
) -> SceneModel {
    SceneModel {
        automation_id: sim.automation.id,
        committed: sim.automation.status.node_states,
        fresh: Some(p.fresh),
        devices: p.devices,
        readings,
        previous_tick_ms: previous,
        tick_ms: at,
        simulate: true,
    }
}

/// The state that an action asks of a device; one that is not known counts as
/// off.
pub open spec fn expected(action: ScheduleAction, current: Option<bool>) -> bool {
    match action {
        ScheduleAction::On => true,
        ScheduleAction::Off => false,
        ScheduleAction::Toggle => current != Some(true),
    }
}

/// The devices and the events after a block turned true: a device that is to
/// change changes, and that is noted.
pub open spec fn switched_ahead(
    sim: SimModel,
    c: AutomationNodeConfigModel,
    devices: Seq<(Seq<char>, bool)>,
    events: Seq<ForecastEventModel>,
    at: u128,
) -> (Seq<(Seq<char>, bool)>, Seq<ForecastEventModel>) {
    match flow::device_deed(c) {
        None => (devices, events),
        Some((device, action)) => {
            let current = table::lookup(devices, device);
            let target = expected(action, current);
            if current == Some(target) {
                (devices, events)
            } else {
                (
                    table::put(devices, device, target),
                    events.push(
                        ForecastEventModel {
                            at_ms: at,
                            device_name: device,
                            action: if target {
                                ScheduleAction::On
                            } else {
                                ScheduleAction::Off
                            },
                            automation_id: sim.automation.id,
                            automation_name: sim.automation.name,
                        },
                    ),
                )
            }
        },
    }
}

/// A moment with one block more.
pub open spec fn block_ahead(
    sim: SimModel,
    p: Pass,
    id: Seq<char>,
    readings: Seq<(Seq<char>, (Option<bool>, bool))>,
    previous: u128,
    at: u128,
    o: Oracle,
) -> Pass {
    match flow::node_from(sim.automation.nodes, id, 0) {
        None => p,
        Some(n) => {
            let prev = flow::state_or_fresh(p.standing.states, id);
            let step = node::node_step(
                ahead_scene(sim, p, readings, previous, at),
                n,
                flow::inputs_of(sim.automation.edges, id, p.outputs),
                prev,
                p.standing.variables,
                None,
                o,
            );
            let (devices, events) = if flow::turns_true(prev.last_value, step.value) {
                switched_ahead(sim, n.config, p.devices, p.events, at)
            } else {
                (p.devices, p.events)
            };
            let kept = flow::settled(n.config, step.state, step.value);
            Pass {
                outputs: table::put(p.outputs, id, step.value),
                fresh: table::put(p.fresh, id, kept),
                standing: SimStateModel {
                    states: table::put(p.standing.states, id, kept),
                    variables: step.variables,
                },
                devices,
                events,
            }
        },
    }
}

/// A moment of one automation, with its first `n` blocks done.
pub open spec fn pass(
    sim: SimModel,
    standing: SimStateModel,
    devices: Seq<(Seq<char>, bool)>,
    events: Seq<ForecastEventModel>,
    readings: Seq<(Seq<char>, (Option<bool>, bool))>,
    previous: u128,
    at: u128,
    n: int,
    o: Oracle,
) -> Pass
    decreases n,
{
    if n <= 0 || n > sim.order.len() {
        Pass { outputs: Seq::empty(), fresh: Seq::empty(), standing, devices, events }
    } else {
        block_ahead(
            sim,
            pass(sim, standing, devices, events, readings, previous, at, n - 1, o),
            sim.order[n - 1],
            readings,
            previous,
            at,
            o,
        )
    }
}

fn switch_ahead(
    sim: &Sim,
    config: &AutomationNodeConfig,
    devices: &mut Table<bool>,
    events: &mut Vec<ForecastEvent>,
    at: u128,
)
    ensures
        (final(devices).deep_view(), final(events).deep_view()) == switched_ahead(
            sim.deep_view(),
            config.deep_view(),
            old(devices).deep_view(),
            old(events).deep_view(),
            at,
        ),
{
    if let Some((device, action)) = device_action(config) {
        let current = match devices.get(device.as_str()) {
            Some(on) => Some(*on),
            None => None,
        };
        let is_on = match current {
            Some(on) => on,
            None => false,
        };
        let target = match action {
            ScheduleAction::On => true,
            ScheduleAction::Off => false,
            ScheduleAction::Toggle => !is_on,
        };
        if current.is_none() || is_on != target {
            devices.insert(device.clone(), target);
            let ghost had = events.deep_view();
            let event = ForecastEvent {
                at_ms: at,
                device_name: device,
                action: if target {
                    ScheduleAction::On
                } else {
                    ScheduleAction::Off
                },
                automation_id: sim.automation.id.clone(),
                automation_name: sim.automation.name.clone(),
            };
            let ghost m = event.deep_view();
            events.push(event);
            proof {
                assert(events.deep_view() =~= had.push(m));
            }
        }
    }
}

fn run_pass<H: Fn(Ask) -> Answer>(
    sim: &Sim,
    standing: SimState,
    devices: &mut Table<bool>,
    events: &mut Vec<ForecastEvent>,
    readings: &Table<(Option<bool>, bool)>,
    previous: u128,
    at: u128,
    host: &H,
) -> (r: SimState)
    requires
        host::faithful(*host),
    ensures
        ({
            let p = pass(
                sim.deep_view(),
                standing.deep_view(),
                old(devices).deep_view(),
                old(events).deep_view(),
                readings.deep_view(),
                previous,
                at,
                sim.order@.len() as int,
                host::oracle(*host),
            );
            r.deep_view() == p.standing && final(devices).deep_view() == p.devices && final(events).deep_view()
                == p.events
        }),
{
    let ghost o = host::oracle(*host);
    let ghost m = sim.deep_view();
    let ghost s0 = standing.deep_view();
    let ghost d0 = devices.deep_view();
    let ghost e0 = events.deep_view();
    let ghost rd = readings.deep_view();
    let mut states = standing.states;
    let mut variables = standing.variables;
    let mut outputs: Table<Option<bool>> = Table::new();
    let mut fresh: Table<NodeRuntimeState> = Table::new();
    let mut i: usize = 0;
    while i < sim.order.len()
        invariant
            host::faithful(*host),
            o == host::oracle(*host),
            m == sim.deep_view(),
            rd == readings.deep_view(),
            i <= sim.order@.len(),
            (Pass {
                outputs: outputs.deep_view(),
                fresh: fresh.deep_view(),
                standing: SimStateModel { states: states.deep_view(), variables: variables.deep_view() },
                devices: devices.deep_view(),
                events: events.deep_view(),
            }) == pass(m, s0, d0, e0, rd, previous, at, i as int, o),
        decreases sim.order@.len() - i,
    {
        let id = sim.order[i].as_str();
        proof {
            assert(m.order[i as int] == id@);
        }
        if let Some(n) = find_node(&sim.automation.nodes, id) {
            let prev = stored_state(&states, id);
            let inputs = gather_inputs(&sim.automation.edges, id, &outputs);
            let scene = Scene {
                automation_id: sim.automation.id.as_str(),
                committed: &sim.automation.status.node_states,
                fresh: Some(&fresh),
                devices,
                readings,
                previous_tick_ms: previous,
                tick_ms: at,
                simulate: true,
            };
            let (value, state) = evaluate_node(&scene, n, &inputs, &prev, &mut variables, None, host);
            if is_turning_true(prev.last_value, value) {
                switch_ahead(sim, &n.config, devices, events, at);
            }
            let kept = settle(&n.config, state, value);
            outputs.insert(id.to_owned(), value);
            fresh.insert(id.to_owned(), kept.dup());
            states.insert(id.to_owned(), kept);
        }
        i = i + 1;
    }
    SimState { states, variables }
}

// ---------- All automations, moment by moment ----------

/// All automations that are run ahead, at one moment.
#[verifier::ext_equal]
pub struct World {
    pub standings: Seq<SimStateModel>,
    pub devices: Seq<(Seq<char>, bool)>,
    pub events: Seq<ForecastEventModel>,
}

/// A moment, with the first `n` automations done.
pub open spec fn round(
    sims: Seq<SimModel>,
    w: World,
    readings: Seq<(Seq<char>, (Option<bool>, bool))>,
    previous: u128,
    at: u128,
    n: int,
    o: Oracle,
) -> World
    decreases n,
{
    if n <= 0 || n > sims.len() {
        w
    } else {
        let before = round(sims, w, readings, previous, at, n - 1, o);
        let p = pass(
            sims[n - 1],
            before.standings[n - 1],
            before.devices,
            before.events,
            readings,
            previous,
            at,
            sims[n - 1].order.len() as int,
            o,
        );
        World {
            standings: before.standings.update(n - 1, p.standing),
            devices: p.devices,
            events: p.events,
        }
    }
}

/// The events from the moment `at` on, up to the horizon or until there are
/// enough.
pub open spec fn events_from(
    sims: Seq<SimModel>,
    w: World,
    readings: Seq<(Seq<char>, (Option<bool>, bool))>,
    at: int,
    horizon: int,
    step: int,
    o: Oracle,
) -> Seq<ForecastEventModel>
    decreases (if at > horizon { 0 } else { horizon - at + 1 }),
{
    if step <= 0 || at > horizon || w.events.len() >= 500 {
        w.events
    } else {
        events_from(
            sims,
            round(sims, w, readings, (at - step) as u128, at as u128, sims.len() as int, o),
            readings,
            at + step,
            horizon,
            step,
            o,
        )
    }
}

/// The world when a forecast begins.
pub open spec fn first_world(sims: Seq<SimModel>, devices: Seq<(Seq<char>, bool)>) -> World {
    World { standings: standing_of(sims), devices, events: Seq::empty() }
}

/// The changes that are expected after `now`, up to the horizon, looked for
/// every `step`; the first five hundred.
pub open spec fn forecast(
    automations: Seq<(Seq<char>, AutomationModel)>,
    devices: Seq<(Seq<char>, bool)>,
    readings: Seq<(Seq<char>, (Option<bool>, bool))>,
    now: u128,
    horizon: u128,
    step: u128,
    o: Oracle,
) -> Seq<ForecastEventModel> {
    if step == 0 || horizon <= now {
        Seq::empty()
    } else {
        let sims = sims_of(automations, automations.len() as int);
        let all = events_from(sims, first_world(sims, devices), readings, now + step, horizon as int, step as int, o);
        if all.len() > 500 {
            all.take(500)
        } else {
            all
        }
    }
}

fn run_round<H: Fn(Ask) -> Answer>(
    sims: &Vec<Sim>,
    standings: &mut Vec<SimState>,
    devices: &mut Table<bool>,
    events: &mut Vec<ForecastEvent>,
    readings: &Table<(Option<bool>, bool)>,
    previous: u128,
    at: u128,
    host: &H,
)
    requires
        host::faithful(*host),
        old(standings)@.len() == sims@.len(),
    ensures
        final(standings)@.len() == sims@.len(),
        (World {
            standings: final(standings).deep_view(),
            devices: final(devices).deep_view(),
            events: final(events).deep_view(),
        }) == round(
            sims.deep_view(),
            (World {
                standings: old(standings).deep_view(),
                devices: old(devices).deep_view(),
                events: old(events).deep_view(),
            }),
            readings.deep_view(),
            previous,
            at,
            sims@.len() as int,
            host::oracle(*host),
        ),
{
    let ghost o = host::oracle(*host);
    let ghost ms = sims.deep_view();
    let ghost rd = readings.deep_view();
    let ghost w = World {
        standings: standings.deep_view(),
        devices: devices.deep_view(),
        events: events.deep_view(),
    };
    let mut i: usize = 0;
    while i < sims.len()
        invariant
            host::faithful(*host),
            o == host::oracle(*host),
            ms == sims.deep_view(),
            rd == readings.deep_view(),
            i <= sims@.len(),
            standings@.len() == sims@.len(),
            (World {
                standings: standings.deep_view(),
                devices: devices.deep_view(),
                events: events.deep_view(),
            }) == round(ms, w, rd, previous, at, i as int, o),
        decreases sims@.len() - i,
    {
        let ghost before = standings.deep_view();
        proof {
            assert(ms[i as int] == sims@[i as int].deep_view());
            assert(before[i as int] == standings@[i as int].deep_view());
        }
        let standing = standings[i].dup();
        let next = run_pass(&sims[i], standing, devices, events, readings, previous, at, host);
        let ghost m = next.deep_view();
        standings.set(i, next);
        proof {
            assert(standings.deep_view() =~= before.update(i as int, m));
        }
        i = i + 1;
    }
}

/// The changes of devices that are expected after `now`, up to the horizon.
pub fn simulate_forecast<H: Fn(Ask) -> Answer>(
    automations: &Table<Automation>,
    device_states: &Table<bool>,
    readings: &Table<(Option<bool>, bool)>,
    now: u128,
    horizon: u128,
    step: u128,
    host: &H,
) -> (r: Vec<ForecastEvent>)
    requires
        host::faithful(*host),
        horizon + step <= u128::MAX,
    ensures
        r.deep_view() == forecast(
            automations.deep_view(),
            device_states.deep_view(),
            readings.deep_view(),
            now,
            horizon,
            step,
            host::oracle(*host),
        ),
{
    let ghost o = host::oracle(*host);
    let ghost rd = readings.deep_view();
    let mut events: Vec<ForecastEvent> = Vec::new();
    proof {
        assert(events.deep_view() =~= Seq::<ForecastEventModel>::empty());
    }
    if step == 0 || horizon <= now {
        return events;
    }
    let sims = collect_sims(automations);
    let mut standings = begin_states(&sims);
    let mut devices = device_states.dup();
    proof {
        assert(standings.deep_view().len() == sims.deep_view().len());
    }
    let ghost ms = sims.deep_view();
    let ghost w = first_world(ms, device_states.deep_view());
    let mut at: u128 = now + step;
    while at <= horizon && events.len() < MAX_EVENTS
        invariant
            host::faithful(*host),
            o == host::oracle(*host),
            rd == readings.deep_view(),
            ms == sims.deep_view(),
            0 < step <= at,
            horizon + step <= u128::MAX,
            standings@.len() == sims@.len(),
            events_from(ms, w, rd, now + step, horizon as int, step as int, o) == events_from(
                ms,
                (World {
                    standings: standings.deep_view(),
                    devices: devices.deep_view(),
                    events: events.deep_view(),
                }),
                rd,
                at as int,
                horizon as int,
                step as int,
                o,
            ),
        decreases horizon + step - at,
    {
        run_round(&sims, &mut standings, &mut devices, &mut events, readings, at - step, at, host);
        at = at + step;
    }
    let ghost all = events.deep_view();
    while events.len() > MAX_EVENTS
        invariant
            events@.len() <= all.len(),
            events.deep_view() == all.take(events@.len() as int),
            all.len() > 500 ==> events@.len() >= 500,
            all.len() <= 500 ==> events@.len() == all.len(),
        decreases events@.len(),
    {
        let ghost before = events@;
        events.pop();
        proof {
            assert(events.deep_view() =~= all.take(events@.len() as int)) by {
                assert forall|j: int| 0 <= j < events@.len() implies events.deep_view()[j] == all[j] by {
                    assert(events@[j] == before[j]);
                    assert(all.take(before.len() as int)[j] == before[j].deep_view()) by {
                        assert(Seq::new(before.len(), |i: int| before[i].deep_view())[j] == before[j].deep_view());
                    }
                }
            }
        }
    }
    proof {
        assert(all.take(all.len() as int) =~= all);
    }
    events
}

// ---------- Laws of forecasts ----------

/// The events stand in the order of their moments, none of them outside the
/// bounds.
pub open spec fn in_time(events: Seq<ForecastEventModel>, from: int, to: int) -> bool {
    &&& forall|i: int| 0 <= i < events.len() ==> from < (#[trigger] events[i]).at_ms <= to
    &&& forall|i: int, j: int|
        0 <= i < j < events.len() ==> (#[trigger] events[i]).at_ms <= (#[trigger] events[j]).at_ms
}

proof fn pass_keeps_time(
    sim: SimModel,
    standing: SimStateModel,
    devices: Seq<(Seq<char>, bool)>,
    events: Seq<ForecastEventModel>,
    readings: Seq<(Seq<char>, (Option<bool>, bool))>,
    previous: u128,
    at: u128,
    n: int,
    o: Oracle,
    from: int,
)
    requires
        in_time(events, from, at as int),
        from < at,
    ensures
        in_time(pass(sim, standing, devices, events, readings, previous, at, n, o).events, from, at as int),
    decreases n,
{
    if 0 < n <= sim.order.len() {
        pass_keeps_time(sim, standing, devices, events, readings, previous, at, n - 1, o, from);
    }
}

proof fn round_keeps_time(
    sims: Seq<SimModel>,
    w: World,
    readings: Seq<(Seq<char>, (Option<bool>, bool))>,
    previous: u128,
    at: u128,
    n: int,
    o: Oracle,
    from: int,
)
    requires
        in_time(w.events, from, at as int),
        from < at,
    ensures
        in_time(round(sims, w, readings, previous, at, n, o).events, from, at as int),
    decreases n,
{
    if 0 < n <= sims.len() {
        round_keeps_time(sims, w, readings, previous, at, n - 1, o, from);
        let before = round(sims, w, readings, previous, at, n - 1, o);
        pass_keeps_time(
            sims[n - 1],
            before.standings[n - 1],
            before.devices,
            before.events,
            readings,
            previous,
            at,
            sims[n - 1].order.len() as int,
            o,
            from,
        );
    }
}

proof fn events_keep_time(
    sims: Seq<SimModel>,
    w: World,
    readings: Seq<(Seq<char>, (Option<bool>, bool))>,
    at: int,
    horizon: int,
    step: int,
    o: Oracle,
    from: int,
)
    requires
        0 <= from < at,
        0 < step,
        horizon <= u128::MAX,
        at - step <= horizon,
        in_time(w.events, from, at - step),
    ensures
        in_time(events_from(sims, w, readings, at, horizon, step, o), from, horizon),
    decreases (if at > horizon { 0 } else { horizon - at + 1 }),
{
    if at > horizon || w.events.len() >= 500 {
        assert(in_time(w.events, from, horizon));
    } else {
        assert(in_time(w.events, from, at));
        round_keeps_time(sims, w, readings, (at - step) as u128, at as u128, sims.len() as int, o, from);
        events_keep_time(
            sims,
            round(sims, w, readings, (at - step) as u128, at as u128, sims.len() as int, o),
            readings,
            at + step,
            horizon,
            step,
            o,
            from,
        );
    }
}

/// A forecast holds at most five hundred changes, all of them after now and not
/// beyond the horizon, the earlier before the later.
pub proof fn forecasts_run_forward(
    automations: Seq<(Seq<char>, AutomationModel)>,
    devices: Seq<(Seq<char>, bool)>,
    readings: Seq<(Seq<char>, (Option<bool>, bool))>,
    now: u128,
    horizon: u128,
    step: u128,
    o: Oracle,
)
    ensures
        forecast(automations, devices, readings, now, horizon, step, o).len() <= 500,
        in_time(forecast(automations, devices, readings, now, horizon, step, o), now as int, horizon as int),
{
    if step > 0 && horizon > now {
        let sims = sims_of(automations, automations.len() as int);
        events_keep_time(
            sims,
            first_world(sims, devices),
            readings,
            now + step,
            horizon as int,
            step as int,
            o,
            now as int,
        );
    }
}

/// Every event lies a whole number of steps after `from`.
pub open spec fn on_steps(events: Seq<ForecastEventModel>, from: int, step: int) -> bool {
    forall|i: int| 0 <= i < events.len() ==> ((#[trigger] events[i]).at_ms - from) % step == 0
}

proof fn pass_keeps_steps(
    sim: SimModel,
    standing: SimStateModel,
    devices: Seq<(Seq<char>, bool)>,
    events: Seq<ForecastEventModel>,
    readings: Seq<(Seq<char>, (Option<bool>, bool))>,
    previous: u128,
    at: u128,
    n: int,
    o: Oracle,
    from: int,
    step: int,
)
    requires
        on_steps(events, from, step),
        (at - from) % step == 0,
    ensures
        on_steps(pass(sim, standing, devices, events, readings, previous, at, n, o).events, from, step),
    decreases n,
{
    if 0 < n <= sim.order.len() {
        pass_keeps_steps(sim, standing, devices, events, readings, previous, at, n - 1, o, from, step);
    }
}

proof fn round_keeps_steps(
    sims: Seq<SimModel>,
    w: World,
    readings: Seq<(Seq<char>, (Option<bool>, bool))>,
    previous: u128,
    at: u128,
    n: int,
    o: Oracle,
    from: int,
    step: int,
)
    requires
        on_steps(w.events, from, step),
        (at - from) % step == 0,
    ensures
        on_steps(round(sims, w, readings, previous, at, n, o).events, from, step),
    decreases n,
{
    if 0 < n <= sims.len() {
        round_keeps_steps(sims, w, readings, previous, at, n - 1, o, from, step);
        let before = round(sims, w, readings, previous, at, n - 1, o);
        pass_keeps_steps(
            sims[n - 1],
            before.standings[n - 1],
            before.devices,
            before.events,
            readings,
            previous,
            at,
            sims[n - 1].order.len() as int,
            o,
            from,
            step,
        );
    }
}

proof fn events_keep_steps(
    sims: Seq<SimModel>,
    w: World,
    readings: Seq<(Seq<char>, (Option<bool>, bool))>,
    at: int,
    horizon: int,
    step: int,
    o: Oracle,
    from: int,
)
    requires
        0 <= at,
        0 < step,
        horizon <= u128::MAX,
        (at - from) % step == 0,
        on_steps(w.events, from, step),
    ensures
        on_steps(events_from(sims, w, readings, at, horizon, step, o), from, step),
    decreases (if at > horizon { 0 } else { horizon - at + 1 }),
{
    if !(at > horizon || w.events.len() >= 500) {
        round_keeps_steps(sims, w, readings, (at - step) as u128, at as u128, sims.len() as int, o, from, step);
        vstd::arithmetic::div_mod::lemma_mod_add_multiples_vanish(at - from, step);
        assert(step + (at - from) == at + step - from);
        events_keep_steps(
            sims,
            round(sims, w, readings, (at - step) as u128, at as u128, sims.len() as int, o),
            readings,
            at + step,
            horizon,
            step,
            o,
            from,
        );
    }
}

/// Every change in a forecast lies a whole number of steps after now.
pub proof fn forecasts_go_by_steps(
    automations: Seq<(Seq<char>, AutomationModel)>,
    devices: Seq<(Seq<char>, bool)>,
    readings: Seq<(Seq<char>, (Option<bool>, bool))>,
    now: u128,
    horizon: u128,
    step: u128,
    o: Oracle,
)
    ensures
        on_steps(forecast(automations, devices, readings, now, horizon, step, o), now as int, step as int),
{
    if step > 0 && horizon > now {
        let sims = sims_of(automations, automations.len() as int);
        vstd::arithmetic::div_mod::lemma_mod_self_0(step as int);
        events_keep_steps(
            sims,
            first_world(sims, devices),
            readings,
            now + step,
            horizon as int,
            step as int,
            o,
            now as int,
        );
    }
}

/// Whether a device is on after the first `n` events, if that is known.
pub open spec fn on_after(
    devices: Seq<(Seq<char>, bool)>,
    events: Seq<ForecastEventModel>,
    name: Seq<char>,
    n: int,
) -> Option<bool>
    decreases n,
{
    if n <= 0 || n > events.len() {
        table::lookup(devices, name)
    } else if events[n - 1].device_name == name {
        Some(events[n - 1].action == ScheduleAction::On)
    } else {
        on_after(devices, events, name, n - 1)
    }
}

/// Each event turns its device on or off, and the device was not so before.
pub open spec fn each_changes(devices: Seq<(Seq<char>, bool)>, events: Seq<ForecastEventModel>) -> bool {
    forall|i: int|
        0 <= i < events.len() ==> (#[trigger] events[i]).action != ScheduleAction::Toggle && on_after(
            devices,
            events,
            events[i].device_name,
            i,
        ) != Some(events[i].action == ScheduleAction::On)
}

/// The events are changes, and lead from the devices at first to those now.
pub open spec fn leads_to(
    first: Seq<(Seq<char>, bool)>,
    events: Seq<ForecastEventModel>,
    now: Seq<(Seq<char>, bool)>,
) -> bool {
    &&& each_changes(first, events)
    &&& forall|name: Seq<char>| #[trigger]
        table::lookup(now, name) == on_after(first, events, name, events.len() as int)
}

proof fn earlier_events_decide(
    devices: Seq<(Seq<char>, bool)>,
    events: Seq<ForecastEventModel>,
    longer: Seq<ForecastEventModel>,
    name: Seq<char>,
    n: int,
)
    requires
        0 <= n <= events.len() <= longer.len(),
        forall|i: int| 0 <= i < events.len() ==> #[trigger] longer[i] == events[i],
    ensures
        on_after(devices, longer, name, n) == on_after(devices, events, name, n),
    decreases n,
{
    if n > 0 {
        assert(longer[n - 1] == events[n - 1]);
        earlier_events_decide(devices, events, longer, name, n - 1);
    }
}

proof fn switching_leads_on(
    first: Seq<(Seq<char>, bool)>,
    sim: SimModel,
    c: AutomationNodeConfigModel,
    devices: Seq<(Seq<char>, bool)>,
    events: Seq<ForecastEventModel>,
    at: u128,
)
    requires
        leads_to(first, events, devices),
    ensures
        leads_to(
            first,
            switched_ahead(sim, c, devices, events, at).1,
            switched_ahead(sim, c, devices, events, at).0,
        ),
{
    let (then_devices, then_events) = switched_ahead(sim, c, devices, events, at);
    if then_events != events {
        let (device, action) = flow::device_deed(c)->0;
        let target = expected(action, table::lookup(devices, device));
        let e = then_events.last();
        assert(then_events =~= events.push(e));
        assert forall|i: int| 0 <= i < then_events.len() implies (#[trigger] then_events[i]).action
            != ScheduleAction::Toggle && on_after(first, then_events, then_events[i].device_name, i) != Some(
            then_events[i].action == ScheduleAction::On,
        ) by {
            earlier_events_decide(first, events, then_events, then_events[i].device_name, i);
            if i < events.len() {
                assert(then_events[i] == events[i]);
            } else {
                assert(table::lookup(devices, device) == on_after(first, events, device, events.len() as int));
            }
        }
        assert forall|name: Seq<char>| #[trigger] table::lookup(then_devices, name) == on_after(
            first,
            then_events,
            name,
            then_events.len() as int,
        ) by {
            table::put_then_lookup(devices, device, target, name);
            earlier_events_decide(first, events, then_events, name, events.len() as int);
            assert(table::lookup(devices, name) == on_after(first, events, name, events.len() as int));
        }
    }
}

proof fn pass_leads_on(
    first: Seq<(Seq<char>, bool)>,
    sim: SimModel,
    standing: SimStateModel,
    devices: Seq<(Seq<char>, bool)>,
    events: Seq<ForecastEventModel>,
    readings: Seq<(Seq<char>, (Option<bool>, bool))>,
    previous: u128,
    at: u128,
    n: int,
    o: Oracle,
)
    requires
        leads_to(first, events, devices),
    ensures
        ({
            let p = pass(sim, standing, devices, events, readings, previous, at, n, o);
            leads_to(first, p.events, p.devices)
        }),
    decreases n,
{
    if 0 < n <= sim.order.len() {
        pass_leads_on(first, sim, standing, devices, events, readings, previous, at, n - 1, o);
        let p = pass(sim, standing, devices, events, readings, previous, at, n - 1, o);
        if let Some(node) = flow::node_from(sim.automation.nodes, sim.order[n - 1], 0) {
            switching_leads_on(first, sim, node.config, p.devices, p.events, at);
        }
    }
}

proof fn round_leads_on(
    first: Seq<(Seq<char>, bool)>,
    sims: Seq<SimModel>,
    w: World,
    readings: Seq<(Seq<char>, (Option<bool>, bool))>,
    previous: u128,
    at: u128,
    n: int,
    o: Oracle,
)
    requires
        leads_to(first, w.events, w.devices),
    ensures
        leads_to(
            first,
            round(sims, w, readings, previous, at, n, o).events,
            round(sims, w, readings, previous, at, n, o).devices,
        ),
    decreases n,
{
    if 0 < n <= sims.len() {
        round_leads_on(first, sims, w, readings, previous, at, n - 1, o);
        let before = round(sims, w, readings, previous, at, n - 1, o);
        pass_leads_on(
            first,
            sims[n - 1],
            before.standings[n - 1],
            before.devices,
            before.events,
            readings,
            previous,
            at,
            sims[n - 1].order.len() as int,
            o,
        );
    }
}

proof fn events_are_changes(
    first: Seq<(Seq<char>, bool)>,
    sims: Seq<SimModel>,
    w: World,
    readings: Seq<(Seq<char>, (Option<bool>, bool))>,
    at: int,
    horizon: int,
    step: int,
    o: Oracle,
)
    requires
        leads_to(first, w.events, w.devices),
    ensures
        each_changes(first, events_from(sims, w, readings, at, horizon, step, o)),
    decreases (if at > horizon { 0 } else { horizon - at + 1 }),
{
    if step > 0 && at <= horizon && w.events.len() < 500 {
        round_leads_on(first, sims, w, readings, (at - step) as u128, at as u128, sims.len() as int, o);
        events_are_changes(
            first,
            sims,
            round(sims, w, readings, (at - step) as u128, at as u128, sims.len() as int, o),
            readings,
            at + step,
            horizon,
            step,
            o,
        );
    }
}

/// Every event of a forecast turns a device on or off that was not so before,
/// by the devices at first and the events until then.
pub proof fn forecasts_tell_changes_only(
    automations: Seq<(Seq<char>, AutomationModel)>,
    devices: Seq<(Seq<char>, bool)>,
    readings: Seq<(Seq<char>, (Option<bool>, bool))>,
    now: u128,
    horizon: u128,
    step: u128,
    o: Oracle,
)
    ensures
        each_changes(devices, forecast(automations, devices, readings, now, horizon, step, o)),
{
    if step > 0 && horizon > now {
        let sims = sims_of(automations, automations.len() as int);
        let all = events_from(sims, first_world(sims, devices), readings, now + step, horizon as int, step as int, o);
        events_are_changes(
            devices,
            sims,
            first_world(sims, devices),
            readings,
            now + step,
            horizon as int,
            step as int,
            o,
        );
        let told = forecast(automations, devices, readings, now, horizon, step, o);
        assert forall|i: int| 0 <= i < told.len() implies (#[trigger] told[i]).action != ScheduleAction::Toggle
            && on_after(devices, told, told[i].device_name, i) != Some(told[i].action == ScheduleAction::On) by {
            assert(told[i] == all[i]);
            earlier_events_decide(devices, told, all, told[i].device_name, i);
        }
    }
}

/// Switching ahead does what the block says: a block that turns a device on
/// leaves it on, one that turns it off leaves it off, and one that toggles it
/// leaves it the other way, on where it was not known. What is told is that
/// very switch, once, and nothing where the device was so already.
pub proof fn switching_ahead_does_as_told(
    sim: SimModel,
    device: Seq<char>,
    action: ScheduleAction,
    devices: Seq<(Seq<char>, bool)>,
    events: Seq<ForecastEventModel>,
    at: u128,
    other: Seq<char>,
)
    requires
        device.len() > 0,
    ensures
        ({
            let c = AutomationNodeConfigModel::SetDevice {
                set_device: SetDeviceCfgModel { device_name: device, action },
            };
            let (then_devices, then_events) = switched_ahead(sim, c, devices, events, at);
            let was = table::lookup(devices, device);
            let stands = table::lookup(then_devices, device);
            &&& action is On ==> stands == Some(true)
            &&& action is Off ==> stands == Some(false)
            &&& action is Toggle ==> stands is Some && stands != was && (was is None ==> stands == Some(true))
            &&& other != device ==> table::lookup(then_devices, other) == table::lookup(devices, other)
            &&& stands == was ==> then_events == events
            &&& stands != was ==> then_events == events.push(
                ForecastEventModel {
                    at_ms: at,
                    device_name: device,
                    action: if stands == Some(true) {
                        ScheduleAction::On
                    } else {
                        ScheduleAction::Off
                    },
                    automation_id: sim.automation.id,
                    automation_name: sim.automation.name,
                },
            )
            &&& switched_ahead(
                sim,
                AutomationNodeConfigModel::ToggleDevice { toggle_device: ToggleDeviceCfgModel { device_name: device } },
                devices,
                events,
                at,
            ) == switched_ahead(
                sim,
                AutomationNodeConfigModel::SetDevice {
                    set_device: SetDeviceCfgModel { device_name: device, action: ScheduleAction::Toggle },
                },
                devices,
                events,
                at,
            )
        }),
{
    let was = table::lookup(devices, device);
    let target = expected(action, was);
    table::put_then_lookup(devices, device, target, device);
    table::put_then_lookup(devices, device, target, other);
}

/// Blocks that drive no device, or name none, switch nothing.
pub proof fn other_blocks_switch_nothing(
    sim: SimModel,
    c: AutomationNodeConfigModel,
    devices: Seq<(Seq<char>, bool)>,
    events: Seq<ForecastEventModel>,
    at: u128,
)
    requires
        c matches AutomationNodeConfigModel::SetDevice { set_device } ==> set_device.device_name.len() == 0,
        c matches AutomationNodeConfigModel::ToggleDevice { toggle_device } ==> toggle_device.device_name.len() == 0,
    ensures
        switched_ahead(sim, c, devices, events, at) == (devices, events),
{
}

/// When a block that turns a device on or off turns true at a moment, and the
/// device does not stand so yet, the pass tells at that moment that the device
/// is turned so, by this automation. While the block stays true it tells
/// nothing more.
pub proof fn blocks_ahead_tell_their_switch(
    sim: SimModel,
    p: Pass,
    id: Seq<char>,
    cfg: SetDeviceCfgModel,
    readings: Seq<(Seq<char>, (Option<bool>, bool))>,
    previous: u128,
    at: u128,
    o: Oracle,
    i: int,
)
    requires
        flow::node_from(sim.automation.nodes, id, 0) matches Some(n) && n.config == (
        AutomationNodeConfigModel::SetDevice { set_device: cfg }),
        cfg.device_name.len() > 0,
        0 <= i < flow::inputs_of(sim.automation.edges, id, p.outputs).len(),
        flow::inputs_of(sim.automation.edges, id, p.outputs)[i].value == Some(true),
    ensures
        ({
            let next = block_ahead(sim, p, id, readings, previous, at, o);
            let standing = table::lookup(p.standing.states, id);
            let was_true = standing matches Some(state) && state.last_value == Some(true);
            &&& !was_true && cfg.action is On && table::lookup(p.devices, cfg.device_name) != Some(true) ==> {
                &&& next.events.len() == p.events.len() + 1
                &&& next.events.last().action is On
                &&& next.events.last().at_ms == at
                &&& next.events.last().device_name == cfg.device_name
                &&& next.events.last().automation_id == sim.automation.id
                &&& table::lookup(next.devices, cfg.device_name) == Some(true)
            }
            &&& !was_true && cfg.action is Off && table::lookup(p.devices, cfg.device_name) != Some(false) ==> {
                &&& next.events.len() == p.events.len() + 1
                &&& next.events.last().action is Off
                &&& next.events.last().at_ms == at
                &&& next.events.last().device_name == cfg.device_name
                &&& next.events.last().automation_id == sim.automation.id
                &&& table::lookup(next.devices, cfg.device_name) == Some(false)
            }
            &&& was_true ==> next.events == p.events && next.devices == p.devices
            &&& table::lookup(next.standing.states, id) matches Some(state) && state.last_value == Some(true)
            &&& table::lookup(next.outputs, id) == Some(Some(true))
        }),
{
    let n = flow::node_from(sim.automation.nodes, id, 0)->0;
    let inputs = flow::inputs_of(sim.automation.edges, id, p.outputs);
    let prev = flow::state_or_fresh(p.standing.states, id);
    let scene = ahead_scene(sim, p, readings, previous, at);
    node::actions_follow_their_inputs(scene, n, inputs, prev, p.standing.variables, None, o);
    assert(inputs[i].value == Some(true));
    let step = node::node_step(scene, n, inputs, prev, p.standing.variables, None, o);
    let kept = flow::settled(n.config, step.state, step.value);
    table::put_then_lookup(p.standing.states, id, kept, id);
    table::put_then_lookup(p.outputs, id, step.value, id);
    switching_ahead_does_as_told(sim, cfg.device_name, cfg.action, p.devices, p.events, at, cfg.device_name);
}

/// The automation asks for the switch that the event tells: it is enabled, goes
/// by the id and the name told, and has a block for that device that turns it
/// so or that toggles it.
pub open spec fn asks_for(a: AutomationModel, e: ForecastEventModel) -> bool {
    &&& a.enabled
    &&& e.automation_id == a.id
    &&& e.automation_name == a.name
    &&& exists|j: int|
        0 <= j < a.nodes.len() && match (#[trigger] a.nodes[j]).config {
            AutomationNodeConfigModel::SetDevice { set_device } => set_device.device_name == e.device_name && (
            set_device.action == e.action || set_device.action is Toggle),
            AutomationNodeConfigModel::ToggleDevice { toggle_device } => toggle_device.device_name == e.device_name,
            _ => false,
        }
}

/// Every event is asked for by one of the automations.
pub open spec fn all_asked_for(automations: Seq<(Seq<char>, AutomationModel)>, events: Seq<ForecastEventModel>) -> bool {
    forall|i: int| 0 <= i < events.len() ==> asked_for(automations, #[trigger] events[i])
}

/// One of the automations asks for the event.
pub open spec fn asked_for(automations: Seq<(Seq<char>, AutomationModel)>, e: ForecastEventModel) -> bool {
    exists|k: int| 0 <= k < automations.len() && asks_for((#[trigger] automations[k]).1, e)
}

proof fn found_block_is_one(nodes: Seq<AutomationNodeModel>, id: Seq<char>, i: int)
    requires
        0 <= i,
    ensures
        flow::node_from(nodes, id, i) matches Some(n) ==> exists|j: int| i <= j < nodes.len() && #[trigger] nodes[j] == n,
    decreases nodes.len() - i,
{
    if i < nodes.len() && nodes[i].id != id {
        found_block_is_one(nodes, id, i + 1);
    } else if i < nodes.len() {
        assert(nodes[i] == nodes[i]);
    }
}

proof fn pass_is_asked_for(
    automations: Seq<(Seq<char>, AutomationModel)>,
    k: int,
    sim: SimModel,
    standing: SimStateModel,
    devices: Seq<(Seq<char>, bool)>,
    events: Seq<ForecastEventModel>,
    readings: Seq<(Seq<char>, (Option<bool>, bool))>,
    previous: u128,
    at: u128,
    n: int,
    o: Oracle,
)
    requires
        0 <= k < automations.len(),
        sim.automation == automations[k].1,
        sim.automation.enabled,
        all_asked_for(automations, events),
    ensures
        all_asked_for(automations, pass(sim, standing, devices, events, readings, previous, at, n, o).events),
    decreases n,
{
    if 0 < n <= sim.order.len() {
        pass_is_asked_for(automations, k, sim, standing, devices, events, readings, previous, at, n - 1, o);
        let p = pass(sim, standing, devices, events, readings, previous, at, n - 1, o);
        let next = pass(sim, standing, devices, events, readings, previous, at, n, o);
        let id = sim.order[n - 1];
        found_block_is_one(sim.automation.nodes, id, 0);
        if next.events != p.events {
            let node = flow::node_from(sim.automation.nodes, id, 0)->0;
            let j = choose|j: int| 0 <= j < sim.automation.nodes.len() && #[trigger] sim.automation.nodes[j] == node;
            let e = next.events.last();
            assert(next.events == p.events.push(e));
            assert(asks_for(automations[k].1, e)) by {
                assert(sim.automation.nodes[j] == node);
            }
            assert(asked_for(automations, e));
            assert forall|i: int| 0 <= i < next.events.len() implies asked_for(automations, #[trigger] next.events[i]) by {
                if i < p.events.len() {
                    assert(next.events[i] == p.events[i]);
                }
            }
        }
    }
}

/// The runs are those of automations that are stored and enabled.
pub open spec fn all_enabled(automations: Seq<(Seq<char>, AutomationModel)>, sims: Seq<SimModel>) -> bool {
    forall|i: int| 0 <= i < sims.len() ==> is_enabled(automations, #[trigger] sims[i])
}

/// The run is that of an automation that is stored and enabled.
pub open spec fn is_enabled(automations: Seq<(Seq<char>, AutomationModel)>, sim: SimModel) -> bool {
    sim.automation.enabled && exists|k: int|
        0 <= k < automations.len() && sim.automation == (#[trigger] automations[k]).1
}

proof fn round_is_asked_for(
    automations: Seq<(Seq<char>, AutomationModel)>,
    sims: Seq<SimModel>,
    w: World,
    readings: Seq<(Seq<char>, (Option<bool>, bool))>,
    previous: u128,
    at: u128,
    n: int,
    o: Oracle,
)
    requires
        all_enabled(automations, sims),
        all_asked_for(automations, w.events),
    ensures
        all_asked_for(automations, round(sims, w, readings, previous, at, n, o).events),
    decreases n,
{
    if 0 < n <= sims.len() {
        round_is_asked_for(automations, sims, w, readings, previous, at, n - 1, o);
        let before = round(sims, w, readings, previous, at, n - 1, o);
        assert(is_enabled(automations, sims[n - 1]));
        let k = choose|k: int| 0 <= k < automations.len() && sims[n - 1].automation == (#[trigger] automations[k]).1;
        pass_is_asked_for(
            automations,
            k,
            sims[n - 1],
            before.standings[n - 1],
            before.devices,
            before.events,
            readings,
            previous,
            at,
            sims[n - 1].order.len() as int,
            o,
        );
    }
}

proof fn events_are_asked_for(
    automations: Seq<(Seq<char>, AutomationModel)>,
    sims: Seq<SimModel>,
    w: World,
    readings: Seq<(Seq<char>, (Option<bool>, bool))>,
    at: int,
    horizon: int,
    step: int,
    o: Oracle,
)
    requires
        all_enabled(automations, sims),
        all_asked_for(automations, w.events),
    ensures
        all_asked_for(automations, events_from(sims, w, readings, at, horizon, step, o)),
    decreases (if at > horizon { 0 } else { horizon - at + 1 }),
{
    if step > 0 && at <= horizon && w.events.len() < 500 {
        round_is_asked_for(automations, sims, w, readings, (at - step) as u128, at as u128, sims.len() as int, o);
        events_are_asked_for(
            automations,
            sims,
            round(sims, w, readings, (at - step) as u128, at as u128, sims.len() as int, o),
            readings,
            at + step,
            horizon,
            step,
            o,
        );
    }
}

/// Just the enabled automations whose blocks can be put in order are run
/// ahead, each from the states and the variables that it has now.
pub proof fn enabled_automations_run_ahead(automations: Seq<(Seq<char>, AutomationModel)>, n: int, k: int)
    requires
        0 <= n <= automations.len(),
        0 <= k < n,
    ensures
        all_enabled(automations, sims_of(automations, n)),
        automations[k].1.enabled && graph::sorted_ids(automations[k].1.nodes, automations[k].1.edges) is Some ==> exists|
            i: int,
        |
            0 <= i < sims_of(automations, n).len() && (#[trigger] sims_of(automations, n)[i]).automation
                == automations[k].1 && standing_of(sims_of(automations, n))[i].states
                == automations[k].1.status.node_states && standing_of(sims_of(automations, n))[i].variables
                == automations[k].1.variables && graph::sorted_ids(automations[k].1.nodes, automations[k].1.edges)
                == Some(sims_of(automations, n)[i].order),
    decreases n,
{
    let before = sims_of(automations, n - 1);
    let sims = sims_of(automations, n);
    let a = automations[n - 1].1;
    if n > 1 {
        enabled_automations_run_ahead(automations, n - 1, if k < n - 1 { k } else { 0 });
    }
    assert forall|i: int| 0 <= i < sims.len() implies is_enabled(automations, #[trigger] sims[i]) by {
        if i < before.len() {
            assert(sims[i] == before[i]);
        } else {
            assert(sims[i].automation == automations[n - 1].1);
        }
    }
    if automations[k].1.enabled && graph::sorted_ids(automations[k].1.nodes, automations[k].1.edges) is Some {
        if k < n - 1 {
            let i = choose|i: int| 0 <= i < before.len() && (#[trigger] before[i]).automation == automations[k].1
                && standing_of(before)[i].states == automations[k].1.status.node_states && standing_of(before)[i].variables
                == automations[k].1.variables && graph::sorted_ids(automations[k].1.nodes, automations[k].1.edges) == Some(
                before[i].order,
            );
            assert(sims[i] == before[i]);
        } else {
            assert(sims[sims.len() - 1].automation == a);
        }
    }
}

/// Every event of a forecast is asked for by an enabled automation: it bears
/// that one's id and name, and that one has a block that turns the device so,
/// or toggles it. Where all blocks for a device turn it on, no event turns it
/// off, and the other way about.
pub proof fn forecasts_tell_what_is_asked_for(
    automations: Seq<(Seq<char>, AutomationModel)>,
    devices: Seq<(Seq<char>, bool)>,
    readings: Seq<(Seq<char>, (Option<bool>, bool))>,
    now: u128,
    horizon: u128,
    step: u128,
    o: Oracle,
    device: Seq<char>,
    action: ScheduleAction,
)
    ensures
        all_asked_for(automations, forecast(automations, devices, readings, now, horizon, step, o)),
        (forall|k: int, j: int|
            0 <= k < automations.len() && 0 <= j < automations[k].1.nodes.len() ==> match (
            #[trigger] automations[k].1.nodes[j]).config {
                AutomationNodeConfigModel::SetDevice { set_device } => set_device.device_name == device
                    ==> set_device.action == action,
                AutomationNodeConfigModel::ToggleDevice { toggle_device } => toggle_device.device_name != device,
                _ => true,
            }) && action != ScheduleAction::Toggle ==> forall|i: int|
            0 <= i < forecast(automations, devices, readings, now, horizon, step, o).len() && (#[trigger] forecast(
                automations,
                devices,
                readings,
                now,
                horizon,
                step,
                o,
            )[i]).device_name == device ==> forecast(automations, devices, readings, now, horizon, step, o)[i].action
                == action,
{
    let told = forecast(automations, devices, readings, now, horizon, step, o);
    if step > 0 && horizon > now {
        let sims = sims_of(automations, automations.len() as int);
        if automations.len() > 0 {
            enabled_automations_run_ahead(automations, automations.len() as int, 0);
        }
        let all = events_from(sims, first_world(sims, devices), readings, now + step, horizon as int, step as int, o);
        events_are_asked_for(
            automations,
            sims,
            first_world(sims, devices),
            readings,
            now + step,
            horizon as int,
            step as int,
            o,
        );
        assert forall|i: int| 0 <= i < told.len() implies asked_for(automations, #[trigger] told[i]) by {
            assert(told[i] == all[i]);
        }
    }
    assert forall|i: int|
        0 <= i < told.len() && (#[trigger] told[i]).device_name == device && action != ScheduleAction::Toggle && (forall|
            k: int,
            j: int,
        |
            0 <= k < automations.len() && 0 <= j < automations[k].1.nodes.len() ==> match (
            #[trigger] automations[k].1.nodes[j]).config {
                AutomationNodeConfigModel::SetDevice { set_device } => set_device.device_name == device
                    ==> set_device.action == action,
                AutomationNodeConfigModel::ToggleDevice { toggle_device } => toggle_device.device_name != device,
                _ => true,
            }) implies told[i].action == action by {
        assert(asked_for(automations, told[i]));
        let k = choose|k: int| 0 <= k < automations.len() && asks_for((#[trigger] automations[k]).1, told[i]);
        let a = automations[k].1;
        let j = choose|j: int|
            0 <= j < a.nodes.len() && match (#[trigger] a.nodes[j]).config {
                AutomationNodeConfigModel::SetDevice { set_device } => set_device.device_name == told[i].device_name && (
                set_device.action == told[i].action || set_device.action is Toggle),
                AutomationNodeConfigModel::ToggleDevice { toggle_device } => toggle_device.device_name
                    == told[i].device_name,
                _ => false,
            };
        assert(automations[k].1.nodes[j] == a.nodes[j]);
    }
}

/// A pass leaves no block out: after it every block of the order that is there
/// has a value and a state.
pub proof fn passes_leave_no_block_out(
    sim: SimModel,
    standing: SimStateModel,
    devices: Seq<(Seq<char>, bool)>,
    events: Seq<ForecastEventModel>,
    readings: Seq<(Seq<char>, (Option<bool>, bool))>,
    previous: u128,
    at: u128,
    n: int,
    o: Oracle,
    i: int,
)
    requires
        0 <= i < n <= sim.order.len(),
        flow::node_from(sim.automation.nodes, sim.order[i], 0) is Some,
    ensures
        ({
            let p = pass(sim, standing, devices, events, readings, previous, at, n, o);
            &&& table::has_key(p.outputs, sim.order[i])
            &&& table::has_key(p.standing.states, sim.order[i])
            &&& table::has_key(p.fresh, sim.order[i])
        }),
    decreases n,
{
    let p = pass(sim, standing, devices, events, readings, previous, at, n - 1, o);
    let id = sim.order[n - 1];
    if i < n - 1 {
        passes_leave_no_block_out(sim, standing, devices, events, readings, previous, at, n - 1, o, i);
    }
    if let Some(node) = flow::node_from(sim.automation.nodes, id, 0) {
        let prev = flow::state_or_fresh(p.standing.states, id);
        let step = node::node_step(
            ahead_scene(sim, p, readings, previous, at),
            node,
            flow::inputs_of(sim.automation.edges, id, p.outputs),
            prev,
            p.standing.variables,
            None,
            o,
        );
        let kept = flow::settled(node.config, step.state, step.value);
        table::put_adds_key(p.outputs, id, step.value, sim.order[i]);
        table::put_adds_key(p.standing.states, id, kept, sim.order[i]);
        table::put_adds_key(p.fresh, id, kept, sim.order[i]);
    }
}

/// A round leaves no automation out: after it every block of every automation
/// in the round has a state.
pub proof fn rounds_leave_no_automation_out(
    sims: Seq<SimModel>,
    w: World,
    readings: Seq<(Seq<char>, (Option<bool>, bool))>,
    previous: u128,
    at: u128,
    n: int,
    o: Oracle,
    k: int,
    i: int,
)
    requires
        w.standings.len() == sims.len(),
        0 <= k < n <= sims.len(),
        0 <= i < sims[k].order.len(),
        flow::node_from(sims[k].automation.nodes, sims[k].order[i], 0) is Some,
    ensures
        round(sims, w, readings, previous, at, n, o).standings.len() == sims.len(),
        table::has_key(round(sims, w, readings, previous, at, n, o).standings[k].states, sims[k].order[i]),
    decreases n,
{
    rounds_keep_their_number(sims, w, readings, previous, at, n, o);
    rounds_keep_their_number(sims, w, readings, previous, at, n - 1, o);
    if k < n - 1 {
        rounds_leave_no_automation_out(sims, w, readings, previous, at, n - 1, o, k, i);
    } else {
        let before = round(sims, w, readings, previous, at, n - 1, o);
        passes_leave_no_block_out(
            sims[k],
            before.standings[k],
            before.devices,
            before.events,
            readings,
            previous,
            at,
            sims[k].order.len() as int,
            o,
            i,
        );
    }
}

proof fn rounds_keep_their_number(
    sims: Seq<SimModel>,
    w: World,
    readings: Seq<(Seq<char>, (Option<bool>, bool))>,
    previous: u128,
    at: u128,
    n: int,
    o: Oracle,
)
    requires
        w.standings.len() == sims.len(),
    ensures
        round(sims, w, readings, previous, at, n, o).standings.len() == w.standings.len(),
    decreases n,
{
    if 0 < n <= sims.len() {
        rounds_keep_their_number(sims, w, readings, previous, at, n - 1, o);
    }
}

proof fn passes_only_add(
    sim: SimModel,
    standing: SimStateModel,
    devices: Seq<(Seq<char>, bool)>,
    events: Seq<ForecastEventModel>,
    readings: Seq<(Seq<char>, (Option<bool>, bool))>,
    previous: u128,
    at: u128,
    n: int,
    o: Oracle,
)
    ensures
        events.is_prefix_of(pass(sim, standing, devices, events, readings, previous, at, n, o).events),
    decreases n,
{
    if 0 < n <= sim.order.len() {
        passes_only_add(sim, standing, devices, events, readings, previous, at, n - 1, o);
    }
}

proof fn rounds_only_add(
    sims: Seq<SimModel>,
    w: World,
    readings: Seq<(Seq<char>, (Option<bool>, bool))>,
    previous: u128,
    at: u128,
    n: int,
    o: Oracle,
)
    ensures
        w.events.is_prefix_of(round(sims, w, readings, previous, at, n, o).events),
    decreases n,
{
    if 0 < n <= sims.len() {
        rounds_only_add(sims, w, readings, previous, at, n - 1, o);
        let before = round(sims, w, readings, previous, at, n - 1, o);
        passes_only_add(
            sims[n - 1],
            before.standings[n - 1],
            before.devices,
            before.events,
            readings,
            previous,
            at,
            sims[n - 1].order.len() as int,
            o,
        );
    }
}

proof fn later_rounds_only_add(
    sims: Seq<SimModel>,
    w: World,
    readings: Seq<(Seq<char>, (Option<bool>, bool))>,
    at: int,
    horizon: int,
    further: int,
    step: int,
    o: Oracle,
)
    requires
        horizon <= further,
    ensures
        w.events.is_prefix_of(events_from(sims, w, readings, at, horizon, step, o)),
        events_from(sims, w, readings, at, horizon, step, o).is_prefix_of(
            events_from(sims, w, readings, at, further, step, o),
        ),
    decreases (if at > further { 0 } else { further - at + 1 }),
{
    if step > 0 && at <= further && w.events.len() < 500 {
        let after = round(sims, w, readings, (at - step) as u128, at as u128, sims.len() as int, o);
        rounds_only_add(sims, w, readings, (at - step) as u128, at as u128, sims.len() as int, o);
        later_rounds_only_add(sims, after, readings, at + step, horizon, further, step, o);
        if at > horizon {
            assert(events_from(sims, w, readings, at, horizon, step, o) == w.events);
            later_rounds_only_add(sims, after, readings, at + step, further, further, step, o);
        }
    }
}

/// Looking further ahead goes on where the shorter look ended: a forecast that
/// reaches further begins with all that the shorter one tells. One that reaches
/// a single step ahead tells what one round of all automations brings.
pub proof fn longer_forecasts_go_on(
    automations: Seq<(Seq<char>, AutomationModel)>,
    devices: Seq<(Seq<char>, bool)>,
    readings: Seq<(Seq<char>, (Option<bool>, bool))>,
    now: u128,
    horizon: u128,
    further: u128,
    step: u128,
    o: Oracle,
)
    requires
        horizon <= further,
        step > 0,
        now + step <= u128::MAX,
    ensures
        forecast(automations, devices, readings, now, horizon, step, o).is_prefix_of(
            forecast(automations, devices, readings, now, further, step, o),
        ),
        forecast(automations, devices, readings, now, (now + step) as u128, step, o) == ({
            let sims = sims_of(automations, automations.len() as int);
            let brought = round(
                sims,
                first_world(sims, devices),
                readings,
                now,
                (now + step) as u128,
                sims.len() as int,
                o,
            ).events;
            if brought.len() > 500 {
                brought.take(500)
            } else {
                brought
            }
        }),
        forecast(automations, devices, readings, now, horizon, step, o).len() <= 500,
{
    let sims = sims_of(automations, automations.len() as int);
    let w = first_world(sims, devices);
    later_rounds_only_add(sims, w, readings, now + step, horizon as int, further as int, step as int, o);
    let at = now + step;
    let after = round(sims, w, readings, now, at as u128, sims.len() as int, o);
    assert(events_from(sims, after, readings, at + step, at, step as int, o) == after.events);
    assert(events_from(sims, w, readings, at, at, step as int, o) == after.events);
}

} // verus!
