//! One tick of an automation: its blocks in their order, what they set off, and
//! what is kept of them.
//!
//! A tick goes block by block, so that a request can be made in between: before
//! each block, `pending_request` says whether one is due, and `advance` takes
//! what came of it.

use vstd::prelude::*;

use crate::automations::coerce;
use crate::automations::coerce::values_same;
use crate::automations::cycles::downstream_of;
use crate::automations::flow;
use crate::automations::flow::{acts, find_node, gather_inputs, is_turning_true, rearm, settle, stored_state};
use crate::automations::graph;
use crate::automations::graph::topo_sort_nodes;
use crate::automations::host;
use crate::automations::host::{Answer, Ask, Oracle};
use crate::automations::node;
use crate::automations::node::{due_request, evaluate_node, Scene, SceneModel};
use crate::automations::types;
use crate::automations::types::{
    Automation, AutomationModel, AutomationNodeConfig, AutomationNodeConfigModel, AutomationNodeModel,
    AutomationStatus, AutomationStatusModel, NodeRuntimeState, NodeRuntimeStateModel,
};
use crate::conditions::{ConditionConfig, ConditionConfigModel, ProbeOutcome, ProbeOutcomeModel};
use crate::dup::Dup;
use crate::lists::has_text;
use crate::table;
use crate::table::Table;
use crate::text;
use crate::text::same;
use crate::value::{Value, ValueModel};

verus! {

/// An action that was set off.
pub struct Firing {
    pub node_id: String,
    pub config: AutomationNodeConfig,
}

/// The contents of `Firing`.
#[verifier::ext_equal]
pub struct FiringModel {
    pub node_id: Seq<char>,
    pub config: AutomationNodeConfigModel,
}

impl DeepView for Firing {
    type V = FiringModel;

    open spec fn deep_view(&self) -> FiringModel {
        FiringModel {
            node_id: self.node_id.deep_view(),
            config: self.config.deep_view(),
        }
    }
}

impl Dup for Firing {
    fn dup(&self) -> (r: Self) {
        Firing {
            node_id: self.node_id.dup(),
            config: self.config.dup(),
        }
    }
}

/// A tick of an automation, in progress.
pub struct Tick {
    /// The blocks in the order in which they are evaluated.
    pub order: Vec<String>,
    /// How many of them have been.
    pub done: usize,
    /// The blocks that act as if they had not been reached yet.
    pub reset: Vec<String>,
    /// What each block has come to.
    pub outputs: Table<Option<bool>>,
    /// The actions that were set off.
    pub fired: Vec<Firing>,
    /// The states to keep.
    pub updates: Table<NodeRuntimeState>,
    pub variables: Table<Value>,
    pub previous_tick_ms: u128,
    pub tick_ms: u128,
}

/// The contents of `Tick`.
#[verifier::ext_equal]
pub struct TickModel {
    pub order: Seq<Seq<char>>,
    pub done: usize,
    pub reset: Seq<Seq<char>>,
    pub outputs: Seq<(Seq<char>, Option<bool>)>,
    pub fired: Seq<FiringModel>,
    pub updates: Seq<(Seq<char>, NodeRuntimeStateModel)>,
    pub variables: Seq<(Seq<char>, ValueModel)>,
    pub previous_tick_ms: u128,
    pub tick_ms: u128,
}

impl DeepView for Tick {
    type V = TickModel;

    open spec fn deep_view(&self) -> TickModel {
        TickModel {
            order: self.order.deep_view(),
            done: self.done.deep_view(),
            reset: self.reset.deep_view(),
            outputs: self.outputs.deep_view(),
            fired: self.fired.deep_view(),
            updates: self.updates.deep_view(),
            variables: self.variables.deep_view(),
            previous_tick_ms: self.previous_tick_ms.deep_view(),
            tick_ms: self.tick_ms.deep_view(),
        }
    }
}

impl Dup for Tick {
    fn dup(&self) -> (r: Self) {
        Tick {
            order: self.order.dup(),
            done: self.done.dup(),
            reset: self.reset.dup(),
            outputs: self.outputs.dup(),
            fired: self.fired.dup(),
            updates: self.updates.dup(),
            variables: self.variables.dup(),
            previous_tick_ms: self.previous_tick_ms.dup(),
            tick_ms: self.tick_ms.dup(),
        }
    }
}

// ---------- Where a tick starts ----------

/// The block is an immediate one that has not fired since the start.
pub open spec fn about_to_fire(
    committed: Seq<(Seq<char>, NodeRuntimeStateModel)>,
    n: AutomationNodeModel,
) -> bool {
    n.config is ImmediateTrigger && flow::state_or_fresh(committed, n.id).last_checked_at_ms is None
}

/// The block lies behind an immediate one that is about to fire.
pub open spec fn is_reset(
    a: AutomationModel,
    committed: Seq<(Seq<char>, NodeRuntimeStateModel)>,
    id: Seq<char>,
) -> bool {
    exists|i: int|
        0 <= i < a.nodes.len() && about_to_fire(committed, #[trigger] a.nodes[i]) && graph::leads(
            graph::arcs_of(a.edges),
            a.nodes[i].id,
            id,
        )
}

/// The blocks behind immediate ones that are about to fire: they run again,
/// whatever they came to before the start.
pub fn compute_immediate_reset_nodes(automation: &Automation, committed: &Table<NodeRuntimeState>) -> (r: Vec<String>)
    ensures
        forall|id: Seq<char>| #[trigger]
            r.deep_view().contains(id) <==> is_reset(automation.deep_view(), committed.deep_view(), id),
{
    let ghost a = automation.deep_view();
    let ghost t = committed.deep_view();
    let mut firing: Vec<String> = Vec::new();
    let mut i: usize = 0;
    let ghost mut from: Seq<int> = Seq::empty();
    while i < automation.nodes.len()
        invariant
            i <= automation.nodes@.len(),
            a == automation.deep_view(),
            t == committed.deep_view(),
            from.len() == firing@.len(),
            forall|k: int|
                0 <= k < from.len() ==> 0 <= #[trigger] from[k] < i && about_to_fire(t, a.nodes[from[k]])
                    && firing.deep_view()[k] == a.nodes[from[k]].id,
            forall|j: int|
                0 <= j < i && about_to_fire(t, #[trigger] a.nodes[j]) ==> exists|k: int|
                    0 <= k < from.len() && #[trigger] from[k] == j,
        decreases automation.nodes@.len() - i,
    {
        let n = &automation.nodes[i];
        let ghost had = firing@;
        let ghost was = from;
        proof {
            assert(a.nodes[i as int] == n.deep_view());
        }
        if let AutomationNodeConfig::ImmediateTrigger = n.config {
            let checked = match committed.get(n.id.as_str()) {
                Some(s) => s.last_checked_at_ms.is_some(),
                None => false,
            };
            if !checked {
                firing.push(n.id.clone());
                proof {
                    from = was.push(i as int);
                    assert forall|k: int| 0 <= k < from.len() implies 0 <= #[trigger] from[k] < i + 1 && about_to_fire(
                        t,
                        a.nodes[from[k]],
                    ) && firing.deep_view()[k] == a.nodes[from[k]].id by {
                        if k < was.len() {
                            assert(from[k] == was[k]);
                            assert(firing@[k] == had[k]);
                        }
                    }
                    assert forall|j: int| 0 <= j < i + 1 && about_to_fire(t, #[trigger] a.nodes[j]) implies exists|
                        k: int,
                    |
                        0 <= k < from.len() && #[trigger] from[k] == j by {
                        if j < i {
                            let k = choose|k: int| 0 <= k < was.len() && #[trigger] was[k] == j;
                            assert(from[k] == j);
                        } else {
                            assert(from[was.len() as int] == j);
                        }
                    }
                }
            }
        }
        i = i + 1;
    }
    let r = downstream_of(&firing, &automation.edges);
    proof {
        let arcs = graph::arcs_of(a.edges);
        assert forall|id: Seq<char>| #[trigger] r.deep_view().contains(id) <==> is_reset(a, t, id) by {
            if r.deep_view().contains(id) {
                let f = choose|f: int|
                    0 <= f < firing@.len() && graph::leads(arcs, #[trigger] firing.deep_view()[f], id);
                assert(about_to_fire(t, a.nodes[from[f]]));
                assert(graph::leads(arcs, a.nodes[from[f]].id, id));
            }
            if is_reset(a, t, id) {
                let j = choose|j: int|
                    0 <= j < a.nodes.len() && about_to_fire(t, #[trigger] a.nodes[j]) && graph::leads(
                        arcs,
                        a.nodes[j].id,
                        id,
                    );
                let k = choose|k: int| 0 <= k < from.len() && #[trigger] from[k] == j;
                assert(firing.deep_view()[k] == a.nodes[j].id);
                assert(graph::leads(arcs, firing.deep_view()[k], id));
            }
        }
    }
    r
}

/// A tick that has just begun.
pub open spec fn begun(
    a: AutomationModel,
    order: Seq<Seq<char>>,
    reset: Seq<Seq<char>>,
    previous_tick_ms: u128,
    tick_ms: u128,
) -> TickModel {
    TickModel {
        order,
        done: 0,
        reset,
        outputs: Seq::empty(),
        fired: Seq::empty(),
        updates: Seq::empty(),
        variables: a.variables,
        previous_tick_ms,
        tick_ms,
    }
}

/// Begins a tick; there is none for a graph with a cycle.
pub fn begin_tick(
    automation: &Automation,
    committed: &Table<NodeRuntimeState>,
    previous_tick_ms: u128,
    tick_ms: u128,
) -> (r: Option<Tick>)
    ensures
        match r {
            None => graph::sorted_ids(automation.deep_view().nodes, automation.deep_view().edges) is None,
            Some(tick) => graph::sorted_ids(automation.deep_view().nodes, automation.deep_view().edges) == Some(
                tick.deep_view().order,
            ) && tick.deep_view() == begun(
                automation.deep_view(),
                tick.deep_view().order,
                tick.deep_view().reset,
                previous_tick_ms,
                tick_ms,
            ) && (forall|id: Seq<char>| #[trigger]
                tick.deep_view().reset.contains(id) <==> is_reset(
                    automation.deep_view(),
                    committed.deep_view(),
                    id,
                )),
        },
{
    match topo_sort_nodes(&automation.nodes, &automation.edges) {
        None => None,
        Some(order) => {
            let tick = Tick {
                order,
                done: 0,
                reset: compute_immediate_reset_nodes(automation, committed),
                outputs: Table::new(),
                fired: Vec::new(),
                updates: Table::new(),
                variables: automation.variables.dup(),
                previous_tick_ms,
                tick_ms,
            };
            proof {
                assert(tick.fired.deep_view() =~= Seq::<FiringModel>::empty());
            }
            Some(tick)
        },
    }
}

// ---------- Block by block ----------

/// What the blocks of a live tick see.
pub open spec fn live_scene(
    t: TickModel,
    automation_id: Seq<char>,
    committed: Seq<(Seq<char>, NodeRuntimeStateModel)>,
    devices: Seq<(Seq<char>, bool)>,
    readings: Seq<(Seq<char>, (Option<bool>, bool))>,
) -> SceneModel {
    SceneModel {
        automation_id,
        committed,
        fresh: None,
        devices,
        readings,
        previous_tick_ms: t.previous_tick_ms,
        tick_ms: t.tick_ms,
        simulate: false,
    }
}

/// What a block starts from: as it was stored, or, behind an immediate block
/// that fires, as if it had not been reached yet.
pub open spec fn baseline(
    t: TickModel,
    committed: Seq<(Seq<char>, NodeRuntimeStateModel)>,
    id: Seq<char>,
) -> NodeRuntimeStateModel {
    let stored = flow::state_or_fresh(committed, id);
    if t.reset.contains(id) {
        flow::rearmed(stored)
    } else {
        stored
    }
}

/// The request that the next block of a tick makes.
pub open spec fn tick_request(
    t: TickModel,
    a: AutomationModel,
    committed: Seq<(Seq<char>, NodeRuntimeStateModel)>,
    devices: Seq<(Seq<char>, bool)>,
    readings: Seq<(Seq<char>, (Option<bool>, bool))>,
) -> Option<ConditionConfigModel> {
    if t.done >= t.order.len() {
        None
    } else {
        let id = t.order[t.done as int];
        match flow::node_from(a.nodes, id, 0) {
            None => None,
            Some(n) => node::request_due(
                live_scene(t, a.id, committed, devices, readings),
                n,
                flow::inputs_of(a.edges, id, t.outputs),
                baseline(t, committed, id),
            ),
        }
    }
}

/// A tick with one block more.
pub open spec fn stepped(
    t: TickModel,
    a: AutomationModel,
    committed: Seq<(Seq<char>, NodeRuntimeStateModel)>,
    devices: Seq<(Seq<char>, bool)>,
    readings: Seq<(Seq<char>, (Option<bool>, bool))>,
    fetched: Option<ProbeOutcomeModel>,
    o: Oracle,
) -> TickModel {
    let id = t.order[t.done as int];
    match flow::node_from(a.nodes, id, 0) {
        None => TickModel { done: (t.done + 1) as usize, ..t },
        Some(n) => {
            let prev = baseline(t, committed, id);
            let step = node::node_step(
                live_scene(t, a.id, committed, devices, readings),
                n,
                flow::inputs_of(a.edges, id, t.outputs),
                prev,
                t.variables,
                fetched,
                o,
            );
            let fires = flow::is_action(n.config) && flow::turns_true(prev.last_value, step.value);
            let kept = flow::settled(n.config, step.state, step.value);
            TickModel {
                done: (t.done + 1) as usize,
                outputs: table::put(t.outputs, id, step.value),
                fired: if fires {
                    t.fired.push(FiringModel { node_id: id, config: n.config })
                } else {
                    t.fired
                },
                updates: table::put(
                    t.updates,
                    id,
                    if fires {
                        NodeRuntimeStateModel { last_fired_at_ms: Some(t.tick_ms), ..kept }
                    } else {
                        kept
                    },
                ),
                variables: step.variables,
                ..t
            }
        },
    }
}

impl Tick {
    /// Whether every block has been evaluated.
    pub fn is_done(&self) -> (b: bool)
        ensures
            b == (self.done >= self.order@.len()),
    {
        self.done >= self.order.len()
    }

    fn starting_state(&self, committed: &Table<NodeRuntimeState>, id: &str) -> (r: NodeRuntimeState)
        ensures
            r.deep_view() == baseline(self.deep_view(), committed.deep_view(), id@),
    {
        let stored = stored_state(committed, id);
        if has_text(&self.reset, id) {
            rearm(stored)
        } else {
            stored
        }
    }

    /// The request that the next block makes, as a condition to probe.
    pub fn pending_request(
        &self,
        automation: &Automation,
        committed: &Table<NodeRuntimeState>,
        devices: &Table<bool>,
        readings: &Table<(Option<bool>, bool)>,
    ) -> (r: Option<ConditionConfig>)
        ensures
            r.deep_view() == tick_request(
                self.deep_view(),
                automation.deep_view(),
                committed.deep_view(),
                devices.deep_view(),
                readings.deep_view(),
            ),
    {
        if self.done >= self.order.len() {
            return None;
        }
        let id = self.order[self.done].as_str();
        proof {
            assert(self.deep_view().order[self.done as int] == id@);
        }
        match find_node(&automation.nodes, id) {
            None => None,
            Some(n) => {
                let scene = Scene {
                    automation_id: automation.id.as_str(),
                    committed,
                    fresh: None,
                    devices,
                    readings,
                    previous_tick_ms: self.previous_tick_ms,
                    tick_ms: self.tick_ms,
                    simulate: false,
                };
                let inputs = gather_inputs(&automation.edges, id, &self.outputs);
                let prev = self.starting_state(committed, id);
                due_request(&scene, n, &inputs, &prev)
            },
        }
    }

    /// Evaluates the next block. Where it makes a request, `fetched` is what
    /// came of it.
    pub fn advance<H: Fn(Ask) -> Answer>(
        &mut self,
        automation: &Automation,
        committed: &Table<NodeRuntimeState>,
        devices: &Table<bool>,
        readings: &Table<(Option<bool>, bool)>,
        fetched: Option<ProbeOutcome>,
        host: &H,
    )
        requires
            host::faithful(*host),
            old(self).done < old(self).order.len(),
            tick_request(
                old(self).deep_view(),
                automation.deep_view(),
                committed.deep_view(),
                devices.deep_view(),
                readings.deep_view(),
            ) is Some ==> fetched is Some,
        ensures
            final(self).deep_view() == stepped(
                old(self).deep_view(),
                automation.deep_view(),
                committed.deep_view(),
                devices.deep_view(),
                readings.deep_view(),
                fetched.deep_view(),
                host::oracle(*host),
            ),
    {
        let ghost t = self.deep_view();
        let id = self.order[self.done].clone();
        proof {
            assert(t.order[self.done as int] == id@);
        }
        match find_node(&automation.nodes, id.as_str()) {
            None => {
                self.done = self.done + 1;
            },
            Some(n) => {
                let scene = Scene {
                    automation_id: automation.id.as_str(),
                    committed,
                    fresh: None,
                    devices,
                    readings,
                    previous_tick_ms: self.previous_tick_ms,
                    tick_ms: self.tick_ms,
                    simulate: false,
                };
                let inputs = gather_inputs(&automation.edges, id.as_str(), &self.outputs);
                let prev = self.starting_state(committed, id.as_str());
                let (value, state) = evaluate_node(&scene, n, &inputs, &prev, &mut self.variables, fetched, host);
                let mut kept = settle(&n.config, state, value);
                if acts(&n.config) && is_turning_true(prev.last_value, value) {
                    kept.last_fired_at_ms = Some(self.tick_ms);
                    let ghost had = self.fired.deep_view();
                    self.fired.push(Firing { node_id: id.clone(), config: n.config.dup() });
                    proof {
                        assert(self.fired.deep_view() =~= had.push(
                            FiringModel { node_id: id@, config: n.config.deep_view() },
                        ));
                    }
                }
                self.outputs.insert(id.clone(), value);
                self.updates.insert(id, kept);
                self.done = self.done + 1;
            },
        }
    }

    /// Notes that an action failed.
    pub fn note_action_error(&mut self, node_id: &str, error: String)
        ensures
            final(self).deep_view() == (TickModel {
                updates: table::put(
                    old(self).deep_view().updates,
                    node_id@,
                    (NodeRuntimeStateModel {
                        last_error: Some(error@),
                        ..flow::state_or_fresh(old(self).deep_view().updates, node_id@)
                    }),
                ),
                ..old(self).deep_view()
            }),
            table::lookup(final(self).deep_view().updates, node_id@) matches Some(s) && s.last_error == Some(error@),
    {
        let mut state = stored_state(&self.updates, node_id);
        state.last_error = Some(error);
        proof {
            table::put_then_lookup(self.updates.deep_view(), node_id@, state.deep_view(), node_id@);
        }
        self.updates.insert(node_id.to_owned(), state);
    }
}

// ---------- What is kept of a tick ----------

/// The variables are the same, value for value.
pub open spec fn same_variables(
    a: Seq<(Seq<char>, ValueModel)>,
    b: Seq<(Seq<char>, ValueModel)>,
    o: Oracle,
) -> bool {
    a.len() == b.len() && forall|i: int|
        0 <= i < a.len() ==> (#[trigger] a[i]).0 == b[i].0 && coerce::identical(a[i].1, b[i].1, o)
}

fn variables_same<H: Fn(Ask) -> Answer>(a: &Table<Value>, b: &Table<Value>, host: &H) -> (r: bool)
    requires
        host::faithful(*host),
    ensures
        r == same_variables(a.deep_view(), b.deep_view(), host::oracle(*host)),
{
    let ghost x = a.deep_view();
    let ghost y = b.deep_view();
    let ghost o = host::oracle(*host);
    if a.entries.len() != b.entries.len() {
        return false;
    }
    let mut i: usize = 0;
    while i < a.entries.len()
        invariant
            host::faithful(*host),
            i <= a.entries@.len(),
            a.entries@.len() == b.entries@.len(),
            x == a.deep_view(),
            y == b.deep_view(),
            o == host::oracle(*host),
            forall|j: int| 0 <= j < i ==> (#[trigger] x[j]).0 == y[j].0 && coerce::identical(x[j].1, y[j].1, o),
        decreases a.entries@.len() - i,
    {
        proof {
            assert(x[i as int] == (a.entries@[i as int].0@, a.entries@[i as int].1.deep_view()));
            assert(y[i as int] == (b.entries@[i as int].0@, b.entries@[i as int].1.deep_view()));
        }
        if !same(a.entries[i].0.as_str(), b.entries[i].0.as_str()) || !values_same(
            &a.entries[i].1,
            &b.entries[i].1,
            host,
        ) {
            return false;
        }
        i = i + 1;
    }
    true
}

/// What callers see of a block's state differs: its value, when it fired last,
/// or its error.
pub open spec fn visibly_differs(before: Option<NodeRuntimeStateModel>, after: NodeRuntimeStateModel) -> bool {
    match before {
        Some(p) => p.last_value != after.last_value || p.last_fired_at_ms != after.last_fired_at_ms || p.last_error
            != after.last_error,
        None => after.last_value is Some || after.last_fired_at_ms is Some || after.last_error is Some,
    }
}

fn same_texts(a: &Option<String>, b: &Option<String>) -> (r: bool)
    ensures
        r == (a.deep_view() == b.deep_view()),
{
    match (a, b) {
        (Some(x), Some(y)) => same(x.as_str(), y.as_str()),
        (None, None) => true,
        _ => false,
    }
}

fn same_flags(a: Option<bool>, b: Option<bool>) -> (r: bool)
    ensures
        r == (a == b),
{
    match (a, b) {
        (Some(x), Some(y)) => x == y,
        (None, None) => true,
        _ => false,
    }
}

fn same_moments(a: Option<u128>, b: Option<u128>) -> (r: bool)
    ensures
        r == (a == b),
{
    match (a, b) {
        (Some(x), Some(y)) => x == y,
        (None, None) => true,
        _ => false,
    }
}

fn differs_visibly(before: Option<&NodeRuntimeState>, after: &NodeRuntimeState) -> (b: bool)
    ensures
        b == visibly_differs(before.deep_view(), after.deep_view()),
{
    match before {
        Some(p) => !same_flags(p.last_value, after.last_value) || !same_moments(
            p.last_fired_at_ms,
            after.last_fired_at_ms,
        ) || !same_texts(&p.last_error, &after.last_error),
        None => after.last_value.is_some() || after.last_fired_at_ms.is_some() || after.last_error.is_some(),
    }
}

/// The states with the first `n` updates among them.
pub open spec fn updated_states(
    states: Seq<(Seq<char>, NodeRuntimeStateModel)>,
    updates: Seq<(Seq<char>, NodeRuntimeStateModel)>,
    n: int,
) -> Seq<(Seq<char>, NodeRuntimeStateModel)>
    decreases n,
{
    if n <= 0 || n > updates.len() {
        states
    } else {
        table::put(updated_states(states, updates, n - 1), updates[n - 1].0, updates[n - 1].1)
    }
}

/// One of the first `n` updates changes what callers see.
pub open spec fn some_visible(
    states: Seq<(Seq<char>, NodeRuntimeStateModel)>,
    updates: Seq<(Seq<char>, NodeRuntimeStateModel)>,
    n: int,
) -> bool
    decreases n,
{
    if n <= 0 || n > updates.len() {
        false
    } else {
        some_visible(states, updates, n - 1) || visibly_differs(
            table::lookup(updated_states(states, updates, n - 1), updates[n - 1].0),
            updates[n - 1].1,
        )
    }
}

/// The latest moment at which one of the first `n` blocks fired.
pub open spec fn last_fired(states: Seq<(Seq<char>, NodeRuntimeStateModel)>, n: int) -> Option<u128>
    decreases n,
{
    if n <= 0 || n > states.len() {
        None
    } else {
        match (last_fired(states, n - 1), states[n - 1].1.last_fired_at_ms) {
            (Some(a), Some(b)) => Some(
                if a < b {
                    b
                } else {
                    a
                },
            ),
            (None, b) => b,
            (a, None) => a,
        }
    }
}

fn latest_fire(states: &Table<NodeRuntimeState>) -> (r: Option<u128>)
    ensures
        r == last_fired(states.deep_view(), states.deep_view().len() as int),
{
    let ghost t = states.deep_view();
    let mut best: Option<u128> = None;
    let mut i: usize = 0;
    while i < states.entries.len()
        invariant
            i <= states.entries@.len(),
            t == states.deep_view(),
            best == last_fired(t, i as int),
        decreases states.entries@.len() - i,
    {
        proof {
            assert(t[i as int].1 == states.entries@[i as int].1.deep_view());
        }
        best = match (best, states.entries[i].1.last_fired_at_ms) {
            (Some(a), Some(b)) => Some(
                if a < b {
                    b
                } else {
                    a
                },
            ),
            (None, b) => b,
            (a, None) => a,
        };
        i = i + 1;
    }
    best
}

/// The first error of the blocks from place `i` on.
pub open spec fn error_from(states: Seq<(Seq<char>, NodeRuntimeStateModel)>, i: int) -> Option<Seq<char>>
    decreases states.len() - i,
{
    if i < 0 || i >= states.len() {
        None
    } else if states[i].1.last_error is Some {
        states[i].1.last_error
    } else {
        error_from(states, i + 1)
    }
}

fn first_error(states: &Table<NodeRuntimeState>) -> (r: Option<String>)
    ensures
        r.deep_view() == error_from(states.deep_view(), 0),
{
    let ghost t = states.deep_view();
    let mut i: usize = 0;
    while i < states.entries.len()
        invariant
            i <= states.entries@.len(),
            t == states.deep_view(),
            error_from(t, 0) == error_from(t, i as int),
        decreases states.entries@.len() - i,
    {
        proof {
            assert(t[i as int].1 == states.entries@[i as int].1.deep_view());
        }
        if states.entries[i].1.last_error.is_some() {
            return states.entries[i].1.last_error.dup();
        }
        i = i + 1;
    }
    None
}

/// The automation with what is kept of a tick.
pub open spec fn committed_tick(a: AutomationModel, t: TickModel, o: Oracle) -> AutomationModel {
    let states = updated_states(a.status.node_states, t.updates, t.updates.len() as int);
    AutomationModel {
        variables: if same_variables(a.variables, t.variables, o) {
            a.variables
        } else {
            t.variables
        },
        status: AutomationStatusModel {
            last_fired_at_ms: last_fired(states, states.len() as int),
            last_error: error_from(states, 0),
            node_states: states,
        },
        ..a
    }
}

/// Something that callers see, or a variable, changes by keeping a tick.
pub open spec fn tick_matters(a: AutomationModel, t: TickModel, o: Oracle) -> bool {
    let after = committed_tick(a, t, o);
    ||| !same_variables(a.variables, t.variables, o)
    ||| some_visible(a.status.node_states, t.updates, t.updates.len() as int)
    ||| a.status.last_fired_at_ms != after.status.last_fired_at_ms
    ||| a.status.last_error != after.status.last_error
}

/// Keeps what a tick has come to; says whether anything that callers see has
/// changed, so that the state is to be saved.
pub fn commit_tick<H: Fn(Ask) -> Answer>(stored: &mut Automation, tick: Tick, host: &H) -> (dirty: bool)
    requires
        host::faithful(*host),
    ensures
        final(stored).deep_view() == committed_tick(old(stored).deep_view(), tick.deep_view(), host::oracle(*host)),
        dirty == tick_matters(old(stored).deep_view(), tick.deep_view(), host::oracle(*host)),
{
    let ghost a = stored.deep_view();
    let ghost t = tick.deep_view();
    let ghost before = a.status.node_states;
    let mut dirty = false;
    if !variables_same(&stored.variables, &tick.variables, host) {
        dirty = true;
        stored.variables = tick.variables;
    }
    let ghost mid = dirty;
    let mut states = stored.status.node_states.dup();
    let mut i: usize = 0;
    while i < tick.updates.entries.len()
        invariant
            i <= tick.updates.entries@.len(),
            t.updates == tick.updates.deep_view(),
            states.deep_view() == updated_states(before, t.updates, i as int),
            dirty == (mid || some_visible(before, t.updates, i as int)),
        decreases tick.updates.entries@.len() - i,
    {
        let entry = &tick.updates.entries[i];
        proof {
            assert(t.updates[i as int] == (entry.0@, entry.1.deep_view()));
        }
        if differs_visibly(states.get(entry.0.as_str()), &entry.1) {
            dirty = true;
        }
        states.insert(entry.0.clone(), entry.1.dup());
        i = i + 1;
    }
    let last_fired_at_ms = latest_fire(&states);
    let last_error = first_error(&states);
    if !same_moments(stored.status.last_fired_at_ms, last_fired_at_ms) || !same_texts(
        &stored.status.last_error,
        &last_error,
    ) {
        dirty = true;
    }
    stored.status = AutomationStatus { last_fired_at_ms, last_error, node_states: states };
    dirty
}

// ---------- Laws of a tick ----------

/// A tick takes a block's action at most once, only where the block turns true,
/// and only if it is an action.
pub proof fn actions_need_a_rising_edge(
    t: TickModel,
    a: AutomationModel,
    committed: Seq<(Seq<char>, NodeRuntimeStateModel)>,
    devices: Seq<(Seq<char>, bool)>,
    readings: Seq<(Seq<char>, (Option<bool>, bool))>,
    fetched: Option<ProbeOutcomeModel>,
    o: Oracle,
)
    requires
        t.done < t.order.len(),
    ensures
        ({
            let u = stepped(t, a, committed, devices, readings, fetched, o);
            let id = t.order[t.done as int];
            ||| u.fired == t.fired
            ||| u.fired.len() == t.fired.len() + 1 && u.fired.last().node_id == id && flow::is_action(
                u.fired.last().config,
            ) && baseline(t, committed, id).last_value != Some(true) && table::lookup(u.outputs, id) == Some(
                Some(true),
            )
        }),
{
    let id = t.order[t.done as int];
    if let Some(n) = flow::node_from(a.nodes, id, 0) {
        let step = node::node_step(
            live_scene(t, a.id, committed, devices, readings),
            n,
            flow::inputs_of(a.edges, id, t.outputs),
            baseline(t, committed, id),
            t.variables,
            fetched,
            o,
        );
        table::put_then_lookup(t.outputs, id, step.value, id);
    }
}

/// An action whose flow stays true is taken once: a block that stood at true in
/// the tick before takes no action in this one.
pub proof fn steady_actions_do_not_repeat(
    t: TickModel,
    a: AutomationModel,
    committed: Seq<(Seq<char>, NodeRuntimeStateModel)>,
    devices: Seq<(Seq<char>, bool)>,
    readings: Seq<(Seq<char>, (Option<bool>, bool))>,
    fetched: Option<ProbeOutcomeModel>,
    o: Oracle,
)
    requires
        t.done < t.order.len(),
        !t.reset.contains(t.order[t.done as int]),
        flow::state_or_fresh(committed, t.order[t.done as int]).last_value == Some(true),
    ensures
        stepped(t, a, committed, devices, readings, fetched, o).fired == t.fired,
{
}

/// A step takes the next block of the order with its state as it stands, or
/// armed anew where the start of the flow asks for that: what the block comes
/// to is its output and its last value, and the variables are as it leaves
/// them. An action that turns true fires, and only then is the moment noted.
pub proof fn steps_keep_what_blocks_come_to(
    t: TickModel,
    a: AutomationModel,
    committed: Seq<(Seq<char>, NodeRuntimeStateModel)>,
    devices: Seq<(Seq<char>, bool)>,
    readings: Seq<(Seq<char>, (Option<bool>, bool))>,
    fetched: Option<ProbeOutcomeModel>,
    o: Oracle,
    n: AutomationNodeModel,
    other: Seq<char>,
)
    requires
        t.done < t.order.len() <= usize::MAX,
        flow::node_from(a.nodes, t.order[t.done as int], 0) == Some(n),
    ensures
        ({
            let id = t.order[t.done as int];
            let u = stepped(t, a, committed, devices, readings, fetched, o);
            let stored = match table::lookup(committed, id) {
                Some(s) => s,
                None => types::fresh_state(),
            };
            let prev = if t.reset.contains(id) {
                NodeRuntimeStateModel {
                    last_value: None,
                    last_checked_at_ms: None,
                    pending_value: None,
                    pending_since_ms: None,
                    ..stored
                }
            } else {
                stored
            };
            let step = node::node_step(
                live_scene(t, a.id, committed, devices, readings),
                n,
                flow::inputs_of(a.edges, id, t.outputs),
                prev,
                t.variables,
                fetched,
                o,
            );
            let acts = n.config is SetDevice || n.config is ToggleDevice || n.config is FireHook;
            let fires = acts && step.value == Some(true) && prev.last_value != Some(true);
            &&& u.done == t.done + 1
            &&& table::lookup(u.outputs, id) == Some(step.value)
            &&& u.variables == step.variables
            &&& table::lookup(u.updates, id) matches Some(kept) && kept.last_value == step.value && kept.last_error
                == step.state.last_error && (fires ==> kept.last_fired_at_ms == Some(t.tick_ms)) && (!fires
                ==> kept.last_fired_at_ms == step.state.last_fired_at_ms)
            &&& fires ==> u.fired == t.fired.push(FiringModel { node_id: id, config: n.config })
            &&& !fires ==> u.fired == t.fired
            &&& other != id ==> table::lookup(u.outputs, other) == table::lookup(t.outputs, other) && table::lookup(
                u.updates,
                other,
            ) == table::lookup(t.updates, other)
        }),
{
    let id = t.order[t.done as int];
    let prev = baseline(t, committed, id);
    let step = node::node_step(
        live_scene(t, a.id, committed, devices, readings),
        n,
        flow::inputs_of(a.edges, id, t.outputs),
        prev,
        t.variables,
        fetched,
        o,
    );
    let kept = flow::settled(n.config, step.state, step.value);
    let noted = NodeRuntimeStateModel { last_fired_at_ms: Some(t.tick_ms), ..kept };
    table::put_then_lookup(t.outputs, id, step.value, other);
    table::put_then_lookup(t.updates, id, kept, other);
    table::put_then_lookup(t.updates, id, noted, other);
}

/// The blocks of a tick see the moment of the tick and that of the tick before,
/// the devices and the readings, and the states kept from the tick before; and
/// they may make requests.
pub proof fn ticks_see_the_moment(
    t: TickModel,
    id: Seq<char>,
    committed: Seq<(Seq<char>, NodeRuntimeStateModel)>,
    devices: Seq<(Seq<char>, bool)>,
    readings: Seq<(Seq<char>, (Option<bool>, bool))>,
)
    ensures
        ({
            let s = live_scene(t, id, committed, devices, readings);
            &&& s.tick_ms == t.tick_ms && s.previous_tick_ms == t.previous_tick_ms
            &&& s.devices == devices && s.readings == readings
            &&& s.committed == committed && s.fresh is None
            &&& !s.simulate
            &&& s.automation_id == id
        }),
{
}

/// A tick begins with nothing done, fired or kept, and the variables as they
/// are stored.
pub proof fn ticks_begin_with_what_is_stored(
    a: AutomationModel,
    order: Seq<Seq<char>>,
    reset: Seq<Seq<char>>,
    previous: u128,
    now: u128,
)
    ensures
        ({
            let t = begun(a, order, reset, previous, now);
            &&& t.done == 0 && t.order == order && t.reset == reset
            &&& t.outputs.len() == 0 && t.fired.len() == 0 && t.updates.len() == 0
            &&& t.variables == a.variables
            &&& t.previous_tick_ms == previous && t.tick_ms == now
        }),
{
}

/// The blocks armed anew are those behind an immediate block that has not fired
/// yet.
pub proof fn starting_arms_what_follows(
    a: AutomationModel,
    committed: Seq<(Seq<char>, NodeRuntimeStateModel)>,
    id: Seq<char>,
    i: int,
)
    requires
        0 <= i < a.nodes.len(),
        a.nodes[i].config is ImmediateTrigger,
        graph::leads(graph::arcs_of(a.edges), a.nodes[i].id, id),
    ensures
        table::lookup(committed, a.nodes[i].id) is None ==> is_reset(a, committed, id),
        table::lookup(committed, a.nodes[i].id) matches Some(s) ==> s.last_checked_at_ms is None ==> is_reset(
            a,
            committed,
            id,
        ),
        (forall|j: int| 0 <= j < a.nodes.len() ==> !((#[trigger] a.nodes[j]).config is ImmediateTrigger && !(
        table::lookup(committed, a.nodes[j].id) matches Some(s) && s.last_checked_at_ms is Some))) ==> !is_reset(
            a,
            committed,
            id,
        ),
{
    assert(about_to_fire(committed, a.nodes[i]) || !about_to_fire(committed, a.nodes[i]));
    if is_reset(a, committed, id) {
        let j = choose|j: int|
            0 <= j < a.nodes.len() && about_to_fire(committed, #[trigger] a.nodes[j]) && graph::leads(
                graph::arcs_of(a.edges),
                a.nodes[j].id,
                id,
            );
        assert(a.nodes[j].config is ImmediateTrigger);
    }
}

/// After a tick every block that ran has the state that the tick left, and
/// every other the one that it had.
pub proof fn ticks_update_the_blocks_that_ran(
    states: Seq<(Seq<char>, NodeRuntimeStateModel)>,
    updates: Seq<(Seq<char>, NodeRuntimeStateModel)>,
    n: int,
    id: Seq<char>,
)
    requires
        table::sorted(updates),
        0 <= n <= updates.len(),
    ensures
        table::lookup(updated_states(states, updates, n), id) == match table::lookup(updates.take(n), id) {
            Some(s) => Some(s),
            None => table::lookup(states, id),
        },
    decreases n,
{
    let some = updates.take(n);
    table::place_from_facts(some, id, 0);
    if n > 0 {
        let fewer = updates.take(n - 1);
        ticks_update_the_blocks_that_ran(states, updates, n - 1, id);
        table::put_then_lookup(updated_states(states, updates, n - 1), updates[n - 1].0, updates[n - 1].1, id);
        table::place_from_facts(fewer, id, 0);
        if updates[n - 1].0 == id {
            assert forall|j: int| 0 <= j < n - 1 implies (#[trigger] some[j]).0 != id by {
                text::before_is_total(id, id);
                assert(text::before(updates[j].0, updates[n - 1].0));
            }
            table::place_from_is(some, id, 0, n - 1);
        } else if let Some(i) = table::place_from(fewer, id, 0) {
            assert forall|j: int| 0 <= j < i implies (#[trigger] some[j]).0 != id by {
                assert(fewer[j].0 != id);
            }
            assert(some[i] == fewer[i]);
            table::place_from_is(some, id, 0, i);
        } else {
            assert forall|j: int| 0 <= j < some.len() implies (#[trigger] some[j]).0 != id by {
                if j < fewer.len() {
                    assert(fewer[j].0 != id);
                }
            }
            table::place_from_none(some, id, 0);
        }
    } else {
        table::place_from_none(some, id, 0);
    }
}

/// The status of an automation tells the latest moment at which one of its
/// blocks fired, and an error where one of its blocks has one.
pub proof fn statuses_sum_up_the_blocks(a: AutomationModel, t: TickModel, o: Oracle, i: int)
    ensures
        ({
            let after = committed_tick(a, t, o);
            let states = after.status.node_states;
            &&& 0 <= i < states.len() ==> (states[i].1.last_fired_at_ms matches Some(at)
                ==> after.status.last_fired_at_ms matches Some(latest) && at <= latest)
            &&& after.status.last_fired_at_ms is Some ==> exists|k: int|
                0 <= k < states.len() && (#[trigger] states[k]).1.last_fired_at_ms == after.status.last_fired_at_ms
            &&& after.status.last_error is None <==> forall|k: int|
                0 <= k < states.len() ==> (#[trigger] states[k]).1.last_error is None
            &&& after.status.last_error is Some ==> exists|k: int|
                0 <= k < states.len() && (#[trigger] states[k]).1.last_error == after.status.last_error
            &&& after.nodes == a.nodes && after.edges == a.edges && after.enabled == a.enabled && after.name == a.name
                && after.id == a.id
            &&& after.variables == a.variables || after.variables == t.variables
        }),
{
    let states = committed_tick(a, t, o).status.node_states;
    latest_is_greatest(states, states.len() as int);
    error_is_one_of_them(states, 0);
}

proof fn latest_is_greatest(states: Seq<(Seq<char>, NodeRuntimeStateModel)>, n: int)
    requires
        0 <= n <= states.len(),
    ensures
        forall|i: int|
            0 <= i < n ==> ((#[trigger] states[i]).1.last_fired_at_ms matches Some(at) ==> (last_fired(states, n)
                matches Some(latest) && at <= latest)),
        last_fired(states, n) is Some ==> exists|k: int|
            0 <= k < n && (#[trigger] states[k]).1.last_fired_at_ms == last_fired(states, n),
    decreases n,
{
    if n > 0 {
        latest_is_greatest(states, n - 1);
        if last_fired(states, n) is Some {
            if last_fired(states, n) == states[n - 1].1.last_fired_at_ms {
                assert(states[n - 1].1.last_fired_at_ms == last_fired(states, n));
            } else {
                let k = choose|k: int|
                    0 <= k < n - 1 && (#[trigger] states[k]).1.last_fired_at_ms == last_fired(states, n - 1);
                assert(states[k].1.last_fired_at_ms == last_fired(states, n));
            }
        }
    }
}

proof fn error_is_one_of_them(states: Seq<(Seq<char>, NodeRuntimeStateModel)>, i: int)
    requires
        0 <= i,
    ensures
        error_from(states, i) is None <==> forall|k: int| i <= k < states.len() ==> (#[trigger] states[k]).1.last_error
            is None,
        error_from(states, i) is Some ==> exists|k: int|
            i <= k < states.len() && (#[trigger] states[k]).1.last_error == error_from(states, i),
    decreases states.len() - i,
{
    if i < states.len() && states[i].1.last_error is None {
        error_is_one_of_them(states, i + 1);
    }
}

/// A tick matters where it changes the variables, or what is shown of a block:
/// its value, when it fired, its error.
pub proof fn ticks_matter_where_something_shows(
    a: AutomationModel,
    t: TickModel,
    o: Oracle,
    before: NodeRuntimeStateModel,
    after: NodeRuntimeStateModel,
)
    ensures
        !same_variables(a.variables, t.variables, o) ==> tick_matters(a, t, o),
        t.updates.len() == 1 && table::lookup(a.status.node_states, t.updates[0].0) == Some(before) && (
        t.updates[0].1.last_value != before.last_value || t.updates[0].1.last_fired_at_ms != before.last_fired_at_ms
            || t.updates[0].1.last_error != before.last_error) ==> tick_matters(a, t, o),
        visibly_differs(Some(before), after) <==> before.last_value != after.last_value || before.last_fired_at_ms
            != after.last_fired_at_ms || before.last_error != after.last_error,
        visibly_differs(None, after) <==> !(after.last_value is None && after.last_fired_at_ms is None
            && after.last_error is None),
{
    if t.updates.len() == 1 {
        reveal_with_fuel(some_visible, 2);
        reveal_with_fuel(updated_states, 2);
    }
}

} // verus!
