//! Trial runs: what the blocks of an automation would come to now, with nothing
//! switched, sent or kept.
//!
//! A trial run goes block by block as a tick does, so that requests can be made
//! in between.

use vstd::prelude::*;

use crate::automations::cycles::upstream_closure;
use crate::automations::flow;
use crate::automations::flow::{
    acts, describe_action, expose, find_node, gather_inputs, is_forced_trigger, node_title, rearm, stored_state,
};
use crate::automations::graph;
use crate::automations::graph::topo_sort_nodes;
use crate::automations::host;
use crate::automations::host::{Answer, Ask, Oracle};
use crate::automations::node;
use crate::automations::node::{due_request, evaluate_node, Scene, SceneModel};
use crate::automations::types::{
    Automation, AutomationModel, AutomationNodeModel, NodeRuntimeState, NodeRuntimeStateModel,
};
use crate::conditions::{ConditionConfig, ConditionConfigModel, ProbeOutcome, ProbeOutcomeModel};
use crate::dup::Dup;
use crate::hooks::{HookConfig, HookConfigModel};
use crate::lists;
use crate::lists::has_text;
use crate::table;
use crate::table::Table;
use crate::text::around;
use crate::value::{Value, ValueModel};

verus! {

/// What a block came to in a trial run.
pub struct RunNodeResult {
    pub node_id: String,
    pub title: String,
    pub value: Option<bool>,
    pub outputs: Table<String>,
    pub error: Option<String>,
    pub fired: bool,
    /// What the block would have done.
    pub action: Option<String>,
}

/// The contents of `RunNodeResult`.
#[verifier::ext_equal]
pub struct RunNodeResultModel {
    pub node_id: Seq<char>,
    pub title: Seq<char>,
    pub value: Option<bool>,
    pub outputs: Seq<(Seq<char>, Seq<char>)>,
    pub error: Option<Seq<char>>,
    pub fired: bool,
    pub action: Option<Seq<char>>,
}

impl DeepView for RunNodeResult {
    type V = RunNodeResultModel;

    open spec fn deep_view(&self) -> RunNodeResultModel {
        RunNodeResultModel {
            node_id: self.node_id.deep_view(),
            title: self.title.deep_view(),
            value: self.value.deep_view(),
            outputs: self.outputs.deep_view(),
            error: self.error.deep_view(),
            fired: self.fired.deep_view(),
            action: self.action.deep_view(),
        }
    }
}

impl Dup for RunNodeResult {
    fn dup(&self) -> (r: Self) {
        RunNodeResult {
            node_id: self.node_id.dup(),
            title: self.title.dup(),
            value: self.value.dup(),
            outputs: self.outputs.dup(),
            error: self.error.dup(),
            fired: self.fired.dup(),
            action: self.action.dup(),
        }
    }
}

/// A trial run, in progress.
pub struct DryRun {
    /// The blocks in the order in which they are evaluated.
    pub order: Vec<String>,
    /// How many of them have been.
    pub done: usize,
    /// What each block has come to.
    pub outputs: Table<Option<bool>>,
    /// The states that the run has computed.
    pub fresh: Table<NodeRuntimeState>,
    pub variables: Table<Value>,
    pub results: Vec<RunNodeResult>,
    pub tick_ms: u128,
    pub simulate: bool,
}

/// The contents of `DryRun`.
#[verifier::ext_equal]
pub struct DryRunModel {
    pub order: Seq<Seq<char>>,
    pub done: usize,
    pub outputs: Seq<(Seq<char>, Option<bool>)>,
    pub fresh: Seq<(Seq<char>, NodeRuntimeStateModel)>,
    pub variables: Seq<(Seq<char>, ValueModel)>,
    pub results: Seq<RunNodeResultModel>,
    pub tick_ms: u128,
    pub simulate: bool,
}

impl DeepView for DryRun {
    type V = DryRunModel;

    open spec fn deep_view(&self) -> DryRunModel {
        DryRunModel {
            order: self.order.deep_view(),
            done: self.done.deep_view(),
            outputs: self.outputs.deep_view(),
            fresh: self.fresh.deep_view(),
            variables: self.variables.deep_view(),
            results: self.results.deep_view(),
            tick_ms: self.tick_ms.deep_view(),
            simulate: self.simulate.deep_view(),
        }
    }
}

impl Dup for DryRun {
    fn dup(&self) -> (r: Self) {
        DryRun {
            order: self.order.dup(),
            done: self.done.dup(),
            outputs: self.outputs.dup(),
            fresh: self.fresh.dup(),
            variables: self.variables.dup(),
            results: self.results.dup(),
            tick_ms: self.tick_ms.dup(),
            simulate: self.simulate.dup(),
        }
    }
}

/// Which blocks a block depends on, itself among them.
pub open spec fn feeds(a: AutomationModel, target: Seq<char>) -> spec_fn(Seq<char>) -> bool {
    |id: Seq<char>| graph::reaches(graph::arcs_of(a.edges), id, target)
}

/// The blocks of a trial run: all of them, or those that `target` depends on.
pub open spec fn trial_order(a: AutomationModel, target: Option<Seq<char>>) -> Result<Seq<Seq<char>>, Seq<char>> {
    match graph::sorted_ids(a.nodes, a.edges) {
        None => Err("the graph has a cycle"@),
        Some(order) => match target {
            None => Ok(order),
            Some(id) => if flow::node_from(a.nodes, id, 0) is None {
                Err("node '"@ + id + "' is not in the graph"@)
            } else {
                Ok(order.filter(feeds(a, id)))
            },
        },
    }
}

/// A trial run that has just begun.
pub open spec fn begun(a: AutomationModel, order: Seq<Seq<char>>, now: u128, simulate: bool) -> DryRunModel {
    DryRunModel {
        order,
        done: 0,
        outputs: Seq::empty(),
        fresh: Seq::empty(),
        variables: a.variables,
        results: Seq::empty(),
        tick_ms: now,
        simulate,
    }
}

fn keep_upstream(automation: &Automation, order: &Vec<String>, target: &str) -> (r: Vec<String>)
    ensures
        r.deep_view() == order.deep_view().filter(feeds(automation.deep_view(), target@)),
{
    let ghost all = order.deep_view();
    let ghost keep = feeds(automation.deep_view(), target@);
    let closure = upstream_closure(target, &automation.edges);
    let mut kept: Vec<String> = Vec::new();
    proof {
        reveal(Seq::filter);
        assert(kept.deep_view() =~= all.take(0).filter(keep));
    }
    let mut i: usize = 0;
    while i < order.len()
        invariant
            i <= order@.len(),
            all == order.deep_view(),
            keep == feeds(automation.deep_view(), target@),
            forall|k: Seq<char>| #[trigger]
                closure.deep_view().contains(k) <==> graph::reaches(
                    graph::arcs_of(automation.deep_view().edges),
                    k,
                    target@,
                ),
            kept.deep_view() == all.take(i as int).filter(keep),
        decreases order@.len() - i,
    {
        let ghost had = kept.deep_view();
        proof {
            assert(all[i as int] == order@[i as int]@);
            lists::filter_step(all, keep, i as int);
        }
        if has_text(&closure, order[i].as_str()) {
            kept.push(order[i].clone());
            proof {
                assert(kept.deep_view() =~= had.push(order@[i as int]@));
            }
        }
        i = i + 1;
    }
    proof {
        assert(all.take(all.len() as int) =~= all);
    }
    kept
}

/// Begins a trial run of the whole automation, or of one block and those that
/// it depends on. A run that simulates makes no request, and takes the blocks
/// that start a flow to fire.
pub fn begin_dry_run(automation: &Automation, target: Option<String>, simulate: bool, now: u128) -> (r: Result<
    DryRun,
    String,
>)
    ensures
        match r {
            Ok(run) => trial_order(automation.deep_view(), target.deep_view()) == Ok::<Seq<Seq<char>>, Seq<char>>(
                run.deep_view().order,
            ) && run.deep_view() == begun(automation.deep_view(), run.deep_view().order, now, simulate),
            Err(m) => trial_order(automation.deep_view(), target.deep_view()) == Err::<Seq<Seq<char>>, Seq<char>>(m@),
        },
{
    let full = match topo_sort_nodes(&automation.nodes, &automation.edges) {
        Some(order) => order,
        None => {
            return Err("the graph has a cycle".to_owned());
        },
    };
    let order = match &target {
        None => full,
        Some(id) => {
            if find_node(&automation.nodes, id.as_str()).is_none() {
                return Err(around("node '", id.as_str(), "' is not in the graph"));
            }
            keep_upstream(automation, &full, id.as_str())
        },
    };
    let run = DryRun {
        order,
        done: 0,
        outputs: Table::new(),
        fresh: Table::new(),
        variables: automation.variables.dup(),
        results: Vec::new(),
        tick_ms: now,
        simulate,
    };
    proof {
        assert(run.results.deep_view() =~= Seq::<RunNodeResultModel>::empty());
    }
    Ok(run)
}

/// What the blocks of a trial run see: the tick before it was a second ago.
pub open spec fn trial_scene(
    t: DryRunModel,
    a: AutomationModel,
    devices: Seq<(Seq<char>, bool)>,
    readings: Seq<(Seq<char>, (Option<bool>, bool))>,
) -> SceneModel {
    SceneModel {
        automation_id: a.id,
        committed: a.status.node_states,
        fresh: Some(t.fresh),
        devices,
        readings,
        previous_tick_ms: if t.tick_ms < 1000 {
            0
        } else {
            (t.tick_ms - 1000) as u128
        },
        tick_ms: t.tick_ms,
        simulate: t.simulate,
    }
}

/// What a block starts from in a trial run: as if it had not been reached yet.
pub open spec fn trial_baseline(a: AutomationModel, id: Seq<char>) -> NodeRuntimeStateModel {
    flow::rearmed(flow::state_or_fresh(a.status.node_states, id))
}

/// The request that the next block makes.
pub open spec fn trial_request(
    t: DryRunModel,
    a: AutomationModel,
    devices: Seq<(Seq<char>, bool)>,
    readings: Seq<(Seq<char>, (Option<bool>, bool))>,
) -> Option<ConditionConfigModel> {
    if t.done >= t.order.len() {
        None
    } else {
        let id = t.order[t.done as int];
        match flow::node_from(a.nodes, id, 0) {
            None => None,
            Some(n) => node::request_due(
                trial_scene(t, a, devices, readings),
                n,
                flow::inputs_of(a.edges, id, t.outputs),
                trial_baseline(a, id),
            ),
        }
    }
}

/// A trial run with one block more.
pub open spec fn stepped(
    t: DryRunModel,
    a: AutomationModel,
    devices: Seq<(Seq<char>, bool)>,
    readings: Seq<(Seq<char>, (Option<bool>, bool))>,
    hooks: Seq<(Seq<char>, HookConfigModel)>,
    fetched: Option<ProbeOutcomeModel>,
    o: Oracle,
) -> DryRunModel {
    let id = t.order[t.done as int];
    match flow::node_from(a.nodes, id, 0) {
        None => DryRunModel { done: (t.done + 1) as usize, ..t },
        Some(n) => {
            let step = node::node_step(
                trial_scene(t, a, devices, readings),
                n,
                flow::inputs_of(a.edges, id, t.outputs),
                trial_baseline(a, id),
                t.variables,
                fetched,
                o,
            );
            let value = if t.simulate && flow::starts_flow(n.config) {
                Some(true)
            } else {
                step.value
            };
            let fired = value == Some(true);
            DryRunModel {
                done: (t.done + 1) as usize,
                outputs: table::put(t.outputs, id, value),
                fresh: table::put(t.fresh, id, step.state),
                variables: step.variables,
                results: t.results.push(
                    RunNodeResultModel {
                        node_id: id,
                        title: flow::title(n.config),
                        value,
                        outputs: flow::exposed(n.config, step.state.outputs, value),
                        error: step.state.last_error,
                        fired,
                        action: if flow::is_action(n.config) && fired {
                            flow::deed_words(n.config, hooks)
                        } else {
                            None
                        },
                    },
                ),
                ..t
            }
        },
    }
}

impl DryRun {
    /// Whether every block has been evaluated.
    pub fn is_done(&self) -> (b: bool)
        ensures
            b == (self.done >= self.order@.len()),
    {
        self.done >= self.order.len()
    }

    /// The request that the next block makes, as a condition to probe.
    pub fn pending_request(
        &self,
        automation: &Automation,
        devices: &Table<bool>,
        readings: &Table<(Option<bool>, bool)>,
    ) -> (r: Option<ConditionConfig>)
        ensures
            r.deep_view() == trial_request(
                self.deep_view(),
                automation.deep_view(),
                devices.deep_view(),
                readings.deep_view(),
            ),
    {
        if self.done >= self.order.len() {
            return None;
        }
        let id = self.order[self.done].as_str();
        proof {
            assert(self.deep_view().order[self.done as int] == id@);
        }
        match find_node(&automation.nodes, id) {
            None => None,
            Some(n) => {
                let scene = Scene {
                    automation_id: automation.id.as_str(),
                    committed: &automation.status.node_states,
                    fresh: Some(&self.fresh),
                    devices,
                    readings,
                    previous_tick_ms: self.tick_ms.saturating_sub(1000),
                    tick_ms: self.tick_ms,
                    simulate: self.simulate,
                };
                let inputs = gather_inputs(&automation.edges, id, &self.outputs);
                let prev = rearm(stored_state(&automation.status.node_states, id));
                due_request(&scene, n, &inputs, &prev)
            },
        }
    }

    /// Evaluates the next block. Where it makes a request, `fetched` is what
    /// came of it.
    pub fn advance<H: Fn(Ask) -> Answer>(
        &mut self,
        automation: &Automation,
        devices: &Table<bool>,
        readings: &Table<(Option<bool>, bool)>,
        hooks: &Table<HookConfig>,
        fetched: Option<ProbeOutcome>,
        host: &H,
    )
        requires
            host::faithful(*host),
            old(self).done < old(self).order.len(),
            trial_request(
                old(self).deep_view(),
                automation.deep_view(),
                devices.deep_view(),
                readings.deep_view(),
            ) is Some ==> fetched is Some,
        ensures
            final(self).deep_view() == stepped(
                old(self).deep_view(),
                automation.deep_view(),
                devices.deep_view(),
                readings.deep_view(),
                hooks.deep_view(),
                fetched.deep_view(),
                host::oracle(*host),
            ),
    {
        let ghost t = self.deep_view();
        let id = self.order[self.done].clone();
        proof {
            assert(t.order[self.done as int] == id@);
        }
        match find_node(&automation.nodes, id.as_str()) {
            None => {
                self.done = self.done + 1;
            },
            Some(n) => {
                let inputs = gather_inputs(&automation.edges, id.as_str(), &self.outputs);
                let prev = rearm(stored_state(&automation.status.node_states, id.as_str()));
                let scene = Scene {
                    automation_id: automation.id.as_str(),
                    committed: &automation.status.node_states,
                    fresh: Some(&self.fresh),
                    devices,
                    readings,
                    previous_tick_ms: self.tick_ms.saturating_sub(1000),
                    tick_ms: self.tick_ms,
                    simulate: self.simulate,
                };
                let (found, state) = evaluate_node(&scene, n, &inputs, &prev, &mut self.variables, fetched, host);
                let value = if self.simulate && is_forced_trigger(&n.config) {
                    Some(true)
                } else {
                    found
                };
                let fired = match value {
                    Some(v) => v,
                    None => false,
                };
                let action = if acts(&n.config) && fired {
                    describe_action(&n.config, hooks)
                } else {
                    None
                };
                let result = RunNodeResult {
                    node_id: id.clone(),
                    title: node_title(&n.config),
                    value,
                    outputs: expose(&n.config, state.outputs.dup(), value),
                    error: state.last_error.dup(),
                    fired,
                    action,
                };
                let ghost had = self.results.deep_view();
                let ghost m = result.deep_view();
                self.results.push(result);
                proof {
                    assert(self.results.deep_view() =~= had.push(m));
                }
                self.outputs.insert(id.clone(), value);
                self.fresh.insert(id, state);
                self.done = self.done + 1;
            },
        }
    }
}

/// A trial run that simulates makes no request.
pub proof fn simulated_runs_send_nothing(
    t: DryRunModel,
    a: AutomationModel,
    devices: Seq<(Seq<char>, bool)>,
    readings: Seq<(Seq<char>, (Option<bool>, bool))>,
)
    requires
        t.simulate,
    ensures
        trial_request(t, a, devices, readings) is None,
{
}

/// A trial run of a block evaluates the block and what it depends on, and
/// nothing else of the automation.
pub proof fn trials_stay_upstream(a: AutomationModel, target: Seq<char>, id: Seq<char>)
    requires
        trial_order(a, Some(target)) is Ok,
    ensures
        trial_order(a, Some(target))->Ok_0.contains(id) <==> graph::sorted_ids(a.nodes, a.edges)->0.contains(id)
            && graph::reaches(graph::arcs_of(a.edges), id, target),
{
    lists::filter_holds(graph::sorted_ids(a.nodes, a.edges)->0, feeds(a, target), id);
}

/// A trial runs the next block as if it were new, on the inputs of this run;
/// what starts a flow counts as true where the run is only simulated. What the
/// block comes to is told with its outputs and its error, and what it would do
/// is told where it is an action that comes to true.
pub proof fn trials_tell_what_blocks_come_to(
    t: DryRunModel,
    a: AutomationModel,
    devices: Seq<(Seq<char>, bool)>,
    readings: Seq<(Seq<char>, (Option<bool>, bool))>,
    hooks: Seq<(Seq<char>, HookConfigModel)>,
    fetched: Option<ProbeOutcomeModel>,
    o: Oracle,
    n: AutomationNodeModel,
)
    requires
        t.done < t.order.len() <= usize::MAX,
        flow::node_from(a.nodes, t.order[t.done as int], 0) == Some(n),
    ensures
        ({
            let id = t.order[t.done as int];
            let u = stepped(t, a, devices, readings, hooks, fetched, o);
            let step = node::node_step(
                trial_scene(t, a, devices, readings),
                n,
                flow::inputs_of(a.edges, id, t.outputs),
                flow::rearmed(flow::state_or_fresh(a.status.node_states, id)),
                t.variables,
                fetched,
                o,
            );
            let starts = n.config is ImmediateTrigger || n.config is CronTrigger || n.config is IntervalTrigger
                || n.config is DeviceEventTrigger || n.config is VariableChanged;
            let told = u.results.last();
            &&& u.done == t.done + 1
            &&& u.results.len() == t.results.len() + 1 && u.results.drop_last() == t.results
            &&& told.node_id == id
            &&& told.error == step.state.last_error
            &&& t.simulate && starts ==> told.value == Some(true)
            &&& !(t.simulate && starts) ==> told.value == step.value
            &&& table::lookup(u.outputs, id) == Some(told.value)
            &&& told.fired <==> told.value == Some(true)
            &&& told.action is Some <==> told.fired && (n.config is SetDevice || n.config is ToggleDevice
                || n.config is FireHook)
            &&& told.action is Some ==> told.action == flow::deed_words(n.config, hooks)
            &&& u.variables == step.variables
            &&& table::lookup(u.fresh, id) == Some(step.state)
        }),
{
    let id = t.order[t.done as int];
    let u = stepped(t, a, devices, readings, hooks, fetched, o);
    let step = node::node_step(
        trial_scene(t, a, devices, readings),
        n,
        flow::inputs_of(a.edges, id, t.outputs),
        trial_baseline(a, id),
        t.variables,
        fetched,
        o,
    );
    let value = u.results.last().value;
    table::put_then_lookup(t.outputs, id, value, id);
    table::put_then_lookup(t.fresh, id, step.state, id);
    assert(u.results.drop_last() =~= t.results);
}

/// A trial sees the moment that it was begun at, with the tick before it a
/// second earlier, and the states that this run has left.
pub proof fn trials_see_their_own_run(
    t: DryRunModel,
    a: AutomationModel,
    devices: Seq<(Seq<char>, bool)>,
    readings: Seq<(Seq<char>, (Option<bool>, bool))>,
    order: Seq<Seq<char>>,
    now: u128,
    simulate: bool,
)
    ensures
        ({
            let s = trial_scene(t, a, devices, readings);
            &&& s.tick_ms == t.tick_ms
            &&& t.tick_ms >= 1000 ==> s.previous_tick_ms + 1000 == t.tick_ms
            &&& s.fresh == Some(t.fresh) && s.committed == a.status.node_states
            &&& s.devices == devices && s.readings == readings
            &&& s.simulate == t.simulate
        }),
        ({
            let b = begun(a, order, now, simulate);
            &&& b.order == order && b.done == 0 && b.results.len() == 0 && b.outputs.len() == 0 && b.fresh.len() == 0
            &&& b.variables == a.variables && b.tick_ms == now && b.simulate == simulate
        }),
{
}

/// A trial of a whole automation runs its blocks in order; one of an automation
/// whose blocks go in a circle, or of a block that it does not have, is refused.
pub proof fn trials_run_in_order(a: AutomationModel, target: Seq<char>)
    ensures
        graph::sorted_ids(a.nodes, a.edges) matches Some(order) ==> trial_order(a, None) == Ok::<
            Seq<Seq<char>>,
            Seq<char>,
        >(order),
        graph::sorted_ids(a.nodes, a.edges) is None ==> trial_order(a, None) is Err && trial_order(a, Some(target)) is Err,
        flow::node_from(a.nodes, target, 0) is None ==> trial_order(a, Some(target)) is Err,
        graph::sorted_ids(a.nodes, a.edges) is Some && flow::node_from(a.nodes, target, 0) is Some ==> trial_order(
            a,
            Some(target),
        ) is Ok,
{
}

} // verus!
