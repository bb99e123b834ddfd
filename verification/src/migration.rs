//! Automations for the schedules and conditions of older boards.

use vstd::prelude::*;
use vstd::string::*;

use crate::actions::{ConditionAction, ScheduleAction, ScheduleKind};
use crate::automations::api;
use crate::automations::api::fresh_status;
use crate::automations::graph;
use crate::automations::host::Oracle;
use crate::automations::types::{
    Automation, AutomationEdge, AutomationEdgeModel, AutomationModel, AutomationNode, AutomationNodeConfig,
    AutomationNodeConfigModel, AutomationNodeModel, CronTriggerCfg, CronTriggerCfgModel, HttpProbeCfg,
    HttpProbeCfgModel, HttpRequestCfg, HttpRequestCfgModel, IntervalTriggerCfg, SetDeviceCfg, SetDeviceCfgModel,
};
use crate::conditions::{ConditionConfig, ConditionConfigModel};
use crate::devices;
use crate::dup::Dup;
use crate::schedules::{ScheduleConfig, ScheduleConfigModel};
use crate::state::{PersistedState, PersistedStateModel};
use crate::table;
use crate::table::Table;
use crate::text;
use crate::text::{around, decimal_text};

verus! {

// Places on the canvas, as bit patterns of doubles.
/// The bit pattern of 80 as a double.
pub const AT_80: u64 = 0x4054_0000_0000_0000;

/// The bit pattern of 240 as a double.
pub const AT_240: u64 = 0x406E_0000_0000_0000;

/// The bit pattern of 250 as a double.
pub const AT_250: u64 = 0x406F_4000_0000_0000;

/// The bit pattern of 380 as a double.
pub const AT_380: u64 = 0x4077_C000_0000_0000;

/// The bit pattern of 420 as a double.
pub const AT_420: u64 = 0x407A_4000_0000_0000;

/// The id of the `n`th edge that a migration makes.
pub open spec fn edge_id(now: u128, n: int) -> Seq<char> {
    "mig-"@ + text::decimal(now as nat) + "-"@ + text::decimal(n as nat)
}

fn make_edge_id(now: u128, n: u128) -> (id: String)
    ensures
        id@ == edge_id(now, n as int),
{
    let mut id = around("mig-", decimal_text(now).as_str(), "-");
    id.append(decimal_text(n).as_str());
    id
}

/// The `n`th edge that a migration makes.
pub open spec fn edge(now: u128, n: int, source: Seq<char>, target: Seq<char>) -> AutomationEdgeModel {
    AutomationEdgeModel {
        id: edge_id(now, n),
        source_node: source,
        target_node: target,
        source_socket: "out"@,
        target_socket: "in"@,
    }
}

fn make_edge(now: u128, n: u128, source: &String, target: &String) -> (e: AutomationEdge)
    ensures
        e.deep_view() == edge(now, n as int, source@, target@),
{
    AutomationEdge {
        id: make_edge_id(now, n),
        source_node: source.clone(),
        target_node: target.clone(),
        source_socket: "out".to_owned(),
        target_socket: "in".to_owned(),
    }
}

/// A block that switches a device.
pub open spec fn switch_node(
    id: Seq<char>,
    x: u64,
    y: u64,
    device: Seq<char>,
    action: ScheduleAction,
) -> AutomationNodeModel {
    AutomationNodeModel {
        id,
        config: AutomationNodeConfigModel::SetDevice {
            set_device: SetDeviceCfgModel { device_name: device, action },
        },
        x,
        y,
    }
}

fn make_switch(id: &String, x: u64, y: u64, device: &String, action: ScheduleAction) -> (n: AutomationNode)
    ensures
        n.deep_view() == switch_node(id@, x, y, device@, action),
{
    AutomationNode {
        id: id.clone(),
        config: AutomationNodeConfig::SetDevice {
            set_device: SetDeviceCfg { device_name: device.clone(), action },
        },
        x,
        y,
    }
}

/// What a condition's action is for a block.
pub open spec fn as_action(a: ConditionAction) -> ScheduleAction {
    match a {
        ConditionAction::On => ScheduleAction::On,
        ConditionAction::Off => ScheduleAction::Off,
    }
}

fn to_action(a: ConditionAction) -> (r: ScheduleAction)
    ensures
        r == as_action(a),
{
    match a {
        ConditionAction::On => ScheduleAction::On,
        ConditionAction::Off => ScheduleAction::Off,
    }
}

/// When something was made; what does not say so was made now.
pub open spec fn made_at(created: u128, now: u128) -> u128 {
    if created == 0 {
        now
    } else {
        created
    }
}

// ---------- Conditions ----------

/// The block that probes for a condition.
pub open spec fn probe_node(id: Seq<char>, c: ConditionConfigModel) -> AutomationNodeModel {
    AutomationNodeModel {
        id: "probe-"@ + id,
        config: AutomationNodeConfigModel::HttpProbe {
            http_probe: HttpProbeCfgModel {
                url: c.url,
                method: c.method,
                headers: c.headers,
                body: c.body,
                status_match: c.status_match,
                body_contains: c.body_contains,
                poll_seconds: c.poll_seconds,
                min_stable_seconds: c.min_stable_seconds,
            },
        },
        x: AT_80,
        y: AT_80,
    }
}

/// The blocks and edges of what a condition does when it passes, where `n`
/// edges were made before.
pub open spec fn pass_branch(id: Seq<char>, c: ConditionConfigModel, now: u128, n: int) -> (
    Seq<AutomationNodeModel>,
    Seq<AutomationEdgeModel>,
) {
    match c.action_on_pass {
        None => (Seq::empty(), Seq::empty()),
        Some(action) => (
            seq![switch_node("act-pass-"@ + id, AT_420, AT_80, c.device_name, as_action(action))],
            seq![edge(now, n + 1, "probe-"@ + id, "act-pass-"@ + id)],
        ),
    }
}

/// The blocks and edges of what a condition does when it fails, where `n` edges
/// were made before.
pub open spec fn fail_branch(id: Seq<char>, c: ConditionConfigModel, now: u128, n: int) -> (
    Seq<AutomationNodeModel>,
    Seq<AutomationEdgeModel>,
) {
    let y = if c.action_on_pass is Some {
        AT_240
    } else {
        AT_80
    };
    match c.action_on_fail {
        None => (Seq::empty(), Seq::empty()),
        Some(action) => (
            seq![
                AutomationNodeModel {
                    id: "not-fail-"@ + id,
                    config: AutomationNodeConfigModel::LogicNot,
                    x: AT_250,
                    y,
                },
                switch_node("act-fail-"@ + id, AT_420, y, c.device_name, as_action(action)),
            ],
            seq![
                edge(now, n + 1, "probe-"@ + id, "not-fail-"@ + id),
                edge(now, n + 2, "not-fail-"@ + id, "act-fail-"@ + id),
            ],
        ),
    }
}

/// How many edges the automation of a condition has.
pub open spec fn condition_edges(c: ConditionConfigModel) -> int {
    (if c.action_on_pass is Some { 1int } else { 0 }) + (if c.action_on_fail is Some { 2int } else { 0 })
}

/// The automation of a condition: it probes, and switches the device when the
/// probe passes, when it fails, or both.
pub open spec fn condition_automation(id: Seq<char>, c: ConditionConfigModel, now: u128, n: int) -> AutomationModel {
    let pass = pass_branch(id, c, now, n);
    let fail = fail_branch(id, c, now, n + pass.1.len());
    api::fresh_automation(
        "auto-cond-"@ + id,
        if c.name.len() == 0 {
            "Condition: "@ + c.device_name
        } else {
            c.name
        },
        c.enabled,
        seq![probe_node(id, c)] + pass.0 + fail.0,
        pass.1 + fail.1,
        Seq::empty(),
        made_at(c.created_at_ms, now),
    )
}

fn joined_name(prefix: &str, id: &String) -> (r: String)
    ensures
        r@ == prefix@ + id@,
{
    let mut r = prefix.to_owned();
    r.append(id.as_str());
    r
}

fn migrate_condition(id: &String, c: &ConditionConfig, now: u128, n: u128) -> (a: Automation)
    requires
        n + 3 <= u128::MAX,
    ensures
        a.deep_view() == condition_automation(id@, c.deep_view(), now, n as int),
{
    let ghost m = c.deep_view();
    let mut nodes: Vec<AutomationNode> = Vec::new();
    let mut edges: Vec<AutomationEdge> = Vec::new();
    let probe_id = joined_name("probe-", id);
    nodes.push(
        AutomationNode {
            id: probe_id.clone(),
            config: AutomationNodeConfig::HttpProbe {
                http_probe: HttpProbeCfg {
                    url: c.url.clone(),
                    method: c.method.clone(),
                    headers: c.headers.dup(),
                    body: c.body.dup(),
                    status_match: c.status_match.clone(),
                    body_contains: c.body_contains.dup(),
                    poll_seconds: c.poll_seconds,
                    min_stable_seconds: c.min_stable_seconds,
                },
            },
            x: AT_80,
            y: AT_80,
        },
    );
    let mut used: u128 = n;
    let mut y: u64 = AT_80;
    if let Some(action) = c.action_on_pass {
        let act_id = joined_name("act-pass-", id);
        nodes.push(make_switch(&act_id, AT_420, y, &c.device_name, to_action(action)));
        used = used + 1;
        edges.push(make_edge(now, used, &probe_id, &act_id));
        y = AT_240;
    }
    if let Some(action) = c.action_on_fail {
        let not_id = joined_name("not-fail-", id);
        nodes.push(AutomationNode { id: not_id.clone(), config: AutomationNodeConfig::LogicNot, x: AT_250, y });
        used = used + 1;
        edges.push(make_edge(now, used, &probe_id, &not_id));
        let act_id = joined_name("act-fail-", id);
        nodes.push(make_switch(&act_id, AT_420, y, &c.device_name, to_action(action)));
        used = used + 1;
        edges.push(make_edge(now, used, &not_id, &act_id));
    }
    proof {
        let pass = pass_branch(id@, m, now, n as int);
        let fail = fail_branch(id@, m, now, n + pass.1.len());
        assert(nodes.deep_view() =~= seq![probe_node(id@, m)] + pass.0 + fail.0);
        assert(edges.deep_view() =~= pass.1 + fail.1);
    }
    Automation {
        id: joined_name("auto-cond-", id),
        name: if c.name.as_str().is_empty() {
            joined_name("Condition: ", &c.device_name)
        } else {
            c.name.clone()
        },
        enabled: c.enabled,
        nodes,
        edges,
        created_at_ms: if c.created_at_ms == 0 {
            now
        } else {
            c.created_at_ms
        },
        variables: Table::new(),
        status: fresh_status(),
    }
}

// ---------- Schedules ----------

/// The block that starts a schedule, and what it does to the device; none if
/// the schedule is not complete.
pub open spec fn schedule_parts(s: ScheduleConfigModel) -> Option<(AutomationNodeConfigModel, ScheduleAction)> {
    match s.kind {
        ScheduleKind::Cron => match (s.cron, s.action) {
            (Some(cron), Some(action)) => Some(
                (AutomationNodeConfigModel::CronTrigger { cron_trigger: CronTriggerCfgModel { cron } }, action),
            ),
            _ => None,
        },
        ScheduleKind::Interval => Some(
            (
                AutomationNodeConfigModel::IntervalTrigger {
                    interval_trigger: IntervalTriggerCfg {
                        on_seconds: match s.on_seconds {
                            Some(n) => n,
                            None => 0,
                        },
                        off_seconds: match s.off_seconds {
                            Some(n) => n,
                            None => 0,
                        },
                        start_action: match s.start_action {
                            Some(a) => a,
                            None => ScheduleAction::On,
                        },
                        starts_at_ms: s.starts_at_ms,
                    },
                },
                ScheduleAction::Toggle,
            ),
        ),
    }
}

/// The automation of a schedule: it starts, and switches the device. None if
/// the schedule is not complete.
pub open spec fn schedule_automation(id: Seq<char>, s: ScheduleConfigModel, now: u128, n: int) -> Option<
    AutomationModel,
> {
    match schedule_parts(s) {
        None => None,
        Some((trigger, action)) => Some(
            api::fresh_automation(
                "auto-sched-"@ + id,
                match s.label {
                    Some(label) => if label.len() > 0 {
                        label
                    } else {
                        "Schedule: "@ + s.device_name
                    },
                    None => "Schedule: "@ + s.device_name,
                },
                s.enabled,
                seq![
                    AutomationNodeModel { id: "trig-"@ + id, config: trigger, x: AT_80, y: AT_80 },
                    switch_node("act-"@ + id, AT_380, AT_80, s.device_name, action),
                ],
                seq![edge(now, n + 1, "trig-"@ + id, "act-"@ + id)],
                Seq::empty(),
                made_at(s.created_at_ms, now),
            ),
        ),
    }
}

fn split_schedule(s: &ScheduleConfig) -> (r: Option<(AutomationNodeConfig, ScheduleAction)>)
    ensures
        r.deep_view() == schedule_parts(s.deep_view()),
{
    match s.kind {
        ScheduleKind::Cron => match (&s.cron, s.action) {
            (Some(cron), Some(action)) => Some(
                (AutomationNodeConfig::CronTrigger { cron_trigger: CronTriggerCfg { cron: cron.clone() } }, action),
            ),
            _ => None,
        },
        ScheduleKind::Interval => Some(
            (
                AutomationNodeConfig::IntervalTrigger {
                    interval_trigger: IntervalTriggerCfg {
                        on_seconds: match s.on_seconds {
                            Some(n) => n,
                            None => 0,
                        },
                        off_seconds: match s.off_seconds {
                            Some(n) => n,
                            None => 0,
                        },
                        start_action: match s.start_action {
                            Some(a) => a,
                            None => ScheduleAction::On,
                        },
                        starts_at_ms: s.starts_at_ms,
                    },
                },
                ScheduleAction::Toggle,
            ),
        ),
    }
}

fn schedule_name(s: &ScheduleConfig) -> (r: String)
    ensures
        r@ == (match s.deep_view().label {
            Some(label) => if label.len() > 0 {
                label
            } else {
                "Schedule: "@ + s.device_name@
            },
            None => "Schedule: "@ + s.device_name@,
        }),
{
    if let Some(label) = &s.label {
        if !label.as_str().is_empty() {
            return label.clone();
        }
    }
    joined_name("Schedule: ", &s.device_name)
}

fn migrate_schedule(id: &String, s: &ScheduleConfig, now: u128, n: u128) -> (r: Option<Automation>)
    requires
        n + 1 <= u128::MAX,
    ensures
        r.deep_view() == schedule_automation(id@, s.deep_view(), now, n as int),
{
    let ghost m = s.deep_view();
    let (trigger, action) = match split_schedule(s) {
        Some(parts) => parts,
        None => {
            return None;
        },
    };
    let ghost config = trigger.deep_view();
    let trigger_id = joined_name("trig-", id);
    let act_id = joined_name("act-", id);
    let mut nodes: Vec<AutomationNode> = Vec::new();
    let mut edges: Vec<AutomationEdge> = Vec::new();
    nodes.push(AutomationNode { id: trigger_id.clone(), config: trigger, x: AT_80, y: AT_80 });
    nodes.push(make_switch(&act_id, AT_380, AT_80, &s.device_name, action));
    edges.push(make_edge(now, n + 1, &trigger_id, &act_id));
    proof {
        assert(nodes.deep_view() =~= seq![
            AutomationNodeModel { id: "trig-"@ + id@, config, x: AT_80, y: AT_80 },
            switch_node("act-"@ + id@, AT_380, AT_80, m.device_name, action),
        ]);
        assert(edges.deep_view() =~= seq![edge(now, n + 1, "trig-"@ + id@, "act-"@ + id@)]);
    }
    Some(
        Automation {
            id: joined_name("auto-sched-", id),
            name: schedule_name(s),
            enabled: s.enabled,
            nodes,
            edges,
            created_at_ms: if s.created_at_ms == 0 {
                now
            } else {
                s.created_at_ms
            },
            variables: Table::new(),
            status: fresh_status(),
        },
    )
}

// ---------- All of them ----------

/// How many edges the automations of the first `n` conditions have.
pub open spec fn edges_before(t: Seq<(Seq<char>, ConditionConfigModel)>, n: int) -> int
    decreases n,
{
    if n <= 0 || n > t.len() {
        0
    } else {
        edges_before(t, n - 1) + condition_edges(t[n - 1].1)
    }
}

/// The automations with those of the first `n` conditions among them.
pub open spec fn with_conditions(
    automations: Seq<(Seq<char>, AutomationModel)>,
    t: Seq<(Seq<char>, ConditionConfigModel)>,
    now: u128,
    n: int,
) -> Seq<(Seq<char>, AutomationModel)>
    decreases n,
{
    if n <= 0 || n > t.len() {
        automations
    } else {
        table::put(
            with_conditions(automations, t, now, n - 1),
            "auto-cond-"@ + t[n - 1].0,
            condition_automation(t[n - 1].0, t[n - 1].1, now, edges_before(t, n - 1)),
        )
    }
}

/// How many edges the automations of the first `n` schedules have: one each, if
/// the schedule is complete.
pub open spec fn schedule_edges(t: Seq<(Seq<char>, ScheduleConfigModel)>, n: int) -> int
    decreases n,
{
    if n <= 0 || n > t.len() {
        0
    } else {
        schedule_edges(t, n - 1) + (if schedule_parts(t[n - 1].1) is Some {
            1int
        } else {
            0
        })
    }
}

/// The automations with those of the first `n` schedules among them, where
/// `made` edges were made before.
pub open spec fn with_schedules(
    automations: Seq<(Seq<char>, AutomationModel)>,
    t: Seq<(Seq<char>, ScheduleConfigModel)>,
    now: u128,
    made: int,
    n: int,
) -> Seq<(Seq<char>, AutomationModel)>
    decreases n,
{
    if n <= 0 || n > t.len() {
        automations
    } else {
        let before = with_schedules(automations, t, now, made, n - 1);
        match schedule_automation(t[n - 1].0, t[n - 1].1, now, made + schedule_edges(t, n - 1)) {
            Some(a) => table::put(before, "auto-sched-"@ + t[n - 1].0, a),
            None => before,
        }
    }
}

/// What was kept, with an automation for every condition and every complete
/// schedule. These stay where they are, as a backup. Where there are automations
/// already, all stays as it is.
pub open spec fn migrated(p: PersistedStateModel, now: u128) -> PersistedStateModel {
    if p.automations.len() > 0 {
        p
    } else {
        let n = p.conditions.len() as int;
        PersistedStateModel {
            automations: with_schedules(
                with_conditions(p.automations, p.conditions, now, n),
                p.schedules,
                now,
                edges_before(p.conditions, n),
                p.schedules.len() as int,
            ),
            ..p
        }
    }
}

proof fn edges_stay_few(t: Seq<(Seq<char>, ConditionConfigModel)>, n: int)
    requires
        0 <= n <= t.len(),
    ensures
        0 <= edges_before(t, n) <= 3 * n,
    decreases n,
{
    if n > 0 {
        edges_stay_few(t, n - 1);
    }
}

proof fn schedule_edges_stay_few(t: Seq<(Seq<char>, ScheduleConfigModel)>, n: int)
    requires
        0 <= n <= t.len(),
    ensures
        0 <= schedule_edges(t, n) <= n,
    decreases n,
{
    if n > 0 {
        schedule_edges_stay_few(t, n - 1);
    }
}

/// Makes automations of schedules and conditions, which stay in place so that
/// the next save still keeps them.
pub fn migrate_to_automations(persisted: &mut PersistedState, now: u128)
    ensures
        final(persisted).deep_view() == migrated(old(persisted).deep_view(), now),
{
    if persisted.automations.len() > 0 {
        return ;
    }
    let ghost p = persisted.deep_view();
    let ghost cs = p.conditions;
    let ghost ss = p.schedules;
    let mut automations: Table<Automation> = Table::new();
    proof {
        assert(p.automations =~= Seq::<(Seq<char>, AutomationModel)>::empty());
    }
    let mut used: u128 = 0;
    proof {
        assert(persisted.conditions.entries.len() <= usize::MAX);
        assert(persisted.schedules.entries.len() <= usize::MAX);
    }
    let mut i: usize = 0;
    while i < persisted.conditions.entries.len()
        invariant
            i <= persisted.conditions.entries@.len(),
            persisted.conditions.entries@.len() <= usize::MAX,
            cs == persisted.conditions.deep_view(),
            used == edges_before(cs, i as int),
            automations.deep_view() == with_conditions(p.automations, cs, now, i as int),
        decreases persisted.conditions.entries@.len() - i,
    {
        let entry = &persisted.conditions.entries[i];
        proof {
            assert(cs[i as int] == (entry.0@, entry.1.deep_view()));
            edges_stay_few(cs, i as int);
        }
        let automation = migrate_condition(&entry.0, &entry.1, now, used);
        let pass: u128 = if entry.1.action_on_pass.is_some() { 1 } else { 0 };
        let fail: u128 = if entry.1.action_on_fail.is_some() { 2 } else { 0 };
        used = used + pass + fail;
        automations.insert(joined_name("auto-cond-", &entry.0), automation);
        i = i + 1;
    }
    let ghost made = used as int;
    proof {
        edges_stay_few(cs, cs.len() as int);
    }
    let mut k: usize = 0;
    while k < persisted.schedules.entries.len()
        invariant
            k <= persisted.schedules.entries@.len(),
            persisted.schedules.entries@.len() <= usize::MAX,
            ss == persisted.schedules.deep_view(),
            0 <= made <= 3 * usize::MAX,
            made == edges_before(cs, cs.len() as int),
            used == made + schedule_edges(ss, k as int),
            automations.deep_view() == with_schedules(
                with_conditions(p.automations, cs, now, cs.len() as int),
                ss,
                now,
                made,
                k as int,
            ),
        decreases persisted.schedules.entries@.len() - k,
    {
        let entry = &persisted.schedules.entries[k];
        proof {
            assert(ss[k as int] == (entry.0@, entry.1.deep_view()));
            schedule_edges_stay_few(ss, k as int);
        }
        if let Some(automation) = migrate_schedule(&entry.0, &entry.1, now, used) {
            used = used + 1;
            automations.insert(joined_name("auto-sched-", &entry.0), automation);
        }
        k = k + 1;
    }
    persisted.automations = automations;
}

// ---------- Blocks of an older kind ----------

/// The block that takes the place of one: of a block that probes, one that makes
/// the same request; every other block stays as it is.
pub open spec fn as_request(c: AutomationNodeConfigModel) -> AutomationNodeConfigModel {
    match c {
        AutomationNodeConfigModel::HttpProbe { http_probe } => AutomationNodeConfigModel::HttpRequest {
            http_request: HttpRequestCfgModel {
                url: http_probe.url,
                method: http_probe.method,
                headers: http_probe.headers,
                body: http_probe.body,
                status_match: http_probe.status_match,
            },
        },
        _ => c,
    }
}

/// The blocks with requests in place of probes.
pub open spec fn converted_nodes(nodes: Seq<AutomationNodeModel>) -> Seq<AutomationNodeModel> {
    nodes.map_values(|n: AutomationNodeModel| AutomationNodeModel { config: as_request(n.config), ..n })
}

/// The automations with requests in place of probes.
pub open spec fn converted(t: Seq<(Seq<char>, AutomationModel)>) -> Seq<(Seq<char>, AutomationModel)> {
    t.map_values(
        |e: (Seq<char>, AutomationModel)| (e.0, (AutomationModel { nodes: converted_nodes(e.1.nodes), ..e.1 })),
    )
}

fn convert_config(c: &AutomationNodeConfig) -> (r: AutomationNodeConfig)
    ensures
        r.deep_view() == as_request(c.deep_view()),
{
    match c {
        AutomationNodeConfig::HttpProbe { http_probe } => AutomationNodeConfig::HttpRequest {
            http_request: HttpRequestCfg {
                url: http_probe.url.clone(),
                method: http_probe.method.clone(),
                headers: http_probe.headers.dup(),
                body: http_probe.body.dup(),
                status_match: http_probe.status_match.clone(),
            },
        },
        _ => c.dup(),
    }
}

fn convert_nodes(nodes: &Vec<AutomationNode>) -> (r: Vec<AutomationNode>)
    ensures
        r.deep_view() == converted_nodes(nodes.deep_view()),
{
    let ghost m = nodes.deep_view();
    let mut r: Vec<AutomationNode> = Vec::new();
    let mut i: usize = 0;
    while i < nodes.len()
        invariant
            i <= nodes@.len(),
            m == nodes.deep_view(),
            r@.len() == i,
            forall|j: int| 0 <= j < i ==> (#[trigger] r@[j]).deep_view() == converted_nodes(m)[j],
        decreases nodes@.len() - i,
    {
        let n = &nodes[i];
        proof {
            assert(m[i as int] == n.deep_view());
        }
        r.push(AutomationNode { id: n.id.clone(), config: convert_config(&n.config), x: n.x, y: n.y });
        i = i + 1;
    }
    proof {
        assert(r.deep_view() =~= converted_nodes(m));
    }
    r
}

/// Puts requests in place of probes.
pub fn convert_probes(automations: &Table<Automation>) -> (r: Table<Automation>)
    ensures
        r.deep_view() == converted(automations.deep_view()),
{
    let ghost m = automations.deep_view();
    let mut r: Table<Automation> = Table { entries: Vec::new() };
    let mut i: usize = 0;
    while i < automations.entries.len()
        invariant
            i <= automations.entries@.len(),
            m == automations.deep_view(),
            r.entries@.len() == i,
            forall|j: int| 0 <= j < i ==> (#[trigger] r.entries@[j]).deep_view() == converted(m)[j],
        decreases automations.entries@.len() - i,
    {
        let entry = &automations.entries[i];
        proof {
            assert(m[i as int] == (entry.0@, entry.1.deep_view()));
        }
        let mut a = entry.1.dup();
        a.nodes = convert_nodes(&entry.1.nodes);
        r.entries.push((entry.0.clone(), a));
        i = i + 1;
    }
    proof {
        assert(r.deep_view() =~= converted(m));
    }
    r
}

/// No block of an automation probes.
pub open spec fn without_probes(t: Seq<(Seq<char>, AutomationModel)>) -> bool {
    forall|i: int, n: int|
        0 <= i < t.len() && 0 <= n < t[i].1.nodes.len() ==> !((#[trigger] t[i].1.nodes[n]).config is HttpProbe)
}

// ---------- Laws ----------

/// Once probes are converted there are none, and without them nothing is left to
/// convert.
pub proof fn converting_settles(t: Seq<(Seq<char>, AutomationModel)>)
    ensures
        without_probes(converted(t)),
        without_probes(t) ==> converted(t) == t,
        converted(converted(t)) == converted(t),
        table::keys_of(converted(t)) == table::keys_of(t),
{
    let u = converted(t);
    assert forall|i: int, n: int| 0 <= i < u.len() && 0 <= n < u[i].1.nodes.len() implies !((
    #[trigger] u[i].1.nodes[n]).config is HttpProbe) by {
        assert(u[i].1.nodes[n].config == as_request(t[i].1.nodes[n].config));
    }
    assert(table::keys_of(u) =~= table::keys_of(t));
    if without_probes(t) {
        nothing_to_convert(t);
    }
    nothing_to_convert(u);
}

proof fn nothing_to_convert(t: Seq<(Seq<char>, AutomationModel)>)
    requires
        without_probes(t),
    ensures
        converted(t) == t,
{
    assert forall|i: int| 0 <= i < t.len() implies #[trigger] converted(t)[i] == t[i] by {
        assert forall|n: int| 0 <= n < t[i].1.nodes.len() implies #[trigger] converted_nodes(t[i].1.nodes)[n]
            == t[i].1.nodes[n] by {
            assert(!(t[i].1.nodes[n].config is HttpProbe));
        }
        assert(converted_nodes(t[i].1.nodes) =~= t[i].1.nodes);
    }
    assert(converted(t) =~= t);
}

/// A block that was plainly wrong in nothing still is in nothing once it is
/// converted.
pub proof fn converting_keeps_blocks_right(c: AutomationNodeConfigModel, o: Oracle)
    requires
        api::config_check(c, o) is Ok,
    ensures
        api::config_check(as_request(c), o) is Ok,
{
}

/// A migrated condition is enabled exactly if it was. Its first block probes,
/// and every other block inverts what the probe says or drives the device.
pub proof fn migrated_conditions_drive_their_device(id: Seq<char>, c: ConditionConfigModel, now: u128, n: int)
    ensures
        condition_automation(id, c, now, n).enabled == c.enabled,
        condition_automation(id, c, now, n).nodes[0] == probe_node(id, c),
        forall|i: int|
            1 <= i < condition_automation(id, c, now, n).nodes.len() ==> {
                let node = #[trigger] condition_automation(id, c, now, n).nodes[i];
                node.config is LogicNot || devices::drives(node, c.device_name)
            },
        condition_automation(id, c, now, n).edges.len() == condition_edges(c),
{
}

/// A schedule is migrated exactly if it is complete. It is then enabled if it
/// was, and its second block drives the device.
pub proof fn migrated_schedules_drive_their_device(id: Seq<char>, s: ScheduleConfigModel, now: u128, n: int)
    ensures
        schedule_automation(id, s, now, n) is None <==> s.kind == ScheduleKind::Cron && (s.cron is None || s.action is None),
        schedule_automation(id, s, now, n) matches Some(a) ==> a.enabled == s.enabled && a.nodes.len() == 2
            && a.edges.len() == 1 && devices::drives(a.nodes[1], s.device_name),
{
}

/// The graph of a migrated condition or schedule goes round in no cycle, and
/// its edges join blocks of its own.
pub proof fn migrated_graphs_have_no_cycle(
    id: Seq<char>,
    c: ConditionConfigModel,
    s: ScheduleConfigModel,
    now: u128,
    n: int,
)
    ensures
        graph::acyclic(graph::arcs_of(condition_automation(id, c, now, n).edges)),
        forall|i: int|
            0 <= i < condition_automation(id, c, now, n).edges.len() ==> {
                let e = #[trigger] condition_automation(id, c, now, n).edges[i];
                let ids = graph::ids_of(condition_automation(id, c, now, n).nodes);
                ids.contains(e.source_node) && ids.contains(e.target_node)
            },
        schedule_automation(id, s, now, n) matches Some(a) ==> graph::acyclic(graph::arcs_of(a.edges))
            && graph::ids_of(a.nodes).contains(a.edges[0].source_node) && graph::ids_of(a.nodes).contains(
            a.edges[0].target_node,
        ),
{
    reveal_strlit("probe-");
    reveal_strlit("not-fail-");
    reveal_strlit("act-pass-");
    reveal_strlit("act-fail-");
    reveal_strlit("trig-");
    reveal_strlit("act-");
    let probe = "probe-"@ + id;
    let invert = "not-fail-"@ + id;
    let pass = "act-pass-"@ + id;
    let fail = "act-fail-"@ + id;
    assert(probe[0] == 'p' && invert[0] == 'n' && pass[0] == 'a' && fail[0] == 'a');
    let a = condition_automation(id, c, now, n);
    let rank = |k: Seq<char>|
        if k == probe {
            0int
        } else if k == invert {
            1int
        } else {
            2int
        };
    let arcs = graph::arcs_of(a.edges);
    assert forall|i: int| 0 <= i < arcs.len() implies rank(#[trigger] arcs[i].0) < rank(arcs[i].1) by {
        assert(arcs[i] == (a.edges[i].source_node, a.edges[i].target_node));
    }
    assert(graph::ranks(rank, arcs) && graph::bounded_below(rank));
    let ids = graph::ids_of(a.nodes);
    assert(ids[0] == probe);
    assert forall|i: int| 0 <= i < a.edges.len() implies {
        let e = #[trigger] a.edges[i];
        ids.contains(e.source_node) && ids.contains(e.target_node)
    } by {
        if c.action_on_pass is Some {
            assert(ids[1] == pass);
            if c.action_on_fail is Some {
                assert(ids[2] == invert);
                assert(ids[3] == fail);
            }
        } else if c.action_on_fail is Some {
            assert(ids[1] == invert);
            assert(ids[2] == fail);
        }
    }
    if let Some(b) = schedule_automation(id, s, now, n) {
        let trigger = "trig-"@ + id;
        let act = "act-"@ + id;
        assert(trigger[0] == 't' && act[0] == 'a');
        let up = |k: Seq<char>|
            if k == trigger {
                0int
            } else {
                1int
            };
        let own = graph::arcs_of(b.edges);
        assert(own[0] == (trigger, act));
        assert(graph::ranks(up, own) && graph::bounded_below(up));
        assert(graph::ids_of(b.nodes)[0] == trigger);
        assert(graph::ids_of(b.nodes)[1] == act);
    }
}

/// Migrating keeps all but the automations: the devices, what is wanted of
/// them, the hooks, and as a backup the schedules and conditions themselves.
pub proof fn migration_keeps_the_rest(p: PersistedStateModel, now: u128)
    ensures
        migrated(p, now).devices == p.devices,
        migrated(p, now).device_intents == p.device_intents,
        migrated(p, now).hooks == p.hooks,
        migrated(p, now).schedules == p.schedules,
        migrated(p, now).conditions == p.conditions,
{
}

/// Migrating again changes nothing, once there is an automation; and where
/// there is one already, nothing is migrated.
pub proof fn migration_happens_once(p: PersistedStateModel, now: u128, later: u128)
    requires
        migrated(p, now).automations.len() > 0,
    ensures
        migrated(migrated(p, now), later) == migrated(p, now),
        p.automations.len() > 0 ==> migrated(p, now) == p,
{
}

/// The automation of a condition does to the device what the condition did:
/// its probe, asked as the condition asked, leads to a block with the action
/// for passing, and through a negation to one with the action for failing.
pub proof fn migrated_conditions_act_as_before(id: Seq<char>, c: ConditionConfigModel, now: u128, n: int)
    ensures
        ({
            let a = condition_automation(id, c, now, n);
            &&& a.nodes[0].config matches AutomationNodeConfigModel::HttpProbe { http_probe } && http_probe.url == c.url
                && http_probe.method == c.method && http_probe.headers == c.headers && http_probe.body == c.body
                && http_probe.status_match == c.status_match && http_probe.body_contains == c.body_contains
                && http_probe.poll_seconds == c.poll_seconds && http_probe.min_stable_seconds == c.min_stable_seconds
            &&& c.action_on_pass matches Some(action) ==> a.nodes.len() >= 2 && a.edges.len() >= 1
                && a.edges[0].source_node == a.nodes[0].id && a.edges[0].target_node == a.nodes[1].id
                && a.edges[0].source_socket == "out"@ && (a.nodes[1].config
                matches AutomationNodeConfigModel::SetDevice { set_device } && set_device.device_name == c.device_name && (
            set_device.action is On <==> action is On) && (set_device.action is Off <==> action is Off))
            &&& c.action_on_fail matches Some(action) ==> {
                let m = a.nodes.len() as int;
                let k = a.edges.len() as int;
                &&& m >= 3 && k >= 2
                &&& a.nodes[m - 2].config is LogicNot
                &&& a.edges[k - 2].source_node == a.nodes[0].id && a.edges[k - 2].target_node == a.nodes[m - 2].id
                &&& a.edges[k - 1].source_node == a.nodes[m - 2].id && a.edges[k - 1].target_node == a.nodes[m - 1].id
                &&& a.edges[k - 1].source_socket == "out"@ && a.edges[k - 2].source_socket == "out"@
                &&& a.nodes[m - 1].config matches AutomationNodeConfigModel::SetDevice { set_device }
                    && set_device.device_name == c.device_name && (set_device.action is On <==> action is On) && (
                set_device.action is Off <==> action is Off)
            }
            &&& a.nodes.len() == 1 + (if c.action_on_pass is Some {
                1int
            } else {
                0
            }) + (if c.action_on_fail is Some {
                2int
            } else {
                0
            })
            &&& c.name.len() > 0 ==> a.name == c.name
            &&& a.variables.len() == 0 && a.status.node_states.len() == 0
            &&& c.created_at_ms > 0 ==> a.created_at_ms == c.created_at_ms
            &&& c.created_at_ms == 0 ==> a.created_at_ms == now
        }),
{
    let a = condition_automation(id, c, now, n);
    let pass = pass_branch(id, c, now, n);
    let fail = fail_branch(id, c, now, n + pass.1.len());
    assert(a.nodes == seq![probe_node(id, c)] + pass.0 + fail.0);
    assert(a.edges == pass.1 + fail.1);
    assert(a.nodes[0] == probe_node(id, c));
    if c.action_on_pass is Some {
        assert(a.nodes[1] == pass.0[0]);
        assert(a.edges[0] == pass.1[0]);
    }
    if c.action_on_fail is Some {
        let m = a.nodes.len() as int;
        let k = a.edges.len() as int;
        assert(a.nodes[m - 2] == fail.0[0] && a.nodes[m - 1] == fail.0[1]);
        assert(a.edges[k - 2] == fail.1[0] && a.edges[k - 1] == fail.1[1]);
    }
}

/// The automation of a schedule starts when the schedule did, by its calendar or
/// with its phases, and does what the schedule did: the action of a calendar,
/// and of phases a toggle at each turn.
pub proof fn migrated_schedules_act_as_before(id: Seq<char>, s: ScheduleConfigModel, now: u128, n: int)
    ensures
        schedule_automation(id, s, now, n) matches Some(a) ==> {
            &&& a.edges[0].source_node == a.nodes[0].id && a.edges[0].target_node == a.nodes[1].id
                && a.edges[0].source_socket == "out"@
            &&& s.kind is Cron ==> (a.nodes[0].config matches AutomationNodeConfigModel::CronTrigger { cron_trigger }
                && s.cron == Some(cron_trigger.cron))
            &&& s.kind is Cron ==> (a.nodes[1].config matches AutomationNodeConfigModel::SetDevice { set_device }
                && set_device.device_name == s.device_name && s.action == Some(set_device.action))
            &&& s.kind is Interval ==> (a.nodes[0].config matches AutomationNodeConfigModel::IntervalTrigger {
                interval_trigger,
            } && (s.on_seconds matches Some(x) ==> interval_trigger.on_seconds == x) && (s.off_seconds matches Some(x)
                ==> interval_trigger.off_seconds == x) && (s.start_action matches Some(x)
                ==> interval_trigger.start_action == x) && interval_trigger.starts_at_ms == s.starts_at_ms)
            &&& s.kind is Interval ==> (a.nodes[1].config matches AutomationNodeConfigModel::SetDevice { set_device }
                && set_device.device_name == s.device_name && set_device.action is Toggle)
            &&& s.label matches Some(label) ==> label.len() > 0 ==> a.name == label
            &&& s.created_at_ms > 0 ==> a.created_at_ms == s.created_at_ms
        },
{
}

/// Probes become requests of the same URL, method, headers, body and status,
/// and every other block stays what it is.
pub proof fn probes_become_requests(c: AutomationNodeConfigModel)
    ensures
        c matches AutomationNodeConfigModel::HttpProbe { http_probe } ==> (as_request(c)
            matches AutomationNodeConfigModel::HttpRequest { http_request } && http_request.url == http_probe.url
            && http_request.method == http_probe.method && http_request.headers == http_probe.headers
            && http_request.body == http_probe.body && http_request.status_match == http_probe.status_match),
        !(c is HttpProbe) ==> as_request(c) == c,
{
}

proof fn prefixes_tell_apart(a: Seq<char>, b: Seq<char>)
    ensures
        "auto-cond-"@ + a != "auto-sched-"@ + b,
        a != b ==> "auto-cond-"@ + a != "auto-cond-"@ + b,
        a != b ==> "auto-sched-"@ + a != "auto-sched-"@ + b,
{
    reveal_strlit("auto-cond-");
    reveal_strlit("auto-sched-");
    assert(("auto-cond-"@ + a)[5] == 'c');
    assert(("auto-sched-"@ + b)[5] == 's');
    assert(("auto-cond-"@ + a).skip(10) =~= a && ("auto-cond-"@ + b).skip(10) =~= b);
    assert(("auto-sched-"@ + a).skip(11) =~= a && ("auto-sched-"@ + b).skip(11) =~= b);
}

proof fn every_condition_is_taken(
    automations: Seq<(Seq<char>, AutomationModel)>,
    t: Seq<(Seq<char>, ConditionConfigModel)>,
    now: u128,
    n: int,
    k: int,
)
    requires
        table::sorted(t),
        0 <= k < n <= t.len(),
    ensures
        table::lookup(with_conditions(automations, t, now, n), "auto-cond-"@ + t[k].0) == Some(
            condition_automation(t[k].0, t[k].1, now, edges_before(t, k)),
        ),
    decreases n,
{
    let before = with_conditions(automations, t, now, n - 1);
    let made = condition_automation(t[n - 1].0, t[n - 1].1, now, edges_before(t, n - 1));
    table::put_then_lookup(before, "auto-cond-"@ + t[n - 1].0, made, "auto-cond-"@ + t[k].0);
    if k < n - 1 {
        every_condition_is_taken(automations, t, now, n - 1, k);
        assert(text::before(t[k].0, t[n - 1].0));
        text::before_is_total(t[k].0, t[k].0);
        prefixes_tell_apart(t[k].0, t[n - 1].0);
    }
}

proof fn schedules_leave_conditions(
    automations: Seq<(Seq<char>, AutomationModel)>,
    t: Seq<(Seq<char>, ScheduleConfigModel)>,
    now: u128,
    made: int,
    n: int,
    id: Seq<char>,
)
    ensures
        table::lookup(with_schedules(automations, t, now, made, n), "auto-cond-"@ + id) == table::lookup(
            automations,
            "auto-cond-"@ + id,
        ),
    decreases n,
{
    if 0 < n <= t.len() {
        schedules_leave_conditions(automations, t, now, made, n - 1, id);
        let before = with_schedules(automations, t, now, made, n - 1);
        if let Some(a) = schedule_automation(t[n - 1].0, t[n - 1].1, now, made + schedule_edges(t, n - 1)) {
            prefixes_tell_apart(id, t[n - 1].0);
            table::put_then_lookup(before, "auto-sched-"@ + t[n - 1].0, a, "auto-cond-"@ + id);
        }
    }
}

proof fn every_schedule_is_taken(
    automations: Seq<(Seq<char>, AutomationModel)>,
    t: Seq<(Seq<char>, ScheduleConfigModel)>,
    now: u128,
    made: int,
    n: int,
    k: int,
)
    requires
        table::sorted(t),
        0 <= k < n <= t.len(),
        schedule_parts(t[k].1) is Some,
    ensures
        table::lookup(with_schedules(automations, t, now, made, n), "auto-sched-"@ + t[k].0) == schedule_automation(
            t[k].0,
            t[k].1,
            now,
            made + schedule_edges(t, k),
        ),
    decreases n,
{
    let before = with_schedules(automations, t, now, made, n - 1);
    let last = schedule_automation(t[n - 1].0, t[n - 1].1, now, made + schedule_edges(t, n - 1));
    if let Some(a) = last {
        table::put_then_lookup(before, "auto-sched-"@ + t[n - 1].0, a, "auto-sched-"@ + t[k].0);
    }
    if k < n - 1 {
        every_schedule_is_taken(automations, t, now, made, n - 1, k);
        assert(text::before(t[k].0, t[n - 1].0));
        text::before_is_total(t[k].0, t[k].0);
        prefixes_tell_apart(t[k].0, t[n - 1].0);
    }
}

/// On a board without automations every condition, and every schedule that can
/// fire, has an automation of its own afterwards.
pub proof fn migration_leaves_none_out(p: PersistedStateModel, now: u128, k: int)
    requires
        p.automations.len() == 0,
        table::sorted(p.conditions),
        table::sorted(p.schedules),
    ensures
        0 <= k < p.conditions.len() ==> table::lookup(
            migrated(p, now).automations,
            "auto-cond-"@ + p.conditions[k].0,
        ) == Some(
            condition_automation(p.conditions[k].0, p.conditions[k].1, now, edges_before(p.conditions, k)),
        ),
        0 <= k < p.schedules.len() && !(p.schedules[k].1.kind is Cron && (p.schedules[k].1.cron is None
            || p.schedules[k].1.action is None)) ==> (table::lookup(
            migrated(p, now).automations,
            "auto-sched-"@ + p.schedules[k].0,
        ) matches Some(a) && a.enabled == p.schedules[k].1.enabled),
{
    let n = p.conditions.len() as int;
    let first = with_conditions(p.automations, p.conditions, now, n);
    let made = edges_before(p.conditions, n);
    if 0 <= k < n {
        every_condition_is_taken(p.automations, p.conditions, now, n, k);
        schedules_leave_conditions(
            first,
            p.schedules,
            now,
            made,
            p.schedules.len() as int,
            p.conditions[k].0,
        );
    }
    if 0 <= k < p.schedules.len() && schedule_parts(p.schedules[k].1) is Some {
        every_schedule_is_taken(first, p.schedules, now, made, p.schedules.len() as int, k);
    }
}

} // verus!
