//! Making, checking, changing and exchanging automations.

use vstd::prelude::*;
use vstd::string::*;

use crate::automations::coerce;
use crate::automations::coerce::to_text;
use crate::automations::cycles::has_cycle;
use crate::automations::expr;
use crate::automations::expr::{evaluate, syntax_message, ContextModel, EvalContext};
use crate::automations::graph;
use crate::automations::host;
use crate::automations::host::{ask_text, Answer, Ask, AskModel, Oracle};
use crate::automations::node;
use crate::automations::parser;
use crate::automations::parser::validate;
use crate::automations::types::{
    Automation, AutomationEdge, AutomationEdgeModel, AutomationModel, AutomationNode, AutomationNodeConfig,
    AutomationNodeConfigModel, AutomationNodeModel, AutomationStatus, AutomationStatusModel,
};
use crate::conditions;
use crate::conditions::{clamp_poll_seconds, parse_status_match, validate_http_method, validate_url};
use crate::dup::Dup;
use crate::lists;
use crate::lists::{list_out, Listed};
use crate::merge;
use crate::merge::{given_or, trim_or};
use crate::schedules;
use crate::schedules::{parse_cron, MIN_INTERVAL_CYCLE_SECONDS};
use crate::table;
use crate::table::Table;
use crate::text;
use crate::text::{around, decimal_text, same, trim};
use crate::value;
use crate::value::{Value, ValueModel};

verus! {

/// What a new automation is made from.
pub struct CreateAutomationRequest {
    pub name: String,
    pub enabled: bool,
    pub nodes: Vec<AutomationNode>,
    pub edges: Vec<AutomationEdge>,
}

/// The contents of `CreateAutomationRequest`.
#[verifier::ext_equal]
pub struct CreateAutomationRequestModel {
    pub name: Seq<char>,
    pub enabled: bool,
    pub nodes: Seq<AutomationNodeModel>,
    pub edges: Seq<AutomationEdgeModel>,
}

impl DeepView for CreateAutomationRequest {
    type V = CreateAutomationRequestModel;

    open spec fn deep_view(&self) -> CreateAutomationRequestModel {
        CreateAutomationRequestModel {
            name: self.name.deep_view(),
            enabled: self.enabled.deep_view(),
            nodes: self.nodes.deep_view(),
            edges: self.edges.deep_view(),
        }
    }
}

impl Dup for CreateAutomationRequest {
    fn dup(&self) -> (r: Self) {
        CreateAutomationRequest {
            name: self.name.dup(),
            enabled: self.enabled.dup(),
            nodes: self.nodes.dup(),
            edges: self.edges.dup(),
        }
    }
}

/// What is to change in an automation; what is `None` stays.
pub struct UpdateAutomationRequest {
    pub name: Option<String>,
    pub enabled: Option<bool>,
    pub nodes: Option<Vec<AutomationNode>>,
    pub edges: Option<Vec<AutomationEdge>>,
}

/// The contents of `UpdateAutomationRequest`.
#[verifier::ext_equal]
pub struct UpdateAutomationRequestModel {
    pub name: Option<Seq<char>>,
    pub enabled: Option<bool>,
    pub nodes: Option<Seq<AutomationNodeModel>>,
    pub edges: Option<Seq<AutomationEdgeModel>>,
}

impl DeepView for UpdateAutomationRequest {
    type V = UpdateAutomationRequestModel;

    open spec fn deep_view(&self) -> UpdateAutomationRequestModel {
        UpdateAutomationRequestModel {
            name: self.name.deep_view(),
            enabled: self.enabled.deep_view(),
            nodes: self.nodes.deep_view(),
            edges: self.edges.deep_view(),
        }
    }
}

impl Dup for UpdateAutomationRequest {
    fn dup(&self) -> (r: Self) {
        UpdateAutomationRequest {
            name: self.name.dup(),
            enabled: self.enabled.dup(),
            nodes: self.nodes.dup(),
            edges: self.edges.dup(),
        }
    }
}

/// An automation on its way to another board.
pub struct AutomationExport {
    pub kind: String,
    pub version: u32,
    pub name: String,
    pub enabled: bool,
    pub nodes: Vec<AutomationNode>,
    pub edges: Vec<AutomationEdge>,
    pub variables: Table<Value>,
}

/// The contents of `AutomationExport`.
#[verifier::ext_equal]
pub struct AutomationExportModel {
    pub kind: Seq<char>,
    pub version: u32,
    pub name: Seq<char>,
    pub enabled: bool,
    pub nodes: Seq<AutomationNodeModel>,
    pub edges: Seq<AutomationEdgeModel>,
    pub variables: Seq<(Seq<char>, ValueModel)>,
}

impl DeepView for AutomationExport {
    type V = AutomationExportModel;

    open spec fn deep_view(&self) -> AutomationExportModel {
        AutomationExportModel {
            kind: self.kind.deep_view(),
            version: self.version.deep_view(),
            name: self.name.deep_view(),
            enabled: self.enabled.deep_view(),
            nodes: self.nodes.deep_view(),
            edges: self.edges.deep_view(),
            variables: self.variables.deep_view(),
        }
    }
}

impl Dup for AutomationExport {
    fn dup(&self) -> (r: Self) {
        AutomationExport {
            kind: self.kind.dup(),
            version: self.version.dup(),
            name: self.name.dup(),
            enabled: self.enabled.dup(),
            nodes: self.nodes.dup(),
            edges: self.edges.dup(),
            variables: self.variables.dup(),
        }
    }
}

/// What an expression comes to, tried out.
pub struct PreviewResponse {
    pub ok: bool,
    pub result: Option<Value>,
    /// The result in words; a list or a dictionary as indented JSON.
    pub result_text: Option<String>,
    pub error: Option<String>,
    pub input_fields: Vec<String>,
}

/// The contents of `PreviewResponse`.
#[verifier::ext_equal]
pub struct PreviewResponseModel {
    pub ok: bool,
    pub result: Option<ValueModel>,
    pub result_text: Option<Seq<char>>,
    pub error: Option<Seq<char>>,
    pub input_fields: Seq<Seq<char>>,
}

impl DeepView for PreviewResponse {
    type V = PreviewResponseModel;

    open spec fn deep_view(&self) -> PreviewResponseModel {
        PreviewResponseModel {
            ok: self.ok.deep_view(),
            result: self.result.deep_view(),
            result_text: self.result_text.deep_view(),
            error: self.error.deep_view(),
            input_fields: self.input_fields.deep_view(),
        }
    }
}

impl Dup for PreviewResponse {
    fn dup(&self) -> (r: Self) {
        PreviewResponse {
            ok: self.ok.dup(),
            result: self.result.dup(),
            result_text: self.result_text.dup(),
            error: self.error.dup(),
            input_fields: self.input_fields.dup(),
        }
    }
}

/// An id for an automation made at `now_ms`, told apart by a count.
pub open spec fn automation_id(now_ms: u128, seq: u64) -> Seq<char> {
    "auto-"@ + text::decimal(now_ms as nat) + "-"@ + text::decimal(seq as nat)
}

/// An id for an automation made at `now_ms`, told apart by a count.
pub fn new_automation_id(now_ms: u128, seq: u64) -> (id: String)
    ensures
        id@ == automation_id(now_ms, seq),
{
    let mut id = around("auto-", decimal_text(now_ms).as_str(), "-");
    id.append(decimal_text(seq as u128).as_str());
    id
}

impl Listed for Automation {
    open spec fn listed_name(m: AutomationModel) -> Seq<char> {
        ""@
    }

    open spec fn listed_stamp(m: AutomationModel) -> u128 {
        m.created_at_ms
    }

    fn name_of(&self) -> (s: &str) {
        ""
    }

    fn stamp_of(&self) -> (n: u128) {
        self.created_at_ms
    }
}

/// The values of a table.
pub open spec fn values_of<V>(t: Seq<(Seq<char>, V)>) -> Seq<V> {
    t.map_values(|e: (Seq<char>, V)| e.1)
}

/// All automations, the oldest first.
pub fn list_automations(automations: &Table<Automation>) -> (r: Vec<Automation>)
    ensures
        r.deep_view() == lists::listing::<Automation>(values_of(automations.deep_view())),
{
    let mut all: Vec<Automation> = Vec::new();
    let mut i: usize = 0;
    while i < automations.entries.len()
        invariant
            i <= automations.entries@.len(),
            all@.len() == i,
            forall|j: int|
                0 <= j < i ==> (#[trigger] all@[j]).deep_view() == automations.entries@[j].1.deep_view(),
        decreases automations.entries@.len() - i,
    {
        all.push(automations.entries[i].1.dup());
        i = i + 1;
    }
    proof {
        assert(all.deep_view() =~= values_of(automations.deep_view()));
    }
    list_out(all)
}

// ---------- What a graph must be ----------

/// Fails where a request's own parts are wrong. A block may have no URL yet.
pub open spec fn web_check(url: Seq<char>, method: Seq<char>, status_match: Seq<char>) -> Result<(), Seq<char>> {
    if url.len() > 0 && conditions::url_check(url) is Err {
        conditions::url_check(url)
    } else if conditions::method_check(method) is Err {
        conditions::method_check(method)
    } else {
        match conditions::status_ranges(status_match) {
            Ok(_) => Ok(()),
            Err(m) => Err(m),
        }
    }
}

fn check_web(url: &str, method: &str, status_match: &str) -> (r: Result<(), String>)
    ensures
        match r {
            Ok(_) => web_check(url@, method@, status_match@) is Ok,
            Err(m) => web_check(url@, method@, status_match@) == Err::<(), Seq<char>>(m@),
        },
{
    if !url.is_empty() {
        if let Err(m) = validate_url(url) {
            return Err(m);
        }
    }
    if let Err(m) = validate_http_method(method) {
        return Err(m);
    }
    match parse_status_match(status_match) {
        Ok(_) => Ok(()),
        Err(m) => Err(m),
    }
}

/// Fails where a text that is not blank is no expression.
pub open spec fn expression_check(src: Seq<char>, o: Oracle) -> Result<(), Seq<char>> {
    if text::trimmed(src).len() == 0 {
        Ok(())
    } else {
        match parser::parse_of(src) {
            Ok(_) => Ok(()),
            Err(e) => Err("invalid expression: "@ + expr::syntax_text(e, o)),
        }
    }
}

fn check_expression<H: Fn(Ask) -> Answer>(src: &str, host: &H) -> (r: Result<(), String>)
    requires
        host::faithful(*host),
    ensures
        match r {
            Ok(_) => expression_check(src@, host::oracle(*host)) is Ok,
            Err(m) => expression_check(src@, host::oracle(*host)) == Err::<(), Seq<char>>(m@),
        },
{
    if trim(src).as_str().is_empty() {
        return Ok(());
    }
    match validate(src) {
        Ok(_) => Ok(()),
        Err(e) => {
            let mut m = "invalid expression: ".to_owned();
            m.append(syntax_message(&e, host).as_str());
            Err(m)
        },
    }
}

/// Fails where a block is plainly wrong: a cron expression that cannot be read,
/// a cycle that is too short, a request that cannot be made, or an expression
/// that is none. What is not chosen yet may stay open.
pub open spec fn config_check(c: AutomationNodeConfigModel, o: Oracle) -> Result<(), Seq<char>> {
    match c {
        AutomationNodeConfigModel::CronTrigger { cron_trigger } => match schedules::cron_fault(
            schedules::crate_format(cron_trigger.cron),
        ) {
            None => Ok(()),
            Some(_) => Err("invalid cron '"@ + cron_trigger.cron + "'"@),
        },
        AutomationNodeConfigModel::IntervalTrigger { interval_trigger } => if interval_trigger.on_seconds
            + interval_trigger.off_seconds < 60 {
            Err("interval cycle (on+off) must be at least 60s"@)
        } else {
            Ok(())
        },
        AutomationNodeConfigModel::HttpProbe { http_probe } => match web_check(
            http_probe.url,
            http_probe.method,
            http_probe.status_match,
        ) {
            Err(m) => Err(m),
            Ok(_) => match conditions::poll_check(http_probe.poll_seconds) {
                Ok(_) => Ok(()),
                Err(m) => Err(m),
            },
        },
        AutomationNodeConfigModel::HttpRequest { http_request } => web_check(
            http_request.url,
            http_request.method,
            http_request.status_match,
        ),
        AutomationNodeConfigModel::Expression { expression } => expression_check(expression.expression, o),
        AutomationNodeConfigModel::SetVariable { set_variable } => expression_check(set_variable.expression, o),
        AutomationNodeConfigModel::IfCondition { if_condition } => expression_check(if_condition.expression, o),
        _ => Ok(()),
    }
}

/// Fails where a block is plainly wrong.
pub fn validate_node_config<H: Fn(Ask) -> Answer>(config: &AutomationNodeConfig, host: &H) -> (r: Result<(), String>)
    requires
        host::faithful(*host),
    ensures
        match r {
            Ok(_) => config_check(config.deep_view(), host::oracle(*host)) is Ok,
            Err(m) => config_check(config.deep_view(), host::oracle(*host)) == Err::<(), Seq<char>>(m@),
        },
{
    match config {
        AutomationNodeConfig::CronTrigger { cron_trigger } => {
            if parse_cron(cron_trigger.cron.as_str()).is_err() {
                return Err(around("invalid cron '", cron_trigger.cron.as_str(), "'"));
            }
            Ok(())
        },
        AutomationNodeConfig::IntervalTrigger { interval_trigger } => {
            let total: u64 = interval_trigger.on_seconds.saturating_add(interval_trigger.off_seconds);
            if total < MIN_INTERVAL_CYCLE_SECONDS {
                return Err("interval cycle (on+off) must be at least 60s".to_owned());
            }
            Ok(())
        },
        AutomationNodeConfig::HttpProbe { http_probe } => {
            if let Err(m) = check_web(
                http_probe.url.as_str(),
                http_probe.method.as_str(),
                http_probe.status_match.as_str(),
            ) {
                return Err(m);
            }
            match clamp_poll_seconds(http_probe.poll_seconds) {
                Ok(_) => Ok(()),
                Err(m) => Err(m),
            }
        },
        AutomationNodeConfig::HttpRequest { http_request } => check_web(
            http_request.url.as_str(),
            http_request.method.as_str(),
            http_request.status_match.as_str(),
        ),
        AutomationNodeConfig::Expression { expression } => check_expression(expression.expression.as_str(), host),
        AutomationNodeConfig::SetVariable { set_variable } => check_expression(
            set_variable.expression.as_str(),
            host,
        ),
        AutomationNodeConfig::IfCondition { if_condition } => check_expression(
            if_condition.expression.as_str(),
            host,
        ),
        _ => Ok(()),
    }
}

/// What is wrong with the blocks from place `i` on: an id that was given
/// before, or a block that is wrong in itself.
pub open spec fn nodes_fault_from(nodes: Seq<AutomationNodeModel>, i: int, o: Oracle) -> Option<Seq<char>>
    decreases nodes.len() - i,
{
    if i < 0 || i >= nodes.len() {
        None
    } else if graph::ids_of(nodes).take(i).contains(nodes[i].id) {
        Some("duplicate node id '"@ + nodes[i].id + "'"@)
    } else {
        match config_check(nodes[i].config, o) {
            Err(m) => Some(m),
            Ok(_) => nodes_fault_from(nodes, i + 1, o),
        }
    }
}

/// What is wrong with the edges from place `i` on: an end that is no block, or
/// one that leads back to its own block.
pub open spec fn edges_fault_from(
    ids: Seq<Seq<char>>,
    edges: Seq<AutomationEdgeModel>,
    i: int,
) -> Option<Seq<char>>
    decreases edges.len() - i,
{
    if i < 0 || i >= edges.len() {
        None
    } else if !ids.contains(edges[i].source_node) {
        Some("edge source '"@ + edges[i].source_node + "' not found"@)
    } else if !ids.contains(edges[i].target_node) {
        Some("edge target '"@ + edges[i].target_node + "' not found"@)
    } else if edges[i].source_node == edges[i].target_node {
        Some("self-edge on node '"@ + edges[i].source_node + "' is not allowed"@)
    } else {
        edges_fault_from(ids, edges, i + 1)
    }
}

/// What is wrong with a graph; nothing if it can run.
pub open spec fn graph_fault(
    nodes: Seq<AutomationNodeModel>,
    edges: Seq<AutomationEdgeModel>,
    o: Oracle,
) -> Option<Seq<char>> {
    if let Some(m) = nodes_fault_from(nodes, 0, o) {
        Some(m)
    } else if let Some(m) = edges_fault_from(graph::ids_of(nodes), edges, 0) {
        Some(m)
    } else if !graph::acyclic(graph::arcs_of(edges)) {
        Some("automation graph contains a cycle"@)
    } else {
        None
    }
}

proof fn sound_nodes_are_distinct(nodes: Seq<AutomationNodeModel>, i: int, o: Oracle)
    requires
        0 <= i <= nodes.len(),
        nodes_fault_from(nodes, i, o) is None,
        graph::ids_of(nodes).take(i).no_duplicates(),
    ensures
        graph::ids_of(nodes).no_duplicates(),
    decreases nodes.len() - i,
{
    let ids = graph::ids_of(nodes);
    if i < nodes.len() {
        assert(ids.take(i + 1) =~= ids.take(i).push(nodes[i].id));
        let t = ids.take(i);
        let u = ids.take(i + 1);
        assert forall|a: int, b: int| 0 <= a < u.len() && 0 <= b < u.len() && a != b implies #[trigger] u[a]
            != #[trigger] u[b] by {
            if a == i {
                assert(t.contains(t[b]));
            } else if b == i {
                assert(t.contains(t[a]));
            } else {
                assert(t[a] != t[b]);
            }
        }
        sound_nodes_are_distinct(nodes, i + 1, o);
    } else {
        assert(ids.take(i) =~= ids);
    }
}

proof fn sound_edges_are_inside(ids: Seq<Seq<char>>, edges: Seq<AutomationEdgeModel>, i: int, j: int)
    requires
        0 <= i <= j < edges.len(),
        edges_fault_from(ids, edges, i) is None,
    ensures
        ids.contains(edges[j].source_node),
        ids.contains(edges[j].target_node),
        edges[j].source_node != edges[j].target_node,
    decreases j - i,
{
    if i < j {
        sound_edges_are_inside(ids, edges, i + 1, j);
    }
}

proof fn sound_parts_are_well_formed(nodes: Seq<AutomationNodeModel>, edges: Seq<AutomationEdgeModel>, o: Oracle)
    requires
        nodes_fault_from(nodes, 0, o) is None,
        edges_fault_from(graph::ids_of(nodes), edges, 0) is None,
    ensures
        graph::well_formed(graph::ids_of(nodes), graph::arcs_of(edges)),
{
    let ids = graph::ids_of(nodes);
    let arcs = graph::arcs_of(edges);
    sound_nodes_are_distinct(nodes, 0, o);
    assert forall|i: int| 0 <= i < arcs.len() implies ids.contains((#[trigger] arcs[i]).0) && ids.contains(
        arcs[i].1,
    ) by {
        sound_edges_are_inside(ids, edges, 0, i);
    }
}

/// Fails where a graph cannot run.
pub fn validate_automation_graph<H: Fn(Ask) -> Answer>(
    nodes: &Vec<AutomationNode>,
    edges: &Vec<AutomationEdge>,
    host: &H,
) -> (r: Result<(), String>)
    requires
        host::faithful(*host),
    ensures
        match r {
            Ok(_) => graph_fault(nodes.deep_view(), edges.deep_view(), host::oracle(*host)) is None,
            Err(m) => graph_fault(nodes.deep_view(), edges.deep_view(), host::oracle(*host)) == Some(m@),
        },
{
    let ghost o = host::oracle(*host);
    let ghost ns = nodes.deep_view();
    let ghost es = edges.deep_view();
    let ghost ids = graph::ids_of(ns);
    let mut seen: Vec<String> = Vec::new();
    proof {
        assert(seen.deep_view() =~= ids.take(0));
    }
    let mut i: usize = 0;
    while i < nodes.len()
        invariant
            host::faithful(*host),
            o == host::oracle(*host),
            ns == nodes.deep_view(),
            es == edges.deep_view(),
            ids == graph::ids_of(ns),
            i <= nodes@.len(),
            seen.deep_view() == ids.take(i as int),
            nodes_fault_from(ns, 0, o) == nodes_fault_from(ns, i as int, o),
        decreases nodes@.len() - i,
    {
        let n = &nodes[i];
        proof {
            assert(ns[i as int] == n.deep_view());
        }
        if lists::has_text(&seen, n.id.as_str()) {
            return Err(around("duplicate node id '", n.id.as_str(), "'"));
        }
        if let Err(m) = validate_node_config(&n.config, host) {
            return Err(m);
        }
        let ghost had = seen.deep_view();
        seen.push(n.id.clone());
        proof {
            assert(seen.deep_view() =~= had.push(n.id@));
            assert(ids.take(i + 1) =~= ids.take(i as int).push(n.id@));
        }
        i = i + 1;
    }
    proof {
        assert(ids.take(ids.len() as int) =~= ids);
    }
    let mut k: usize = 0;
    while k < edges.len()
        invariant
            host::faithful(*host),
            o == host::oracle(*host),
            ns == nodes.deep_view(),
            es == edges.deep_view(),
            ids == graph::ids_of(ns),
            seen.deep_view() == ids,
            nodes_fault_from(ns, 0, o) is None,
            k <= edges@.len(),
            edges_fault_from(ids, es, 0) == edges_fault_from(ids, es, k as int),
        decreases edges@.len() - k,
    {
        let e = &edges[k];
        proof {
            assert(es[k as int] == e.deep_view());
        }
        if !lists::has_text(&seen, e.source_node.as_str()) {
            return Err(around("edge source '", e.source_node.as_str(), "' not found"));
        }
        if !lists::has_text(&seen, e.target_node.as_str()) {
            return Err(around("edge target '", e.target_node.as_str(), "' not found"));
        }
        if same(e.source_node.as_str(), e.target_node.as_str()) {
            return Err(around("self-edge on node '", e.source_node.as_str(), "' is not allowed"));
        }
        k = k + 1;
    }
    proof {
        sound_parts_are_well_formed(ns, es, o);
    }
    if has_cycle(nodes, edges) {
        return Err("automation graph contains a cycle".to_owned());
    }
    Ok(())
}

/// A graph that has been checked can run: its blocks can be put in an order
/// that holds each of them once, every block behind those that feed it.
pub proof fn checked_graphs_run(nodes: Seq<AutomationNodeModel>, edges: Seq<AutomationEdgeModel>, o: Oracle)
    requires
        edges.len() <= usize::MAX,
        graph_fault(nodes, edges, o) is None,
    ensures
        graph::sorted_ids(nodes, edges) matches Some(order) && order.no_duplicates() && (forall|id: Seq<char>|
            graph::ids_of(nodes).contains(id) <==> #[trigger] order.contains(id)),
{
    sound_parts_are_well_formed(nodes, edges, o);
    graph::topological_complete(graph::ids_of(nodes), graph::arcs_of(edges));
    graph::topological_facts(graph::ids_of(nodes), graph::arcs_of(edges));
}

// ---------- Making, changing and removing automations ----------

/// An automation that has never run.
pub open spec fn fresh_automation(
    id: Seq<char>,
    name: Seq<char>,
    enabled: bool,
    nodes: Seq<AutomationNodeModel>,
    edges: Seq<AutomationEdgeModel>,
    variables: Seq<(Seq<char>, ValueModel)>,
    now: u128,
) -> AutomationModel {
    AutomationModel {
        id,
        name,
        enabled,
        nodes,
        edges,
        created_at_ms: now,
        variables,
        status: AutomationStatusModel { last_fired_at_ms: None, last_error: None, node_states: Seq::empty() },
    }
}

/// A status before anything has run.
pub fn fresh_status() -> (s: AutomationStatus)
    ensures
        s.deep_view() == (AutomationStatusModel {
            last_fired_at_ms: None,
            last_error: None,
            node_states: Seq::empty(),
        }),
{
    AutomationStatus { last_fired_at_ms: None, last_error: None, node_states: Table::new() }
}

/// The automation that a request makes, or why it makes none.
pub open spec fn made(
    request: CreateAutomationRequestModel,
    id: Seq<char>,
    now: u128,
    o: Oracle,
) -> Result<AutomationModel, Seq<char>> {
    let name = text::trimmed(request.name);
    if name.len() == 0 {
        Err("name cannot be empty"@)
    } else {
        match graph_fault(request.nodes, request.edges, o) {
            Some(m) => Err(m),
            None => Ok(
                fresh_automation(id, name, request.enabled, request.nodes, request.edges, Seq::empty(), now),
            ),
        }
    }
}

/// Makes an automation and stores it under its id.
pub fn create_automation<H: Fn(Ask) -> Answer>(
    automations: &mut Table<Automation>,
    request: CreateAutomationRequest,
    id: String,
    now: u128,
    host: &H,
) -> (r: Result<(), String>)
    requires
        host::faithful(*host),
    ensures
        match r {
            Ok(_) => made(request.deep_view(), id@, now, host::oracle(*host)) is Ok && final(automations).deep_view()
                == table::put(
                old(automations).deep_view(),
                id@,
                made(request.deep_view(), id@, now, host::oracle(*host))->Ok_0,
            ),
            Err(m) => made(request.deep_view(), id@, now, host::oracle(*host)) == Err::<AutomationModel, Seq<char>>(m@)
                && final(automations).deep_view() == old(automations).deep_view(),
        },
        table::sorted(old(automations).deep_view()) ==> table::sorted(final(automations).deep_view()),
{
    let name = trim(request.name.as_str());
    if name.as_str().is_empty() {
        return Err("name cannot be empty".to_owned());
    }
    if let Err(m) = validate_automation_graph(&request.nodes, &request.edges, host) {
        return Err(m);
    }
    let automation = Automation {
        id: id.clone(),
        name,
        enabled: request.enabled,
        nodes: request.nodes,
        edges: request.edges,
        created_at_ms: now,
        variables: Table::new(),
        status: fresh_status(),
    };
    automations.insert(id, automation);
    Ok(())
}

/// The automation with the request's changes; new blocks forget what the old
/// ones came to.
pub open spec fn changed(a: AutomationModel, r: UpdateAutomationRequestModel) -> AutomationModel {
    AutomationModel {
        name: merge::trimmed_or(r.name, a.name),
        enabled: merge::either(r.enabled, a.enabled),
        nodes: merge::either(r.nodes, a.nodes),
        edges: merge::either(r.edges, a.edges),
        status: if r.nodes is Some {
            AutomationStatusModel {
                last_fired_at_ms: a.status.last_fired_at_ms,
                last_error: None,
                node_states: Seq::empty(),
            }
        } else {
            a.status
        },
        ..a
    }
}

/// The table after a request to change the automation `id`, or why it stays as
/// it is. New blocks or edges are checked together with what stays.
pub open spec fn updated(
    t: Seq<(Seq<char>, AutomationModel)>,
    id: Seq<char>,
    r: UpdateAutomationRequestModel,
    o: Oracle,
) -> Result<Seq<(Seq<char>, AutomationModel)>, Seq<char>> {
    let unknown = "unknown automation '"@ + id + "'"@;
    if r.nodes is Some && r.edges is Some && graph_fault(r.nodes->0, r.edges->0, o) is Some {
        Err(graph_fault(r.nodes->0, r.edges->0, o)->0)
    } else {
        match table::lookup(t, id) {
            None => Err(unknown),
            Some(a) => if (r.nodes is Some || r.edges is Some) && graph_fault(
                merge::either(r.nodes, a.nodes),
                merge::either(r.edges, a.edges),
                o,
            ) is Some {
                Err(graph_fault(merge::either(r.nodes, a.nodes), merge::either(r.edges, a.edges), o)->0)
            } else if r.name is Some && text::trimmed(r.name->0).len() == 0 {
                Err("name cannot be empty"@)
            } else {
                Ok(table::amended(t, id, changed(a, r)))
            },
        }
    }
}

fn check_update<H: Fn(Ask) -> Answer>(
    automations: &Table<Automation>,
    id: &str,
    request: &UpdateAutomationRequest,
    host: &H,
) -> (r: Result<(), String>)
    requires
        host::faithful(*host),
    ensures
        match r {
            Ok(_) => request.nodes is None && request.edges is None || ({
                let a = table::lookup(automations.deep_view(), id@);
                request.nodes is Some && request.edges is Some && graph_fault(
                    request.deep_view().nodes->0,
                    request.deep_view().edges->0,
                    host::oracle(*host),
                ) is None || a is Some && graph_fault(
                    merge::either(request.deep_view().nodes, a->0.nodes),
                    merge::either(request.deep_view().edges, a->0.edges),
                    host::oracle(*host),
                ) is None
            }),
            Err(m) => updated(automations.deep_view(), id@, request.deep_view(), host::oracle(*host)) == Err::<
                Seq<(Seq<char>, AutomationModel)>,
                Seq<char>,
            >(m@),
        },
{
    match (&request.nodes, &request.edges) {
        (Some(nodes), Some(edges)) => validate_automation_graph(nodes, edges, host),
        (Some(nodes), None) => match automations.get(id) {
            Some(a) => validate_automation_graph(nodes, &a.edges, host),
            None => Err(around("unknown automation '", id, "'")),
        },
        (None, Some(edges)) => match automations.get(id) {
            Some(a) => validate_automation_graph(&a.nodes, edges, host),
            None => Err(around("unknown automation '", id, "'")),
        },
        (None, None) => Ok(()),
    }
}

/// Changes the automation `id` as requested; where that fails, nothing changes.
pub fn update_automation<H: Fn(Ask) -> Answer>(
    automations: &mut Table<Automation>,
    id: &str,
    request: UpdateAutomationRequest,
    host: &H,
) -> (r: Result<(), String>)
    requires
        host::faithful(*host),
    ensures
        match r {
            Ok(_) => updated(old(automations).deep_view(), id@, request.deep_view(), host::oracle(*host)) == Ok::<
                Seq<(Seq<char>, AutomationModel)>,
                Seq<char>,
            >(final(automations).deep_view()),
            Err(m) => updated(old(automations).deep_view(), id@, request.deep_view(), host::oracle(*host)) == Err::<
                Seq<(Seq<char>, AutomationModel)>,
                Seq<char>,
            >(m@) && final(automations).deep_view() == old(automations).deep_view(),
        },
        table::sorted(old(automations).deep_view()) ==> table::sorted(final(automations).deep_view()),
{
    if let Err(m) = check_update(automations, id, &request, host) {
        return Err(m);
    }
    let automation = match automations.get(id) {
        Some(a) => a.dup(),
        None => {
            return Err(around("unknown automation '", id, "'"));
        },
    };
    if let Some(name) = &request.name {
        if trim(name.as_str()).as_str().is_empty() {
            return Err("name cannot be empty".to_owned());
        }
    }
    let status = if request.nodes.is_some() {
        AutomationStatus {
            last_fired_at_ms: automation.status.last_fired_at_ms,
            last_error: None,
            node_states: Table::new(),
        }
    } else {
        automation.status
    };
    let next = Automation {
        id: automation.id,
        name: trim_or(request.name, automation.name),
        enabled: given_or(request.enabled, automation.enabled),
        nodes: given_or(request.nodes, automation.nodes),
        edges: given_or(request.edges, automation.edges),
        created_at_ms: automation.created_at_ms,
        variables: automation.variables,
        status,
    };
    automations.amend(id, next);
    Ok(())
}

/// Removes the automation `id`.
pub fn delete_automation(automations: &mut Table<Automation>, id: &str) -> (r: Result<(), String>)
    ensures
        match r {
            Ok(_) => table::has_key(old(automations).deep_view(), id@),
            Err(m) => !table::has_key(old(automations).deep_view(), id@) && m@ == "unknown automation '"@ + id@ + "'"@,
        },
        final(automations).deep_view() == table::without(old(automations).deep_view(), id@),
        table::sorted(old(automations).deep_view()) ==> table::sorted(final(automations).deep_view()),
{
    if !automations.remove(id) {
        return Err(around("unknown automation '", id, "'"));
    }
    Ok(())
}

// ---------- Exchanging automations ----------

/// An automation as it is handed to another board: without what it has come to.
pub open spec fn exported(a: AutomationModel, kind: Seq<char>, version: u32) -> AutomationExportModel {
    AutomationExportModel {
        kind,
        version,
        name: a.name,
        enabled: a.enabled,
        nodes: a.nodes,
        edges: a.edges,
        variables: a.variables,
    }
}

/// The automation `id` as it is handed to another board, in a format of that
/// kind and version.
pub fn export_automation(automations: &Table<Automation>, id: &str, kind: &str, version: u32) -> (r: Result<
    AutomationExport,
    String,
>)
    ensures
        match r {
            Ok(e) => table::lookup(automations.deep_view(), id@) matches Some(a) && e.deep_view() == exported(
                a,
                kind@,
                version,
            ),
            Err(m) => !table::has_key(automations.deep_view(), id@) && m@ == "unknown automation '"@ + id@ + "'"@,
        },
{
    match automations.get(id) {
        None => Err(around("unknown automation '", id, "'")),
        Some(a) => Ok(
            AutomationExport {
                kind: kind.to_owned(),
                version,
                name: a.name.clone(),
                enabled: a.enabled,
                nodes: a.nodes.dup(),
                edges: a.edges.dup(),
                variables: a.variables.dup(),
            },
        ),
    }
}

/// The automation that another board handed over, or why it is not taken.
pub open spec fn imported(
    e: AutomationExportModel,
    kind: Seq<char>,
    version: u32,
    id: Seq<char>,
    now: u128,
    o: Oracle,
) -> Result<AutomationModel, Seq<char>> {
    if e.kind != kind {
        Err("not a Fusebox automation export (kind '"@ + e.kind + "')"@)
    } else if e.version > version {
        Err(
            "export is version "@ + text::decimal(e.version as nat) + " but this server only understands up to "@
                + text::decimal(version as nat),
        )
    } else {
        match graph_fault(e.nodes, e.edges, o) {
            Some(m) => Err(m),
            None => Ok(
                fresh_automation(
                    id,
                    if text::trimmed(e.name).len() == 0 {
                        "Imported automation"@
                    } else {
                        text::trimmed(e.name)
                    },
                    e.enabled,
                    e.nodes,
                    e.edges,
                    e.variables,
                    now,
                ),
            ),
        }
    }
}

/// Takes an automation that another board handed over, and stores it under its
/// id.
pub fn import_automation<H: Fn(Ask) -> Answer>(
    automations: &mut Table<Automation>,
    payload: AutomationExport,
    kind: &str,
    version: u32,
    id: String,
    now: u128,
    host: &H,
) -> (r: Result<(), String>)
    requires
        host::faithful(*host),
    ensures
        match r {
            Ok(_) => imported(payload.deep_view(), kind@, version, id@, now, host::oracle(*host)) is Ok
                && final(automations).deep_view() == table::put(
                old(automations).deep_view(),
                id@,
                imported(payload.deep_view(), kind@, version, id@, now, host::oracle(*host))->Ok_0,
            ),
            Err(m) => imported(payload.deep_view(), kind@, version, id@, now, host::oracle(*host)) == Err::<
                AutomationModel,
                Seq<char>,
            >(m@) && final(automations).deep_view() == old(automations).deep_view(),
        },
        table::sorted(old(automations).deep_view()) ==> table::sorted(final(automations).deep_view()),
{
    if !same(payload.kind.as_str(), kind) {
        return Err(around("not a Fusebox automation export (kind '", payload.kind.as_str(), "')"));
    }
    if payload.version > version {
        let mut m = around(
            "export is version ",
            decimal_text(payload.version as u128).as_str(),
            " but this server only understands up to ",
        );
        m.append(decimal_text(version as u128).as_str());
        return Err(m);
    }
    if let Err(m) = validate_automation_graph(&payload.nodes, &payload.edges, host) {
        return Err(m);
    }
    let trimmed = trim(payload.name.as_str());
    let name = if trimmed.as_str().is_empty() {
        "Imported automation".to_owned()
    } else {
        trimmed
    };
    let automation = Automation {
        id: id.clone(),
        name,
        enabled: payload.enabled,
        nodes: payload.nodes,
        edges: payload.edges,
        created_at_ms: now,
        variables: payload.variables,
        status: fresh_status(),
    };
    automations.insert(id, automation);
    Ok(())
}

/// An automation that can run, handed over and taken, keeps its blocks, edges
/// and variables, whether it is enabled, and its name without outer white
/// space, if it has one.
pub proof fn imports_give_back_exports(
    a: AutomationModel,
    kind: Seq<char>,
    version: u32,
    id: Seq<char>,
    now: u128,
    o: Oracle,
)
    requires
        graph_fault(a.nodes, a.edges, o) is None,
    ensures
        imported(exported(a, kind, version), kind, version, id, now, o) matches Ok(b) && b.nodes == a.nodes && b.edges
            == a.edges && b.variables == a.variables && b.enabled == a.enabled && (text::trimmed(a.name).len() > 0
            ==> b.name == text::trimmed(a.name)),
{
}

/// The automation's graph has been checked.
pub open spec fn is_sound(a: AutomationModel, o: Oracle) -> bool {
    graph_fault(a.nodes, a.edges, o) is None
}

/// Every automation's graph has been checked.
pub open spec fn all_sound(t: Seq<(Seq<char>, AutomationModel)>, o: Oracle) -> bool {
    forall|id: Seq<char>| #[trigger] table::lookup(t, id) matches Some(a) ==> is_sound(a, o)
}

/// Where every graph has been checked, every graph still is after an automation
/// is made, imported, changed or removed.
pub proof fn stored_graphs_stay_sound(
    t: Seq<(Seq<char>, AutomationModel)>,
    id: Seq<char>,
    create: CreateAutomationRequestModel,
    export: AutomationExportModel,
    kind: Seq<char>,
    version: u32,
    change: UpdateAutomationRequestModel,
    now: u128,
    o: Oracle,
)
    requires
        table::sorted(t),
        all_sound(t, o),
    ensures
        made(create, id, now, o) matches Ok(a) ==> all_sound(table::put(t, id, a), o),
        imported(export, kind, version, id, now, o) matches Ok(a) ==> all_sound(table::put(t, id, a), o),
        updated(t, id, change, o) matches Ok(u) ==> all_sound(u, o),
        all_sound(table::without(t, id), o),
{
    if let Ok(a) = made(create, id, now, o) {
        assert forall|k: Seq<char>| #[trigger] table::lookup(table::put(t, id, a), k) matches Some(b) implies is_sound(
            table::lookup(table::put(t, id, a), k)->0,
            o,
        ) by {
            table::put_then_lookup(t, id, a, k);
            assert(table::lookup(t, k) matches Some(b) ==> is_sound(b, o));
        }
    }
    if let Ok(a) = imported(export, kind, version, id, now, o) {
        assert forall|k: Seq<char>| #[trigger] table::lookup(table::put(t, id, a), k) matches Some(b) implies is_sound(
            table::lookup(table::put(t, id, a), k)->0,
            o,
        ) by {
            table::put_then_lookup(t, id, a, k);
            assert(table::lookup(t, k) matches Some(b) ==> is_sound(b, o));
        }
    }
    if let Ok(u) = updated(t, id, change, o) {
        let a = table::lookup(t, id)->0;
        assert(is_sound(a, o));
        assert forall|k: Seq<char>| #[trigger] table::lookup(u, k) matches Some(b) implies is_sound(
            table::lookup(u, k)->0,
            o,
        ) by {
            table::amended_then_lookup(t, id, changed(a, change), k);
            assert(table::lookup(t, k) matches Some(b) ==> is_sound(b, o));
        }
    }
    assert forall|k: Seq<char>| #[trigger] table::lookup(table::without(t, id), k) matches Some(b) implies is_sound(
        table::lookup(table::without(t, id), k)->0,
        o,
    ) by {
        table::without_then_lookup(t, id, k);
        assert(table::lookup(t, k) matches Some(b) ==> is_sound(b, o));
    }
}

// ---------- Trying out ----------

/// The block's outputs, as an expression reads them.
pub open spec fn upstream_outputs(a: AutomationModel, upstream: Option<Seq<char>>) -> Seq<(Seq<char>, Seq<char>)> {
    match upstream {
        Some(id) => match table::lookup(a.status.node_states, id) {
            Some(s) => s.outputs,
            None => Seq::empty(),
        },
        None => Seq::empty(),
    }
}

/// What an expression comes to for an automation, tried out behind one of its
/// blocks.
pub open spec fn previewed(
    src: Seq<char>,
    a: Option<AutomationModel>,
    id: Seq<char>,
    upstream: Option<Seq<char>>,
    devices: Seq<(Seq<char>, bool)>,
    now: u128,
    o: Oracle,
) -> Result<PreviewResponseModel, Seq<char>> {
    if text::trimmed(src).len() == 0 {
        Ok(
            PreviewResponseModel {
                ok: false,
                result: None,
                result_text: None,
                error: Some("enter an expression to preview"@),
                input_fields: Seq::empty(),
            },
        )
    } else {
        match a {
            None => Err("unknown automation '"@ + id + "'"@),
            Some(a) => {
                let outputs = upstream_outputs(a, upstream);
                let ctx = ContextModel {
                    variables: a.variables,
                    input: ValueModel::Dict(node::texts_dict(outputs)),
                    devices,
                    now_ms: now,
                    scope: "preview"@,
                };
                Ok(
                    match expr::evaluated(src, ctx, o) {
                        Ok(v) => PreviewResponseModel {
                            ok: true,
                            result: Some(v),
                            result_text: Some(
                                if v is List || v is Dict {
                                    host::text_in(o(AskModel::Pretty(v)))
                                } else {
                                    coerce::text_for(v, o)
                                },
                            ),
                            error: None,
                            input_fields: table::keys_of(outputs),
                        },
                        Err(m) => PreviewResponseModel {
                            ok: false,
                            result: None,
                            result_text: None,
                            error: Some(m),
                            input_fields: table::keys_of(outputs),
                        },
                    },
                )
            },
        }
    }
}

fn outputs_behind(a: &Automation, upstream: &Option<String>) -> (r: Table<String>)
    ensures
        r.deep_view() == upstream_outputs(a.deep_view(), upstream.deep_view()),
{
    match upstream {
        Some(id) => match a.status.node_states.get(id.as_str()) {
            Some(s) => s.outputs.dup(),
            None => Table::new(),
        },
        None => Table::new(),
    }
}

fn keys_and_dict(outputs: &Table<String>) -> (r: (Vec<String>, Table<Value>))
    ensures
        r.0.deep_view() == table::keys_of(outputs.deep_view()),
        r.1.deep_view() == node::texts_dict(outputs.deep_view()),
{
    let ghost t = outputs.deep_view();
    let mut keys: Vec<String> = Vec::new();
    let mut dict: Table<Value> = Table { entries: Vec::new() };
    let mut i: usize = 0;
    while i < outputs.entries.len()
        invariant
            i <= outputs.entries@.len(),
            t == outputs.deep_view(),
            keys@.len() == i,
            dict.entries@.len() == i,
            forall|j: int| 0 <= j < i ==> (#[trigger] keys@[j])@ == t[j].0,
            forall|j: int| 0 <= j < i ==> (#[trigger] dict.entries@[j]).deep_view() == node::texts_dict(t)[j],
        decreases outputs.entries@.len() - i,
    {
        let entry = &outputs.entries[i];
        proof {
            assert(t[i as int] == (entry.0@, entry.1@));
        }
        keys.push(entry.0.clone());
        dict.entries.push((entry.0.clone(), Value::Text(entry.1.clone())));
        i = i + 1;
    }
    proof {
        assert(keys.deep_view() =~= table::keys_of(t));
        assert(dict.deep_view() =~= node::texts_dict(t));
    }
    (keys, dict)
}

/// Tries an expression out for an automation, behind one of its blocks.
pub fn preview_expression<H: Fn(Ask) -> Answer>(
    automations: &Table<Automation>,
    id: &str,
    expression: &str,
    upstream: Option<String>,
    devices: &Table<bool>,
    now: u128,
    host: &H,
) -> (r: Result<PreviewResponse, String>)
    requires
        host::faithful(*host),
    ensures
        match r {
            Ok(p) => previewed(
                expression@,
                table::lookup(automations.deep_view(), id@),
                id@,
                upstream.deep_view(),
                devices.deep_view(),
                now,
                host::oracle(*host),
            ) == Ok::<PreviewResponseModel, Seq<char>>(p.deep_view()),
            Err(m) => previewed(
                expression@,
                table::lookup(automations.deep_view(), id@),
                id@,
                upstream.deep_view(),
                devices.deep_view(),
                now,
                host::oracle(*host),
            ) == Err::<PreviewResponseModel, Seq<char>>(m@),
        },
{
    if trim(expression).as_str().is_empty() {
        let none: Vec<String> = Vec::new();
        proof {
            assert(none.deep_view() =~= Seq::<Seq<char>>::empty());
        }
        return Ok(
            PreviewResponse {
                ok: false,
                result: None,
                result_text: None,
                error: Some("enter an expression to preview".to_owned()),
                input_fields: none,
            },
        );
    }
    let automation = match automations.get(id) {
        Some(a) => a,
        None => {
            return Err(around("unknown automation '", id, "'"));
        },
    };
    let outputs = outputs_behind(automation, &upstream);
    let (input_fields, dict) = keys_and_dict(&outputs);
    proof {
        value::dict_model(dict);
    }
    let ctx = EvalContext {
        variables: &automation.variables,
        input: Value::Dict(dict),
        devices,
        now_ms: now,
        scope: "preview".to_owned(),
    };
    match evaluate(expression, &ctx, host) {
        Ok(v) => {
            let result_text = match &v {
                Value::List(_) | Value::Dict(_) => Some(ask_text(host, Ask::Pretty(v.dup()))),
                _ => Some(to_text(&v, host)),
            };
            Ok(PreviewResponse { ok: true, result: Some(v), result_text, error: None, input_fields })
        },
        Err(m) => Ok(PreviewResponse { ok: false, result: None, result_text: None, error: Some(m), input_fields }),
    }
}

/// The automation with other blocks and edges, and all else as it is.
pub open spec fn drafted(
    a: AutomationModel,
    nodes: Seq<AutomationNodeModel>,
    edges: Seq<AutomationEdgeModel>,
) -> AutomationModel {
    AutomationModel { nodes, edges, ..a }
}

/// The automation `id` with blocks and edges that are not stored yet, to be
/// tried out.
pub fn draft_automation(
    automations: &Table<Automation>,
    id: &str,
    nodes: Vec<AutomationNode>,
    edges: Vec<AutomationEdge>,
) -> (r: Result<Automation, String>)
    ensures
        match r {
            Ok(a) => table::lookup(automations.deep_view(), id@) matches Some(saved) && a.deep_view() == drafted(
                saved,
                nodes.deep_view(),
                edges.deep_view(),
            ),
            Err(m) => !table::has_key(automations.deep_view(), id@) && m@ == "unknown automation '"@ + id@ + "'"@,
        },
{
    match automations.get(id) {
        None => Err(around("unknown automation '", id, "'")),
        Some(saved) => Ok(
            Automation {
                id: saved.id.clone(),
                name: saved.name.clone(),
                enabled: saved.enabled,
                nodes,
                edges,
                created_at_ms: saved.created_at_ms,
                variables: saved.variables.dup(),
                status: saved.status.dup(),
            },
        ),
    }
}

/// How far ahead devices are forecast.
pub const FORECAST_HORIZON_MS: u128 = 43_200_000;

/// How finely devices are forecast.
pub const FORECAST_STEP_MS: u128 = 60_000;

/// An automation comes out as it was asked for, with the space round its name
/// taken off, never fired and without variables. It is refused exactly where
/// its name is empty or its graph is faulty.
pub proof fn automations_are_made_as_asked(r: CreateAutomationRequestModel, id: Seq<char>, now: u128, o: Oracle)
    ensures
        made(r, id, now, o) is Ok <==> text::trimmed(r.name).len() > 0 && graph_fault(r.nodes, r.edges, o) is None,
        made(r, id, now, o) matches Ok(a) ==> {
            &&& a.id == id
            &&& a.name == text::trimmed(r.name)
            &&& a.enabled == r.enabled
            &&& a.nodes == r.nodes
            &&& a.edges == r.edges
            &&& a.created_at_ms == now
            &&& a.variables.len() == 0
            &&& a.status.last_fired_at_ms is None && a.status.last_error is None && a.status.node_states.len() == 0
        },
{
}

/// A change to a stored automation touches no other. Each field that the change
/// names is as it says, each other as it was; new blocks start without states
/// and without an error.
pub proof fn automation_changes_are_field_by_field(
    t: Seq<(Seq<char>, AutomationModel)>,
    id: Seq<char>,
    other: Seq<char>,
    r: UpdateAutomationRequestModel,
    o: Oracle,
)
    ensures
        table::lookup(t, id) is None ==> updated(t, id, r, o) is Err,
        r.name matches Some(name) ==> text::trimmed(name).len() == 0 ==> updated(t, id, r, o) is Err,
        updated(t, id, r, o) matches Ok(u) ==> {
            &&& other != id ==> table::lookup(u, other) == table::lookup(t, other)
            &&& table::lookup(t, id) matches Some(a) && table::lookup(u, id) matches Some(b) && {
                &&& b.id == a.id && b.created_at_ms == a.created_at_ms && b.variables == a.variables
                &&& r.name matches Some(name) ==> b.name == text::trimmed(name)
                &&& r.name is None ==> b.name == a.name
                &&& r.enabled matches Some(enabled) ==> b.enabled == enabled
                &&& r.enabled is None ==> b.enabled == a.enabled
                &&& r.nodes matches Some(nodes) ==> b.nodes == nodes
                &&& r.nodes is None ==> b.nodes == a.nodes && b.status == a.status
                &&& r.edges matches Some(edges) ==> b.edges == edges
                &&& r.edges is None ==> b.edges == a.edges
                &&& r.nodes is Some ==> b.status.node_states.len() == 0 && b.status.last_error is None
                    && b.status.last_fired_at_ms == a.status.last_fired_at_ms
                &&& r.nodes is Some || r.edges is Some ==> graph_fault(b.nodes, b.edges, o) is None
            }
        },
{
    if let Some(a) = table::lookup(t, id) {
        table::amended_then_lookup(t, id, changed(a, r), other);
    }
}

/// A graph is faulty exactly where two blocks share an id, a block is badly set
/// up, an edge leads from or to a block that is not there or from a block to
/// itself, or the edges go in a circle.
pub proof fn graph_faults_are_these(nodes: Seq<AutomationNodeModel>, edges: Seq<AutomationEdgeModel>, o: Oracle)
    ensures
        graph_fault(nodes, edges, o) is None <==> {
            &&& forall|i: int, j: int|
                0 <= i < j < nodes.len() ==> (#[trigger] nodes[i]).id != (#[trigger] nodes[j]).id
            &&& forall|i: int| 0 <= i < nodes.len() ==> config_check((#[trigger] nodes[i]).config, o) is Ok
            &&& forall|k: int|
                0 <= k < edges.len() ==> (#[trigger] edges[k]).source_node != edges[k].target_node && graph::ids_of(
                    nodes,
                ).contains(edges[k].source_node) && graph::ids_of(nodes).contains(edges[k].target_node)
            &&& graph::acyclic(graph::arcs_of(edges))
        },
{
    let ids = graph::ids_of(nodes);
    blocks_are_sound_from(nodes, 0, o);
    edges_are_sound_from(ids, edges, 0);
    if nodes_fault_from(nodes, 0, o) is None {
        assert forall|i: int, j: int| 0 <= i < j < nodes.len() implies (#[trigger] nodes[i]).id != (
        #[trigger] nodes[j]).id by {
            assert(!ids.take(j).contains(nodes[j].id));
            assert(ids.take(j)[i] == nodes[i].id);
        }
    } else if (forall|i: int, j: int| 0 <= i < j < nodes.len() ==> (#[trigger] nodes[i]).id != (#[trigger] nodes[j]).id)
        && (forall|i: int| 0 <= i < nodes.len() ==> config_check((#[trigger] nodes[i]).config, o) is Ok) {
        assert forall|j: int| 0 <= j < nodes.len() implies !ids.take(j).contains((#[trigger] nodes[j]).id) by {
            if ids.take(j).contains(nodes[j].id) {
                let i = choose|i: int| 0 <= i < j && ids.take(j)[i] == nodes[j].id;
                assert(nodes[i].id == ids.take(j)[i]);
            }
        }
    }
}

proof fn blocks_are_sound_from(nodes: Seq<AutomationNodeModel>, i: int, o: Oracle)
    requires
        0 <= i,
    ensures
        nodes_fault_from(nodes, i, o) is None <==> (forall|j: int|
            i <= j < nodes.len() ==> !graph::ids_of(nodes).take(j).contains((#[trigger] nodes[j]).id) && config_check(
                nodes[j].config,
                o,
            ) is Ok),
    decreases nodes.len() - i,
{
    if i < nodes.len() {
        blocks_are_sound_from(nodes, i + 1, o);
    }
}

proof fn edges_are_sound_from(ids: Seq<Seq<char>>, edges: Seq<AutomationEdgeModel>, i: int)
    requires
        0 <= i,
    ensures
        edges_fault_from(ids, edges, i) is None <==> (forall|k: int|
            i <= k < edges.len() ==> (#[trigger] edges[k]).source_node != edges[k].target_node && ids.contains(
                edges[k].source_node,
            ) && ids.contains(edges[k].target_node)),
    decreases edges.len() - i,
{
    if i < edges.len() {
        edges_are_sound_from(ids, edges, i + 1);
    }
}

/// What a block must have: a calendar that can be read, a cycle of a minute, a
/// request whose URL, where it has one, and method and status can be used, an
/// expression that can be read or none. Other blocks need nothing.
pub proof fn blocks_need_these(c: AutomationNodeConfigModel, o: Oracle)
    ensures
        c matches AutomationNodeConfigModel::CronTrigger { cron_trigger } ==> (config_check(c, o) is Ok
            <==> schedules::cron_fault(schedules::crate_format(cron_trigger.cron)) is None),
        c matches AutomationNodeConfigModel::IntervalTrigger { interval_trigger } ==> (config_check(c, o) is Ok
            <==> interval_trigger.on_seconds + interval_trigger.off_seconds >= 60),
        c matches AutomationNodeConfigModel::HttpRequest { http_request } ==> (config_check(c, o) is Ok <==> (
        http_request.url.len() == 0 || conditions::url_check(http_request.url) is Ok) && conditions::method_check(
            http_request.method,
        ) is Ok && conditions::status_ranges(http_request.status_match) is Ok),
        c matches AutomationNodeConfigModel::Expression { expression } ==> (config_check(c, o) is Ok <==> text::trimmed(
            expression.expression,
        ).len() == 0 || parser::parse_of(expression.expression) is Ok),
        c matches AutomationNodeConfigModel::SetVariable { set_variable } ==> (config_check(c, o) is Ok
            <==> text::trimmed(set_variable.expression).len() == 0 || parser::parse_of(set_variable.expression) is Ok),
        c matches AutomationNodeConfigModel::IfCondition { if_condition } ==> (config_check(c, o) is Ok
            <==> text::trimmed(if_condition.expression).len() == 0 || parser::parse_of(if_condition.expression) is Ok),
        c is LogicAnd || c is LogicOr || c is LogicNot || c is Debounce || c is SetDevice || c is ToggleDevice
            || c is FireHook || c is GetVariable || c is Between || c is ImmediateTrigger || c is DeviceEventTrigger
            || c is VariableChanged ==> config_check(c, o) is Ok,
{
}

/// An export holds the name, whether it is enabled, the blocks, the edges and
/// the variables. An import takes them over, with a name where there is none,
/// and is refused where it is of another kind, of a later version or faulty.
pub proof fn exports_hold_the_automation(
    a: AutomationModel,
    e: AutomationExportModel,
    kind: Seq<char>,
    version: u32,
    id: Seq<char>,
    now: u128,
    o: Oracle,
)
    ensures
        ({
            let x = exported(a, kind, version);
            &&& x.kind == kind && x.version == version
            &&& x.name == a.name && x.enabled == a.enabled && x.nodes == a.nodes && x.edges == a.edges && x.variables
                == a.variables
        }),
        imported(e, kind, version, id, now, o) is Ok <==> e.kind == kind && e.version <= version && graph_fault(
            e.nodes,
            e.edges,
            o,
        ) is None,
        imported(e, kind, version, id, now, o) matches Ok(b) ==> {
            &&& b.id == id && b.created_at_ms == now
            &&& b.nodes == e.nodes && b.edges == e.edges && b.variables == e.variables && b.enabled == e.enabled
            &&& text::trimmed(e.name).len() > 0 ==> b.name == text::trimmed(e.name)
            &&& text::trimmed(e.name).len() == 0 ==> b.name == "Imported automation"@
            &&& b.status.node_states.len() == 0 && b.status.last_fired_at_ms is None && b.status.last_error is None
        },
{
}

/// A preview evaluates its text with the variables of the automation, the
/// outputs of the block before it and the devices of the moment, and tells the
/// value or the error, and the names of those outputs.
pub proof fn previews_evaluate_their_text(
    src: Seq<char>,
    a: AutomationModel,
    id: Seq<char>,
    upstream: Seq<char>,
    devices: Seq<(Seq<char>, bool)>,
    now: u128,
    o: Oracle,
)
    requires
        text::trimmed(src).len() > 0,
    ensures
        ({
            let outputs = match table::lookup(a.status.node_states, upstream) {
                Some(s) => s.outputs,
                None => Seq::empty(),
            };
            let ctx = ContextModel {
                variables: a.variables,
                input: ValueModel::Dict(node::texts_dict(outputs)),
                devices,
                now_ms: now,
                scope: "preview"@,
            };
            let found = expr::evaluated(src, ctx, o);
            &&& previewed(src, Some(a), id, Some(upstream), devices, now, o) matches Ok(p) && {
                &&& p.ok <==> found is Ok
                &&& found matches Ok(v) ==> p.result == Some(v) && p.error is None
                &&& found matches Ok(v) ==> !(v is List || v is Dict) ==> p.result_text == Some(coerce::text_for(v, o))
                &&& found matches Err(m) ==> p.result is None && p.error == Some(m)
                &&& p.input_fields == table::keys_of(outputs)
            }
        }),
        previewed(src, None, id, Some(upstream), devices, now, o) is Err,
{
}

/// A draft has the blocks and the edges given in place of those stored, and
/// else is the automation.
pub proof fn drafts_replace_the_graph(
    a: AutomationModel,
    nodes: Seq<AutomationNodeModel>,
    edges: Seq<AutomationEdgeModel>,
)
    ensures
        drafted(a, nodes, edges).nodes == nodes,
        drafted(a, nodes, edges).edges == edges,
        drafted(a, a.nodes, a.edges) == a,
        drafted(a, nodes, edges).variables == a.variables,
        drafted(a, nodes, edges).status == a.status,
        drafted(a, nodes, edges).id == a.id,
{
}

/// Automations are listed by when they were made, and go by an id that tells
/// the moment and a number, both in decimal.
pub proof fn automations_are_listed_by_age(a: AutomationModel, b: AutomationModel, now: u128, seq: u64)
    ensures
        lists::listed_before::<Automation>(a, b) <==> a.created_at_ms < b.created_at_ms,
        text::begins(automation_id(now, seq), "auto-"@ + text::decimal(now as nat)),
        text::finishes(automation_id(now, seq), text::decimal(seq as nat)),
{
    reveal_strlit("");
    text::before_is_total(""@, ""@);
    let head = "auto-"@ + text::decimal(now as nat);
    let tail = text::decimal(seq as nat);
    let id = automation_id(now, seq);
    assert(id =~= head + ("-"@ + tail));
    text::ends_are_what_stands_there(head, "-"@ + tail, head);
    assert(id =~= (head + "-"@) + tail);
    text::ends_are_what_stands_there(head + "-"@, tail, head);
}

} // verus!
