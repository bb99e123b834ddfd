//! What the runs of an automation share: which blocks feed which, what a block
//! leaves behind, and what its actions do.

use vstd::prelude::*;
use vstd::string::*;

use crate::actions::{HookEvent, HookSource, ScheduleAction};
use crate::automations::coerce;
use crate::automations::coerce::show_bool;
use crate::automations::node::{IncomingInput, IncomingInputModel};
use crate::automations::types;
use crate::automations::types::{
    AutomationEdge, AutomationEdgeModel, AutomationNode, AutomationNodeConfig, AutomationNodeConfigModel,
    AutomationNodeModel, CronTriggerCfgModel, DebounceCfg, FireHookCfgModel, GetVariableCfgModel, NodeRuntimeState,
    NodeRuntimeStateModel, SetDeviceCfgModel, SetVariableCfgModel, ToggleDeviceCfgModel, VariableChangedCfgModel,
};
use crate::devices;
use crate::devices::{current_state, ManagedDevice, ManagedDeviceModel};
use crate::dup::Dup;
use crate::hooks::{HookConfig, HookConfigModel, HookTemplateContext, HookTemplateContextModel};
use crate::lists;
use crate::table;
use crate::table::Table;
use crate::text;
use crate::text::{around, chars_of, decimal_text, same, text_of, trim};

verus! {

// ---------- Blocks and edges ----------

/// The first block from place `i` on with that id.
pub open spec fn node_from(nodes: Seq<AutomationNodeModel>, id: Seq<char>, i: int) -> Option<AutomationNodeModel>
    decreases nodes.len() - i,
{
    if i < 0 || i >= nodes.len() {
        None
    } else if nodes[i].id == id {
        Some(nodes[i])
    } else {
        node_from(nodes, id, i + 1)
    }
}

/// The block with that id.
pub fn find_node<'a>(nodes: &'a Vec<AutomationNode>, id: &str) -> (r: Option<&'a AutomationNode>)
    ensures
        r.deep_view() == node_from(nodes.deep_view(), id@, 0),
{
    let ghost all = nodes.deep_view();
    let mut i: usize = 0;
    while i < nodes.len()
        invariant
            i <= nodes@.len(),
            all == nodes.deep_view(),
            node_from(all, id@, 0) == node_from(all, id@, i as int),
        decreases nodes@.len() - i,
    {
        proof {
            assert(all[i as int] == nodes@[i as int].deep_view());
        }
        if same(nodes[i].id.as_str(), id) {
            return Some(&nodes[i]);
        }
        i = i + 1;
    }
    None
}

/// What an edge brings of a block's value: by the "no" socket its opposite.
pub open spec fn carried(value: Option<Option<bool>>, socket: Seq<char>) -> Option<bool> {
    match value {
        Some(Some(b)) => if socket == "no"@ {
            Some(!b)
        } else {
            Some(b)
        },
        _ => None,
    }
}

/// Which edges lead into a block.
pub open spec fn leads_into(id: Seq<char>) -> spec_fn(AutomationEdgeModel) -> bool {
    |e: AutomationEdgeModel| e.target_node == id
}

/// The inputs of a block, in the order of the edges, where the blocks before it
/// have come to `outputs`.
pub open spec fn inputs_of(
    edges: Seq<AutomationEdgeModel>,
    id: Seq<char>,
    outputs: Seq<(Seq<char>, Option<bool>)>,
) -> Seq<IncomingInputModel> {
    edges.filter(leads_into(id)).map_values(
        |e: AutomationEdgeModel|
            IncomingInputModel {
                source_node: e.source_node,
                value: carried(table::lookup(outputs, e.source_node), e.source_socket),
            },
    )
}

/// The inputs of a block.
pub fn gather_inputs(edges: &Vec<AutomationEdge>, id: &str, outputs: &Table<Option<bool>>) -> (r: Vec<IncomingInput>)
    ensures
        r.deep_view() == inputs_of(edges.deep_view(), id@, outputs.deep_view()),
{
    let ghost all = edges.deep_view();
    let ghost keep = leads_into(id@);
    let ghost out = outputs.deep_view();
    let ghost pick = |e: AutomationEdgeModel|
        IncomingInputModel {
            source_node: e.source_node,
            value: carried(table::lookup(out, e.source_node), e.source_socket),
        };
    let mut inputs: Vec<IncomingInput> = Vec::new();
    proof {
        reveal(Seq::filter);
        assert(inputs.deep_view() =~= all.take(0).filter(keep).map_values(pick));
    }
    let mut i: usize = 0;
    while i < edges.len()
        invariant
            i <= edges@.len(),
            all == edges.deep_view(),
            keep == leads_into(id@),
            out == outputs.deep_view(),
            pick == (|e: AutomationEdgeModel|
                IncomingInputModel {
                    source_node: e.source_node,
                    value: carried(table::lookup(out, e.source_node), e.source_socket),
                }),
            inputs.deep_view() == all.take(i as int).filter(keep).map_values(pick),
        decreases edges@.len() - i,
    {
        let e = &edges[i];
        let ghost had = inputs.deep_view();
        proof {
            assert(all[i as int] == e.deep_view());
            lists::filter_step(all, keep, i as int);
        }
        if same(e.target_node.as_str(), id) {
            let found = match outputs.get(e.source_node.as_str()) {
                Some(v) => *v,
                None => None,
            };
            let value = match found {
                Some(b) => if same(e.source_socket.as_str(), "no") {
                    Some(!b)
                } else {
                    Some(b)
                },
                None => None,
            };
            inputs.push(IncomingInput { source_node: e.source_node.clone(), value });
            proof {
                assert(inputs.deep_view() =~= had.push(pick(e.deep_view())));
                assert(all.take(i + 1).filter(keep).map_values(pick) =~= had.push(pick(e.deep_view())));
            }
        }
        i = i + 1;
    }
    proof {
        assert(all.take(all.len() as int) =~= all);
    }
    inputs
}

// ---------- Kinds of blocks ----------

/// The block does something to the world.
pub open spec fn is_action(c: AutomationNodeConfigModel) -> bool {
    c is SetDevice || c is ToggleDevice || c is FireHook
}

/// Whether the block does something to the world.
pub fn acts(config: &AutomationNodeConfig) -> (b: bool)
    ensures
        b == is_action(config.deep_view()),
{
    match config {
        AutomationNodeConfig::SetDevice { .. } | AutomationNodeConfig::ToggleDevice { .. }
        | AutomationNodeConfig::FireHook { .. } => true,
        _ => false,
    }
}

/// The block writes its output "value" itself, so that the value it passes on
/// does not take its place.
pub open spec fn owns_value(c: AutomationNodeConfigModel) -> bool {
    c is HttpRequest || c is SetVariable || c is GetVariable || c is Expression || c is VariableChanged
}

/// Whether the block writes its output "value" itself.
pub fn manages_own_value(config: &AutomationNodeConfig) -> (b: bool)
    ensures
        b == owns_value(config.deep_view()),
{
    match config {
        AutomationNodeConfig::HttpRequest { .. } | AutomationNodeConfig::SetVariable { .. }
        | AutomationNodeConfig::GetVariable { .. } | AutomationNodeConfig::Expression { .. }
        | AutomationNodeConfig::VariableChanged { .. } => true,
        _ => false,
    }
}

/// The block starts a flow at a moment; a window of time does not.
pub open spec fn starts_flow(c: AutomationNodeConfigModel) -> bool {
    c is ImmediateTrigger || c is CronTrigger || c is IntervalTrigger || c is DeviceEventTrigger
        || c is VariableChanged
}

/// Whether the block starts a flow at a moment.
pub fn is_forced_trigger(config: &AutomationNodeConfig) -> (b: bool)
    ensures
        b == starts_flow(config.deep_view()),
{
    match config {
        AutomationNodeConfig::ImmediateTrigger | AutomationNodeConfig::CronTrigger { .. }
        | AutomationNodeConfig::IntervalTrigger { .. } | AutomationNodeConfig::DeviceEventTrigger { .. }
        | AutomationNodeConfig::VariableChanged { .. } => true,
        _ => false,
    }
}

/// The device that a block switches, and how; none if it names none.
pub open spec fn device_deed(c: AutomationNodeConfigModel) -> Option<(Seq<char>, ScheduleAction)> {
    match c {
        AutomationNodeConfigModel::SetDevice { set_device } => if set_device.device_name.len() > 0 {
            Some((set_device.device_name, set_device.action))
        } else {
            None
        },
        AutomationNodeConfigModel::ToggleDevice { toggle_device } => if toggle_device.device_name.len() > 0 {
            Some((toggle_device.device_name, ScheduleAction::Toggle))
        } else {
            None
        },
        _ => None,
    }
}

/// The device that a block switches, and how.
pub fn device_action(config: &AutomationNodeConfig) -> (r: Option<(String, ScheduleAction)>)
    ensures
        r.deep_view() == device_deed(config.deep_view()),
{
    match config {
        AutomationNodeConfig::SetDevice { set_device } => if !set_device.device_name.as_str().is_empty() {
            Some((set_device.device_name.clone(), set_device.action))
        } else {
            None
        },
        AutomationNodeConfig::ToggleDevice { toggle_device } => if !toggle_device.device_name.as_str().is_empty() {
            Some((toggle_device.device_name.clone(), ScheduleAction::Toggle))
        } else {
            None
        },
        _ => None,
    }
}

// ---------- What a block leaves behind ----------

/// A value turns true.
pub open spec fn turns_true(before: Option<bool>, after: Option<bool>) -> bool {
    after == Some(true) && before != Some(true)
}

/// Whether a value turns true.
pub fn is_turning_true(before: Option<bool>, after: Option<bool>) -> (b: bool)
    ensures
        b == turns_true(before, after),
{
    let now_true = match after {
        Some(v) => v,
        None => false,
    };
    let was_true = match before {
        Some(v) => v,
        None => false,
    };
    now_true && !was_true
}

/// The outputs of a block with the value that it passes on among them, unless
/// it writes that output itself.
pub open spec fn exposed(
    c: AutomationNodeConfigModel,
    outputs: Seq<(Seq<char>, Seq<char>)>,
    value: Option<bool>,
) -> Seq<(Seq<char>, Seq<char>)> {
    match value {
        Some(b) => if owns_value(c) {
            outputs
        } else {
            table::put(outputs, "value"@, coerce::bool_text(b))
        },
        None => outputs,
    }
}

/// The outputs of a block with the value that it passes on among them.
pub fn expose(config: &AutomationNodeConfig, outputs: Table<String>, value: Option<bool>) -> (r: Table<String>)
    ensures
        r.deep_view() == exposed(config.deep_view(), outputs.deep_view(), value),
{
    let mut r = outputs;
    if let Some(b) = value {
        if !manages_own_value(config) {
            r.insert("value".to_owned(), show_bool(b));
        }
    }
    r
}

/// The block's state as it is kept after a tick.
pub open spec fn settled(
    c: AutomationNodeConfigModel,
    state: NodeRuntimeStateModel,
    value: Option<bool>,
) -> NodeRuntimeStateModel {
    NodeRuntimeStateModel { last_value: value, outputs: exposed(c, state.outputs, value), ..state }
}

/// The block's state as it is kept after a tick.
pub fn settle(config: &AutomationNodeConfig, state: NodeRuntimeState, value: Option<bool>) -> (r: NodeRuntimeState)
    ensures
        r.deep_view() == settled(config.deep_view(), state.deep_view(), value),
{
    NodeRuntimeState {
        last_value: value,
        last_fired_at_ms: state.last_fired_at_ms,
        last_error: state.last_error,
        last_body: state.last_body,
        last_status_code: state.last_status_code,
        outputs: expose(config, state.outputs, value),
        last_checked_at_ms: state.last_checked_at_ms,
        pending_value: state.pending_value,
        pending_since_ms: state.pending_since_ms,
    }
}

/// The stored state of a block, or that of one that has never run.
pub open spec fn state_or_fresh(t: Seq<(Seq<char>, NodeRuntimeStateModel)>, id: Seq<char>) -> NodeRuntimeStateModel {
    match table::lookup(t, id) {
        Some(s) => s,
        None => types::fresh_state(),
    }
}

/// The stored state of a block, or that of one that has never run.
pub fn stored_state(states: &Table<NodeRuntimeState>, id: &str) -> (r: NodeRuntimeState)
    ensures
        r.deep_view() == state_or_fresh(states.deep_view(), id@),
{
    match states.get(id) {
        Some(s) => s.dup(),
        None => NodeRuntimeState::fresh(),
    }
}

/// The state without what makes an edge rise: the block acts as if it had not
/// been reached yet.
pub open spec fn rearmed(s: NodeRuntimeStateModel) -> NodeRuntimeStateModel {
    NodeRuntimeStateModel {
        last_value: None,
        last_checked_at_ms: None,
        pending_value: None,
        pending_since_ms: None,
        ..s
    }
}

/// The state without what makes an edge rise.
pub fn rearm(state: NodeRuntimeState) -> (r: NodeRuntimeState)
    ensures
        r.deep_view() == rearmed(state.deep_view()),
{
    NodeRuntimeState {
        last_value: None,
        last_fired_at_ms: state.last_fired_at_ms,
        last_error: state.last_error,
        last_body: state.last_body,
        last_status_code: state.last_status_code,
        outputs: state.outputs,
        last_checked_at_ms: None,
        pending_value: None,
        pending_since_ms: None,
    }
}

// ---------- Actions ----------

/// What an action comes to.
pub enum Deed {
    /// Nothing is to be done.
    Nothing,
    /// The schedule's intent for a device is to be set.
    Intend { device_name: String, target: bool },
    /// A hook is to be sent.
    Send { hook: HookConfig },
}

/// What a `Deed` holds.
#[verifier::ext_equal]
pub enum DeedModel {
    Nothing,
    Intend { device_name: Seq<char>, target: bool },
    Send { hook: HookConfigModel },
}

impl DeepView for Deed {
    type V = DeedModel;

    open spec fn deep_view(&self) -> DeedModel {
        match self {
            Deed::Nothing => DeedModel::Nothing,
            Deed::Intend { device_name, target } => DeedModel::Intend { device_name: device_name@, target: *target },
            Deed::Send { hook } => DeedModel::Send { hook: hook.deep_view() },
        }
    }
}

/// What switching a device comes to: a toggle needs to know how it stands.
pub open spec fn switch_deed(
    device: Seq<char>,
    action: ScheduleAction,
    current: Option<bool>,
) -> Result<DeedModel, Seq<char>> {
    match (action, current) {
        (ScheduleAction::On, _) => Ok(DeedModel::Intend { device_name: device, target: true }),
        (ScheduleAction::Off, _) => Ok(DeedModel::Intend { device_name: device, target: false }),
        (ScheduleAction::Toggle, Some(on)) => Ok(DeedModel::Intend { device_name: device, target: !on }),
        (ScheduleAction::Toggle, None) => Err("toggle requested but device '"@ + device + "' has no snapshot"@),
    }
}

fn decide_switch(device: &String, action: ScheduleAction, current: Option<bool>) -> (r: Result<Deed, String>)
    ensures
        match r {
            Ok(d) => switch_deed(device@, action, current) == Ok::<DeedModel, Seq<char>>(d.deep_view()),
            Err(m) => switch_deed(device@, action, current) == Err::<DeedModel, Seq<char>>(m@),
        },
{
    let target = match action {
        ScheduleAction::On => true,
        ScheduleAction::Off => false,
        ScheduleAction::Toggle => match current {
            Some(on) => !on,
            None => {
                return Err(around("toggle requested but device '", device.as_str(), "' has no snapshot"));
            },
        },
    };
    Ok(Deed::Intend { device_name: device.clone(), target })
}

/// What an action comes to; nothing where it names nothing.
pub open spec fn deed_of(
    c: AutomationNodeConfigModel,
    devices: Seq<(Seq<char>, ManagedDeviceModel)>,
    hooks: Seq<(Seq<char>, HookConfigModel)>,
) -> Result<DeedModel, Seq<char>> {
    match device_deed(c) {
        Some((device, action)) => switch_deed(device, action, devices::device_on(devices, device)),
        None => match c {
            AutomationNodeConfigModel::FireHook { fire_hook } => if fire_hook.hook_id.len() == 0 {
                Ok(DeedModel::Nothing)
            } else {
                match table::lookup(hooks, fire_hook.hook_id) {
                    Some(hook) => Ok(DeedModel::Send { hook }),
                    None => Err("unknown hook '"@ + fire_hook.hook_id + "'"@),
                }
            },
            _ => Ok(DeedModel::Nothing),
        },
    }
}

/// What an action comes to.
pub fn execute_action(
    config: &AutomationNodeConfig,
    devices: &Table<ManagedDevice>,
    hooks: &Table<HookConfig>,
) -> (r: Result<Deed, String>)
    ensures
        match r {
            Ok(d) => deed_of(config.deep_view(), devices.deep_view(), hooks.deep_view()) == Ok::<
                DeedModel,
                Seq<char>,
            >(d.deep_view()),
            Err(m) => deed_of(config.deep_view(), devices.deep_view(), hooks.deep_view()) == Err::<
                DeedModel,
                Seq<char>,
            >(m@),
        },
{
    match device_action(config) {
        Some((device, action)) => {
            let current = current_state(devices, device.as_str());
            decide_switch(&device, action, current)
        },
        None => match config {
            AutomationNodeConfig::FireHook { fire_hook } => {
                if fire_hook.hook_id.as_str().is_empty() {
                    return Ok(Deed::Nothing);
                }
                match hooks.get(fire_hook.hook_id.as_str()) {
                    Some(hook) => Ok(Deed::Send { hook: hook.dup() }),
                    None => Err(around("unknown hook '", fire_hook.hook_id.as_str(), "'")),
                }
            },
            _ => Ok(Deed::Nothing),
        },
    }
}

/// What a hook is told that an automation sends.
pub open spec fn automation_told(now: u128) -> HookTemplateContextModel {
    HookTemplateContextModel {
        device: "automation"@,
        nickname: "Automation"@,
        model: "automation"@,
        event: HookEvent::On,
        source: HookSource::External,
        previous_on: None,
        new_on: None,
        timestamp_ms: now,
    }
}

/// What a hook is told that an automation sends.
pub fn automation_context(now: u128) -> (c: HookTemplateContext)
    ensures
        c.deep_view() == automation_told(now),
{
    HookTemplateContext {
        device: "automation".to_owned(),
        nickname: "Automation".to_owned(),
        model: "automation".to_owned(),
        event: HookEvent::On,
        source: HookSource::External,
        previous_on: None,
        new_on: None,
        timestamp_ms: now,
    }
}

// ---------- Words for blocks ----------

/// The word for what is done to a device.
pub open spec fn verb(action: ScheduleAction) -> Seq<char> {
    match action {
        ScheduleAction::On => "on"@,
        ScheduleAction::Off => "off"@,
        ScheduleAction::Toggle => "toggle"@,
    }
}

/// The word for what is done to a device.
pub fn verb_text(action: ScheduleAction) -> (s: &'static str)
    ensures
        s@ == verb(action),
{
    match action {
        ScheduleAction::On => "on",
        ScheduleAction::Off => "off",
        ScheduleAction::Toggle => "toggle",
    }
}

/// What an action would do, in words.
pub open spec fn deed_words(
    c: AutomationNodeConfigModel,
    hooks: Seq<(Seq<char>, HookConfigModel)>,
) -> Option<Seq<char>> {
    match c {
        AutomationNodeConfigModel::SetDevice { set_device } => Some(
            if set_device.device_name.len() == 0 {
                "set a device (none chosen)"@
            } else {
                "would set "@ + set_device.device_name + " "@ + verb(set_device.action)
            },
        ),
        AutomationNodeConfigModel::ToggleDevice { toggle_device } => Some(
            if toggle_device.device_name.len() == 0 {
                "toggle a device (none chosen)"@
            } else {
                "would toggle "@ + toggle_device.device_name
            },
        ),
        AutomationNodeConfigModel::FireHook { fire_hook } => Some(
            if fire_hook.hook_id.len() == 0 {
                "fire a hook (none chosen)"@
            } else {
                "would fire hook "@ + (match table::lookup(hooks, fire_hook.hook_id) {
                    Some(hook) => hook.name,
                    None => fire_hook.hook_id,
                })
            },
        ),
        _ => None,
    }
}

fn after(before: &str, inner: &str) -> (r: String)
    ensures
        r@ == before@ + inner@,
{
    let mut r = before.to_owned();
    r.append(inner);
    r
}

/// What an action would do, in words.
pub fn describe_action(config: &AutomationNodeConfig, hooks: &Table<HookConfig>) -> (r: Option<String>)
    ensures
        r.deep_view() == deed_words(config.deep_view(), hooks.deep_view()),
{
    match config {
        AutomationNodeConfig::SetDevice { set_device } => {
            if set_device.device_name.as_str().is_empty() {
                return Some("set a device (none chosen)".to_owned());
            }
            let mut s = around("would set ", set_device.device_name.as_str(), " ");
            s.append(verb_text(set_device.action));
            Some(s)
        },
        AutomationNodeConfig::ToggleDevice { toggle_device } => {
            if toggle_device.device_name.as_str().is_empty() {
                return Some("toggle a device (none chosen)".to_owned());
            }
            Some(after("would toggle ", toggle_device.device_name.as_str()))
        },
        AutomationNodeConfig::FireHook { fire_hook } => {
            if fire_hook.hook_id.as_str().is_empty() {
                return Some("fire a hook (none chosen)".to_owned());
            }
            match hooks.get(fire_hook.hook_id.as_str()) {
                Some(hook) => Some(after("would fire hook ", hook.name.as_str())),
                None => Some(after("would fire hook ", fire_hook.hook_id.as_str())),
            }
        },
        _ => None,
    }
}

/// The text without outer white space, cut to `n` characters with an ellipsis
/// behind them where it is longer.
pub open spec fn shortened(s: Seq<char>, n: int) -> Seq<char> {
    let t = text::trimmed(s);
    if t.len() > n {
        t.take(n) + "\u{2026}"@
    } else {
        t
    }
}

fn shorten(s: &str, n: usize) -> (r: String)
    ensures
        r@ == shortened(s@, n as int),
{
    let t = trim(s);
    let v = chars_of(t.as_str());
    if v.len() > n {
        let mut r = text_of(&v, 0, n);
        proof {
            assert(v@.subrange(0, n as int) =~= t@.take(n as int));
        }
        r.append("\u{2026}");
        r
    } else {
        t
    }
}

/// A short name for a block, by which blocks of one kind are told apart.
pub open spec fn title(c: AutomationNodeConfigModel) -> Seq<char> {
    match c {
        AutomationNodeConfigModel::ImmediateTrigger => "Immediate"@,
        AutomationNodeConfigModel::CronTrigger { cron_trigger } => "Cron \u{b7} "@ + cron_trigger.cron,
        AutomationNodeConfigModel::IntervalTrigger { .. } => "Interval"@,
        AutomationNodeConfigModel::DeviceEventTrigger { device_event_trigger } => if device_event_trigger.device_name.len()
            == 0 {
            "Device event"@
        } else {
            "Device \u{b7} "@ + device_event_trigger.device_name
        },
        AutomationNodeConfigModel::Between { .. } => "Between"@,
        AutomationNodeConfigModel::VariableChanged { variable_changed } => if variable_changed.key.len() == 0 {
            "Variable changed"@
        } else {
            variable_changed.key + " changed"@
        },
        AutomationNodeConfigModel::HttpProbe { .. } => "HTTP probe"@,
        AutomationNodeConfigModel::HttpRequest { http_request } => if http_request.url.len() == 0 {
            "HTTP request"@
        } else {
            "HTTP "@ + http_request.method + " "@ + shortened(http_request.url, 40)
        },
        AutomationNodeConfigModel::IfCondition { if_condition } => if text::trimmed(if_condition.expression).len() > 0 {
            "If "@ + shortened(if_condition.expression, 32)
        } else {
            "If"@
        },
        AutomationNodeConfigModel::LogicAnd => "AND"@,
        AutomationNodeConfigModel::LogicOr => "OR"@,
        AutomationNodeConfigModel::LogicNot => "NOT"@,
        AutomationNodeConfigModel::Debounce { debounce } => "Debounce "@ + text::decimal(debounce.hold_seconds as nat)
            + "s"@,
        AutomationNodeConfigModel::SetVariable { set_variable } => if set_variable.key.len() == 0 {
            "Set variable"@
        } else {
            "Set $"@ + set_variable.key
        },
        AutomationNodeConfigModel::GetVariable { get_variable } => if get_variable.key.len() == 0 {
            "Get variable"@
        } else {
            "Get $"@ + get_variable.key
        },
        AutomationNodeConfigModel::Expression { expression } => if text::trimmed(expression.expression).len() == 0 {
            "Expression"@
        } else {
            shortened(expression.expression, 36)
        },
        AutomationNodeConfigModel::SetDevice { set_device } => if set_device.device_name.len() == 0 {
            "Set device"@
        } else {
            set_device.device_name + " \u{2192} "@ + verb(set_device.action)
        },
        AutomationNodeConfigModel::ToggleDevice { toggle_device } => if toggle_device.device_name.len() == 0 {
            "Toggle device"@
        } else {
            "Toggle "@ + toggle_device.device_name
        },
        AutomationNodeConfigModel::FireHook { .. } => "Fire hook"@,
    }
}

/// A short name for a block.
pub fn node_title(config: &AutomationNodeConfig) -> (r: String)
    ensures
        r@ == title(config.deep_view()),
{
    match config {
        AutomationNodeConfig::ImmediateTrigger => "Immediate".to_owned(),
        AutomationNodeConfig::CronTrigger { cron_trigger } => after("Cron \u{b7} ", cron_trigger.cron.as_str()),
        AutomationNodeConfig::IntervalTrigger { .. } => "Interval".to_owned(),
        AutomationNodeConfig::DeviceEventTrigger { device_event_trigger } => {
            if device_event_trigger.device_name.as_str().is_empty() {
                "Device event".to_owned()
            } else {
                after("Device \u{b7} ", device_event_trigger.device_name.as_str())
            }
        },
        AutomationNodeConfig::Between { .. } => "Between".to_owned(),
        AutomationNodeConfig::VariableChanged { variable_changed } => {
            if variable_changed.key.as_str().is_empty() {
                "Variable changed".to_owned()
            } else {
                after(variable_changed.key.as_str(), " changed")
            }
        },
        AutomationNodeConfig::HttpProbe { .. } => "HTTP probe".to_owned(),
        AutomationNodeConfig::HttpRequest { http_request } => {
            if http_request.url.as_str().is_empty() {
                "HTTP request".to_owned()
            } else {
                let mut s = around("HTTP ", http_request.method.as_str(), " ");
                s.append(shorten(http_request.url.as_str(), 40).as_str());
                s
            }
        },
        AutomationNodeConfig::IfCondition { if_condition } => {
            if !trim(if_condition.expression.as_str()).as_str().is_empty() {
                after("If ", shorten(if_condition.expression.as_str(), 32).as_str())
            } else {
                "If".to_owned()
            }
        },
        AutomationNodeConfig::LogicAnd => "AND".to_owned(),
        AutomationNodeConfig::LogicOr => "OR".to_owned(),
        AutomationNodeConfig::LogicNot => "NOT".to_owned(),
        AutomationNodeConfig::Debounce { debounce } => around(
            "Debounce ",
            decimal_text(debounce.hold_seconds as u128).as_str(),
            "s",
        ),
        AutomationNodeConfig::SetVariable { set_variable } => {
            if set_variable.key.as_str().is_empty() {
                "Set variable".to_owned()
            } else {
                after("Set $", set_variable.key.as_str())
            }
        },
        AutomationNodeConfig::GetVariable { get_variable } => {
            if get_variable.key.as_str().is_empty() {
                "Get variable".to_owned()
            } else {
                after("Get $", get_variable.key.as_str())
            }
        },
        AutomationNodeConfig::Expression { expression } => {
            if trim(expression.expression.as_str()).as_str().is_empty() {
                "Expression".to_owned()
            } else {
                shorten(expression.expression.as_str(), 36)
            }
        },
        AutomationNodeConfig::SetDevice { set_device } => {
            if set_device.device_name.as_str().is_empty() {
                "Set device".to_owned()
            } else {
                around(set_device.device_name.as_str(), " \u{2192} ", verb_text(set_device.action))
            }
        },
        AutomationNodeConfig::ToggleDevice { toggle_device } => {
            if toggle_device.device_name.as_str().is_empty() {
                "Toggle device".to_owned()
            } else {
                after("Toggle ", toggle_device.device_name.as_str())
            }
        },
        AutomationNodeConfig::FireHook { .. } => "Fire hook".to_owned(),
    }
}

/// An edge brings what the block before it came to, turned round where it
/// leaves by the `no` socket, and nothing where that block came to nothing or
/// has not run. A block gets one input for each edge that leads into it, in
/// the order of the edges.
pub proof fn edges_bring_what_they_carry(
    edges: Seq<AutomationEdgeModel>,
    e: AutomationEdgeModel,
    id: Seq<char>,
    outputs: Seq<(Seq<char>, Option<bool>)>,
    b: bool,
)
    ensures
        inputs_of(Seq::empty(), id, outputs).len() == 0,
        e.target_node != id ==> inputs_of(edges.push(e), id, outputs) == inputs_of(edges, id, outputs),
        e.target_node == id ==> {
            let all = inputs_of(edges.push(e), id, outputs);
            &&& all.drop_last() == inputs_of(edges, id, outputs)
            &&& all.len() == inputs_of(edges, id, outputs).len() + 1
            &&& all.last().source_node == e.source_node
            &&& table::lookup(outputs, e.source_node) == Some(Some(b)) && e.source_socket != "no"@ ==> all.last().value
                == Some(b)
            &&& table::lookup(outputs, e.source_node) == Some(Some(b)) && e.source_socket == "no"@ ==> all.last().value
                == Some(!b)
            &&& table::lookup(outputs, e.source_node) == Some(None::<bool>) || table::lookup(outputs, e.source_node)
                is None ==> all.last().value is None
        },
{
    reveal(Seq::filter);
    let all = edges.push(e);
    assert(all.drop_last() =~= edges);
    assert(Seq::<AutomationEdgeModel>::empty().filter(leads_into(id)) =~= Seq::empty());
    assert(inputs_of(Seq::empty(), id, outputs) =~= Seq::empty());
    if e.target_node == id {
        assert(all.filter(leads_into(id)) =~= edges.filter(leads_into(id)).push(e));
        assert(inputs_of(all, id, outputs).drop_last() =~= inputs_of(edges, id, outputs));
    } else {
        assert(all.filter(leads_into(id)) =~= edges.filter(leads_into(id)));
    }
}

/// A value turns true where it is true and was not: never from true, and never
/// to false or to nothing.
pub proof fn turning_true_is_a_rise(before: Option<bool>, after: Option<bool>)
    ensures
        turns_true(None, Some(true)),
        turns_true(Some(false), Some(true)),
        !turns_true(Some(true), after),
        !turns_true(before, Some(false)),
        !turns_true(before, None),
{
}

/// A block that turns a device on intends it on, one that turns it off intends
/// it off; one that toggles it intends the opposite of what was last seen, and
/// fails where nothing was seen. A block that names no device does nothing.
pub proof fn deeds_are_what_blocks_say(
    device: Seq<char>,
    action: ScheduleAction,
    devices: Seq<(Seq<char>, ManagedDeviceModel)>,
    hooks: Seq<(Seq<char>, HookConfigModel)>,
)
    requires
        device.len() > 0,
    ensures
        ({
            let set = deed_of(
                AutomationNodeConfigModel::SetDevice { set_device: SetDeviceCfgModel { device_name: device, action } },
                devices,
                hooks,
            );
            let toggle = deed_of(
                AutomationNodeConfigModel::ToggleDevice { toggle_device: ToggleDeviceCfgModel { device_name: device } },
                devices,
                hooks,
            );
            let seen = match table::lookup(devices, device) {
                Some(d) => match d.snapshot {
                    Some(s) => Some(s.device_on),
                    None => None,
                },
                None => None,
            };
            &&& action is On ==> set == Ok::<DeedModel, Seq<char>>(
                DeedModel::Intend { device_name: device, target: true },
            )
            &&& action is Off ==> set == Ok::<DeedModel, Seq<char>>(
                DeedModel::Intend { device_name: device, target: false },
            )
            &&& seen matches Some(on) ==> toggle == Ok::<DeedModel, Seq<char>>(
                DeedModel::Intend { device_name: device, target: !on },
            )
            &&& seen is None ==> toggle is Err
            &&& action is Toggle ==> set == toggle
        }),
        deed_of(
            AutomationNodeConfigModel::SetDevice {
                set_device: SetDeviceCfgModel { device_name: Seq::empty(), action },
            },
            devices,
            hooks,
        ) == Ok::<DeedModel, Seq<char>>(DeedModel::Nothing),
{
}

/// A block that fires a hook sends the hook of that id, fails where there is
/// none of that id, and does nothing where it names none.
pub proof fn hooks_are_fired_by_id(
    id: Seq<char>,
    devices: Seq<(Seq<char>, ManagedDeviceModel)>,
    hooks: Seq<(Seq<char>, HookConfigModel)>,
)
    ensures
        ({
            let deed = deed_of(
                AutomationNodeConfigModel::FireHook { fire_hook: FireHookCfgModel { hook_id: id } },
                devices,
                hooks,
            );
            &&& id.len() == 0 ==> deed == Ok::<DeedModel, Seq<char>>(DeedModel::Nothing)
            &&& id.len() > 0 ==> (table::lookup(hooks, id) matches Some(hook) ==> deed == Ok::<DeedModel, Seq<char>>(
                DeedModel::Send { hook },
            ))
            &&& id.len() > 0 && table::lookup(hooks, id) is None ==> deed is Err
        }),
{
}

/// What a block came to is kept as its last value; where the block has no value
/// of its own to show, its `value` output says it in a word.
pub proof fn blocks_keep_what_they_came_to(
    c: AutomationNodeConfigModel,
    state: NodeRuntimeStateModel,
    value: Option<bool>,
    name: Seq<char>,
)
    ensures
        settled(c, state, value).last_value == value,
        settled(c, state, value).last_error == state.last_error,
        settled(c, state, value).pending_value == state.pending_value,
        !owns_value(c) && value == Some(true) ==> table::lookup(settled(c, state, value).outputs, "value"@) == Some(
            "true"@,
        ),
        !owns_value(c) && value == Some(false) ==> table::lookup(settled(c, state, value).outputs, "value"@) == Some(
            "false"@,
        ),
        name != "value"@ ==> table::lookup(settled(c, state, value).outputs, name) == table::lookup(state.outputs, name),
        owns_value(c) || value is None ==> settled(c, state, value).outputs == state.outputs,
        owns_value(c) <==> c is HttpRequest || c is SetVariable || c is GetVariable || c is Expression
            || c is VariableChanged,
        is_action(c) <==> c is SetDevice || c is ToggleDevice || c is FireHook,
        starts_flow(c) <==> c is ImmediateTrigger || c is CronTrigger || c is IntervalTrigger || c is DeviceEventTrigger
            || c is VariableChanged,
{
    if let Some(b) = value {
        table::put_then_lookup(state.outputs, "value"@, coerce::bool_text(b), name);
    }
}

/// A block that is armed anew forgets what it came to and what was pending, as
/// if it had not run, and keeps the rest; one without a state is as good as
/// new.
pub proof fn arming_anew_forgets(
    t: Seq<(Seq<char>, NodeRuntimeStateModel)>,
    id: Seq<char>,
    s: NodeRuntimeStateModel,
)
    ensures
        rearmed(s).last_value is None,
        rearmed(s).last_checked_at_ms is None,
        rearmed(s).pending_value is None,
        rearmed(s).pending_since_ms is None,
        rearmed(s).outputs == s.outputs,
        rearmed(s).last_fired_at_ms == s.last_fired_at_ms,
        rearmed(s).last_body == s.last_body,
        table::lookup(t, id) matches Some(kept) ==> state_or_fresh(t, id) == kept,
        table::lookup(t, id) is None ==> state_or_fresh(t, id).last_value is None && state_or_fresh(t, id).outputs.len()
            == 0 && state_or_fresh(t, id).last_fired_at_ms is None,
{
}

/// The block of an id is the first with that id.
pub proof fn blocks_are_found_by_id(nodes: Seq<AutomationNodeModel>, id: Seq<char>, i: int)
    requires
        0 <= i < nodes.len(),
        nodes[i].id == id,
        forall|j: int| 0 <= j < i ==> (#[trigger] nodes[j]).id != id,
    ensures
        node_from(nodes, id, 0) == Some(nodes[i]),
{
    block_is_found_from(nodes, id, i, 0);
}

proof fn block_is_found_from(nodes: Seq<AutomationNodeModel>, id: Seq<char>, i: int, from: int)
    requires
        0 <= from <= i < nodes.len(),
        nodes[i].id == id,
        forall|j: int| 0 <= j < i ==> (#[trigger] nodes[j]).id != id,
    ensures
        node_from(nodes, id, from) == Some(nodes[i]),
    decreases i - from,
{
    if from < i {
        block_is_found_from(nodes, id, i, from + 1);
    }
}

/// What a trial says of a deed names the device or the hook, and what would be
/// done to it.
pub proof fn deeds_are_told_in_words(
    device: Seq<char>,
    action: ScheduleAction,
    hook_id: Seq<char>,
    hooks: Seq<(Seq<char>, HookConfigModel)>,
)
    requires
        device.len() > 0,
        hook_id.len() > 0,
    ensures
        deed_words(
            AutomationNodeConfigModel::SetDevice { set_device: SetDeviceCfgModel { device_name: device, action } },
            hooks,
        ) == Some(
            "would set "@ + device + " "@ + (if action is On {
                "on"@
            } else if action is Off {
                "off"@
            } else {
                "toggle"@
            }),
        ),
        deed_words(
            AutomationNodeConfigModel::ToggleDevice { toggle_device: ToggleDeviceCfgModel { device_name: device } },
            hooks,
        ) == Some("would toggle "@ + device),
        table::lookup(hooks, hook_id) matches Some(hook) ==> deed_words(
            AutomationNodeConfigModel::FireHook { fire_hook: FireHookCfgModel { hook_id } },
            hooks,
        ) == Some("would fire hook "@ + hook.name),
        table::lookup(hooks, hook_id) is None ==> deed_words(
            AutomationNodeConfigModel::FireHook { fire_hook: FireHookCfgModel { hook_id } },
            hooks,
        ) == Some("would fire hook "@ + hook_id),
        deed_words(AutomationNodeConfigModel::LogicAnd, hooks) is None,
{
}

/// A text is cut short to so many characters and a sign that there were more;
/// a shorter one stands whole, without the space round it.
pub proof fn long_texts_are_cut_short(s: Seq<char>, n: nat)
    ensures
        shortened(s, n as int).len() <= n + 1,
        text::trimmed(s).len() <= n ==> shortened(s, n as int) == text::trimmed(s),
        text::trimmed(s).len() > n ==> shortened(s, n as int).take(n as int) == text::trimmed(s).take(n as int)
            && shortened(s, n as int).last() == '\u{2026}',
{
    reveal_strlit("\u{2026}");
    if text::trimmed(s).len() > n {
        assert(shortened(s, n as int).take(n as int) =~= text::trimmed(s).take(n as int));
    }
}

/// The title of a block tells what it is and, where it has one, what it is about:
/// a device and what is done to it, a variable, a calendar, a URL.
pub proof fn titles_tell_what_blocks_are_about(device: Seq<char>, key: Seq<char>, seconds: u64)
    requires
        device.len() > 0,
        key.len() > 0,
    ensures
        title(
            AutomationNodeConfigModel::SetDevice {
                set_device: SetDeviceCfgModel { device_name: device, action: ScheduleAction::On },
            },
        ) == device + " \u{2192} "@ + "on"@,
        title(
            AutomationNodeConfigModel::SetDevice {
                set_device: SetDeviceCfgModel { device_name: device, action: ScheduleAction::Off },
            },
        ) == device + " \u{2192} "@ + "off"@,
        title(
            AutomationNodeConfigModel::ToggleDevice { toggle_device: ToggleDeviceCfgModel { device_name: device } },
        ) == "Toggle "@ + device,
        title(AutomationNodeConfigModel::LogicAnd) == "AND"@,
        title(AutomationNodeConfigModel::LogicOr) == "OR"@,
        title(AutomationNodeConfigModel::LogicNot) == "NOT"@,
        title(AutomationNodeConfigModel::ImmediateTrigger) == "Immediate"@,
        title(AutomationNodeConfigModel::Debounce { debounce: DebounceCfg { hold_seconds: seconds } }) == "Debounce "@
            + text::decimal(seconds as nat) + "s"@,
        title(AutomationNodeConfigModel::SetVariable {
            set_variable: SetVariableCfgModel { key, expression: Seq::empty() },
        }) == "Set $"@ + key,
        title(AutomationNodeConfigModel::GetVariable { get_variable: GetVariableCfgModel { key } }) == "Get $"@ + key,
        title(AutomationNodeConfigModel::CronTrigger { cron_trigger: CronTriggerCfgModel { cron: key } })
            == "Cron \u{b7} "@ + key,
        title(AutomationNodeConfigModel::VariableChanged { variable_changed: VariableChangedCfgModel { key } }) == key
            + " changed"@,
{
}

/// A hook that an automation fires is told that it was set off by an automation,
/// and when, and of no state of a device.
pub proof fn automations_tell_hooks_of_themselves(now: u128)
    ensures
        automation_told(now).device == "automation"@,
        automation_told(now).event is On,
        automation_told(now).source is External,
        automation_told(now).previous_on is None,
        automation_told(now).new_on is None,
        automation_told(now).timestamp_ms == now,
{
}

} // verus!
