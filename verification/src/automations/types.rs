//! The blocks, edges and runtime state of automations.

use vstd::prelude::*;
use vstd::string::*;

use crate::actions::{HookEvent, ScheduleAction};
use crate::dup::Dup;
use crate::table::Table;
use crate::value::{Value, ValueModel};

verus! {

/// Fires at the times of a cron expression.
pub struct CronTriggerCfg {
    pub cron: String,
}

/// The contents of `CronTriggerCfg`.
#[verifier::ext_equal]
pub struct CronTriggerCfgModel {
    pub cron: Seq<char>,
}

impl DeepView for CronTriggerCfg {
    type V = CronTriggerCfgModel;

    open spec fn deep_view(&self) -> CronTriggerCfgModel {
        CronTriggerCfgModel {
            cron: self.cron.deep_view(),
        }
    }
}

impl Dup for CronTriggerCfg {
    fn dup(&self) -> (r: Self) {
        CronTriggerCfg {
            cron: self.cron.dup(),
        }
    }
}

/// Is active for a while and then inactive for a while, over and over.
#[derive(Debug, Clone, Copy, PartialEq, Eq, Structural)]
pub struct IntervalTriggerCfg {
    pub on_seconds: u64,
    pub off_seconds: u64,
    pub start_action: ScheduleAction,
    pub starts_at_ms: Option<u128>,
}

impl DeepView for IntervalTriggerCfg {
    type V = IntervalTriggerCfg;

    open spec fn deep_view(&self) -> IntervalTriggerCfg {
        *self
    }
}

impl Dup for IntervalTriggerCfg {
    fn dup(&self) -> (r: Self) {
        *self
    }
}

/// Follows the state of a device.
pub struct DeviceEventTriggerCfg {
    pub device_name: String,
    pub event: HookEvent,
}

/// The contents of `DeviceEventTriggerCfg`.
#[verifier::ext_equal]
pub struct DeviceEventTriggerCfgModel {
    pub device_name: Seq<char>,
    pub event: HookEvent,
}

impl DeepView for DeviceEventTriggerCfg {
    type V = DeviceEventTriggerCfgModel;

    open spec fn deep_view(&self) -> DeviceEventTriggerCfgModel {
        DeviceEventTriggerCfgModel {
            device_name: self.device_name.deep_view(),
            event: self.event.deep_view(),
        }
    }
}

impl Dup for DeviceEventTriggerCfg {
    fn dup(&self) -> (r: Self) {
        DeviceEventTriggerCfg {
            device_name: self.device_name.dup(),
            event: self.event.dup(),
        }
    }
}

/// A window of the day, on some days of the week.
pub struct BetweenWindow {
    /// The days of the week, Sunday being zero; empty for every day.
    pub days: Vec<u8>,
    pub start: String,
    pub end: String,
}

/// The contents of `BetweenWindow`.
#[verifier::ext_equal]
pub struct BetweenWindowModel {
    pub days: Seq<u8>,
    pub start: Seq<char>,
    pub end: Seq<char>,
}

impl DeepView for BetweenWindow {
    type V = BetweenWindowModel;

    open spec fn deep_view(&self) -> BetweenWindowModel {
        BetweenWindowModel {
            days: self.days.deep_view(),
            start: self.start.deep_view(),
            end: self.end.deep_view(),
        }
    }
}

impl Dup for BetweenWindow {
    fn dup(&self) -> (r: Self) {
        BetweenWindow {
            days: self.days.dup(),
            start: self.start.dup(),
            end: self.end.dup(),
        }
    }
}

/// Is active inside windows of the day.
pub struct BetweenCfg {
    pub windows: Vec<BetweenWindow>,
    /// The start of a single window on every day, read where there is no list.
    pub start: String,
    /// The end of that window.
    pub end: String,
}

/// The contents of `BetweenCfg`.
#[verifier::ext_equal]
pub struct BetweenCfgModel {
    pub windows: Seq<BetweenWindowModel>,
    pub start: Seq<char>,
    pub end: Seq<char>,
}

impl DeepView for BetweenCfg {
    type V = BetweenCfgModel;

    open spec fn deep_view(&self) -> BetweenCfgModel {
        BetweenCfgModel {
            windows: self.windows.deep_view(),
            start: self.start.deep_view(),
            end: self.end.deep_view(),
        }
    }
}

impl Dup for BetweenCfg {
    fn dup(&self) -> (r: Self) {
        BetweenCfg {
            windows: self.windows.dup(),
            start: self.start.dup(),
            end: self.end.dup(),
        }
    }
}

/// Fires when a variable has changed.
pub struct VariableChangedCfg {
    pub key: String,
}

/// The contents of `VariableChangedCfg`.
#[verifier::ext_equal]
pub struct VariableChangedCfgModel {
    pub key: Seq<char>,
}

impl DeepView for VariableChangedCfg {
    type V = VariableChangedCfgModel;

    open spec fn deep_view(&self) -> VariableChangedCfgModel {
        VariableChangedCfgModel {
            key: self.key.deep_view(),
        }
    }
}

impl Dup for VariableChangedCfg {
    fn dup(&self) -> (r: Self) {
        VariableChangedCfg {
            key: self.key.dup(),
        }
    }
}

/// A polled request. Kept so that old graphs can be read; new ones do not hold it.
pub struct HttpProbeCfg {
    pub url: String,
    pub method: String,
    pub headers: Table<String>,
    pub body: Option<String>,
    pub status_match: String,
    pub body_contains: Option<String>,
    pub poll_seconds: u64,
    pub min_stable_seconds: u64,
}

/// The contents of `HttpProbeCfg`.
#[verifier::ext_equal]
pub struct HttpProbeCfgModel {
    pub url: Seq<char>,
    pub method: Seq<char>,
    pub headers: Seq<(Seq<char>, Seq<char>)>,
    pub body: Option<Seq<char>>,
    pub status_match: Seq<char>,
    pub body_contains: Option<Seq<char>>,
    pub poll_seconds: u64,
    pub min_stable_seconds: u64,
}

impl DeepView for HttpProbeCfg {
    type V = HttpProbeCfgModel;

    open spec fn deep_view(&self) -> HttpProbeCfgModel {
        HttpProbeCfgModel {
            url: self.url.deep_view(),
            method: self.method.deep_view(),
            headers: self.headers.deep_view(),
            body: self.body.deep_view(),
            status_match: self.status_match.deep_view(),
            body_contains: self.body_contains.deep_view(),
            poll_seconds: self.poll_seconds.deep_view(),
            min_stable_seconds: self.min_stable_seconds.deep_view(),
        }
    }
}

impl Dup for HttpProbeCfg {
    fn dup(&self) -> (r: Self) {
        HttpProbeCfg {
            url: self.url.dup(),
            method: self.method.dup(),
            headers: self.headers.dup(),
            body: self.body.dup(),
            status_match: self.status_match.dup(),
            body_contains: self.body_contains.dup(),
            poll_seconds: self.poll_seconds.dup(),
            min_stable_seconds: self.min_stable_seconds.dup(),
        }
    }
}

/// One request for each input pulse.
pub struct HttpRequestCfg {
    pub url: String,
    pub method: String,
    pub headers: Table<String>,
    pub body: Option<String>,
    pub status_match: String,
}

/// The contents of `HttpRequestCfg`.
#[verifier::ext_equal]
pub struct HttpRequestCfgModel {
    pub url: Seq<char>,
    pub method: Seq<char>,
    pub headers: Seq<(Seq<char>, Seq<char>)>,
    pub body: Option<Seq<char>>,
    pub status_match: Seq<char>,
}

impl DeepView for HttpRequestCfg {
    type V = HttpRequestCfgModel;

    open spec fn deep_view(&self) -> HttpRequestCfgModel {
        HttpRequestCfgModel {
            url: self.url.deep_view(),
            method: self.method.deep_view(),
            headers: self.headers.deep_view(),
            body: self.body.deep_view(),
            status_match: self.status_match.deep_view(),
        }
    }
}

impl Dup for HttpRequestCfg {
    fn dup(&self) -> (r: Self) {
        HttpRequestCfg {
            url: self.url.dup(),
            method: self.method.dup(),
            headers: self.headers.dup(),
            body: self.body.dup(),
            status_match: self.status_match.dup(),
        }
    }
}

/// How an if block checks its field.
#[derive(Debug, Clone, Copy, PartialEq, Eq, Structural)]
pub enum IfOp {
    /// The field is the text `true`.
    IsTrue,
    /// The field equals the value, both trimmed.
    Equals,
    /// The field contains the value.
    Contains,
    /// The field, a whole number, is in the ranges of the value.
    InRange,
    Gt,
    Gte,
    Lt,
    Lte,
}

impl DeepView for IfOp {
    type V = IfOp;

    open spec fn deep_view(&self) -> IfOp {
        *self
    }
}

impl Dup for IfOp {
    fn dup(&self) -> (r: Self) {
        *self
    }
}

/// Routes a pulse by a check.
pub struct IfConditionCfg {
    /// `device:NAME`, `$variable`, or an output of the upstream block.
    pub field: String,
    pub op: IfOp,
    pub value: String,
    /// An expression in place of the check; read where it is not blank.
    pub expression: String,
    /// The check as old graphs wrote it.
    pub check: Option<String>,
}

/// The contents of `IfConditionCfg`.
#[verifier::ext_equal]
pub struct IfConditionCfgModel {
    pub field: Seq<char>,
    pub op: IfOp,
    pub value: Seq<char>,
    pub expression: Seq<char>,
    pub check: Option<Seq<char>>,
}

impl DeepView for IfConditionCfg {
    type V = IfConditionCfgModel;

    open spec fn deep_view(&self) -> IfConditionCfgModel {
        IfConditionCfgModel {
            field: self.field.deep_view(),
            op: self.op.deep_view(),
            value: self.value.deep_view(),
            expression: self.expression.deep_view(),
            check: self.check.deep_view(),
        }
    }
}

impl Dup for IfConditionCfg {
    fn dup(&self) -> (r: Self) {
        IfConditionCfg {
            field: self.field.dup(),
            op: self.op.dup(),
            value: self.value.dup(),
            expression: self.expression.dup(),
            check: self.check.dup(),
        }
    }
}

/// Passes a value on once it has held for a while.
#[derive(Debug, Clone, Copy, PartialEq, Eq, Structural)]
pub struct DebounceCfg {
    pub hold_seconds: u64,
}

impl DeepView for DebounceCfg {
    type V = DebounceCfg;

    open spec fn deep_view(&self) -> DebounceCfg {
        *self
    }
}

impl Dup for DebounceCfg {
    fn dup(&self) -> (r: Self) {
        *self
    }
}

/// Evaluates an expression.
pub struct ExpressionCfg {
    pub expression: String,
}

/// The contents of `ExpressionCfg`.
#[verifier::ext_equal]
pub struct ExpressionCfgModel {
    pub expression: Seq<char>,
}

impl DeepView for ExpressionCfg {
    type V = ExpressionCfgModel;

    open spec fn deep_view(&self) -> ExpressionCfgModel {
        ExpressionCfgModel {
            expression: self.expression.deep_view(),
        }
    }
}

impl Dup for ExpressionCfg {
    fn dup(&self) -> (r: Self) {
        ExpressionCfg {
            expression: self.expression.dup(),
        }
    }
}

/// Stores the value of an expression in a variable.
pub struct SetVariableCfg {
    pub key: String,
    pub expression: String,
}

/// The contents of `SetVariableCfg`.
#[verifier::ext_equal]
pub struct SetVariableCfgModel {
    pub key: Seq<char>,
    pub expression: Seq<char>,
}

impl DeepView for SetVariableCfg {
    type V = SetVariableCfgModel;

    open spec fn deep_view(&self) -> SetVariableCfgModel {
        SetVariableCfgModel {
            key: self.key.deep_view(),
            expression: self.expression.deep_view(),
        }
    }
}

impl Dup for SetVariableCfg {
    fn dup(&self) -> (r: Self) {
        SetVariableCfg {
            key: self.key.dup(),
            expression: self.expression.dup(),
        }
    }
}

/// Exposes a variable.
pub struct GetVariableCfg {
    pub key: String,
}

/// The contents of `GetVariableCfg`.
#[verifier::ext_equal]
pub struct GetVariableCfgModel {
    pub key: Seq<char>,
}

impl DeepView for GetVariableCfg {
    type V = GetVariableCfgModel;

    open spec fn deep_view(&self) -> GetVariableCfgModel {
        GetVariableCfgModel {
            key: self.key.deep_view(),
        }
    }
}

impl Dup for GetVariableCfg {
    fn dup(&self) -> (r: Self) {
        GetVariableCfg {
            key: self.key.dup(),
        }
    }
}

/// Switches a device.
pub struct SetDeviceCfg {
    pub device_name: String,
    pub action: ScheduleAction,
}

/// The contents of `SetDeviceCfg`.
#[verifier::ext_equal]
pub struct SetDeviceCfgModel {
    pub device_name: Seq<char>,
    pub action: ScheduleAction,
}

impl DeepView for SetDeviceCfg {
    type V = SetDeviceCfgModel;

    open spec fn deep_view(&self) -> SetDeviceCfgModel {
        SetDeviceCfgModel {
            device_name: self.device_name.deep_view(),
            action: self.action.deep_view(),
        }
    }
}

impl Dup for SetDeviceCfg {
    fn dup(&self) -> (r: Self) {
        SetDeviceCfg {
            device_name: self.device_name.dup(),
            action: self.action.dup(),
        }
    }
}

/// Toggles a device.
pub struct ToggleDeviceCfg {
    pub device_name: String,
}

/// The contents of `ToggleDeviceCfg`.
#[verifier::ext_equal]
pub struct ToggleDeviceCfgModel {
    pub device_name: Seq<char>,
}

impl DeepView for ToggleDeviceCfg {
    type V = ToggleDeviceCfgModel;

    open spec fn deep_view(&self) -> ToggleDeviceCfgModel {
        ToggleDeviceCfgModel {
            device_name: self.device_name.deep_view(),
        }
    }
}

impl Dup for ToggleDeviceCfg {
    fn dup(&self) -> (r: Self) {
        ToggleDeviceCfg {
            device_name: self.device_name.dup(),
        }
    }
}

/// Fires a hook.
pub struct FireHookCfg {
    pub hook_id: String,
}

/// The contents of `FireHookCfg`.
#[verifier::ext_equal]
pub struct FireHookCfgModel {
    pub hook_id: Seq<char>,
}

impl DeepView for FireHookCfg {
    type V = FireHookCfgModel;

    open spec fn deep_view(&self) -> FireHookCfgModel {
        FireHookCfgModel {
            hook_id: self.hook_id.deep_view(),
        }
    }
}

impl Dup for FireHookCfg {
    fn dup(&self) -> (r: Self) {
        FireHookCfg {
            hook_id: self.hook_id.dup(),
        }
    }
}

/// What a block does.
pub enum AutomationNodeConfig {
    /// Fires once at startup.
    ImmediateTrigger,
    CronTrigger { cron_trigger: CronTriggerCfg },
    IntervalTrigger { interval_trigger: IntervalTriggerCfg },
    DeviceEventTrigger { device_event_trigger: DeviceEventTriggerCfg },
    Between { between: BetweenCfg },
    VariableChanged { variable_changed: VariableChangedCfg },
    HttpProbe { http_probe: HttpProbeCfg },
    HttpRequest { http_request: HttpRequestCfg },
    LogicAnd,
    LogicOr,
    LogicNot,
    IfCondition { if_condition: IfConditionCfg },
    Debounce { debounce: DebounceCfg },
    Expression { expression: ExpressionCfg },
    SetVariable { set_variable: SetVariableCfg },
    GetVariable { get_variable: GetVariableCfg },
    SetDevice { set_device: SetDeviceCfg },
    ToggleDevice { toggle_device: ToggleDeviceCfg },
    FireHook { fire_hook: FireHookCfg },
}

/// The contents of `AutomationNodeConfig`.
#[verifier::ext_equal]
pub enum AutomationNodeConfigModel {
    ImmediateTrigger,
    CronTrigger { cron_trigger: CronTriggerCfgModel },
    IntervalTrigger { interval_trigger: IntervalTriggerCfg },
    DeviceEventTrigger { device_event_trigger: DeviceEventTriggerCfgModel },
    Between { between: BetweenCfgModel },
    VariableChanged { variable_changed: VariableChangedCfgModel },
    HttpProbe { http_probe: HttpProbeCfgModel },
    HttpRequest { http_request: HttpRequestCfgModel },
    LogicAnd,
    LogicOr,
    LogicNot,
    IfCondition { if_condition: IfConditionCfgModel },
    Debounce { debounce: DebounceCfg },
    Expression { expression: ExpressionCfgModel },
    SetVariable { set_variable: SetVariableCfgModel },
    GetVariable { get_variable: GetVariableCfgModel },
    SetDevice { set_device: SetDeviceCfgModel },
    ToggleDevice { toggle_device: ToggleDeviceCfgModel },
    FireHook { fire_hook: FireHookCfgModel },
}

impl DeepView for AutomationNodeConfig {
    type V = AutomationNodeConfigModel;

    open spec fn deep_view(&self) -> AutomationNodeConfigModel {
        match self {
            AutomationNodeConfig::ImmediateTrigger => AutomationNodeConfigModel::ImmediateTrigger,
            AutomationNodeConfig::CronTrigger { cron_trigger } => AutomationNodeConfigModel::CronTrigger { cron_trigger: cron_trigger.deep_view() },
            AutomationNodeConfig::IntervalTrigger { interval_trigger } => AutomationNodeConfigModel::IntervalTrigger { interval_trigger: interval_trigger.deep_view() },
            AutomationNodeConfig::DeviceEventTrigger { device_event_trigger } => AutomationNodeConfigModel::DeviceEventTrigger { device_event_trigger: device_event_trigger.deep_view() },
            AutomationNodeConfig::Between { between } => AutomationNodeConfigModel::Between { between: between.deep_view() },
            AutomationNodeConfig::VariableChanged { variable_changed } => AutomationNodeConfigModel::VariableChanged { variable_changed: variable_changed.deep_view() },
            AutomationNodeConfig::HttpProbe { http_probe } => AutomationNodeConfigModel::HttpProbe { http_probe: http_probe.deep_view() },
            AutomationNodeConfig::HttpRequest { http_request } => AutomationNodeConfigModel::HttpRequest { http_request: http_request.deep_view() },
            AutomationNodeConfig::LogicAnd => AutomationNodeConfigModel::LogicAnd,
            AutomationNodeConfig::LogicOr => AutomationNodeConfigModel::LogicOr,
            AutomationNodeConfig::LogicNot => AutomationNodeConfigModel::LogicNot,
            AutomationNodeConfig::IfCondition { if_condition } => AutomationNodeConfigModel::IfCondition { if_condition: if_condition.deep_view() },
            AutomationNodeConfig::Debounce { debounce } => AutomationNodeConfigModel::Debounce { debounce: debounce.deep_view() },
            AutomationNodeConfig::Expression { expression } => AutomationNodeConfigModel::Expression { expression: expression.deep_view() },
            AutomationNodeConfig::SetVariable { set_variable } => AutomationNodeConfigModel::SetVariable { set_variable: set_variable.deep_view() },
            AutomationNodeConfig::GetVariable { get_variable } => AutomationNodeConfigModel::GetVariable { get_variable: get_variable.deep_view() },
            AutomationNodeConfig::SetDevice { set_device } => AutomationNodeConfigModel::SetDevice { set_device: set_device.deep_view() },
            AutomationNodeConfig::ToggleDevice { toggle_device } => AutomationNodeConfigModel::ToggleDevice { toggle_device: toggle_device.deep_view() },
            AutomationNodeConfig::FireHook { fire_hook } => AutomationNodeConfigModel::FireHook { fire_hook: fire_hook.deep_view() },
        }
    }
}

impl Dup for AutomationNodeConfig {
    fn dup(&self) -> (r: Self) {
        match self {
            AutomationNodeConfig::ImmediateTrigger => AutomationNodeConfig::ImmediateTrigger,
            AutomationNodeConfig::CronTrigger { cron_trigger } => AutomationNodeConfig::CronTrigger { cron_trigger: cron_trigger.dup() },
            AutomationNodeConfig::IntervalTrigger { interval_trigger } => AutomationNodeConfig::IntervalTrigger { interval_trigger: interval_trigger.dup() },
            AutomationNodeConfig::DeviceEventTrigger { device_event_trigger } => AutomationNodeConfig::DeviceEventTrigger { device_event_trigger: device_event_trigger.dup() },
            AutomationNodeConfig::Between { between } => AutomationNodeConfig::Between { between: between.dup() },
            AutomationNodeConfig::VariableChanged { variable_changed } => AutomationNodeConfig::VariableChanged { variable_changed: variable_changed.dup() },
            AutomationNodeConfig::HttpProbe { http_probe } => AutomationNodeConfig::HttpProbe { http_probe: http_probe.dup() },
            AutomationNodeConfig::HttpRequest { http_request } => AutomationNodeConfig::HttpRequest { http_request: http_request.dup() },
            AutomationNodeConfig::LogicAnd => AutomationNodeConfig::LogicAnd,
            AutomationNodeConfig::LogicOr => AutomationNodeConfig::LogicOr,
            AutomationNodeConfig::LogicNot => AutomationNodeConfig::LogicNot,
            AutomationNodeConfig::IfCondition { if_condition } => AutomationNodeConfig::IfCondition { if_condition: if_condition.dup() },
            AutomationNodeConfig::Debounce { debounce } => AutomationNodeConfig::Debounce { debounce: debounce.dup() },
            AutomationNodeConfig::Expression { expression } => AutomationNodeConfig::Expression { expression: expression.dup() },
            AutomationNodeConfig::SetVariable { set_variable } => AutomationNodeConfig::SetVariable { set_variable: set_variable.dup() },
            AutomationNodeConfig::GetVariable { get_variable } => AutomationNodeConfig::GetVariable { get_variable: get_variable.dup() },
            AutomationNodeConfig::SetDevice { set_device } => AutomationNodeConfig::SetDevice { set_device: set_device.dup() },
            AutomationNodeConfig::ToggleDevice { toggle_device } => AutomationNodeConfig::ToggleDevice { toggle_device: toggle_device.dup() },
            AutomationNodeConfig::FireHook { fire_hook } => AutomationNodeConfig::FireHook { fire_hook: fire_hook.dup() },
        }
    }
}

/// A block.
pub struct AutomationNode {
    pub id: String,
    pub config: AutomationNodeConfig,
    /// Where the block is drawn: the bit pattern of a double.
    pub x: u64,
    /// Where the block is drawn: the bit pattern of a double.
    pub y: u64,
}

/// The contents of `AutomationNode`.
#[verifier::ext_equal]
pub struct AutomationNodeModel {
    pub id: Seq<char>,
    pub config: AutomationNodeConfigModel,
    pub x: u64,
    pub y: u64,
}

impl DeepView for AutomationNode {
    type V = AutomationNodeModel;

    open spec fn deep_view(&self) -> AutomationNodeModel {
        AutomationNodeModel {
            id: self.id.deep_view(),
            config: self.config.deep_view(),
            x: self.x.deep_view(),
            y: self.y.deep_view(),
        }
    }
}

impl Dup for AutomationNode {
    fn dup(&self) -> (r: Self) {
        AutomationNode {
            id: self.id.dup(),
            config: self.config.dup(),
            x: self.x.dup(),
            y: self.y.dup(),
        }
    }
}

/// A wire from one block to another.
pub struct AutomationEdge {
    pub id: String,
    pub source_node: String,
    pub target_node: String,
    pub source_socket: String,
    pub target_socket: String,
}

/// The contents of `AutomationEdge`.
#[verifier::ext_equal]
pub struct AutomationEdgeModel {
    pub id: Seq<char>,
    pub source_node: Seq<char>,
    pub target_node: Seq<char>,
    pub source_socket: Seq<char>,
    pub target_socket: Seq<char>,
}

impl DeepView for AutomationEdge {
    type V = AutomationEdgeModel;

    open spec fn deep_view(&self) -> AutomationEdgeModel {
        AutomationEdgeModel {
            id: self.id.deep_view(),
            source_node: self.source_node.deep_view(),
            target_node: self.target_node.deep_view(),
            source_socket: self.source_socket.deep_view(),
            target_socket: self.target_socket.deep_view(),
        }
    }
}

impl Dup for AutomationEdge {
    fn dup(&self) -> (r: Self) {
        AutomationEdge {
            id: self.id.dup(),
            source_node: self.source_node.dup(),
            target_node: self.target_node.dup(),
            source_socket: self.source_socket.dup(),
            target_socket: self.target_socket.dup(),
        }
    }
}

/// What the engine remembers of a block.
pub struct NodeRuntimeState {
    pub last_value: Option<bool>,
    pub last_fired_at_ms: Option<u128>,
    pub last_error: Option<String>,
    /// The latest response body of a request, or the latest text of a watched
    /// variable.
    pub last_body: Option<String>,
    pub last_status_code: Option<u16>,
    /// What downstream blocks can read, as text.
    pub outputs: Table<String>,
    /// Not stored: absent after a restart.
    pub last_checked_at_ms: Option<u128>,
    /// Not stored: a value that waits to be passed on.
    pub pending_value: Option<bool>,
    /// Not stored: since when it waits.
    pub pending_since_ms: Option<u128>,
}

/// The contents of `NodeRuntimeState`.
#[verifier::ext_equal]
pub struct NodeRuntimeStateModel {
    pub last_value: Option<bool>,
    pub last_fired_at_ms: Option<u128>,
    pub last_error: Option<Seq<char>>,
    pub last_body: Option<Seq<char>>,
    pub last_status_code: Option<u16>,
    pub outputs: Seq<(Seq<char>, Seq<char>)>,
    pub last_checked_at_ms: Option<u128>,
    pub pending_value: Option<bool>,
    pub pending_since_ms: Option<u128>,
}

impl DeepView for NodeRuntimeState {
    type V = NodeRuntimeStateModel;

    open spec fn deep_view(&self) -> NodeRuntimeStateModel {
        NodeRuntimeStateModel {
            last_value: self.last_value.deep_view(),
            last_fired_at_ms: self.last_fired_at_ms.deep_view(),
            last_error: self.last_error.deep_view(),
            last_body: self.last_body.deep_view(),
            last_status_code: self.last_status_code.deep_view(),
            outputs: self.outputs.deep_view(),
            last_checked_at_ms: self.last_checked_at_ms.deep_view(),
            pending_value: self.pending_value.deep_view(),
            pending_since_ms: self.pending_since_ms.deep_view(),
        }
    }
}

impl Dup for NodeRuntimeState {
    fn dup(&self) -> (r: Self) {
        NodeRuntimeState {
            last_value: self.last_value.dup(),
            last_fired_at_ms: self.last_fired_at_ms.dup(),
            last_error: self.last_error.dup(),
            last_body: self.last_body.dup(),
            last_status_code: self.last_status_code.dup(),
            outputs: self.outputs.dup(),
            last_checked_at_ms: self.last_checked_at_ms.dup(),
            pending_value: self.pending_value.dup(),
            pending_since_ms: self.pending_since_ms.dup(),
        }
    }
}

/// What the engine remembers of an automation.
pub struct AutomationStatus {
    pub last_fired_at_ms: Option<u128>,
    pub last_error: Option<String>,
    pub node_states: Table<NodeRuntimeState>,
}

/// The contents of `AutomationStatus`.
#[verifier::ext_equal]
pub struct AutomationStatusModel {
    pub last_fired_at_ms: Option<u128>,
    pub last_error: Option<Seq<char>>,
    pub node_states: Seq<(Seq<char>, NodeRuntimeStateModel)>,
}

impl DeepView for AutomationStatus {
    type V = AutomationStatusModel;

    open spec fn deep_view(&self) -> AutomationStatusModel {
        AutomationStatusModel {
            last_fired_at_ms: self.last_fired_at_ms.deep_view(),
            last_error: self.last_error.deep_view(),
            node_states: self.node_states.deep_view(),
        }
    }
}

impl Dup for AutomationStatus {
    fn dup(&self) -> (r: Self) {
        AutomationStatus {
            last_fired_at_ms: self.last_fired_at_ms.dup(),
            last_error: self.last_error.dup(),
            node_states: self.node_states.dup(),
        }
    }
}

/// A flowchart.
pub struct Automation {
    pub id: String,
    pub name: String,
    pub enabled: bool,
    pub nodes: Vec<AutomationNode>,
    pub edges: Vec<AutomationEdge>,
    pub created_at_ms: u128,
    pub variables: Table<Value>,
    pub status: AutomationStatus,
}

/// The contents of `Automation`.
#[verifier::ext_equal]
pub struct AutomationModel {
    pub id: Seq<char>,
    pub name: Seq<char>,
    pub enabled: bool,
    pub nodes: Seq<AutomationNodeModel>,
    pub edges: Seq<AutomationEdgeModel>,
    pub created_at_ms: u128,
    pub variables: Seq<(Seq<char>, ValueModel)>,
    pub status: AutomationStatusModel,
}

impl DeepView for Automation {
    type V = AutomationModel;

    open spec fn deep_view(&self) -> AutomationModel {
        AutomationModel {
            id: self.id.deep_view(),
            name: self.name.deep_view(),
            enabled: self.enabled.deep_view(),
            nodes: self.nodes.deep_view(),
            edges: self.edges.deep_view(),
            created_at_ms: self.created_at_ms.deep_view(),
            variables: self.variables.deep_view(),
            status: self.status.deep_view(),
        }
    }
}

impl Dup for Automation {
    fn dup(&self) -> (r: Self) {
        Automation {
            id: self.id.dup(),
            name: self.name.dup(),
            enabled: self.enabled.dup(),
            nodes: self.nodes.dup(),
            edges: self.edges.dup(),
            created_at_ms: self.created_at_ms.dup(),
            variables: self.variables.dup(),
            status: self.status.dup(),
        }
    }
}

/// A block's state before it has ever run.
pub open spec fn fresh_state() -> NodeRuntimeStateModel {
    NodeRuntimeStateModel {
        last_value: None,
        last_fired_at_ms: None,
        last_error: None,
        last_body: None,
        last_status_code: None,
        outputs: Seq::empty(),
        last_checked_at_ms: None,
        pending_value: None,
        pending_since_ms: None,
    }
}

impl NodeRuntimeState {
    /// A block's state before it has ever run.
    pub fn fresh() -> (s: Self)
        ensures
            s.deep_view() == fresh_state(),
    {
        NodeRuntimeState {
            last_value: None,
            last_fired_at_ms: None,
            last_error: None,
            last_body: None,
            last_status_code: None,
            outputs: Table::new(),
            last_checked_at_ms: None,
            pending_value: None,
            pending_since_ms: None,
        }
    }
}

/// The field that an if block reads where none is given.
pub fn default_if_field() -> (s: String)
    ensures
        s@ == "value"@,
{
    "value".to_owned()
}

/// The socket that an edge leaves where none is given.
pub fn default_socket_out() -> (s: String)
    ensures
        s@ == "out"@,
{
    "out".to_owned()
}

/// The socket that an edge enters where none is given.
pub fn default_socket_in() -> (s: String)
    ensures
        s@ == "in"@,
{
    "in".to_owned()
}

} // verus!
