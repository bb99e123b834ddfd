//! What one block of an automation does in one tick.

use vstd::prelude::*;
use vstd::string::*;

use crate::actions::{HookEvent, ScheduleAction};
use crate::automations::coerce;
use crate::automations::coerce::{show_bool, to_text};
use crate::automations::expr;
use crate::automations::expr::{evaluate, ContextModel, EvalContext};
use crate::automations::functions::time_fns;
use crate::automations::functions::time_fns::moment_ms;
use crate::automations::host;
use crate::automations::host::{
    ask_bits, ask_local, ask_moment, ask_standing, Answer, AnswerModel, Ask, AskModel, LocalTime, Oracle, Standing,
};
use crate::automations::types::{
    AutomationNode, AutomationNodeConfig, AutomationNodeConfigModel, AutomationNodeModel, BetweenCfg,
    BetweenCfgModel, BetweenWindowModel, CronTriggerCfgModel, DebounceCfg, DeviceEventTriggerCfg,
    DeviceEventTriggerCfgModel, ExpressionCfgModel, GetVariableCfgModel, HttpRequestCfg, HttpRequestCfgModel,
    IfConditionCfg, IfConditionCfgModel, IfOp, IntervalTriggerCfg, NodeRuntimeState, NodeRuntimeStateModel,
    SetVariableCfgModel, VariableChangedCfgModel,
};
use crate::clock;
use crate::clock::{parse_hhmm, time_in_window};
use crate::conditions;
use crate::conditions::{
    parse_status_match, status_matches, ConditionConfig, ConditionConfigModel, ProbeOutcome, ProbeOutcomeModel,
};
use crate::dup::Dup;
use crate::schedules;
use crate::schedules::parse_cron;
use crate::table;
use crate::table::Table;
use crate::text;
use crate::text::{around, contains, decimal_text, parse_unsigned, same, strip_prefix, trim};
use crate::value;
use crate::value::{truthy, Value, ValueModel};

verus! {

/// One edge into a block: the block that it comes from, and the value that it
/// brings, turned round where it leaves by the "no" socket.
pub struct IncomingInput {
    pub source_node: String,
    pub value: Option<bool>,
}

/// What an `IncomingInput` holds.
#[verifier::ext_equal]
pub struct IncomingInputModel {
    pub source_node: Seq<char>,
    pub value: Option<bool>,
}

impl DeepView for IncomingInput {
    type V = IncomingInputModel;

    open spec fn deep_view(&self) -> IncomingInputModel {
        IncomingInputModel { source_node: self.source_node@, value: self.value }
    }
}

/// What all blocks of an automation see in one tick.
pub struct Scene<'a> {
    pub automation_id: &'a str,
    /// The blocks' states as they were stored last.
    pub committed: &'a Table<NodeRuntimeState>,
    /// The states of blocks that this run has computed, which go before the
    /// stored ones.
    pub fresh: Option<&'a Table<NodeRuntimeState>>,
    /// Whether each device is on, by its name and by its nickname.
    pub devices: &'a Table<bool>,
    /// Of each device by name, whether it is on, if that is known, and whether
    /// it has been announced as offline.
    pub readings: &'a Table<(Option<bool>, bool)>,
    pub previous_tick_ms: u128,
    pub tick_ms: u128,
    /// The run looks ahead: no request is made, and what was answered last is
    /// taken to be answered again.
    pub simulate: bool,
}

/// What a scene holds.
pub struct SceneModel {
    pub automation_id: Seq<char>,
    pub committed: Seq<(Seq<char>, NodeRuntimeStateModel)>,
    pub fresh: Option<Seq<(Seq<char>, NodeRuntimeStateModel)>>,
    pub devices: Seq<(Seq<char>, bool)>,
    pub readings: Seq<(Seq<char>, (Option<bool>, bool))>,
    pub previous_tick_ms: u128,
    pub tick_ms: u128,
    pub simulate: bool,
}

impl<'a> DeepView for Scene<'a> {
    type V = SceneModel;

    open spec fn deep_view(&self) -> SceneModel {
        SceneModel {
            automation_id: self.automation_id@,
            committed: self.committed.deep_view(),
            fresh: self.fresh.deep_view(),
            devices: self.devices.deep_view(),
            readings: self.readings.deep_view(),
            previous_tick_ms: self.previous_tick_ms,
            tick_ms: self.tick_ms,
            simulate: self.simulate,
        }
    }
}

/// What a block comes to: the value that it passes on, its new state, and the
/// automation's variables.
pub struct Step {
    pub value: Option<bool>,
    pub state: NodeRuntimeStateModel,
    pub variables: Seq<(Seq<char>, ValueModel)>,
}

// ---------- Pulses ----------

/// Some input is true.
pub open spec fn pulsed(inputs: Seq<IncomingInputModel>) -> bool {
    exists|i: int| 0 <= i < inputs.len() && (#[trigger] inputs[i]).value == Some(true)
}

/// Whether some input is true.
pub fn any_pulse(inputs: &Vec<IncomingInput>) -> (b: bool)
    ensures
        b == pulsed(inputs.deep_view()),
{
    let ghost all = inputs.deep_view();
    let mut i: usize = 0;
    while i < inputs.len()
        invariant
            i <= inputs@.len(),
            all == inputs.deep_view(),
            forall|j: int| 0 <= j < i ==> (#[trigger] all[j]).value != Some(true),
        decreases inputs@.len() - i,
    {
        proof {
            assert(all[i as int] == inputs@[i as int].deep_view());
        }
        if let Some(v) = inputs[i].value {
            if v {
                return true;
            }
        }
        i = i + 1;
    }
    false
}

/// A pulse comes in where the block did not stand at true.
pub open spec fn rises(prev: NodeRuntimeStateModel, inputs: Seq<IncomingInputModel>) -> bool {
    prev.last_value != Some(true) && pulsed(inputs)
}

/// Whether a pulse comes in where the block did not stand at true.
pub fn is_rising(prev: &NodeRuntimeState, inputs: &Vec<IncomingInput>) -> (b: bool)
    ensures
        b == rises(prev.deep_view(), inputs.deep_view()),
{
    let held = match prev.last_value {
        Some(v) => v,
        None => false,
    };
    !held && any_pulse(inputs)
}

/// The value of the first input.
pub open spec fn first_value(inputs: Seq<IncomingInputModel>) -> Option<bool> {
    if inputs.len() == 0 {
        None
    } else {
        inputs[0].value
    }
}

fn first_input(inputs: &Vec<IncomingInput>) -> (r: Option<bool>)
    ensures
        r == first_value(inputs.deep_view()),
{
    if inputs.len() == 0 {
        None
    } else {
        proof {
            assert(inputs.deep_view()[0] == inputs@[0].deep_view());
        }
        inputs[0].value
    }
}

// ---------- What a block reads of the one before it ----------

/// The state of the block behind the first input: as this run has it, or else
/// as it was stored.
pub open spec fn source_state(s: SceneModel, inputs: Seq<IncomingInputModel>) -> Option<NodeRuntimeStateModel> {
    if inputs.len() == 0 {
        None
    } else {
        let id = inputs[0].source_node;
        match s.fresh {
            Some(fresh) => match table::lookup(fresh, id) {
                Some(state) => Some(state),
                None => table::lookup(s.committed, id),
            },
            None => table::lookup(s.committed, id),
        }
    }
}

fn find_source<'a>(scene: &Scene<'a>, inputs: &Vec<IncomingInput>) -> (r: Option<&'a NodeRuntimeState>)
    ensures
        r.deep_view() == source_state(scene.deep_view(), inputs.deep_view()),
{
    if inputs.len() == 0 {
        return None;
    }
    proof {
        assert(inputs.deep_view()[0] == inputs@[0].deep_view());
    }
    let id = inputs[0].source_node.as_str();
    if let Some(fresh) = scene.fresh {
        if let Some(state) = fresh.get(id) {
            return Some(state);
        }
    }
    scene.committed.get(id)
}

/// Texts as values of a dictionary.
pub open spec fn texts_dict(outputs: Seq<(Seq<char>, Seq<char>)>) -> Seq<(Seq<char>, ValueModel)> {
    outputs.map_values(|e: (Seq<char>, Seq<char>)| (e.0, ValueModel::Text(e.1)))
}

/// What an expression reads as `input`: the outputs of the block behind the
/// first input.
pub open spec fn input_value(s: SceneModel, inputs: Seq<IncomingInputModel>) -> ValueModel {
    ValueModel::Dict(
        match source_state(s, inputs) {
            Some(state) => texts_dict(state.outputs),
            None => Seq::empty(),
        },
    )
}

/// What an expression reads as `input`.
pub fn fetch_source_outputs(scene: &Scene, inputs: &Vec<IncomingInput>) -> (v: Value)
    ensures
        v.deep_view() == input_value(scene.deep_view(), inputs.deep_view()),
{
    let mut dict: Table<Value> = Table { entries: Vec::new() };
    match find_source(scene, inputs) {
        None => {
            proof {
                assert(dict.deep_view() =~= Seq::<(Seq<char>, ValueModel)>::empty());
            }
        },
        Some(state) => {
            let ghost outputs = state.outputs.deep_view();
            let mut i: usize = 0;
            while i < state.outputs.entries.len()
                invariant
                    i <= state.outputs.entries@.len(),
                    outputs == state.outputs.deep_view(),
                    dict.entries@.len() == i,
                    forall|j: int| 0 <= j < i ==> (#[trigger] dict.entries@[j]).deep_view() == texts_dict(outputs)[j],
                decreases state.outputs.entries@.len() - i,
            {
                let entry = &state.outputs.entries[i];
                proof {
                    assert(outputs[i as int] == (entry.0@, entry.1@));
                }
                dict.entries.push((entry.0.clone(), Value::Text(entry.1.clone())));
                i = i + 1;
            }
            proof {
                assert(dict.deep_view() =~= texts_dict(outputs));
            }
        },
    }
    proof {
        value::dict_model(dict);
    }
    Value::Dict(dict)
}

/// What an expression of a block is evaluated against.
pub open spec fn context(
    s: SceneModel,
    node: Seq<char>,
    inputs: Seq<IncomingInputModel>,
    variables: Seq<(Seq<char>, ValueModel)>,
) -> ContextModel {
    ContextModel {
        variables,
        input: input_value(s, inputs),
        devices: s.devices,
        now_ms: s.tick_ms,
        scope: node_path(s.automation_id, node),
    }
}

/// What names a block among all automations.
pub open spec fn node_path(automation: Seq<char>, node: Seq<char>) -> Seq<char> {
    "auto/"@ + automation + "/node/"@ + node
}

fn path_of(automation: &str, node: &str) -> (r: String)
    ensures
        r@ == node_path(automation@, node@),
{
    let mut r = around("auto/", automation, "/node/");
    r.append(node);
    r
}

fn evaluate_for<H: Fn(Ask) -> Answer>(
    src: &str,
    scene: &Scene,
    node: &str,
    inputs: &Vec<IncomingInput>,
    variables: &Table<Value>,
    host: &H,
) -> (r: Result<Value, String>)
    requires
        host::faithful(*host),
    ensures
        host::outcome(r) == expr::evaluated(
            src@,
            context(scene.deep_view(), node@, inputs.deep_view(), variables.deep_view()),
            host::oracle(*host),
        ),
{
    let ctx = EvalContext {
        variables,
        input: fetch_source_outputs(scene, inputs),
        devices: scene.devices,
        now_ms: scene.tick_ms,
        scope: path_of(scene.automation_id, node),
    };
    evaluate(src, &ctx, host)
}

// ---------- What a block puts out ----------

/// The outputs with the first `n` entries of a dictionary among them, each as
/// text; the entry "value" is passed over.
pub open spec fn with_parts(
    outputs: Seq<(Seq<char>, Seq<char>)>,
    parts: Seq<(Seq<char>, ValueModel)>,
    n: int,
    o: Oracle,
) -> Seq<(Seq<char>, Seq<char>)>
    decreases n,
{
    if n <= 0 || n > parts.len() {
        outputs
    } else {
        let before = with_parts(outputs, parts, n - 1, o);
        if parts[n - 1].0 == "value"@ {
            before
        } else {
            table::put(before, parts[n - 1].0, coerce::text_for(parts[n - 1].1, o))
        }
    }
}

/// Outputs that hold one text, under "value".
pub open spec fn only_value(s: Seq<char>) -> Seq<(Seq<char>, Seq<char>)> {
    table::put(Seq::empty(), "value"@, s)
}

/// The outputs for a value: its text under "value", and of a dictionary each
/// entry under its own name too.
pub open spec fn value_outputs(v: ValueModel, o: Oracle) -> Seq<(Seq<char>, Seq<char>)> {
    let whole = only_value(coerce::text_for(v, o));
    match v {
        ValueModel::Dict(parts) => with_parts(whole, parts, parts.len() as int, o),
        _ => whole,
    }
}

/// Writes a value into a block's outputs and clears its error.
pub fn write_value_outputs<H: Fn(Ask) -> Answer>(next: &mut NodeRuntimeState, value: &Value, host: &H)
    requires
        host::faithful(*host),
    ensures
        final(next).deep_view() == (NodeRuntimeStateModel {
            last_error: None,
            outputs: value_outputs(value.deep_view(), host::oracle(*host)),
            ..old(next).deep_view()
        }),
{
    let ghost o = host::oracle(*host);
    let mut outputs: Table<String> = Table::new();
    outputs.insert("value".to_owned(), to_text(value, host));
    let ghost whole = outputs.deep_view();
    if let Value::Dict(dict) = value {
        proof {
            value::dict_model(*dict);
        }
        let ghost parts = dict.deep_view();
        let mut i: usize = 0;
        while i < dict.entries.len()
            invariant
                host::faithful(*host),
                o == host::oracle(*host),
                i <= dict.entries@.len(),
                parts == dict.deep_view(),
                outputs.deep_view() == with_parts(whole, parts, i as int, o),
            decreases dict.entries@.len() - i,
        {
            let entry = &dict.entries[i];
            proof {
                assert(parts[i as int] == (entry.0@, entry.1.deep_view()));
            }
            if !same(entry.0.as_str(), "value") {
                outputs.insert(entry.0.clone(), to_text(&entry.1, host));
            }
            i = i + 1;
        }
    }
    next.last_error = None;
    next.outputs = outputs;
}

/// The block's text under a name: an output, or else what older states hold
/// instead.
pub open spec fn output_of(state: NodeRuntimeStateModel, field: Seq<char>) -> Option<Seq<char>> {
    let flag = match state.last_value {
        Some(b) => Some(coerce::bool_text(b)),
        None => None,
    };
    match table::lookup(state.outputs, field) {
        Some(v) => Some(v),
        None => if field == "value"@ || field == "succeeded"@ {
            flag
        } else if field == "body"@ {
            state.last_body
        } else if field == "status_code"@ {
            match state.last_status_code {
                Some(code) => Some(text::decimal(code as nat)),
                None => None,
            }
        } else {
            None
        },
    }
}

/// The block's text under a name.
pub fn lookup_output(state: &NodeRuntimeState, field: &str) -> (r: Option<String>)
    ensures
        r.deep_view() == output_of(state.deep_view(), field@),
{
    if let Some(v) = state.outputs.get(field) {
        return Some(v.clone());
    }
    if same(field, "value") || same(field, "succeeded") {
        match state.last_value {
            Some(b) => Some(show_bool(b)),
            None => None,
        }
    } else if same(field, "body") {
        state.last_body.dup()
    } else if same(field, "status_code") {
        match state.last_status_code {
            Some(code) => Some(decimal_text(code as u128)),
            None => None,
        }
    } else {
        None
    }
}

// ---------- The if block ----------

/// Whether the expression for status codes holds the code; `None` if it cannot
/// be read.
pub open spec fn in_ranges(spec_text: Seq<char>, code: u16) -> Option<bool> {
    match conditions::status_ranges(spec_text) {
        Ok(ranges) => Some(conditions::code_in(ranges, code)),
        Err(_) => None,
    }
}

/// Whether the expression for status codes holds the code.
pub fn status_matches_range(spec_text: &str, code: u16) -> (r: Option<bool>)
    ensures
        r == in_ranges(spec_text@, code),
{
    match parse_status_match(spec_text) {
        Ok(ranges) => Some(status_matches(&ranges, code)),
        Err(_) => None,
    }
}

/// What an if block compares: the state of a device, a variable, or an output
/// of the block before it.
pub open spec fn if_field(
    field: Seq<char>,
    source: Option<NodeRuntimeStateModel>,
    variables: Seq<(Seq<char>, ValueModel)>,
    devices: Seq<(Seq<char>, bool)>,
    o: Oracle,
) -> Option<Seq<char>> {
    match text::after_prefix(field, "device:"@) {
        Some(name) => match table::lookup(devices, text::trimmed(name)) {
            Some(on) => Some(coerce::bool_text(on)),
            None => None,
        },
        None => match text::after_prefix(field, "$"@) {
            Some(name) => match table::lookup(variables, name) {
                Some(v) => Some(coerce::text_for(v, o)),
                None => None,
            },
            None => match source {
                Some(state) => output_of(state, field),
                None => None,
            },
        },
    }
}

fn read_if_field<H: Fn(Ask) -> Answer>(
    field: &str,
    source: Option<&NodeRuntimeState>,
    variables: &Table<Value>,
    devices: &Table<bool>,
    host: &H,
) -> (r: Option<String>)
    requires
        host::faithful(*host),
    ensures
        r.deep_view() == if_field(
            field@,
            source.deep_view(),
            variables.deep_view(),
            devices.deep_view(),
            host::oracle(*host),
        ),
{
    if let Some(name) = strip_prefix(field, "device:") {
        return match devices.get(trim(name.as_str()).as_str()) {
            Some(on) => Some(show_bool(*on)),
            None => None,
        };
    }
    if let Some(name) = strip_prefix(field, "$") {
        return match variables.get(name.as_str()) {
            Some(v) => Some(to_text(v, host)),
            None => None,
        };
    }
    match source {
        Some(state) => lookup_output(state, field),
        None => None,
    }
}

/// The comparison holds between two doubles.
pub open spec fn holds_between(op: IfOp, s: Option<Standing>) -> bool {
    match (op, s) {
        (_, None) => false,
        (IfOp::Gt, Some(s)) => s == Standing::Greater,
        (IfOp::Gte, Some(s)) => s != Standing::Less,
        (IfOp::Lt, Some(s)) => s == Standing::Less,
        (_, Some(s)) => s != Standing::Greater,
    }
}

/// The comparison of an if block holds of a text that is there.
pub open spec fn if_holds(op: IfOp, actual: Seq<char>, wanted: Seq<char>, o: Oracle) -> bool {
    match op {
        IfOp::IsTrue => actual == "true"@,
        IfOp::Equals => text::trimmed(actual) == text::trimmed(wanted),
        IfOp::Contains => wanted.len() > 0 && text::holds(actual, wanted),
        IfOp::InRange => match text::unsigned(actual, u16::MAX as nat) {
            Some(code) => in_ranges(wanted, code as u16) == Some(true),
            None => false,
        },
        _ => match (
            host::bits_in(o(AskModel::Parse(text::trimmed(actual)))),
            host::bits_in(o(AskModel::Parse(text::trimmed(wanted)))),
        ) {
            (Some(a), Some(b)) => holds_between(op, host::standing_in(o(AskModel::Compare(a, b)))),
            _ => false,
        },
    }
}

fn if_compare<H: Fn(Ask) -> Answer>(op: IfOp, actual: &str, wanted: &str, host: &H) -> (b: bool)
    requires
        host::faithful(*host),
    ensures
        b == if_holds(op, actual@, wanted@, host::oracle(*host)),
{
    match op {
        IfOp::IsTrue => same(actual, "true"),
        IfOp::Equals => same(trim(actual).as_str(), trim(wanted).as_str()),
        IfOp::Contains => !wanted.is_empty() && contains(actual, wanted),
        IfOp::InRange => match parse_unsigned(actual, u16::MAX as u64) {
            Some(code) => match status_matches_range(wanted, code as u16) {
                Some(b) => b,
                None => false,
            },
            None => false,
        },
        _ => {
            let a: u64 = match ask_bits(host, Ask::Parse(trim(actual))) {
                Some(bits) => bits,
                None => {
                    return false;
                },
            };
            let b: u64 = match ask_bits(host, Ask::Parse(trim(wanted))) {
                Some(bits) => bits,
                None => {
                    return false;
                },
            };
            match ask_standing(host, Ask::Compare(a, b)) {
                None => false,
                Some(s) => match op {
                    IfOp::Gt => s == Standing::Greater,
                    IfOp::Gte => s != Standing::Less,
                    IfOp::Lt => s == Standing::Less,
                    _ => s != Standing::Greater,
                },
            }
        },
    }
}

/// What an if block with a field decides.
pub open spec fn if_check(
    cfg: IfConditionCfgModel,
    source: Option<NodeRuntimeStateModel>,
    variables: Seq<(Seq<char>, ValueModel)>,
    devices: Seq<(Seq<char>, bool)>,
    o: Oracle,
) -> bool {
    match if_field(cfg.field, source, variables, devices, o) {
        Some(actual) => if_holds(cfg.op, actual, cfg.value, o),
        None => false,
    }
}

/// What an if block with a field decides.
pub fn evaluate_if_check<H: Fn(Ask) -> Answer>(
    cfg: &IfConditionCfg,
    source: Option<&NodeRuntimeState>,
    variables: &Table<Value>,
    devices: &Table<bool>,
    host: &H,
) -> (b: bool)
    requires
        host::faithful(*host),
    ensures
        b == if_check(
            cfg.deep_view(),
            source.deep_view(),
            variables.deep_view(),
            devices.deep_view(),
            host::oracle(*host),
        ),
{
    match read_if_field(cfg.field.as_str(), source, variables, devices, host) {
        Some(actual) => if_compare(cfg.op, actual.as_str(), cfg.value.as_str(), host),
        None => false,
    }
}

// ---------- Blocks that start a flow ----------

/// What a cron block finds: the message if its expression cannot be read, and
/// otherwise whether it fired since the tick before.
pub open spec fn cron_pulse(cron: Seq<char>, previous: u128, now: u128, o: Oracle) -> Result<bool, Seq<char>> {
    match schedules::cron_fault(schedules::crate_format(cron)) {
        Some(fault) => Err(schedules::cron_message(fault)),
        None => Ok(
            match host::moment_in(o(AskModel::Fires { cron, after_ms: time_fns::moment(previous) })) {
                Some(fire) => fire <= time_fns::moment(now),
                None => false,
            },
        ),
    }
}

fn cron_fires<H: Fn(Ask) -> Answer>(cron: &String, previous: u128, now: u128, host: &H) -> (r: Result<bool, String>)
    requires
        host::faithful(*host),
    ensures
        match r {
            Ok(b) => cron_pulse(cron@, previous, now, host::oracle(*host)) == Ok::<bool, Seq<char>>(b),
            Err(m) => cron_pulse(cron@, previous, now, host::oracle(*host)) == Err::<bool, Seq<char>>(m@),
        },
{
    if let Err(m) = parse_cron(cron.as_str()) {
        return Err(m);
    }
    let after_ms: u64 = moment_ms(previous);
    match ask_moment(host, Ask::Fires { cron: cron.clone(), after_ms }) {
        Some(fire) => Ok(fire < 0 || fire as u64 <= moment_ms(now)),
        None => Ok(false),
    }
}

/// Whether an interval block is on; `None` if its cycle has no length.
pub open spec fn interval_pulse(cfg: IntervalTriggerCfg, now: u128) -> Option<bool> {
    let sum = cfg.on_seconds + cfg.off_seconds;
    let total = if sum > u64::MAX {
        u64::MAX as int
    } else {
        sum
    };
    let starts = match cfg.starts_at_ms {
        Some(ms) => ms as int,
        None => 0,
    };
    let elapsed = if now < starts {
        0
    } else {
        (now - starts) / 1000
    };
    if total == 0 {
        None
    } else {
        Some((elapsed % total < cfg.on_seconds) == (cfg.start_action != ScheduleAction::Off))
    }
}

fn interval_is_on(cfg: &IntervalTriggerCfg, now: u128) -> (r: Option<bool>)
    ensures
        r == interval_pulse(*cfg, now),
{
    let total: u64 = cfg.on_seconds.saturating_add(cfg.off_seconds);
    if total == 0 {
        return None;
    }
    let starts: u128 = match cfg.starts_at_ms {
        Some(ms) => ms,
        None => 0,
    };
    let elapsed: u128 = now.saturating_sub(starts) / 1000;
    let phase: u128 = elapsed % (total as u128);
    let in_on_window = phase < cfg.on_seconds as u128;
    Some(
        match cfg.start_action {
            ScheduleAction::Off => !in_on_window,
            _ => in_on_window,
        },
    )
}

/// The minute of the day lies between two times of day.
pub open spec fn minute_between(minute: int, start: Seq<char>, end: Seq<char>) -> bool {
    match (clock::minutes_of(start), clock::minutes_of(end)) {
        (Some(s), Some(e)) => clock::in_window(minute, s as int, e as int),
        _ => false,
    }
}

fn is_between(minute: u32, start: &str, end: &str) -> (b: bool)
    ensures
        b == minute_between(minute as int, start@, end@),
{
    match (parse_hhmm(start), parse_hhmm(end)) {
        (Some(s), Some(e)) => time_in_window(minute, s, e),
        _ => false,
    }
}

/// A window is open: its days are none or hold this day, and its times lie
/// round this one.
pub open spec fn window_open(w: BetweenWindowModel, minute: int, weekday: u8) -> bool {
    (w.days.len() == 0 || w.days.contains(weekday)) && minute_between(minute, w.start, w.end)
}

fn has_day(days: &Vec<u8>, day: u8) -> (b: bool)
    ensures
        b == days.deep_view().contains(day),
{
    let mut i: usize = 0;
    while i < days.len()
        invariant
            i <= days@.len(),
            forall|j: int| 0 <= j < i ==> #[trigger] days.deep_view()[j] != day,
        decreases days@.len() - i,
    {
        proof {
            assert(days.deep_view()[i as int] == days@[i as int]);
        }
        if days[i] == day {
            return true;
        }
        i = i + 1;
    }
    false
}

/// A between block is on: one of its windows is open, or, if it has none, its
/// single window for all days.
pub open spec fn between_pulse(cfg: BetweenCfgModel, minute: int, weekday: u8) -> bool {
    if cfg.windows.len() > 0 {
        exists|i: int| 0 <= i < cfg.windows.len() && window_open(#[trigger] cfg.windows[i], minute, weekday)
    } else {
        minute_between(minute, cfg.start, cfg.end)
    }
}

fn between_is_on(cfg: &BetweenCfg, minute: u32, weekday: u8) -> (b: bool)
    ensures
        b == between_pulse(cfg.deep_view(), minute as int, weekday),
{
    if cfg.windows.len() == 0 {
        return is_between(minute, cfg.start.as_str(), cfg.end.as_str());
    }
    let ghost windows = cfg.windows.deep_view();
    let mut i: usize = 0;
    while i < cfg.windows.len()
        invariant
            i <= cfg.windows@.len(),
            windows == cfg.windows.deep_view(),
            forall|j: int| 0 <= j < i ==> !window_open(#[trigger] windows[j], minute as int, weekday),
        decreases cfg.windows@.len() - i,
    {
        let w = &cfg.windows[i];
        proof {
            assert(windows[i as int] == w.deep_view());
        }
        if (w.days.len() == 0 || has_day(&w.days, weekday)) && is_between(minute, w.start.as_str(), w.end.as_str()) {
            return true;
        }
        i = i + 1;
    }
    false
}

/// What a device block passes on: whether the device is on, off, announced as
/// offline, or not; nothing where that is not known.
pub open spec fn device_pulse(cfg: DeviceEventTriggerCfgModel, reading: Option<(Option<bool>, bool)>) -> Option<bool> {
    match (cfg.event, reading) {
        (HookEvent::On, Some((Some(on), _))) => Some(on),
        (HookEvent::Off, Some((Some(on), _))) => Some(!on),
        (HookEvent::Offline, Some((_, offline))) => Some(offline),
        (HookEvent::Online, Some((_, offline))) => Some(!offline),
        _ => None,
    }
}

fn device_signal(cfg: &DeviceEventTriggerCfg, readings: &Table<(Option<bool>, bool)>) -> (r: Option<bool>)
    ensures
        r == device_pulse(cfg.deep_view(), table::lookup(readings.deep_view(), cfg.device_name@)),
{
    match readings.get(cfg.device_name.as_str()) {
        None => None,
        Some(reading) => match (cfg.event, reading.0) {
            (HookEvent::On, Some(on)) => Some(on),
            (HookEvent::Off, Some(on)) => Some(!on),
            (HookEvent::Offline, _) => Some(reading.1),
            (HookEvent::Online, _) => Some(!reading.1),
            _ => None,
        },
    }
}

// ---------- Requests ----------

/// The condition that stands for the request of a block.
pub open spec fn request_of(
    cfg: HttpRequestCfgModel,
    automation: Seq<char>,
    node: Seq<char>,
) -> ConditionConfigModel {
    ConditionConfigModel {
        id: node_path(automation, node),
        name: node,
        device_name: ""@,
        url: cfg.url,
        method: cfg.method,
        headers: cfg.headers,
        body: cfg.body,
        status_match: cfg.status_match,
        body_contains: None,
        poll_seconds: 60,
        enabled: true,
        action_on_pass: None,
        action_on_fail: None,
        created_at_ms: 0,
        last_checked_at_ms: None,
        last_passing: None,
        last_status_code: None,
        last_error: None,
        last_action_at_ms: None,
        last_action: None,
        last_action_error: None,
        min_stable_seconds: 0,
        pending_value: None,
        pending_since_ms: None,
    }
}

/// The request that a block makes in this tick: one on the rising edge of a
/// pulse, if it has a URL and the run does not only look ahead.
pub open spec fn request_due(
    s: SceneModel,
    node: AutomationNodeModel,
    inputs: Seq<IncomingInputModel>,
    prev: NodeRuntimeStateModel,
) -> Option<ConditionConfigModel> {
    match node.config {
        AutomationNodeConfigModel::HttpRequest { http_request } => if rises(prev, inputs) && !s.simulate
            && http_request.url.len() > 0 {
            Some(request_of(http_request, s.automation_id, node.id))
        } else {
            None
        },
        _ => None,
    }
}

/// The request that a block makes in this tick, as a condition to probe.
pub fn due_request(scene: &Scene, node: &AutomationNode, inputs: &Vec<IncomingInput>, prev: &NodeRuntimeState) -> (r:
    Option<ConditionConfig>)
    ensures
        r.deep_view() == request_due(scene.deep_view(), node.deep_view(), inputs.deep_view(), prev.deep_view()),
{
    match &node.config {
        AutomationNodeConfig::HttpRequest { http_request } => {
            if !is_rising(prev, inputs) || scene.simulate || http_request.url.as_str().is_empty() {
                return None;
            }
            Some(
                ConditionConfig {
                    id: path_of(scene.automation_id, node.id.as_str()),
                    name: node.id.clone(),
                    device_name: "".to_owned(),
                    url: http_request.url.clone(),
                    method: http_request.method.clone(),
                    headers: http_request.headers.dup(),
                    body: http_request.body.dup(),
                    status_match: http_request.status_match.clone(),
                    body_contains: None,
                    poll_seconds: 60,
                    enabled: true,
                    action_on_pass: None,
                    action_on_fail: None,
                    created_at_ms: 0,
                    last_checked_at_ms: None,
                    last_passing: None,
                    last_status_code: None,
                    last_error: None,
                    last_action_at_ms: None,
                    last_action: None,
                    last_action_error: None,
                    min_stable_seconds: 0,
                    pending_value: None,
                    pending_since_ms: None,
                },
            )
        },
        _ => None,
    }
}

/// The outputs that an answer leaves.
pub open spec fn answer_outputs(outcome: ProbeOutcomeModel) -> Seq<(Seq<char>, Seq<char>)> {
    let flag = coerce::bool_text(outcome.passing);
    let flags = table::put(only_value(flag), "succeeded"@, flag);
    let with_body = match outcome.body {
        Some(body) => table::put(flags, "body"@, body),
        None => flags,
    };
    match outcome.status_code {
        Some(code) => table::put(with_body, "status_code"@, text::decimal(code as nat)),
        None => with_body,
    }
}

/// The block's state after an answer.
pub open spec fn after_answer(
    prev: NodeRuntimeStateModel,
    outcome: ProbeOutcomeModel,
    now: u128,
) -> NodeRuntimeStateModel {
    NodeRuntimeStateModel {
        last_checked_at_ms: Some(now),
        last_status_code: outcome.status_code,
        last_body: outcome.body,
        outputs: answer_outputs(outcome),
        last_error: outcome.error,
        ..prev
    }
}

fn take_answer(next: &mut NodeRuntimeState, outcome: ProbeOutcome, now: u128)
    ensures
        final(next).deep_view() == after_answer(old(next).deep_view(), outcome.deep_view(), now),
{
    let mut outputs: Table<String> = Table::new();
    outputs.insert("value".to_owned(), show_bool(outcome.passing));
    outputs.insert("succeeded".to_owned(), show_bool(outcome.passing));
    if let Some(body) = &outcome.body {
        outputs.insert("body".to_owned(), body.clone());
    }
    if let Some(code) = outcome.status_code {
        outputs.insert("status_code".to_owned(), decimal_text(code as u128));
    }
    next.last_checked_at_ms = Some(now);
    next.last_status_code = outcome.status_code;
    next.last_body = outcome.body;
    next.outputs = outputs;
    next.last_error = outcome.error;
}

// ---------- Blocks in the middle ----------

/// What a debounce block passes on and waits for: a changed input counts once
/// it has stayed for the hold time; an input without a value counts at once.
pub open spec fn debounced(prev: NodeRuntimeStateModel, new_value: Option<bool>, hold_ms: int, now: u128) -> (
    Option<bool>,
    Option<bool>,
    Option<u128>,
) {
    match new_value {
        None => (None, None, None),
        Some(b) => if prev.last_value == Some(b) || hold_ms == 0 {
            (Some(b), None, None)
        } else if prev.pending_value == Some(b) {
            let since = match prev.pending_since_ms {
                Some(ms) => ms,
                None => now,
            };
            if now - since >= hold_ms {
                (Some(b), None, None)
            } else {
                (prev.last_value, Some(b), Some(since))
            }
        } else {
            (prev.last_value, Some(b), Some(now))
        },
    }
}

fn debounce_step(cfg: &DebounceCfg, prev: &NodeRuntimeState, new_value: Option<bool>, now: u128) -> (r: (
    Option<bool>,
    Option<bool>,
    Option<u128>,
))
    ensures
        r == debounced(prev.deep_view(), new_value, cfg.hold_seconds * 1000, now),
{
    let hold: u128 = cfg.hold_seconds as u128 * 1000;
    match new_value {
        None => (None, None, None),
        Some(b) => {
            let unchanged = match prev.last_value {
                Some(v) => v == b,
                None => false,
            };
            if unchanged || hold == 0 {
                return (Some(b), None, None);
            }
            let waiting = match prev.pending_value {
                Some(v) => v == b,
                None => false,
            };
            if !waiting {
                return (prev.last_value, Some(b), Some(now));
            }
            let since: u128 = match prev.pending_since_ms {
                Some(ms) => ms,
                None => now,
            };
            if now >= since && now - since >= hold {
                (Some(b), None, None)
            } else {
                (prev.last_value, Some(b), Some(since))
            }
        },
    }
}

/// Every input is true, and there is one.
pub open spec fn all_true(inputs: Seq<IncomingInputModel>) -> bool {
    inputs.len() > 0 && forall|i: int| 0 <= i < inputs.len() ==> (#[trigger] inputs[i]).value == Some(true)
}

fn every_pulse(inputs: &Vec<IncomingInput>) -> (b: bool)
    ensures
        b == all_true(inputs.deep_view()),
{
    if inputs.len() == 0 {
        return false;
    }
    let ghost all = inputs.deep_view();
    let mut i: usize = 0;
    while i < inputs.len()
        invariant
            i <= inputs@.len(),
            all == inputs.deep_view(),
            forall|j: int| 0 <= j < i ==> (#[trigger] all[j]).value == Some(true),
        decreases inputs@.len() - i,
    {
        proof {
            assert(all[i as int] == inputs@[i as int].deep_view());
        }
        match inputs[i].value {
            Some(true) => {},
            _ => {
                return false;
            },
        }
        i = i + 1;
    }
    true
}

// ---------- One block ----------

/// The block before it has done anything in this tick: as it was, without its
/// error.
pub open spec fn unmarred(prev: NodeRuntimeStateModel) -> NodeRuntimeStateModel {
    NodeRuntimeStateModel { last_error: None, ..prev }
}

/// The block with an error.
pub open spec fn marred(prev: NodeRuntimeStateModel, error: Seq<char>) -> NodeRuntimeStateModel {
    NodeRuntimeStateModel { last_error: Some(error), ..prev }
}

/// The block with the outputs of a value.
pub open spec fn holding(prev: NodeRuntimeStateModel, v: ValueModel, o: Oracle) -> NodeRuntimeStateModel {
    NodeRuntimeStateModel { last_error: None, outputs: value_outputs(v, o), ..prev }
}

/// What a request block comes to. Without a rising edge it stays; a run that
/// looks ahead takes it to pass where it has not been tried.
pub open spec fn request_step(
    s: SceneModel,
    cfg: HttpRequestCfgModel,
    inputs: Seq<IncomingInputModel>,
    prev: NodeRuntimeStateModel,
    fetched: Option<ProbeOutcomeModel>,
) -> (Option<bool>, NodeRuntimeStateModel) {
    if !rises(prev, inputs) {
        (prev.last_value, unmarred(prev))
    } else if s.simulate {
        (
            Some(
                match prev.last_value {
                    Some(v) => v,
                    None => true,
                },
            ),
            unmarred(prev),
        )
    } else if cfg.url.len() == 0 {
        (Some(false), marred(prev, "URL not configured"@))
    } else {
        match fetched {
            Some(outcome) => (Some(outcome.passing), after_answer(prev, outcome, s.tick_ms)),
            None => (prev.last_value, unmarred(prev)),
        }
    }
}

fn step_request(
    scene: &Scene,
    cfg: &HttpRequestCfg,
    inputs: &Vec<IncomingInput>,
    prev: &NodeRuntimeState,
    fetched: Option<ProbeOutcome>,
) -> (r: (Option<bool>, NodeRuntimeState))
    ensures
        (r.0, r.1.deep_view()) == request_step(
            scene.deep_view(),
            cfg.deep_view(),
            inputs.deep_view(),
            prev.deep_view(),
            fetched.deep_view(),
        ),
{
    let mut next = prev.dup();
    next.last_error = None;
    if !is_rising(prev, inputs) {
        return (prev.last_value, next);
    }
    if scene.simulate {
        let value = match prev.last_value {
            Some(v) => v,
            None => true,
        };
        return (Some(value), next);
    }
    if cfg.url.as_str().is_empty() {
        next.last_error = Some("URL not configured".to_owned());
        return (Some(false), next);
    }
    match fetched {
        Some(outcome) => {
            let passing = outcome.passing;
            take_answer(&mut next, outcome, scene.tick_ms);
            (Some(passing), next)
        },
        None => (prev.last_value, next),
    }
}

/// What an if block comes to: on a rising edge it decides, by its expression or
/// else by its field, and it stays with that until the next.
pub open spec fn if_step(
    s: SceneModel,
    id: Seq<char>,
    cfg: IfConditionCfgModel,
    inputs: Seq<IncomingInputModel>,
    prev: NodeRuntimeStateModel,
    variables: Seq<(Seq<char>, ValueModel)>,
    o: Oracle,
) -> (Option<bool>, NodeRuntimeStateModel) {
    if !rises(prev, inputs) {
        (prev.last_value, unmarred(prev))
    } else if text::trimmed(cfg.expression).len() > 0 {
        match expr::evaluated(cfg.expression, context(s, id, inputs, variables), o) {
            Ok(v) => (Some(value::is_truthy(v)), unmarred(prev)),
            Err(m) => (Some(false), marred(prev, m)),
        }
    } else {
        (Some(if_check(cfg, source_state(s, inputs), variables, s.devices, o)), unmarred(prev))
    }
}

fn step_if<H: Fn(Ask) -> Answer>(
    scene: &Scene,
    id: &str,
    cfg: &IfConditionCfg,
    inputs: &Vec<IncomingInput>,
    prev: &NodeRuntimeState,
    variables: &Table<Value>,
    host: &H,
) -> (r: (Option<bool>, NodeRuntimeState))
    requires
        host::faithful(*host),
    ensures
        (r.0, r.1.deep_view()) == if_step(
            scene.deep_view(),
            id@,
            cfg.deep_view(),
            inputs.deep_view(),
            prev.deep_view(),
            variables.deep_view(),
            host::oracle(*host),
        ),
{
    let mut next = prev.dup();
    next.last_error = None;
    if !is_rising(prev, inputs) {
        return (prev.last_value, next);
    }
    if !trim(cfg.expression.as_str()).as_str().is_empty() {
        return match evaluate_for(cfg.expression.as_str(), scene, id, inputs, variables, host) {
            Ok(v) => (Some(truthy(&v)), next),
            Err(m) => {
                next.last_error = Some(m);
                (Some(false), next)
            },
        };
    }
    let source = find_source(scene, inputs);
    (Some(evaluate_if_check(cfg, source, variables, scene.devices, host)), next)
}

/// What an expression block comes to.
pub open spec fn expression_step(
    s: SceneModel,
    id: Seq<char>,
    src: Seq<char>,
    inputs: Seq<IncomingInputModel>,
    prev: NodeRuntimeStateModel,
    variables: Seq<(Seq<char>, ValueModel)>,
    o: Oracle,
) -> (Option<bool>, NodeRuntimeStateModel) {
    if !rises(prev, inputs) {
        (prev.last_value, unmarred(prev))
    } else {
        match expr::evaluated(src, context(s, id, inputs, variables), o) {
            Ok(v) => (Some(value::is_truthy(v)), holding(prev, v, o)),
            Err(m) => (Some(false), marred(prev, m)),
        }
    }
}

fn step_expression<H: Fn(Ask) -> Answer>(
    scene: &Scene,
    id: &str,
    src: &str,
    inputs: &Vec<IncomingInput>,
    prev: &NodeRuntimeState,
    variables: &Table<Value>,
    host: &H,
) -> (r: (Option<bool>, NodeRuntimeState))
    requires
        host::faithful(*host),
    ensures
        (r.0, r.1.deep_view()) == expression_step(
            scene.deep_view(),
            id@,
            src@,
            inputs.deep_view(),
            prev.deep_view(),
            variables.deep_view(),
            host::oracle(*host),
        ),
{
    let mut next = prev.dup();
    next.last_error = None;
    if !is_rising(prev, inputs) {
        return (prev.last_value, next);
    }
    match evaluate_for(src, scene, id, inputs, variables, host) {
        Ok(v) => {
            write_value_outputs(&mut next, &v, host);
            (Some(truthy(&v)), next)
        },
        Err(m) => {
            next.last_error = Some(m);
            (Some(false), next)
        },
    }
}

/// What a block that sets a variable comes to.
pub open spec fn assign_step(
    s: SceneModel,
    id: Seq<char>,
    key: Seq<char>,
    src: Seq<char>,
    inputs: Seq<IncomingInputModel>,
    prev: NodeRuntimeStateModel,
    variables: Seq<(Seq<char>, ValueModel)>,
    o: Oracle,
) -> Step {
    if !rises(prev, inputs) {
        Step { value: prev.last_value, state: unmarred(prev), variables }
    } else if key.len() == 0 {
        Step { value: Some(false), state: marred(prev, "variable key is empty"@), variables }
    } else {
        match expr::evaluated(src, context(s, id, inputs, variables), o) {
            Ok(v) => Step {
                value: Some(true),
                state: holding(prev, v, o),
                variables: table::put(variables, key, v),
            },
            Err(m) => Step { value: Some(false), state: marred(prev, m), variables },
        }
    }
}

fn step_assign<H: Fn(Ask) -> Answer>(
    scene: &Scene,
    id: &str,
    key: &String,
    src: &str,
    inputs: &Vec<IncomingInput>,
    prev: &NodeRuntimeState,
    variables: &mut Table<Value>,
    host: &H,
) -> (r: (Option<bool>, NodeRuntimeState))
    requires
        host::faithful(*host),
    ensures
        (Step { value: r.0, state: r.1.deep_view(), variables: final(variables).deep_view() }) == assign_step(
            scene.deep_view(),
            id@,
            key@,
            src@,
            inputs.deep_view(),
            prev.deep_view(),
            old(variables).deep_view(),
            host::oracle(*host),
        ),
{
    let mut next = prev.dup();
    next.last_error = None;
    if !is_rising(prev, inputs) {
        return (prev.last_value, next);
    }
    if key.as_str().is_empty() {
        next.last_error = Some("variable key is empty".to_owned());
        return (Some(false), next);
    }
    match evaluate_for(src, scene, id, inputs, variables, host) {
        Ok(v) => {
            write_value_outputs(&mut next, &v, host);
            variables.insert(key.clone(), v);
            (Some(true), next)
        },
        Err(m) => {
            next.last_error = Some(m);
            (Some(false), next)
        },
    }
}

/// The text of a variable; nothing where it is not set.
pub open spec fn variable_text(variables: Seq<(Seq<char>, ValueModel)>, key: Seq<char>, o: Oracle) -> Seq<char> {
    match table::lookup(variables, key) {
        Some(v) => coerce::text_for(v, o),
        None => ""@,
    }
}

/// What a block that watches a variable comes to: it passes on whether the
/// variable reads differently than before; the first time, whether it is set.
pub open spec fn watch_step(
    prev: NodeRuntimeStateModel,
    variables: Seq<(Seq<char>, ValueModel)>,
    key: Seq<char>,
    o: Oracle,
) -> (Option<bool>, NodeRuntimeStateModel) {
    let current = variable_text(variables, key, o);
    (
        Some(
            match prev.last_body {
                Some(seen) => seen != current,
                None => current.len() > 0,
            },
        ),
        NodeRuntimeStateModel { last_body: Some(current), outputs: only_value(current), ..unmarred(prev) },
    )
}

fn step_watch<H: Fn(Ask) -> Answer>(
    prev: &NodeRuntimeState,
    variables: &Table<Value>,
    key: &str,
    host: &H,
) -> (r: (Option<bool>, NodeRuntimeState))
    requires
        host::faithful(*host),
    ensures
        (r.0, r.1.deep_view()) == watch_step(
            prev.deep_view(),
            variables.deep_view(),
            key@,
            host::oracle(*host),
        ),
{
    let mut next = prev.dup();
    next.last_error = None;
    let current = match variables.get(key) {
        Some(v) => to_text(v, host),
        None => "".to_owned(),
    };
    proof {
        reveal_strlit("");
    }
    let changed = match &prev.last_body {
        Some(seen) => !same(seen.as_str(), current.as_str()),
        None => !current.as_str().is_empty(),
    };
    next.last_body = Some(current.clone());
    let mut outputs: Table<String> = Table::new();
    outputs.insert("value".to_owned(), current);
    next.outputs = outputs;
    (Some(changed), next)
}

/// The variable, or null.
pub open spec fn variable(variables: Seq<(Seq<char>, ValueModel)>, key: Seq<char>) -> ValueModel {
    match table::lookup(variables, key) {
        Some(v) => v,
        None => ValueModel::Null,
    }
}

/// What a block comes to in one tick.
#[verifier::opaque]
pub open spec fn node_step(
    s: SceneModel,
    node: AutomationNodeModel,
    inputs: Seq<IncomingInputModel>,
    prev: NodeRuntimeStateModel,
    variables: Seq<(Seq<char>, ValueModel)>,
    fetched: Option<ProbeOutcomeModel>,
    o: Oracle,
) -> Step {
    let next = unmarred(prev);
    match node.config {
        AutomationNodeConfigModel::ImmediateTrigger => if prev.last_checked_at_ms is None {
            Step {
                value: Some(true),
                state: NodeRuntimeStateModel { last_checked_at_ms: Some(s.tick_ms), ..next },
                variables,
            }
        } else {
            Step { value: Some(false), state: next, variables }
        },
        AutomationNodeConfigModel::CronTrigger { cron_trigger } => match cron_pulse(
            cron_trigger.cron,
            s.previous_tick_ms,
            s.tick_ms,
            o,
        ) {
            Ok(b) => Step { value: Some(b), state: next, variables },
            Err(m) => Step { value: Some(false), state: marred(prev, m), variables },
        },
        AutomationNodeConfigModel::IntervalTrigger { interval_trigger } => match interval_pulse(
            interval_trigger,
            s.tick_ms,
        ) {
            Some(b) => Step { value: Some(b), state: next, variables },
            None => Step { value: Some(false), state: marred(prev, "interval cycle is zero"@), variables },
        },
        AutomationNodeConfigModel::DeviceEventTrigger { device_event_trigger } => Step {
            value: device_pulse(
                device_event_trigger,
                table::lookup(s.readings, device_event_trigger.device_name),
            ),
            state: next,
            variables,
        },
        AutomationNodeConfigModel::Between { between } => {
            let t = host::local_in(o(AskModel::Local(time_fns::moment(s.tick_ms))));
            Step {
                value: Some(between_pulse(between, t.hour * 60 + t.minute, t.weekday as u8)),
                state: next,
                variables,
            }
        },
        AutomationNodeConfigModel::VariableChanged { variable_changed } => {
            let (value, state) = watch_step(prev, variables, variable_changed.key, o);
            Step { value, state, variables }
        },
        AutomationNodeConfigModel::HttpProbe { http_probe } => Step { value: None, state: next, variables },
        AutomationNodeConfigModel::HttpRequest { http_request } => {
            let (value, state) = request_step(s, http_request, inputs, prev, fetched);
            Step { value, state, variables }
        },
        AutomationNodeConfigModel::LogicAnd => Step { value: Some(all_true(inputs)), state: next, variables },
        AutomationNodeConfigModel::LogicOr => Step { value: Some(pulsed(inputs)), state: next, variables },
        AutomationNodeConfigModel::LogicNot => Step {
            value: match first_value(inputs) {
                Some(b) => Some(!b),
                None => None,
            },
            state: next,
            variables,
        },
        AutomationNodeConfigModel::IfCondition { if_condition } => {
            let (value, state) = if_step(s, node.id, if_condition, inputs, prev, variables, o);
            Step { value, state, variables }
        },
        AutomationNodeConfigModel::Debounce { debounce } => {
            let (value, pending_value, pending_since_ms) = debounced(
                prev,
                first_value(inputs),
                debounce.hold_seconds * 1000,
                s.tick_ms,
            );
            Step { value, state: NodeRuntimeStateModel { pending_value, pending_since_ms, ..next }, variables }
        },
        AutomationNodeConfigModel::Expression { expression } => {
            let (value, state) = expression_step(s, node.id, expression.expression, inputs, prev, variables, o);
            Step { value, state, variables }
        },
        AutomationNodeConfigModel::SetVariable { set_variable } => assign_step(
            s,
            node.id,
            set_variable.key,
            set_variable.expression,
            inputs,
            prev,
            variables,
            o,
        ),
        AutomationNodeConfigModel::GetVariable { get_variable } => Step {
            value: Some(pulsed(inputs)),
            state: holding(prev, variable(variables, get_variable.key), o),
            variables,
        },
        AutomationNodeConfigModel::SetDevice { .. } | AutomationNodeConfigModel::ToggleDevice { .. }
        | AutomationNodeConfigModel::FireHook { .. } => Step { value: Some(pulsed(inputs)), state: next, variables },
    }
}

/// Evaluates a block: the value that it passes on, and its new state. Where the
/// block makes a request in this tick, `fetched` is what came of it.
#[verifier::rlimit(40)]
pub fn evaluate_node<H: Fn(Ask) -> Answer>(
    scene: &Scene,
    node: &AutomationNode,
    inputs: &Vec<IncomingInput>,
    prev: &NodeRuntimeState,
    variables: &mut Table<Value>,
    fetched: Option<ProbeOutcome>,
    host: &H,
) -> (r: (Option<bool>, NodeRuntimeState))
    requires
        host::faithful(*host),
        request_due(scene.deep_view(), node.deep_view(), inputs.deep_view(), prev.deep_view()) is Some ==> fetched is Some,
    ensures
        (Step { value: r.0, state: r.1.deep_view(), variables: final(variables).deep_view() }) == node_step(
            scene.deep_view(),
            node.deep_view(),
            inputs.deep_view(),
            prev.deep_view(),
            old(variables).deep_view(),
            fetched.deep_view(),
            host::oracle(*host),
        ),
{
    reveal(node_step);
    let mut next = prev.dup();
    next.last_error = None;
    match &node.config {
        AutomationNodeConfig::ImmediateTrigger => {
            if prev.last_checked_at_ms.is_none() {
                next.last_checked_at_ms = Some(scene.tick_ms);
                (Some(true), next)
            } else {
                (Some(false), next)
            }
        },
        AutomationNodeConfig::CronTrigger { cron_trigger } => {
            match cron_fires(&cron_trigger.cron, scene.previous_tick_ms, scene.tick_ms, host) {
                Ok(b) => (Some(b), next),
                Err(m) => {
                    next.last_error = Some(m);
                    (Some(false), next)
                },
            }
        },
        AutomationNodeConfig::IntervalTrigger { interval_trigger } => {
            match interval_is_on(interval_trigger, scene.tick_ms) {
                Some(b) => (Some(b), next),
                None => {
                    next.last_error = Some("interval cycle is zero".to_owned());
                    (Some(false), next)
                },
            }
        },
        AutomationNodeConfig::DeviceEventTrigger { device_event_trigger } => (
            device_signal(device_event_trigger, scene.readings),
            next,
        ),
        AutomationNodeConfig::Between { between } => {
            let t = ask_local(host, Ask::Local(moment_ms(scene.tick_ms)));
            (Some(between_is_on(between, t.hour * 60 + t.minute, t.weekday as u8)), next)
        },
        AutomationNodeConfig::VariableChanged { variable_changed } => step_watch(
            prev,
            variables,
            variable_changed.key.as_str(),
            host,
        ),
        AutomationNodeConfig::HttpProbe { .. } => (None, next),
        AutomationNodeConfig::HttpRequest { http_request } => step_request(scene, http_request, inputs, prev, fetched),
        AutomationNodeConfig::LogicAnd => (Some(every_pulse(inputs)), next),
        AutomationNodeConfig::LogicOr => (Some(any_pulse(inputs)), next),
        AutomationNodeConfig::LogicNot => (
            match first_input(inputs) {
                Some(b) => Some(!b),
                None => None,
            },
            next,
        ),
        AutomationNodeConfig::IfCondition { if_condition } => step_if(
            scene,
            node.id.as_str(),
            if_condition,
            inputs,
            prev,
            variables,
            host,
        ),
        AutomationNodeConfig::Debounce { debounce } => {
            let (value, pending_value, pending_since_ms) = debounce_step(
                debounce,
                prev,
                first_input(inputs),
                scene.tick_ms,
            );
            next.pending_value = pending_value;
            next.pending_since_ms = pending_since_ms;
            (value, next)
        },
        AutomationNodeConfig::Expression { expression } => step_expression(
            scene,
            node.id.as_str(),
            expression.expression.as_str(),
            inputs,
            prev,
            variables,
            host,
        ),
        AutomationNodeConfig::SetVariable { set_variable } => step_assign(
            scene,
            node.id.as_str(),
            &set_variable.key,
            set_variable.expression.as_str(),
            inputs,
            prev,
            variables,
            host,
        ),
        AutomationNodeConfig::GetVariable { get_variable } => {
            let value = match variables.get(get_variable.key.as_str()) {
                Some(v) => v.dup(),
                None => Value::Null,
            };
            write_value_outputs(&mut next, &value, host);
            (Some(any_pulse(inputs)), next)
        },
        AutomationNodeConfig::SetDevice { .. } | AutomationNodeConfig::ToggleDevice { .. }
        | AutomationNodeConfig::FireHook { .. } => (Some(any_pulse(inputs)), next),
    }
}

// ---------- Laws of blocks ----------

/// A block that acts on rising edges stays at what it last came to while no
/// edge rises, and changes no variable: a request, an if, an expression or an
/// assignment runs once for each pulse.
pub proof fn blocks_hold_between_pulses(
    s: SceneModel,
    node: AutomationNodeModel,
    inputs: Seq<IncomingInputModel>,
    prev: NodeRuntimeStateModel,
    variables: Seq<(Seq<char>, ValueModel)>,
    fetched: Option<ProbeOutcomeModel>,
    o: Oracle,
)
    requires
        node.config is HttpRequest || node.config is IfCondition || node.config is Expression
            || node.config is SetVariable,
        !rises(prev, inputs),
    ensures
        request_due(s, node, inputs, prev) is None,
        node_step(s, node, inputs, prev, variables, fetched, o) == (Step {
            value: prev.last_value,
            state: unmarred(prev),
            variables,
        }),
{
    reveal(node_step);
}

/// Only a block that sets a variable changes the variables, and only its own.
pub proof fn only_assignments_change_variables(
    s: SceneModel,
    node: AutomationNodeModel,
    inputs: Seq<IncomingInputModel>,
    prev: NodeRuntimeStateModel,
    variables: Seq<(Seq<char>, ValueModel)>,
    fetched: Option<ProbeOutcomeModel>,
    o: Oracle,
    other: Seq<char>,
)
    requires
        node.config matches AutomationNodeConfigModel::SetVariable { set_variable } ==> other != set_variable.key,
    ensures
        table::lookup(node_step(s, node, inputs, prev, variables, fetched, o).variables, other) == table::lookup(
            variables,
            other,
        ),
{
    reveal(node_step);
    if let AutomationNodeConfigModel::SetVariable { set_variable } = node.config {
        if let Ok(v) = expr::evaluated(set_variable.expression, context(s, node.id, inputs, variables), o) {
            table::put_then_lookup(variables, set_variable.key, v, other);
        }
    }
}

/// A run that only looks ahead makes no request.
pub proof fn looking_ahead_sends_nothing(
    s: SceneModel,
    node: AutomationNodeModel,
    inputs: Seq<IncomingInputModel>,
    prev: NodeRuntimeStateModel,
)
    requires
        s.simulate,
    ensures
        request_due(s, node, inputs, prev) is None,
{
}

/// The immediate block fires in the first tick after a start and in no other.
pub proof fn immediate_fires_once(
    s: SceneModel,
    again: SceneModel,
    node: AutomationNodeModel,
    inputs: Seq<IncomingInputModel>,
    prev: NodeRuntimeStateModel,
    variables: Seq<(Seq<char>, ValueModel)>,
    o: Oracle,
)
    requires
        node.config is ImmediateTrigger,
        prev.last_checked_at_ms is None,
    ensures
        node_step(s, node, inputs, prev, variables, None, o).value == Some(true),
        node_step(
            again,
            node,
            inputs,
            node_step(s, node, inputs, prev, variables, None, o).state,
            variables,
            None,
            o,
        ).value == Some(false),
{
    reveal(node_step);
}

/// A debounce block passes a change on only once it has been pending for the
/// hold time, except that an input without a value is passed on at once.
pub proof fn debounce_waits(prev: NodeRuntimeStateModel, new_value: Option<bool>, hold_ms: int, now: u128)
    requires
        hold_ms > 0,
        new_value is Some,
        debounced(prev, new_value, hold_ms, now).0 != prev.last_value,
    ensures
        prev.pending_value == new_value,
        prev.pending_since_ms is Some,
        now - prev.pending_since_ms->0 >= hold_ms,
        debounced(prev, new_value, hold_ms, now).0 == new_value,
{
}

/// A NOT block passes on the opposite of what it gets, and nothing where it
/// gets nothing; one NOT block behind another gives back what the first got.
pub proof fn negation_turns_round(
    s: SceneModel,
    node: AutomationNodeModel,
    behind: AutomationNodeModel,
    source: Seq<char>,
    inputs: Seq<IncomingInputModel>,
    prev: NodeRuntimeStateModel,
    variables: Seq<(Seq<char>, ValueModel)>,
    fetched: Option<ProbeOutcomeModel>,
    o: Oracle,
)
    requires
        node.config is LogicNot,
        behind.config is LogicNot,
        inputs.len() > 0,
    ensures
        inputs[0].value == Some(true) ==> node_step(s, node, inputs, prev, variables, fetched, o).value == Some(false),
        inputs[0].value == Some(false) ==> node_step(s, node, inputs, prev, variables, fetched, o).value == Some(true),
        inputs[0].value is None ==> node_step(s, node, inputs, prev, variables, fetched, o).value is None,
        node_step(s, node, Seq::empty(), prev, variables, fetched, o).value is None,
        node_step(
            s,
            behind,
            seq![
                IncomingInputModel {
                    source_node: source,
                    value: node_step(s, node, inputs, prev, variables, fetched, o).value,
                },
            ],
            prev,
            variables,
            fetched,
            o,
        ).value == inputs[0].value,
{
    reveal(node_step);
}

/// An AND block is true where it has inputs and none is other than true; an
/// OR block where one of its inputs is true. Both say false otherwise.
pub proof fn gates_weigh_their_inputs(
    s: SceneModel,
    node: AutomationNodeModel,
    inputs: Seq<IncomingInputModel>,
    prev: NodeRuntimeStateModel,
    variables: Seq<(Seq<char>, ValueModel)>,
    fetched: Option<ProbeOutcomeModel>,
    o: Oracle,
)
    ensures
        node.config is LogicAnd || node.config is LogicOr ==> node_step(s, node, inputs, prev, variables, fetched, o).value
            is Some,
        node.config is LogicAnd ==> (node_step(s, node, inputs, prev, variables, fetched, o).value == Some(true)
            <==> inputs.len() > 0 && !exists|i: int| 0 <= i < inputs.len() && (#[trigger] inputs[i]).value != Some(true)),
        node.config is LogicOr ==> (node_step(s, node, inputs, prev, variables, fetched, o).value == Some(true)
            <==> exists|i: int| 0 <= i < inputs.len() && (#[trigger] inputs[i]).value == Some(true)),
{
    reveal(node_step);
}

/// A block that acts, or that hands a variable on, is true exactly while one of
/// its inputs is.
pub proof fn actions_follow_their_inputs(
    s: SceneModel,
    node: AutomationNodeModel,
    inputs: Seq<IncomingInputModel>,
    prev: NodeRuntimeStateModel,
    variables: Seq<(Seq<char>, ValueModel)>,
    fetched: Option<ProbeOutcomeModel>,
    o: Oracle,
)
    requires
        node.config is SetDevice || node.config is ToggleDevice || node.config is FireHook || node.config is GetVariable,
    ensures
        node_step(s, node, inputs, prev, variables, fetched, o).value == Some(
            exists|i: int| 0 <= i < inputs.len() && (#[trigger] inputs[i]).value == Some(true),
        ),
        node_step(s, node, inputs, prev, variables, fetched, o).state.last_error is None,
{
    reveal(node_step);
}

/// A cron block is true where its expression fires after the tick before and no
/// later than this one. An expression that cannot be read is told, and false.
pub proof fn calendar_blocks_fire_in_their_tick(
    s: SceneModel,
    node: AutomationNodeModel,
    cfg: CronTriggerCfgModel,
    inputs: Seq<IncomingInputModel>,
    prev: NodeRuntimeStateModel,
    variables: Seq<(Seq<char>, ValueModel)>,
    fetched: Option<ProbeOutcomeModel>,
    o: Oracle,
)
    requires
        node.config == (AutomationNodeConfigModel::CronTrigger { cron_trigger: cfg }),
        s.previous_tick_ms <= u64::MAX,
        s.tick_ms <= u64::MAX,
    ensures
        ({
            let step = node_step(s, node, inputs, prev, variables, fetched, o);
            let told = o(AskModel::Fires { cron: cfg.cron, after_ms: s.previous_tick_ms as u64 });
            let readable = schedules::cron_fault(schedules::crate_format(cfg.cron)) is None;
            &&& step.value is Some
            &&& readable ==> step.state.last_error is None
            &&& !readable ==> step.state.last_error is Some && step.value == Some(false)
            &&& readable ==> (told matches AnswerModel::Moment(Some(fire)) ==> (step.value == Some(true) <==> fire
                <= s.tick_ms))
            &&& told == AnswerModel::Moment(None) ==> step.value == Some(false)
        }),
{
    reveal(node_step);
}

/// An interval block goes in cycles from its start, each as long as both phases
/// together. It is on for the on seconds of a cycle and off for the rest, or the
/// other way about where it starts off. Before its start it stands as at the
/// start.
pub proof fn interval_blocks_go_in_cycles(
    s: SceneModel,
    node: AutomationNodeModel,
    cfg: IntervalTriggerCfg,
    inputs: Seq<IncomingInputModel>,
    prev: NodeRuntimeStateModel,
    variables: Seq<(Seq<char>, ValueModel)>,
    fetched: Option<ProbeOutcomeModel>,
    o: Oracle,
    cycle: int,
    into: int,
)
    requires
        node.config == (AutomationNodeConfigModel::IntervalTrigger { interval_trigger: cfg }),
        cfg.on_seconds + cfg.off_seconds <= u64::MAX,
        cycle >= 0,
        0 <= into < 1000 * (cfg.on_seconds + cfg.off_seconds),
    ensures
        ({
            let value = node_step(s, node, inputs, prev, variables, fetched, o).value;
            let begins = if cfg.starts_at_ms is Some {
                cfg.starts_at_ms->0 as int
            } else {
                0
            };
            let in_first = into < 1000 * cfg.on_seconds;
            &&& s.tick_ms == begins + cycle * (1000 * (cfg.on_seconds + cfg.off_seconds)) + into
                && cfg.start_action is On ==> value == Some(in_first)
            &&& s.tick_ms == begins + cycle * (1000 * (cfg.on_seconds + cfg.off_seconds)) + into
                && cfg.start_action is Off ==> value == Some(!in_first)
            &&& s.tick_ms < begins && cfg.on_seconds > 0 ==> value == Some(!(cfg.start_action is Off))
        }),
{
    reveal(node_step);
    let total = cfg.on_seconds + cfg.off_seconds;
    let passed = cycle * (1000 * total) + into;
    assert(cycle * (1000 * total) == 1000 * (cycle * total)) by (nonlinear_arith);
    assert(passed / 1000 == cycle * total + into / 1000);
    assert(cycle * total >= 0) by (nonlinear_arith)
        requires
            cycle >= 0,
            total >= 0,
    ;
    assert((cycle * total + into / 1000) % total == into / 1000) by {
        vstd::arithmetic::div_mod::lemma_mod_multiples_vanish(cycle, into / 1000, total);
        assert(total * cycle == cycle * total) by (nonlinear_arith);
        vstd::arithmetic::div_mod::lemma_small_mod((into / 1000) as nat, total as nat);
    }
    assert(0int % total == 0) by {
        vstd::arithmetic::div_mod::lemma_small_mod(0, total as nat);
    }
}

/// An interval block without a cycle is false and says so.
pub proof fn interval_blocks_need_a_cycle(
    s: SceneModel,
    node: AutomationNodeModel,
    cfg: IntervalTriggerCfg,
    inputs: Seq<IncomingInputModel>,
    prev: NodeRuntimeStateModel,
    variables: Seq<(Seq<char>, ValueModel)>,
    fetched: Option<ProbeOutcomeModel>,
    o: Oracle,
)
    requires
        node.config == (AutomationNodeConfigModel::IntervalTrigger { interval_trigger: cfg }),
    ensures
        node_step(s, node, inputs, prev, variables, fetched, o).state.last_error is Some <==> cfg.on_seconds
            + cfg.off_seconds == 0,
        cfg.on_seconds + cfg.off_seconds == 0 ==> node_step(s, node, inputs, prev, variables, fetched, o).value == Some(
            false,
        ),
{
    reveal(node_step);
}

/// A block that watches a device for on is true while the device is on, one for
/// off while it is off; one for offline while it is told to be out of reach,
/// one for online while it is not. What was not seen gives no value.
pub proof fn device_blocks_follow_the_device(
    s: SceneModel,
    node: AutomationNodeModel,
    cfg: DeviceEventTriggerCfgModel,
    inputs: Seq<IncomingInputModel>,
    prev: NodeRuntimeStateModel,
    variables: Seq<(Seq<char>, ValueModel)>,
    fetched: Option<ProbeOutcomeModel>,
    o: Oracle,
)
    requires
        node.config == (AutomationNodeConfigModel::DeviceEventTrigger { device_event_trigger: cfg }),
    ensures
        ({
            let value = node_step(s, node, inputs, prev, variables, fetched, o).value;
            let seen = table::lookup(s.readings, cfg.device_name);
            &&& seen is None ==> value is None
            &&& seen matches Some((on, offline)) ==> {
                &&& cfg.event is On ==> value == on
                &&& cfg.event is Off ==> (value is Some <==> on is Some) && (on is Some ==> value != on)
                &&& cfg.event is Offline ==> value == Some(offline)
                &&& cfg.event is Online ==> value is Some && value != Some(offline)
            }
        }),
{
    reveal(node_step);
}

/// A block that watches a variable is true in the tick in which its text is
/// not what the tick before saw. At the first look it is true where there is
/// a text at all. A second look at the same text is false.
pub proof fn watching_tells_changes(
    s: SceneModel,
    node: AutomationNodeModel,
    cfg: VariableChangedCfgModel,
    inputs: Seq<IncomingInputModel>,
    prev: NodeRuntimeStateModel,
    variables: Seq<(Seq<char>, ValueModel)>,
    fetched: Option<ProbeOutcomeModel>,
    o: Oracle,
)
    requires
        node.config == (AutomationNodeConfigModel::VariableChanged { variable_changed: cfg }),
    ensures
        ({
            let step = node_step(s, node, inputs, prev, variables, fetched, o);
            let now = match table::lookup(variables, cfg.key) {
                Some(v) => coerce::text_for(v, o),
                None => Seq::empty(),
            };
            &&& prev.last_body matches Some(seen) ==> (step.value == Some(true) <==> seen != now)
            &&& prev.last_body is None ==> (step.value == Some(true) <==> now.len() > 0)
            &&& step.value is Some
            &&& table::lookup(step.state.outputs, "value"@) == Some(now)
            &&& node_step(s, node, inputs, step.state, variables, fetched, o).value == Some(false)
        }),
{
    reveal(node_step);
    reveal_strlit("");
    assert(""@ =~= Seq::<char>::empty());
    let now = variable_text(variables, cfg.key, o);
    table::put_then_lookup(Seq::<(Seq<char>, Seq<char>)>::empty(), "value"@, now, "value"@);
}

/// A between block is open where one of its windows names the day, or names no
/// day, and holds the minute of the local clock. A window runs from its start
/// to its end with both included; where the end comes before the start it runs
/// through midnight. Without windows the block's own times count, on any day.
pub proof fn between_blocks_keep_their_windows(
    s: SceneModel,
    node: AutomationNodeModel,
    cfg: BetweenCfgModel,
    inputs: Seq<IncomingInputModel>,
    prev: NodeRuntimeStateModel,
    variables: Seq<(Seq<char>, ValueModel)>,
    fetched: Option<ProbeOutcomeModel>,
    o: Oracle,
    t: LocalTime,
    i: int,
)
    requires
        node.config == (AutomationNodeConfigModel::Between { between: cfg }),
        s.tick_ms <= u64::MAX,
        o(AskModel::Local(s.tick_ms as u64)) == AnswerModel::Local(t),
        t.wf(),
    ensures
        ({
            let value = node_step(s, node, inputs, prev, variables, fetched, o).value;
            let minute = 60 * t.hour + t.minute;
            &&& value is Some
            &&& cfg.windows.len() == 0 ==> (clock::minutes_of(cfg.start) matches Some(start) ==> clock::minutes_of(
                cfg.end,
            ) matches Some(end) ==> {
                &&& start <= end ==> (value == Some(true) <==> start <= minute <= end)
                &&& start > end ==> (value == Some(true) <==> minute >= start || minute <= end)
            })
            &&& cfg.windows.len() == 0 && (clock::minutes_of(cfg.start) is None || clock::minutes_of(cfg.end) is None)
                ==> value == Some(false)
            &&& 0 <= i < cfg.windows.len() && (cfg.windows[i].days.len() == 0 || cfg.windows[i].days.contains(
                t.weekday as u8,
            )) ==> (clock::minutes_of(cfg.windows[i].start) matches Some(start) ==> clock::minutes_of(
                cfg.windows[i].end,
            ) matches Some(end) ==> {
                &&& start <= minute <= end ==> value == Some(true)
                &&& start > end && (minute >= start || minute <= end) ==> value == Some(true)
            })
            &&& value == Some(true) && cfg.windows.len() > 0 ==> exists|j: int|
                0 <= j < cfg.windows.len() && ((#[trigger] cfg.windows[j]).days.len() == 0 || cfg.windows[j].days.contains(
                    t.weekday as u8,
                )) && clock::minutes_of(cfg.windows[j].start) is Some && clock::minutes_of(cfg.windows[j].end) is Some
        }),
{
    reveal(node_step);
    if 0 <= i < cfg.windows.len() {
        let w = cfg.windows[i];
        let minute = 60 * t.hour + t.minute;
        if window_open(w, minute, t.weekday as u8) {
            assert(between_pulse(cfg, minute, t.weekday as u8));
        }
    }
}

/// A request block takes up no answer until an input turns true. Then it is as
/// true as the answer passed, and hands the answer on: whether it succeeded,
/// the body, the status, the error. Without a URL it says so and is false.
pub proof fn requests_hand_their_answer_on(
    s: SceneModel,
    node: AutomationNodeModel,
    cfg: HttpRequestCfgModel,
    inputs: Seq<IncomingInputModel>,
    prev: NodeRuntimeStateModel,
    variables: Seq<(Seq<char>, ValueModel)>,
    outcome: ProbeOutcomeModel,
    o: Oracle,
    i: int,
)
    requires
        node.config == (AutomationNodeConfigModel::HttpRequest { http_request: cfg }),
        prev.last_value != Some(true),
        0 <= i < inputs.len(),
        inputs[i].value == Some(true),
        !s.simulate,
    ensures
        ({
            let step = node_step(s, node, inputs, prev, variables, Some(outcome), o);
            &&& cfg.url.len() > 0 ==> {
                &&& step.value == Some(outcome.passing)
                &&& step.state.last_error == outcome.error
                &&& step.state.last_body == outcome.body
                &&& step.state.last_status_code == outcome.status_code
                &&& step.state.last_checked_at_ms == Some(s.tick_ms)
                &&& outcome.passing ==> table::lookup(step.state.outputs, "succeeded"@) == Some("true"@)
                    && table::lookup(step.state.outputs, "value"@) == Some("true"@)
                &&& !outcome.passing ==> table::lookup(step.state.outputs, "succeeded"@) == Some("false"@)
                    && table::lookup(step.state.outputs, "value"@) == Some("false"@)
                &&& table::lookup(step.state.outputs, "body"@) == outcome.body
                &&& outcome.status_code matches Some(code) ==> table::lookup(step.state.outputs, "status_code"@) == Some(
                    text::decimal(code as nat),
                )
            }
            &&& cfg.url.len() > 0 ==> (request_due(s, node, inputs, prev) matches Some(asked) && asked.url == cfg.url
                && asked.method == cfg.method && asked.headers == cfg.headers && asked.body == cfg.body
                && asked.status_match == cfg.status_match && asked.body_contains is None)
            &&& cfg.url.len() == 0 ==> step.value == Some(false) && step.state.last_error is Some && request_due(
                s,
                node,
                inputs,
                prev,
            ) is None
        }),
{
    reveal(node_step);
    reveal_strlit("value");
    reveal_strlit("succeeded");
    reveal_strlit("body");
    reveal_strlit("status_code");
    assert("value"@.len() == 5 && "succeeded"@.len() == 9 && "body"@.len() == 4 && "status_code"@.len() == 11);
    let flag = coerce::bool_text(outcome.passing);
    let none = Seq::<(Seq<char>, Seq<char>)>::empty();
    let first = only_value(flag);
    let flags = table::put(first, "succeeded"@, flag);
    table::put_then_lookup(none, "value"@, flag, "body"@);
    table::put_then_lookup(first, "succeeded"@, flag, "value"@);
    table::put_then_lookup(first, "succeeded"@, flag, "body"@);
    assert(table::lookup(none, "body"@) is None);
    let with_body = match outcome.body {
        Some(body) => table::put(flags, "body"@, body),
        None => flags,
    };
    if let Some(body) = outcome.body {
        table::put_then_lookup(flags, "body"@, body, "value"@);
        table::put_then_lookup(flags, "body"@, body, "succeeded"@);
    }
    if let Some(code) = outcome.status_code {
        table::put_then_lookup(with_body, "status_code"@, text::decimal(code as nat), "value"@);
        table::put_then_lookup(with_body, "status_code"@, text::decimal(code as nat), "succeeded"@);
        table::put_then_lookup(with_body, "status_code"@, text::decimal(code as nat), "body"@);
    }
}

/// Looking ahead, a request block keeps the value that it has, and counts as
/// passed where it has none.
pub proof fn requests_ahead_count_as_passed(
    s: SceneModel,
    node: AutomationNodeModel,
    inputs: Seq<IncomingInputModel>,
    prev: NodeRuntimeStateModel,
    variables: Seq<(Seq<char>, ValueModel)>,
    fetched: Option<ProbeOutcomeModel>,
    o: Oracle,
    i: int,
)
    requires
        node.config is HttpRequest,
        s.simulate,
        0 <= i < inputs.len(),
        inputs[i].value == Some(true),
    ensures
        prev.last_value is None ==> node_step(s, node, inputs, prev, variables, fetched, o).value == Some(true),
        prev.last_value is Some ==> node_step(s, node, inputs, prev, variables, fetched, o).value == prev.last_value,
        node_step(s, node, inputs, prev, variables, fetched, o).state.outputs == prev.outputs,
{
    reveal(node_step);
}

/// When an input turns true, an if block with an expression is as true as what
/// the expression comes to, and an expression block too, which hands that on
/// as its value. An expression that fails is told, and counts as false.
pub proof fn expressions_decide(
    s: SceneModel,
    node: AutomationNodeModel,
    inputs: Seq<IncomingInputModel>,
    prev: NodeRuntimeStateModel,
    variables: Seq<(Seq<char>, ValueModel)>,
    fetched: Option<ProbeOutcomeModel>,
    o: Oracle,
    src: Seq<char>,
    i: int,
)
    requires
        node.config matches AutomationNodeConfigModel::IfCondition { if_condition } ==> if_condition.expression == src
            && text::trimmed(src).len() > 0,
        node.config matches AutomationNodeConfigModel::Expression { expression } ==> expression.expression == src,
        node.config is IfCondition || node.config is Expression,
        prev.last_value != Some(true),
        0 <= i < inputs.len(),
        inputs[i].value == Some(true),
    ensures
        ({
            let step = node_step(s, node, inputs, prev, variables, fetched, o);
            let found = expr::evaluated(src, context(s, node.id, inputs, variables), o);
            &&& found matches Ok(v) ==> step.value == Some(value::is_truthy(v)) && step.state.last_error is None
            &&& found matches Err(m) ==> step.value == Some(false) && step.state.last_error == Some(m)
            &&& found matches Ok(v) ==> node.config is Expression && !(v is Dict) ==> table::lookup(
                step.state.outputs,
                "value"@,
            ) == Some(coerce::text_for(v, o))
            &&& step.variables == variables
        }),
{
    reveal(node_step);
    if let Ok(v) = expr::evaluated(src, context(s, node.id, inputs, variables), o) {
        table::put_then_lookup(
            Seq::<(Seq<char>, Seq<char>)>::empty(),
            "value"@,
            coerce::text_for(v, o),
            "value"@,
        );
    }
}

/// When an input turns true, a block that sets a variable stores what its
/// expression comes to under its key, and says so; where the expression fails
/// or there is no key, nothing is stored and the block is false.
pub proof fn assignments_store_their_value(
    s: SceneModel,
    node: AutomationNodeModel,
    cfg: SetVariableCfgModel,
    inputs: Seq<IncomingInputModel>,
    prev: NodeRuntimeStateModel,
    variables: Seq<(Seq<char>, ValueModel)>,
    fetched: Option<ProbeOutcomeModel>,
    o: Oracle,
    i: int,
)
    requires
        node.config == (AutomationNodeConfigModel::SetVariable { set_variable: cfg }),
        prev.last_value != Some(true),
        0 <= i < inputs.len(),
        inputs[i].value == Some(true),
    ensures
        ({
            let step = node_step(s, node, inputs, prev, variables, fetched, o);
            let found = expr::evaluated(cfg.expression, context(s, node.id, inputs, variables), o);
            &&& cfg.key.len() > 0 ==> (found matches Ok(v) ==> table::lookup(step.variables, cfg.key) == Some(v)
                && step.value == Some(true) && step.state.last_error is None)
            &&& cfg.key.len() == 0 || found is Err ==> step.variables == variables && step.value == Some(false)
                && step.state.last_error is Some
        }),
{
    reveal(node_step);
    if let Ok(v) = expr::evaluated(cfg.expression, context(s, node.id, inputs, variables), o) {
        table::put_then_lookup(variables, cfg.key, v, cfg.key);
    }
}

/// A block that gets a variable hands its text on as its value, and an empty
/// text where the variable was never set.
pub proof fn variables_are_handed_on(
    s: SceneModel,
    node: AutomationNodeModel,
    cfg: GetVariableCfgModel,
    inputs: Seq<IncomingInputModel>,
    prev: NodeRuntimeStateModel,
    variables: Seq<(Seq<char>, ValueModel)>,
    fetched: Option<ProbeOutcomeModel>,
    o: Oracle,
    stored: Seq<char>,
)
    requires
        node.config == (AutomationNodeConfigModel::GetVariable { get_variable: cfg }),
    ensures
        table::lookup(variables, cfg.key) == Some(ValueModel::Text(stored)) ==> table::lookup(
            node_step(s, node, inputs, prev, variables, fetched, o).state.outputs,
            "value"@,
        ) == Some(stored),
        table::lookup(variables, cfg.key) is None ==> table::lookup(
            node_step(s, node, inputs, prev, variables, fetched, o).state.outputs,
            "value"@,
        ) == Some(Seq::<char>::empty()),
{
    reveal(node_step);
    table::put_then_lookup(Seq::<(Seq<char>, Seq<char>)>::empty(), "value"@, stored, "value"@);
    table::put_then_lookup(Seq::<(Seq<char>, Seq<char>)>::empty(), "value"@, Seq::empty(), "value"@);
}

/// A debounce block passes its input on once it has stood for the hold time:
/// at once where the hold time is nothing or the value is the one it has; else
/// it keeps its value and notes the new one with the moment it first came.
pub proof fn debounce_passes_what_stands(
    s: SceneModel,
    later: SceneModel,
    node: AutomationNodeModel,
    cfg: DebounceCfg,
    inputs: Seq<IncomingInputModel>,
    prev: NodeRuntimeStateModel,
    variables: Seq<(Seq<char>, ValueModel)>,
    fetched: Option<ProbeOutcomeModel>,
    o: Oracle,
    b: bool,
)
    requires
        node.config == (AutomationNodeConfigModel::Debounce { debounce: cfg }),
        inputs.len() > 0,
        inputs[0].value == Some(b),
        prev.pending_value is None,
        s.tick_ms <= later.tick_ms,
    ensures
        ({
            let first = node_step(s, node, inputs, prev, variables, fetched, o);
            let kept = NodeRuntimeStateModel { last_value: first.value, ..first.state };
            let second = node_step(later, node, inputs, kept, variables, fetched, o);
            &&& cfg.hold_seconds == 0 || prev.last_value == Some(b) ==> first.value == Some(b)
                && first.state.pending_value is None
            &&& cfg.hold_seconds > 0 && prev.last_value != Some(b) ==> {
                &&& first.value == prev.last_value
                &&& first.state.pending_value == Some(b)
                &&& first.state.pending_since_ms == Some(s.tick_ms)
                &&& later.tick_ms - s.tick_ms >= 1000 * cfg.hold_seconds ==> second.value == Some(b)
                    && second.state.pending_value is None
                &&& later.tick_ms - s.tick_ms < 1000 * cfg.hold_seconds ==> second.value == prev.last_value
                    && second.state.pending_since_ms == Some(s.tick_ms)
            }
        }),
{
    reveal(node_step);
}

/// An if block without an expression compares a field of what feeds it with a
/// text: of numbers, more and at most are opposites, as are less and at least,
/// and the two halves of at least are more and equal; a field that is missing
/// passes no comparison.
pub proof fn comparisons_of_numbers_complement(
    cfg: IfConditionCfgModel,
    source: Option<NodeRuntimeStateModel>,
    variables: Seq<(Seq<char>, ValueModel)>,
    devices: Seq<(Seq<char>, bool)>,
    o: Oracle,
    actual: Seq<char>,
    a: u64,
    b: u64,
    standing: Standing,
)
    requires
        if_field(cfg.field, source, variables, devices, o) == Some(actual),
        o(AskModel::Parse(text::trimmed(actual))) == AnswerModel::Bits(Some(a)),
        o(AskModel::Parse(text::trimmed(cfg.value))) == AnswerModel::Bits(Some(b)),
        o(AskModel::Compare(a, b)) == AnswerModel::Standing(Some(standing)),
    ensures
        cfg.op is Gt ==> (if_check(cfg, source, variables, devices, o) <==> standing is Greater),
        cfg.op is Lt ==> (if_check(cfg, source, variables, devices, o) <==> standing is Less),
        cfg.op is Gte ==> (if_check(cfg, source, variables, devices, o) <==> standing is Greater || standing is Equal),
        cfg.op is Lte ==> (if_check(cfg, source, variables, devices, o) <==> standing is Less || standing is Equal),
{
}

/// An if block's tests of texts: equal but for outer space; containing a text
/// that is not empty, at some place; being the word true; being a status that
/// lies in one of the ranges. A missing field or text that is no number passes
/// none of them.
pub proof fn comparisons_of_texts_hold(
    cfg: IfConditionCfgModel,
    source: Option<NodeRuntimeStateModel>,
    variables: Seq<(Seq<char>, ValueModel)>,
    devices: Seq<(Seq<char>, bool)>,
    o: Oracle,
    actual: Seq<char>,
    ahead: Seq<char>,
    behind: Seq<char>,
    code: u16,
)
    ensures
        if_field(cfg.field, source, variables, devices, o) is None ==> !if_check(cfg, source, variables, devices, o),
        if_field(cfg.field, source, variables, devices, o) == Some(actual) ==> {
            &&& cfg.op is IsTrue ==> (if_check(cfg, source, variables, devices, o) <==> actual == "true"@)
            &&& cfg.op is Equals ==> (if_check(cfg, source, variables, devices, o) <==> text::trimmed(actual)
                == text::trimmed(cfg.value))
            &&& cfg.op is Contains && cfg.value.len() > 0 && actual == ahead + cfg.value + behind ==> if_check(
                cfg,
                source,
                variables,
                devices,
                o,
            )
            &&& cfg.op is Contains && cfg.value.len() == 0 ==> !if_check(cfg, source, variables, devices, o)
            &&& cfg.op is Contains && if_check(cfg, source, variables, devices, o) ==> exists|at: int|
                0 <= at <= actual.len() - cfg.value.len() && #[trigger] actual.subrange(at, at + cfg.value.len())
                    == cfg.value
            &&& cfg.op is InRange && actual == text::decimal(code as nat) ==> (if_check(
                cfg,
                source,
                variables,
                devices,
                o,
            ) <==> (conditions::status_ranges(cfg.value) matches Ok(ranges) && exists|k: int|
                0 <= k < ranges.len() && (#[trigger] ranges[k]).start <= code <= ranges[k].end))
        },
{
    text::find_from_is_first(actual, cfg.value, 0);
    if actual == ahead + cfg.value + behind {
        assert(actual.subrange(ahead.len() as int, ahead.len() as int + cfg.value.len()) =~= cfg.value);
        assert(text::occurs_at(actual, cfg.value, ahead.len() as int));
    }
    if let Some(at) = text::find_from(actual, cfg.value, 0) {
        assert(actual.subrange(at, at + cfg.value.len()) == cfg.value);
    }
    text::unsigned_reads_decimal(code as nat, u16::MAX as nat);
}

/// The field of an if block is read where it says: behind `device:` whether the
/// device is on, behind `$` the variable, and else an output of the block that
/// feeds it, by name.
pub proof fn fields_are_read_where_they_say(
    name: Seq<char>,
    source: Option<NodeRuntimeStateModel>,
    variables: Seq<(Seq<char>, ValueModel)>,
    devices: Seq<(Seq<char>, bool)>,
    o: Oracle,
)
    ensures
        table::lookup(devices, text::trimmed(name)) == Some(true) ==> if_field(
            "device:"@ + name,
            source,
            variables,
            devices,
            o,
        ) == Some("true"@),
        table::lookup(devices, text::trimmed(name)) == Some(false) ==> if_field(
            "device:"@ + name,
            source,
            variables,
            devices,
            o,
        ) == Some("false"@),
        table::lookup(devices, text::trimmed(name)) is None ==> if_field(
            "device:"@ + name,
            source,
            variables,
            devices,
            o,
        ) is None,
        if_field("$"@ + name, source, variables, devices, o) == match table::lookup(variables, name) {
            Some(v) => Some(coerce::text_for(v, o)),
            None => None,
        },
        name.len() > 0 && name[0] != '$' && name[0] != 'd' ==> {
            &&& source is None ==> if_field(name, source, variables, devices, o) is None
            &&& source matches Some(state) ==> table::lookup(state.outputs, name) is Some ==> if_field(
                name,
                source,
                variables,
                devices,
                o,
            ) == table::lookup(state.outputs, name)
        },
{
    reveal_strlit("device:");
    reveal_strlit("$");
    let d = "device:"@ + name;
    let v = "$"@ + name;
    assert(d.subrange(0, 7) =~= "device:"@);
    assert(d.skip(7) =~= name);
    assert(v.subrange(0, 1) =~= "$"@);
    assert(v.skip(1) =~= name);
    assert(!text::begins(v, "device:"@)) by {
        if text::begins(v, "device:"@) {
            assert(v.subrange(0, 7)[0] == v[0]);
        }
    }
    if name.len() > 0 && name[0] != '$' && name[0] != 'd' {
        if text::begins(name, "device:"@) {
            assert(name.subrange(0, 7)[0] == name[0]);
        }
        if text::begins(name, "$"@) {
            assert(name.subrange(0, 1)[0] == name[0]);
        }
    }
}

/// What a block without an output of that name still shows: its last value as
/// `value` and `succeeded`, the last body and the last status.
pub proof fn blocks_show_their_last_answer(
    state: NodeRuntimeStateModel,
    variables: Seq<(Seq<char>, ValueModel)>,
    devices: Seq<(Seq<char>, bool)>,
    o: Oracle,
    code: u16,
)
    requires
        state.outputs.len() == 0,
    ensures
        state.last_value == Some(true) ==> if_field("value"@, Some(state), variables, devices, o) == Some("true"@),
        state.last_value == Some(false) ==> if_field("value"@, Some(state), variables, devices, o) == Some("false"@),
        if_field("succeeded"@, Some(state), variables, devices, o) == if_field(
            "value"@,
            Some(state),
            variables,
            devices,
            o,
        ),
        if_field("body"@, Some(state), variables, devices, o) == state.last_body,
        state.last_status_code == Some(code) ==> if_field("status_code"@, Some(state), variables, devices, o) == Some(
            text::decimal(code as nat),
        ),
{
    reveal_strlit("value");
    reveal_strlit("succeeded");
    reveal_strlit("body");
    reveal_strlit("status_code");
    assert("value"@.len() == 5 && "succeeded"@.len() == 9 && "body"@.len() == 4 && "status_code"@.len() == 11);
    assert("value"@[0] == 'v' && "succeeded"@[0] == 's' && "body"@[0] == 'b' && "status_code"@[0] == 's');
    field_is_no_prefix("value"@);
    field_is_no_prefix("succeeded"@);
    field_is_no_prefix("body"@);
    field_is_no_prefix("status_code"@);
}

proof fn field_is_no_prefix(name: Seq<char>)
    requires
        name.len() > 0,
        name[0] != '$',
        name[0] != 'd',
    ensures
        text::after_prefix(name, "device:"@) is None,
        text::after_prefix(name, "$"@) is None,
{
    reveal_strlit("device:");
    reveal_strlit("$");
    if text::begins(name, "device:"@) {
        assert(name.subrange(0, 7)[0] == name[0]);
    }
    if text::begins(name, "$"@) {
        assert(name.subrange(0, 1)[0] == name[0]);
    }
}

/// The expressions of a block see the variables and the devices of the moment,
/// and as their input the outputs of the block that feeds them, by name: those
/// of this run where it has run, else those of the tick before.
pub proof fn expressions_see_what_feeds_them(
    s: SceneModel,
    id: Seq<char>,
    inputs: Seq<IncomingInputModel>,
    variables: Seq<(Seq<char>, ValueModel)>,
    name: Seq<char>,
)
    requires
        inputs.len() > 0,
    ensures
        ({
            let ctx = context(s, id, inputs, variables);
            let source = inputs[0].source_node;
            let now = if s.fresh is Some {
                table::lookup(s.fresh->0, source)
            } else {
                None
            };
            let before = table::lookup(s.committed, source);
            &&& ctx.variables == variables
            &&& ctx.devices == s.devices
            &&& ctx.now_ms == s.tick_ms
            &&& now matches Some(state) ==> (table::lookup(state.outputs, name) matches Some(v) ==> table::lookup(
                ctx.input->Dict_0,
                name,
            ) == Some(ValueModel::Text(v)))
            &&& now is None ==> (before matches Some(state) ==> (table::lookup(state.outputs, name) matches Some(v)
                ==> table::lookup(ctx.input->Dict_0, name) == Some(ValueModel::Text(v))))
            &&& now is None && before is None ==> ctx.input == ValueModel::Dict(Seq::empty())
        }),
{
    if let Some(state) = source_state(s, inputs) {
        texts_are_looked_up(state.outputs, name, 0);
    }
}

proof fn texts_are_looked_up(outputs: Seq<(Seq<char>, Seq<char>)>, name: Seq<char>, from: int)
    requires
        0 <= from,
    ensures
        table::place_from(texts_dict(outputs), name, from) == table::place_from(outputs, name, from),
        from == 0 ==> (table::lookup(outputs, name) matches Some(v) ==> table::lookup(texts_dict(outputs), name) == Some(
            ValueModel::Text(v),
        )),
    decreases outputs.len() - from,
{
    if from < outputs.len() {
        texts_are_looked_up(outputs, name, from + 1);
    }
    table::place_from_facts(outputs, name, from);
}

/// A block whose value is a dictionary hands on each of its parts under its
/// name, and the whole under `value`.
pub proof fn parts_are_handed_on(parts: Seq<(Seq<char>, ValueModel)>, o: Oracle, k: int)
    requires
        table::sorted(parts),
        0 <= k < parts.len(),
    ensures
        table::lookup(value_outputs(ValueModel::Dict(parts), o), "value"@) == Some(
            coerce::text_for(ValueModel::Dict(parts), o),
        ),
        parts[k].0 != "value"@ ==> table::lookup(value_outputs(ValueModel::Dict(parts), o), parts[k].0) == Some(
            coerce::text_for(parts[k].1, o),
        ),
{
    let whole = coerce::text_for(ValueModel::Dict(parts), o);
    table::put_then_lookup(Seq::<(Seq<char>, Seq<char>)>::empty(), "value"@, whole, "value"@);
    parts_are_added(only_value(whole), parts, parts.len() as int, o, k);
}

proof fn parts_are_added(
    outputs: Seq<(Seq<char>, Seq<char>)>,
    parts: Seq<(Seq<char>, ValueModel)>,
    n: int,
    o: Oracle,
    k: int,
)
    requires
        table::sorted(parts),
        0 <= n <= parts.len(),
        0 <= k < parts.len(),
    ensures
        table::lookup(with_parts(outputs, parts, n, o), "value"@) == table::lookup(outputs, "value"@),
        k < n && parts[k].0 != "value"@ ==> table::lookup(with_parts(outputs, parts, n, o), parts[k].0) == Some(
            coerce::text_for(parts[k].1, o),
        ),
    decreases n,
{
    if n > 0 {
        parts_are_added(outputs, parts, n - 1, o, k);
        let before = with_parts(outputs, parts, n - 1, o);
        let last = parts[n - 1];
        table::put_then_lookup(before, last.0, coerce::text_for(last.1, o), "value"@);
        table::put_then_lookup(before, last.0, coerce::text_for(last.1, o), parts[k].0);
        if k < n - 1 {
            assert(text::before(parts[k].0, parts[n - 1].0));
            text::before_is_total(parts[k].0, parts[k].0);
        }
    }
}

/// An if block without an expression comes to what its comparison says of the
/// block that feeds it.
pub proof fn fields_decide(
    s: SceneModel,
    node: AutomationNodeModel,
    cfg: IfConditionCfgModel,
    inputs: Seq<IncomingInputModel>,
    prev: NodeRuntimeStateModel,
    variables: Seq<(Seq<char>, ValueModel)>,
    fetched: Option<ProbeOutcomeModel>,
    o: Oracle,
)
    requires
        node.config == (AutomationNodeConfigModel::IfCondition { if_condition: cfg }),
        text::trimmed(cfg.expression).len() == 0,
        prev.last_value != Some(true),
        inputs.len() > 0,
        inputs[0].value == Some(true),
        s.fresh is None,
    ensures
        node_step(s, node, inputs, prev, variables, fetched, o).value == Some(
            if_check(cfg, table::lookup(s.committed, inputs[0].source_node), variables, s.devices, o),
        ),
        node_step(s, node, inputs, prev, variables, fetched, o).state.last_error is None,
{
    reveal(node_step);
    assert(inputs[0].value == Some(true));
}

/// A block's expressions draw their random numbers for the automation and the
/// block that they stand in.
pub proof fn scopes_name_their_block(
    s: SceneModel,
    id: Seq<char>,
    inputs: Seq<IncomingInputModel>,
    variables: Seq<(Seq<char>, ValueModel)>,
)
    ensures
        context(s, id, inputs, variables).scope == "auto/"@ + s.automation_id + "/node/"@ + id,
        text::finishes(context(s, id, inputs, variables).scope, id),
{
    text::ends_are_what_stands_there("auto/"@ + s.automation_id + "/node/"@, id, id);
}

} // verus!
