use fusebox::actions::{HookEvent, ScheduleAction};
use fusebox::automations::api::{
    create_automation, delete_automation, export_automation, import_automation, list_automations, preview_expression,
    update_automation, validate_automation_graph, CreateAutomationRequest, UpdateAutomationRequest,
};
use fusebox::automations::cycles::{has_cycle_dfs, DONE};
use fusebox::automations::dry_run::begin_dry_run;
use fusebox::automations::flow::{execute_action, Deed};
use fusebox::automations::forecast::simulate_forecast;
use fusebox::automations::host::{Answer, Ask, BinaryMath, LocalTime, Standing, UnaryMath};
use fusebox::automations::tick::{begin_tick, commit_tick};
use fusebox::automations::types::{
    Automation, AutomationEdge, AutomationNode, AutomationNodeConfig, AutomationStatus, DebounceCfg,
    DeviceEventTriggerCfg, ExpressionCfg,
    HttpRequestCfg, IntervalTriggerCfg, SetDeviceCfg, SetVariableCfg, ToggleDeviceCfg,
};
use fusebox::calendar::{
    current_quarter_start, current_year_start, date_start_datetime, day_number, stamp_at, stamp_text, year_start, Stamp,
};
use fusebox::conditions::judge_response;
use fusebox::devices::{
    device_views, get_device_view, managed_device_from_config, DeviceConfig, DeviceIntent, DeviceModel,
    DeviceSnapshot, EnergySnapshot, ManagedDevice,
};
use fusebox::energy::{
    add_readings, build_usage_history, collect_export_table, export_devices, export_specs, history_question,
    monitoring_fault, row_total, split_datetime_ranges,
    usage_history_range, usage_history_start_datetime, DeviceReadings, ExportKind, ExportRow, ReadOutcome,
    Reading, UsageHistoryKind, UsageHistoryStart,
};
use fusebox::hooks::HookConfig;
use fusebox::schedules::next_cron_fire;
use fusebox::settings::check_energy_price;
use fusebox::sheets::{error_cells, sheet_cells, Cell, ExportError};
use fusebox::table::Table;
use fusebox::time::local_time;
use fusebox::value::{Number, Value};

// Doubles, JSON and the calendar, as a program hands them to the library.

fn double(bits: u64) -> f64 {
    f64::from_bits(bits)
}

fn bits(value: f64) -> Answer {
    Answer::Bits(Some(value.to_bits()))
}

fn to_json(value: &Value) -> serde_json::Value {
    match value {
        Value::Null => serde_json::Value::Null,
        Value::Bool(b) => serde_json::Value::Bool(*b),
        Value::Number(Number::PosInt(n)) => serde_json::Value::from(*n),
        Value::Number(Number::NegInt(n)) => serde_json::Value::from(*n),
        Value::Number(Number::Float(b)) => serde_json::Value::from(double(*b)),
        Value::Text(s) => serde_json::Value::String(s.clone()),
        Value::List(items) => serde_json::Value::Array(items.iter().map(to_json).collect()),
        Value::Dict(table) => serde_json::Value::Object(
            table.entries.iter().map(|(key, value)| (key.clone(), to_json(value))).collect(),
        ),
    }
}

fn from_json(value: &serde_json::Value) -> Value {
    match value {
        serde_json::Value::Null => Value::Null,
        serde_json::Value::Bool(b) => Value::Bool(*b),
        serde_json::Value::Number(n) => Value::Number(from_number(n)),
        serde_json::Value::String(s) => Value::Text(s.clone()),
        serde_json::Value::Array(items) => Value::List(items.iter().map(from_json).collect()),
        serde_json::Value::Object(map) => {
            let mut table = Table::new();
            for (key, value) in map {
                table.insert(key.clone(), from_json(value));
            }
            Value::Dict(table)
        }
    }
}

fn from_number(n: &serde_json::Number) -> Number {
    if let Some(u) = n.as_u64() {
        Number::PosInt(u)
    } else if let Some(i) = n.as_i64() {
        Number::NegInt(i)
    } else {
        Number::Float(n.as_f64().unwrap_or(f64::NAN).to_bits())
    }
}

fn show(value: f64) -> String {
    if value.is_nan() {
        "NaN".to_string()
    } else if value == value.trunc() && value.is_finite() && value.abs() < 1e15 {
        format!("{}", value as i64)
    } else {
        format!("{value}")
    }
}

fn host(ask: Ask) -> Answer {
    match ask {
        Ask::Parse(s) => Answer::Bits(s.parse::<f64>().ok().map(f64::to_bits)),
        Ask::Unsigned(n) => bits(n as f64),
        Ask::Signed(n) => bits(n as f64),
        Ask::Unary(op, a) => {
            let x = double(a);
            bits(match op {
                UnaryMath::Neg => -x,
                UnaryMath::Abs => x.abs(),
                UnaryMath::Round => x.round(),
                UnaryMath::Floor => x.floor(),
                UnaryMath::Ceil => x.ceil(),
                UnaryMath::Trunc => x.trunc(),
                UnaryMath::Sqrt => x.sqrt(),
            })
        }
        Ask::Binary(op, a, b) => {
            let (x, y) = (double(a), double(b));
            bits(match op {
                BinaryMath::Add => x + y,
                BinaryMath::Sub => x - y,
                BinaryMath::Mul => x * y,
                BinaryMath::Div => x / y,
                BinaryMath::Rem => x % y,
                BinaryMath::Pow => x.powf(y),
                BinaryMath::Min => x.min(y),
                BinaryMath::Max => x.max(y),
                BinaryMath::RoundTo => {
                    let scale = 10f64.powi(y.max(0.0) as i32);
                    (x * scale).round() / scale
                }
            })
        }
        Ask::Compare(a, b) => Answer::Standing(double(a).partial_cmp(&double(b)).map(|by| match by {
            std::cmp::Ordering::Less => Standing::Less,
            std::cmp::Ordering::Equal => Standing::Equal,
            std::cmp::Ordering::Greater => Standing::Greater,
        })),
        Ask::Whole(a) => Answer::Whole(double(a).max(0.0) as u64),
        Ask::Number(a) => {
            let x = double(a);
            Answer::Number(if !x.is_finite() {
                None
            } else if x.fract() == 0.0 && x.abs() < 9_007_199_254_740_992.0 {
                Some(from_number(&serde_json::Number::from(x as i64)))
            } else {
                Some(Number::Float(a))
            })
        }
        Ask::Show(a) => Answer::Text(show(double(a))),
        Ask::Debug(a) => Answer::Text(format!("{:?}", double(a))),
        Ask::Encode(v) => Answer::Text(serde_json::to_string(&to_json(&v)).unwrap_or_default()),
        Ask::Pretty(v) => Answer::Text(serde_json::to_string_pretty(&to_json(&v)).unwrap_or_default()),
        Ask::Decode(s) => Answer::Value(
            serde_json::from_str::<serde_json::Value>(&s).map(|v| from_json(&v)).map_err(|e| e.to_string()),
        ),
        Ask::Local(ms) => Answer::Local(local_time(ms).unwrap_or(LocalTime {
            year: 1970,
            month: 1,
            day: 1,
            hour: 0,
            minute: 0,
            second: 0,
            weekday: 4,
        })),
        Ask::Fires { cron, after_ms } => Answer::Moment(next_cron_fire(&cron, after_ms as i64)),
        Ask::Random { .. } => bits(0.25),
    }
}

fn json(text: &str) -> serde_json::Value {
    serde_json::from_str(text).unwrap()
}

fn table<V>(mut entries: Vec<(&str, V)>) -> Table<V> {
    entries.sort_by(|a, b| a.0.cmp(b.0));
    Table { entries: entries.into_iter().map(|(key, value)| (key.to_string(), value)).collect() }
}

fn node(id: &str, config: AutomationNodeConfig) -> AutomationNode {
    AutomationNode { id: id.to_string(), config, x: 0, y: 0 }
}

fn edge(source: &str, target: &str) -> AutomationEdge {
    AutomationEdge {
        id: format!("{source}-{target}"),
        source_node: source.to_string(),
        target_node: target.to_string(),
        source_socket: "out".to_string(),
        target_socket: "in".to_string(),
    }
}

fn automation(nodes: Vec<AutomationNode>, edges: Vec<AutomationEdge>) -> Automation {
    Automation {
        id: "a".to_string(),
        name: "A".to_string(),
        enabled: true,
        nodes,
        edges,
        created_at_ms: 0,
        variables: Table::new(),
        status: AutomationStatus { last_fired_at_ms: None, last_error: None, node_states: Table::new() },
    }
}

fn expression(src: &str) -> AutomationNodeConfig {
    AutomationNodeConfig::Expression { expression: ExpressionCfg { expression: src.to_string() } }
}

fn fan_turns_on() -> AutomationNodeConfig {
    AutomationNodeConfig::DeviceEventTrigger {
        device_event_trigger: DeviceEventTriggerCfg { device_name: "fan".to_string(), event: HookEvent::On },
    }
}

fn set_device(action: ScheduleAction) -> AutomationNodeConfig {
    AutomationNodeConfig::SetDevice { set_device: SetDeviceCfg { device_name: "lamp".to_string(), action } }
}

fn set_variable(key: &str, src: &str) -> AutomationNodeConfig {
    AutomationNodeConfig::SetVariable {
        set_variable: SetVariableCfg { key: key.to_string(), expression: src.to_string() },
    }
}

fn snapshot(on: bool) -> DeviceSnapshot {
    DeviceSnapshot {
        device_model: "P110".to_string(),
        device_type: "Plug with Energy Monitoring".to_string(),
        nickname: "Lights".to_string(),
        device_on: on,
        on_time_seconds: 120,
        energy: Some(EnergySnapshot {
            current_power_mw: Some(12_000),
            current_power_w: Some(12),
            today_energy_wh: 1500,
            month_energy_wh: 12_000,
            today_runtime_minutes: 80,
            month_runtime_minutes: 900,
        }),
    }
}

fn device(name: &str, model: DeviceModel) -> ManagedDevice {
    managed_device_from_config(
        name.to_string(),
        DeviceConfig { ip: "192.168.0.40".to_string(), model, model_name: format!("{model:?}") },
        1,
    )
}

// Runs one tick, and gives back the actions that fired.
fn run_tick(a: &mut Automation, readings: &Table<(Option<bool>, bool)>, at: u128) -> Vec<String> {
    let devices = Table::new();
    let committed = std::mem::replace(&mut a.status.node_states, Table::new());
    let mut tick = begin_tick(a, &committed, at - 1_000, at).unwrap();
    while !tick.is_done() {
        let fetched = tick
            .pending_request(a, &committed, &devices, readings)
            .map(|condition| judge_response(&condition, 200, "{\"n\":5}".to_string()));
        tick.advance(a, &committed, &devices, readings, fetched, &host);
    }
    let fired = tick.fired.iter().map(|firing| firing.node_id.clone()).collect();
    a.status.node_states = committed;
    commit_tick(a, tick, &host);
    fired
}

#[test]
fn actions_fire_when_their_input_turns_true() {
    let mut a = automation(
        vec![node("e", fan_turns_on()), node("d", set_device(ScheduleAction::On))],
        vec![edge("e", "d")],
    );
    let off = table(vec![("fan", (Some(false), false))]);
    let on = table(vec![("fan", (Some(true), false))]);
    assert!(run_tick(&mut a, &off, 10_000).is_empty());
    assert_eq!(run_tick(&mut a, &on, 11_000), vec!["d".to_string()]);
    assert!(run_tick(&mut a, &on, 12_000).is_empty());
    assert!(run_tick(&mut a, &off, 13_000).is_empty());
    assert_eq!(run_tick(&mut a, &on, 14_000), vec!["d".to_string()]);
}

#[test]
fn immediate_triggers_fire_once() {
    let mut a = automation(
        vec![node("i", AutomationNodeConfig::ImmediateTrigger), node("d", set_device(ScheduleAction::Off))],
        vec![edge("i", "d")],
    );
    let devices = Table::new();
    assert_eq!(run_tick(&mut a, &devices, 10_000), vec!["d".to_string()]);
    assert!(run_tick(&mut a, &devices, 11_000).is_empty());
    assert!(run_tick(&mut a, &devices, 12_000).is_empty());
}

#[test]
fn variables_keep_what_is_assigned() {
    let mut a = automation(
        vec![node("i", AutomationNodeConfig::ImmediateTrigger), node("v", set_variable("n", "coalesce($n, 0) + 2"))],
        vec![edge("i", "v")],
    );
    let devices = Table::new();
    run_tick(&mut a, &devices, 10_000);
    assert_eq!(to_json(a.variables.get("n").unwrap()), json("2"));
    run_tick(&mut a, &devices, 11_000);
    assert_eq!(to_json(a.variables.get("n").unwrap()), json("2"));
}

#[test]
fn requests_feed_the_blocks_behind_them() {
    let request = AutomationNodeConfig::HttpRequest {
        http_request: HttpRequestCfg {
            url: "https://example.test".to_string(),
            method: "GET".to_string(),
            headers: Table::new(),
            body: None,
            status_match: "200".to_string(),
        },
    };
    let mut a = automation(
        vec![
            node("i", AutomationNodeConfig::ImmediateTrigger),
            node("r", request),
            node("v", set_variable("n", "jsonDecode(input.body).n")),
        ],
        vec![edge("i", "r"), edge("r", "v")],
    );
    // A live block reads what the block before it gave a tick ago.
    let readings = Table::new();
    run_tick(&mut a, &readings, 10_000);
    assert!(a.variables.get("n").is_none());
    assert_eq!(a.status.node_states.get("r").unwrap().last_status_code, Some(200));

    // A trial reads what was fetched just now.
    let devices = Table::new();
    let hooks: Table<HookConfig> = Table::new();
    let mut run = begin_dry_run(&a, None, false, 20_000).ok().unwrap();
    let mut sent = 0;
    while !run.is_done() {
        let fetched = run.pending_request(&a, &devices, &readings).map(|condition| {
            sent += 1;
            judge_response(&condition, 200, "{\"n\":5}".to_string())
        });
        run.advance(&a, &devices, &readings, &hooks, fetched, &host);
    }
    assert_eq!(sent, 1);
    assert_eq!(run.results[2].outputs.get("value").map(String::as_str), Some("5"));
}

#[test]
fn debounced_inputs_must_hold() {
    let debounce = AutomationNodeConfig::Debounce { debounce: DebounceCfg { hold_seconds: 5 } };
    let mut a = automation(
        vec![
            node("e", fan_turns_on()),
            node("b", debounce),
            node("d", set_device(ScheduleAction::On)),
        ],
        vec![edge("e", "b"), edge("b", "d")],
    );
    let on = table(vec![("fan", (Some(true), false))]);
    let mut fired = Vec::new();
    for second in 10..20u128 {
        for id in run_tick(&mut a, &on, second * 1_000) {
            fired.push((second, id));
        }
    }
    assert_eq!(fired, vec![(15, "d".to_string())]);
}

#[test]
fn graphs_are_checked() {
    let check = |nodes: Vec<AutomationNode>, edges: Vec<AutomationEdge>| {
        validate_automation_graph(&nodes, &edges, &host)
    };
    let two = || vec![node("x", AutomationNodeConfig::LogicOr), node("y", AutomationNodeConfig::LogicOr)];
    assert!(check(two(), vec![edge("x", "y")]).is_ok());
    assert_eq!(check(two(), vec![edge("x", "z")]).unwrap_err(), "edge target 'z' not found");
    assert_eq!(check(two(), vec![edge("z", "y")]).unwrap_err(), "edge source 'z' not found");
    assert_eq!(check(two(), vec![edge("x", "x")]).unwrap_err(), "self-edge on node 'x' is not allowed");
    assert_eq!(
        check(two(), vec![edge("x", "y"), edge("y", "x")]).unwrap_err(),
        "automation graph contains a cycle",
    );
    assert_eq!(
        check(vec![node("x", AutomationNodeConfig::LogicOr), node("x", AutomationNodeConfig::LogicOr)], vec![])
            .unwrap_err(),
        "duplicate node id 'x'",
    );
    assert!(check(vec![node("x", expression("1 +"))], vec![]).is_err());
}

fn request() -> CreateAutomationRequest {
    CreateAutomationRequest {
        name: " Lamp ".to_string(),
        enabled: true,
        nodes: vec![node("i", AutomationNodeConfig::ImmediateTrigger), node("d", set_device(ScheduleAction::On))],
        edges: vec![edge("i", "d")],
    }
}

#[test]
fn automations_are_made_changed_and_removed() {
    let mut automations = Table::new();
    create_automation(&mut automations, request(), "a1".to_string(), 5, &host).unwrap();
    assert_eq!(automations.get("a1").unwrap().name, "Lamp");
    let change = UpdateAutomationRequest { name: None, enabled: Some(false), nodes: None, edges: None };
    update_automation(&mut automations, "a1", change, &host).unwrap();
    assert!(!automations.get("a1").unwrap().enabled);
    let change = UpdateAutomationRequest { name: None, enabled: None, nodes: None, edges: Some(vec![edge("d", "d")]) };
    assert!(update_automation(&mut automations, "a1", change, &host).is_err());
    assert_eq!(list_automations(&automations).len(), 1);
    delete_automation(&mut automations, "a1").unwrap();
    assert!(delete_automation(&mut automations, "a1").is_err());
}

#[test]
fn imports_bring_back_exports() {
    let mut automations = Table::new();
    create_automation(&mut automations, request(), "a1".to_string(), 5, &host).unwrap();
    let export = export_automation(&automations, "a1", "kind", 1).ok().unwrap();
    import_automation(&mut automations, export, "kind", 1, "a2".to_string(), 6, &host).unwrap();
    let copy = automations.get("a2").unwrap();
    assert_eq!(copy.name, "Lamp");
    assert_eq!(copy.nodes.len(), 2);
    assert_eq!(copy.edges.len(), 1);
    let export = export_automation(&automations, "a1", "other", 1).ok().unwrap();
    assert!(import_automation(&mut automations, export, "kind", 1, "a3".to_string(), 6, &host).is_err());
    assert!(export_automation(&automations, "a9", "kind", 1).is_err());
}

#[test]
fn previews_show_values_and_errors() {
    let mut automations = Table::new();
    create_automation(&mut automations, request(), "a1".to_string(), 5, &host).unwrap();
    let devices = Table::new();
    let shown = preview_expression(&automations, "a1", "1 + 1", None, &devices, 7, &host).ok().unwrap();
    assert!(shown.ok);
    assert_eq!(to_json(&shown.result.unwrap()), json("2"));
    assert_eq!(shown.result_text.as_deref(), Some("2"));
    let shown = preview_expression(&automations, "a1", "bogus()", None, &devices, 7, &host).ok().unwrap();
    assert!(!shown.ok);
    assert_eq!(shown.error.as_deref(), Some("unknown function 'bogus'"));
}

#[test]
fn trial_runs_act_on_nothing() {
    let a = automation(
        vec![node("i", AutomationNodeConfig::ImmediateTrigger), node("d", set_device(ScheduleAction::On))],
        vec![edge("i", "d")],
    );
    let devices = Table::new();
    let readings = Table::new();
    let hooks: Table<HookConfig> = Table::new();
    let mut run = begin_dry_run(&a, None, true, 10_000).ok().unwrap();
    while !run.is_done() {
        assert!(run.pending_request(&a, &devices, &readings).is_none());
        run.advance(&a, &devices, &readings, &hooks, None, &host);
    }
    assert_eq!(run.results.len(), 2);
    assert_eq!(run.results[1].node_id, "d");
    assert_eq!(run.results[1].value, Some(true));
    assert!(run.results[1].action.is_some());
    assert!(begin_dry_run(&a, Some("nope".to_string()), true, 10_000).is_err());
    let target = begin_dry_run(&a, Some("i".to_string()), true, 10_000).ok().unwrap();
    assert_eq!(target.order, vec!["i".to_string()]);
}

#[test]
fn forecasts_follow_the_clock() {
    let trigger = AutomationNodeConfig::IntervalTrigger {
        interval_trigger: IntervalTriggerCfg {
            on_seconds: 60,
            off_seconds: 60,
            start_action: ScheduleAction::On,
            starts_at_ms: Some(0),
        },
    };
    let a = automation(
        vec![node("t", trigger), node("d", AutomationNodeConfig::ToggleDevice {
            toggle_device: ToggleDeviceCfg { device_name: "lamp".to_string() },
        })],
        vec![edge("t", "d")],
    );
    let automations = table(vec![("a", a)]);
    let devices = table(vec![("lamp", false)]);
    let events = simulate_forecast(&automations, &devices, &Table::new(), 600_000, 1_200_000, 30_000, &host);
    assert!(!events.is_empty());
    for pair in events.windows(2) {
        assert!(pair[0].at_ms <= pair[1].at_ms);
    }
    for pair in events.windows(2) {
        assert_ne!(pair[0].action, pair[1].action);
    }
    for event in &events {
        assert!(event.at_ms >= 600_000 && event.at_ms <= 1_800_000);
        assert_eq!((event.at_ms - 600_000) % 30_000, 0);
        assert_eq!(event.device_name, "lamp");
    }
}

#[test]
fn actions_name_what_they_do() {
    let mut on = device("lamp", DeviceModel::P110);
    on.snapshot = Some(snapshot(true));
    let devices = table(vec![("lamp", on)]);
    let hooks: Table<HookConfig> = Table::new();
    match execute_action(&set_device(ScheduleAction::Toggle), &devices, &hooks) {
        Ok(Deed::Intend { device_name, target }) => {
            assert_eq!(device_name, "lamp");
            assert!(!target);
        }
        _ => panic!("a toggle turns a device that is on off"),
    }
    assert!(execute_action(&set_device(ScheduleAction::Toggle), &Table::new(), &hooks).is_err());
}

fn check_renders_snapshot_backed_device_view() {
    let mut lights = device("lights", DeviceModel::P110);
    lights.snapshot = Some(snapshot(true));
    lights.updated_at_ms = Some(2);
    let intent = DeviceIntent { schedule_intent: None, manual_override: None, manual_override_until_ms: None };

    let view = lights.view(30.0f64.to_bits(), intent, None, &host);

    assert_eq!(view.name, "lights");
    assert_eq!(view.nickname, "Lights");
    assert_eq!(view.device_on, Some(true));
    assert_eq!(view.on_time_seconds, Some(120));
    assert_eq!(double(view.energy.unwrap().today_cost_pence), 45.0);
}

#[test]
fn views_without_a_reading_fall_back() {
    let devices = table(vec![("lights", device("lights", DeviceModel::P115))]);
    let price = 30.0f64.to_bits();
    let view = get_device_view(&devices, &Table::new(), &Table::new(), price, "lights", &host).ok().unwrap();
    assert_eq!(view.nickname, "lights");
    assert_eq!(view.device_type, "Tapo device");
    assert_eq!(view.model, "P115");
    assert_eq!(view.device_on, None);
    assert!(get_device_view(&devices, &Table::new(), &Table::new(), price, "fan", &host).is_err());
    assert_eq!(device_views(&devices, &Table::new(), &Table::new(), price, &host).len(), 1);
}

#[test]
fn prices_are_checked() {
    assert!(check_energy_price(27.03f64.to_bits(), &host).is_ok());
    assert!(check_energy_price(0.0f64.to_bits(), &host).is_ok());
    assert!(check_energy_price(1000.0f64.to_bits(), &host).is_ok());
    for bad in [-0.5, 1000.5, f64::INFINITY, f64::NAN] {
        assert_eq!(
            check_energy_price(bad.to_bits(), &host).unwrap_err(),
            "FUSEBOX_ENERGY_PRICE_PENCE_PER_KWH must be between 0 and 1000",
        );
    }
}

const HOUR: i128 = 3_600_000_000_000;
const SECOND: i128 = 1_000_000_000;

fn check_splits_power_export_ranges_at_tapo_limits() {
    let start: i128 = 1_767_225_600 * SECOND;
    let end = start + 24 * HOUR;

    let ranges = split_datetime_ranges(start, end, 12 * HOUR);

    assert_eq!(ranges.len(), 2);
    assert_eq!(ranges[0], (start, start + 12 * HOUR));
    assert_eq!(ranges[1], (start + 12 * HOUR, end));
}

fn check_maps_long_usage_ranges_to_energy_history() {
    let three_months = usage_history_range(Some("3m"));
    let ytd = usage_history_range(Some("ytd"));
    let all_time = usage_history_range(Some("all"));

    assert_eq!(three_months.key, "3m");
    assert_eq!(three_months.unit, "kWh");
    assert!(matches!(three_months.kind, UsageHistoryKind::EnergyDaily));
    assert!(matches!(ytd.start, UsageHistoryStart::YearToDate));
    assert!(matches!(all_time.kind, UsageHistoryKind::EnergyMonthly));
}

fn day(year: i32, month: u32, day: u32) -> i64 {
    let date = chrono::NaiveDate::from_ymd_opt(year, month, day).unwrap();
    date.signed_duration_since(chrono::NaiveDate::from_ymd_opt(1970, 1, 1).unwrap()).num_days()
}

fn check_calculates_calendar_usage_range_starts() {
    let now: i128 = 1_771_588_800 * SECOND;
    let ytd_start = usage_history_start_datetime(UsageHistoryStart::YearToDate, now);
    let all_time_start = usage_history_start_datetime(UsageHistoryStart::AllTime, now);

    assert_eq!(day_number(ytd_start), day(2026, 1, 1));
    assert_eq!(day_number(all_time_start), day(2020, 1, 1));
}

#[test]
fn spans_end_where_they_should() {
    assert_eq!(split_datetime_ranges(0, 25, 10), vec![(0, 10), (10, 20), (20, 25)]);
    assert!(split_datetime_ranges(5, 5, 10).is_empty());
    assert!(split_datetime_ranges(6, 5, 10).is_empty());
    assert_eq!(split_datetime_ranges(i128::MIN, i128::MAX, i128::MAX).len(), 3);
    assert_eq!(day_number(-1), -1);
    assert_eq!(day_number(24 * HOUR - 1), 0);
    assert_eq!(day_number(24 * HOUR), 1);
}

#[test]
fn sheets_cover_the_spans_they_name() {
    let now: i128 = 1_771_588_800 * SECOND + 5;
    let specs = export_specs(now).ok().unwrap();
    let names: Vec<&str> = specs.iter().map(|spec| spec.sheet_name).collect();
    assert_eq!(
        names,
        vec![
            "Energy - Hourly (last week)",
            "Energy - Daily (last 3 mo)",
            "Energy - Monthly (last year)",
            "Power - 5min (last 24h)",
            "Power - Hourly (last week)",
        ],
    );
    match (&specs[0].kind, &specs[1].kind, &specs[2].kind, &specs[3].kind, &specs[4].kind) {
        (
            ExportKind::EnergyHourly { start_day, end_day },
            ExportKind::EnergyDaily { start_day: quarter },
            ExportKind::EnergyMonthly { start_day: year },
            ExportKind::PowerEvery5Minutes { ranges },
            ExportKind::PowerHourly { ranges: week },
        ) => {
            assert_eq!((*start_day, *end_day), (day(2026, 2, 14), day(2026, 2, 20)));
            assert_eq!(*quarter, day(2026, 1, 1));
            assert_eq!(*year, day(2026, 1, 1));
            assert_eq!(*ranges, vec![(now - 24 * HOUR, now - 12 * HOUR), (now - 12 * HOUR, now)]);
            assert_eq!(week.len(), 2);
        }
        _ => panic!("each sheet has its kind"),
    }
    assert_eq!(current_quarter_start(day(2025, 9, 30)), day(2025, 7, 1));
    assert_eq!(stamp_text(stamp_at(now)), "2026-02-20 12:00:00 UTC");
    assert_eq!(stamp_text(Stamp { seconds: 59, nanos: 1_500_000_000 }), "1970-01-01 00:00:60 UTC");

    let first: i128 = -8_334_601_228_800 * SECOND;
    assert_eq!(
        export_specs(first + 6 * 24 * HOUR - 1).err().unwrap(),
        "failed to calculate weekly energy export start date",
    );
    assert_eq!(
        export_specs(first + 6 * 24 * HOUR).err().unwrap(),
        "failed to calculate weekly power export start time",
    );
    assert!(export_specs(first + 7 * 24 * HOUR).is_ok());
    assert!(export_specs(8_210_266_876_800 * SECOND - 1).is_ok());
}

#[test]
fn years_and_quarters_begin_where_the_calendar_says() {
    for (year, month) in [(-262_143, 1), (-400, 3), (-1, 12), (0, 2), (1, 1), (1600, 2), (1900, 3), (1969, 12), (1970, 1)]
        .into_iter()
        .chain([(2000, 2), (2000, 3), (2024, 2), (2024, 12), (2100, 3), (2100, 10), (262_142, 12)])
    {
        let at = day(year, month, 28);
        assert_eq!(current_year_start(at), day(year, 1, 1));
        assert_eq!(current_quarter_start(at), day(year, (month - 1) / 3 * 3 + 1, 1));
        assert_eq!(current_year_start(day(year, 1, 1)), day(year, 1, 1));
        assert_eq!(current_year_start(day(year, 12, 31)), day(year, 1, 1));
        assert_eq!(year_start(year), day(year, 1, 1));
    }
    assert_eq!(day_number(date_start_datetime(-1)), -1);
    assert_eq!(date_start_datetime(1), 24 * HOUR);
}

#[test]
fn histories_ask_in_parts() {
    let range = usage_history_range(Some("1d"));
    match history_question(range.kind, 0, 24 * HOUR) {
        ExportKind::PowerEvery5Minutes { ranges } => assert_eq!(ranges, vec![(0, 12 * HOUR), (12 * HOUR, 24 * HOUR)]),
        _ => panic!("a day is read every five minutes"),
    }
    for key in ["5m", "30m", "1h", "6h", "12h", "1d", "3d", "7d", "30d", "3m", "6m", "1y", "ytd", "all"] {
        assert_eq!(usage_history_range(Some(key)).key, key);
    }
    assert_eq!(usage_history_range(None).key, "7d");
    assert_eq!(usage_history_range(Some("nope")).key, "7d");
    assert_eq!(usage_history_start_datetime(usage_history_range(Some("5m")).start, 300 * SECOND + 7), 7);
    for span in [i128::MAX, i128::MIN, 9_000_000_000_000 * SECOND] {
        assert_eq!(usage_history_start_datetime(UsageHistoryStart::Duration(span), 300), 300);
    }
    assert_eq!(usage_history_start_datetime(UsageHistoryStart::Duration(-5), 300), 305);
}

fn stamp(at: i64) -> Stamp {
    Stamp { seconds: at.div_euclid(1000), nanos: (at.rem_euclid(1000) * 1_000_000) as u32 }
}

fn reading(at: i64, value: Option<f64>) -> Reading {
    Reading { timestamp: stamp(at), value: value.map(f64::to_bits) }
}

#[test]
fn moments_less_than_a_millisecond_apart_stay_apart() {
    let at = |nanos: u32| Stamp { seconds: 59, nanos };
    let entries: Vec<Reading> = [7, 3, 1_500_000_000, 3]
        .into_iter()
        .map(|nanos| Reading { timestamp: at(nanos), value: Some(1.0f64.to_bits()) })
        .collect();
    let answers = vec![DeviceReadings {
        device_name: "fan".to_string(),
        outcome: ReadOutcome::Read { entries },
    }];
    let (rows, _) = collect_export_table(&answers);
    let moments: Vec<Stamp> = rows.iter().map(|row| row.timestamp).collect();
    assert_eq!(moments, vec![at(3), at(7), at(1_500_000_000)]);

    let range = usage_history_range(Some("1d"));
    let history = build_usage_history(&range, &answers, 0, 24 * HOUR, 77, &host);
    let totals: Vec<(i64, f64)> = history.totals.iter().map(|p| (p.timestamp_ms, double(p.value))).collect();
    assert_eq!(totals, vec![(59_000, 2.0), (59_000, 1.0), (60_500, 1.0)]);
    assert_eq!(history.series[0].points.len(), 4);
}

#[test]
fn rows_and_totals_are_put_together() {
    let answers = vec![
        DeviceReadings {
            device_name: "fan".to_string(),
            outcome: ReadOutcome::Read { entries: vec![reading(20, Some(1.5)), reading(10, Some(2.0))] },
        },
        DeviceReadings {
            device_name: "lamp".to_string(),
            outcome: ReadOutcome::Read { entries: vec![reading(10, Some(0.5)), reading(30, None)] },
        },
        DeviceReadings {
            device_name: "tv".to_string(),
            outcome: ReadOutcome::Failed { message: "away".to_string() },
        },
    ];
    let (rows, errors) = collect_export_table(&answers);
    assert_eq!(rows.iter().map(|row| row.timestamp).collect::<Vec<_>>(), vec![stamp(10), stamp(20)]);
    assert_eq!(double(*rows[0].values.get("lamp").unwrap()), 0.5);
    assert_eq!(double(row_total(&rows[0], &host)), 2.5);
    assert_eq!(errors.len(), 1);
    assert_eq!(errors[0].device_name, "tv");

    let range = usage_history_range(Some("1d"));
    let history = build_usage_history(&range, &answers, 0, 24 * HOUR, 77, &host);
    assert_eq!(history.series.len(), 2);
    assert_eq!(history.series[0].points.len(), 2);
    assert_eq!(history.series[1].points.len(), 1);
    let totals: Vec<(i64, f64)> = history.totals.iter().map(|p| (p.timestamp_ms, double(p.value))).collect();
    assert_eq!(totals, vec![(10, 2.5), (20, 1.5)]);
    assert_eq!(history.errors[0].message, "away");
    assert_eq!(history.end_date, "1970-01-02 00:00:00 UTC");
    assert_eq!(history.updated_at_ms, 77);
    assert_eq!(history.unit, "W");

    let mut more = rows;
    add_readings(&mut more, "tv", &vec![reading(15, Some(1.0))]);
    assert_eq!(more.iter().map(|row| row.timestamp).collect::<Vec<_>>(), vec![stamp(10), stamp(15), stamp(20)]);
}

#[test]
fn sheets_have_a_column_for_each_device() {
    let mut values = Table::new();
    values.insert("fan".to_string(), 1.5f64.to_bits());
    values.insert("lamp".to_string(), 0.5f64.to_bits());
    let mut fewer = Table::new();
    fewer.insert("lamp".to_string(), 3.0f64.to_bits());
    let rows = vec![
        ExportRow { timestamp: stamp(0), values },
        ExportRow { timestamp: stamp(86_400_000), values: fewer },
    ];
    let names = vec!["fan".to_string(), "lamp".to_string()];
    let text = |s: &str| Cell::Text(s.to_string());
    let value = |x: f64| Cell::Value(x.to_bits());
    assert_eq!(
        sheet_cells(&names, &rows, &host),
        vec![
            vec![text("Timestamp"), text("fan"), text("lamp"), text("Total")],
            vec![text("1970-01-01 00:00:00 UTC"), value(1.5), value(0.5), value(2.0)],
            vec![text("1970-01-02 00:00:00 UTC"), Cell::Blank, value(3.0), value(3.0)],
        ],
    );
    assert_eq!(sheet_cells(&Vec::new(), &Vec::new(), &host), vec![vec![text("Timestamp"), text("Total")]]);
    let outside = vec![ExportRow { timestamp: Stamp { seconds: i64::MAX, nanos: 0 }, values: Table::new() }];
    assert_eq!(sheet_cells(&Vec::new(), &outside, &host)[1][0], Cell::Blank);
}

#[test]
fn errors_have_a_sheet_of_their_own() {
    assert_eq!(error_cells(&Vec::new()), None);
    let errors = vec![ExportError {
        sheet_name: "Power - Hourly (last week)".to_string(),
        device_name: "tv".to_string(),
        message: "away".to_string(),
    }];
    let text = |s: &str| Cell::Text(s.to_string());
    assert_eq!(
        error_cells(&errors),
        Some(vec![
            vec![text("Sheet"), text("Device"), text("Error")],
            vec![text("Power - Hourly (last week)"), text("tv"), text("away")],
        ]),
    );
}

#[test]
fn cycles_are_found_where_they_can_be_reached() {
    let diamond = vec![edge("a", "b"), edge("a", "c"), edge("b", "d"), edge("c", "d"), edge("x", "x")];
    let mut marks = Table::new();
    assert!(!has_cycle_dfs("a", &diamond, &mut marks));
    let marked: Vec<(&str, u8)> = marks.entries.iter().map(|(id, mark)| (id.as_str(), *mark)).collect();
    assert_eq!(marked, vec![("a", DONE), ("b", DONE), ("c", DONE), ("d", DONE)]);
    assert!(has_cycle_dfs("x", &diamond, &mut marks));

    let behind = vec![edge("a", "b"), edge("b", "c"), edge("c", "b")];
    assert!(has_cycle_dfs("a", &behind, &mut Table::new()));
    assert!(!has_cycle_dfs("lone", &behind, &mut Table::new()));
}

#[test]
fn only_some_models_measure() {
    let devices = table(vec![("a", device("a", DeviceModel::P100)), ("b", device("b", DeviceModel::P115))]);
    let readable = export_devices(&devices);
    assert_eq!(readable.len(), 1);
    assert_eq!(readable[0].name, "b");
    assert_eq!(monitoring_fault(&readable[0].config), None);
    assert_eq!(
        monitoring_fault(&device("a", DeviceModel::P100).config).unwrap(),
        "P100 at 192.168.0.40 does not support energy monitoring",
    );
}

#[test]
fn legacy_renders_snapshot_backed_device_view() {
    check_renders_snapshot_backed_device_view();
}

#[test]
fn legacy_tests_renders_snapshot_backed_device_view() {
    check_renders_snapshot_backed_device_view();
}

#[test]
fn legacy_splits_power_export_ranges_at_tapo_limits() {
    check_splits_power_export_ranges_at_tapo_limits();
}

#[test]
fn legacy_tests_splits_power_export_ranges_at_tapo_limits() {
    check_splits_power_export_ranges_at_tapo_limits();
}

#[test]
fn legacy_maps_long_usage_ranges_to_energy_history() {
    check_maps_long_usage_ranges_to_energy_history();
}

#[test]
fn legacy_tests_maps_long_usage_ranges_to_energy_history() {
    check_maps_long_usage_ranges_to_energy_history();
}

#[test]
fn legacy_calculates_calendar_usage_range_starts() {
    check_calculates_calendar_usage_range_starts();
}

#[test]
fn legacy_tests_calculates_calendar_usage_range_starts() {
    check_calculates_calendar_usage_range_starts();
}
