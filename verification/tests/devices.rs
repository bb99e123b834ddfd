use fusebox::actions::{ConditionAction, HookEvent, HookSource, ScheduleAction, ScheduleKind};
use fusebox::automations::types::AutomationNodeConfig;
use fusebox::conditions::{
    condition_intent_for_device, create_condition, delete_condition, due_probes, failed_probe, judge_response,
    probe_group, probe_refusal, read_response_body, record_group, record_probe, update_condition,
    validate_http_method, ConditionConfig, CreateConditionRequest, UpdateConditionRequest,
};
use fusebox::devices::{
    admit_devices, collect_device_states, device_intent, device_readings, expired_overrides, extend_device_override,
    get_device_config, managed_device_from_config, note_switched, reconcile_device, release_device_override,
    set_device_power, set_manual_override, set_schedule_intent, transition_context, tries_again,
    update_device_error, update_device_snapshot, DeviceConfig, DeviceIntent, DeviceModel, DeviceSnapshot,
    ManagedDevice,
};
use fusebox::hooks::{
    answer_error, create_hook, hook_matches, hook_request, matching_hooks, test_context, update_hook,
    update_hook_result, CreateHookRequest, HookConfig, UpdateHookRequest,
};
use fusebox::migration::migrate_to_automations;
use fusebox::schedules::{
    create_schedule, fire_target, next_cron_fire, next_fire_at, schedule_due, schedule_view, update_schedule,
    wait_for_minute, CreateScheduleRequest, CronRequest, MAX_MOMENT_MS, Due, IntervalRequest, ScheduleConfig, UpdateScheduleRequest,
};
use fusebox::settings::{
    check_discovery_timeout, check_scan_seconds, default_bind_address, default_state_home, optional_u64_setting,
    state_home, StateHome, DEFAULT_DISCOVERY_TIMEOUT_SECONDS, DEFAULT_ENERGY_PRICE, DEFAULT_REFRESH_SECONDS,
    DEFAULT_SCAN_SECONDS,
};
use fusebox::state::{load_persisted_state, save_persisted_state, Board, PersistedState, STATE_VERSION};
use fusebox::table::Table;

fn table<V>(mut entries: Vec<(&str, V)>) -> Table<V> {
    entries.sort_by(|a, b| a.0.cmp(b.0));
    Table { entries: entries.into_iter().map(|(key, value)| (key.to_string(), value)).collect() }
}

fn config(ip: &str) -> DeviceConfig {
    DeviceConfig { ip: ip.to_string(), model: DeviceModel::P110, model_name: "P110".to_string() }
}

fn snapshot(on: bool, seconds: u64) -> DeviceSnapshot {
    DeviceSnapshot {
        device_model: "p110".to_string(),
        device_type: "Tapo plug".to_string(),
        nickname: "Lights".to_string(),
        device_on: on,
        on_time_seconds: seconds,
        energy: None,
    }
}

fn dummy_device(name: &str, ip: &str, on: bool) -> ManagedDevice {
    let mut device = managed_device_from_config(name.to_string(), config(ip), 0);
    device.snapshot = Some(snapshot(on, 0));
    device
}

fn sample_hook(id: &str) -> HookConfig {
    HookConfig {
        id: id.to_string(),
        name: "n".to_string(),
        enabled: true,
        url: "http://example.invalid".to_string(),
        method: "POST".to_string(),
        headers: Table::new(),
        body: None,
        device_filter: Vec::new(),
        event_filter: Vec::new(),
        created_at_ms: 0,
        last_fired_at_ms: None,
        last_event: None,
        last_status_code: None,
        last_error: None,
    }
}

fn sample_condition() -> ConditionConfig {
    ConditionConfig {
        id: "c".to_string(),
        name: "n".to_string(),
        device_name: "lights".to_string(),
        url: "http://example.invalid".to_string(),
        method: "GET".to_string(),
        headers: Table::new(),
        body: None,
        status_match: "200".to_string(),
        body_contains: None,
        poll_seconds: 60,
        enabled: true,
        action_on_pass: None,
        action_on_fail: None,
        created_at_ms: 0,
        last_checked_at_ms: None,
        last_passing: None,
        last_status_code: None,
        last_error: None,
        last_action_at_ms: None,
        last_action: None,
        last_action_error: None,
        min_stable_seconds: 0,
        pending_value: None,
        pending_since_ms: None,
    }
}

fn cron_schedule() -> ScheduleConfig {
    ScheduleConfig {
        id: "abc".to_string(),
        device_name: "lights".to_string(),
        kind: ScheduleKind::Cron,
        cron: Some("0 0 7 * * 1-5".to_string()),
        action: Some(ScheduleAction::On),
        on_seconds: None,
        off_seconds: None,
        start_action: None,
        starts_at_ms: None,
        enabled: true,
        label: Some("Morning".to_string()),
        condition_ids: Vec::new(),
        created_at_ms: 1_700_000_000_000,
        last_fired_at_ms: None,
        last_error: None,
    }
}

fn interval_schedule() -> ScheduleConfig {
    ScheduleConfig {
        id: "iv1".to_string(),
        device_name: "lights".to_string(),
        kind: ScheduleKind::Interval,
        cron: None,
        action: None,
        on_seconds: Some(3600),
        off_seconds: Some(1800),
        start_action: Some(ScheduleAction::On),
        starts_at_ms: Some(1_700_000_000_000),
        enabled: true,
        label: Some("1h/30m".to_string()),
        condition_ids: Vec::new(),
        created_at_ms: 1_700_000_000_000,
        last_fired_at_ms: None,
        last_error: None,
    }
}

fn check_retries_transient_tapo_handshake_failures() {
    let mut attempts: usize = 0;
    let result = loop {
        attempts += 1;
        let outcome = if attempts == 1 {
            Err(anyhow::Error::msg("HTTP error 400: Handshake2 failed"))
        } else {
            Ok("ok")
        };
        match outcome {
            Ok(value) => break value,
            Err(error) => {
                let handshake = fusebox::devices::is_tapo_handshake_error(&error);
                assert!(tries_again(attempts, handshake));
            }
        }
    };

    assert_eq!(result, "ok");
    assert_eq!(attempts, 2);
}

fn check_saves_and_loads_persisted_device_configs() {
    let mut board = Board::new();
    board.devices.insert(
        "lights".to_string(),
        managed_device_from_config("lights".to_string(), config("192.168.0.40"), 7),
    );

    let kept = save_persisted_state(&board);
    assert_eq!(kept.version, STATE_VERSION);
    let contents: String =
        kept.devices.entries.iter().map(|(name, c)| format!("{name} {} {}", c.ip, c.model_name)).collect();
    assert!(contents.contains("lights"));
    assert!(!contents.contains("dummy-password"));

    let mut reloaded = Board::new();
    assert_eq!(load_persisted_state(&mut reloaded, kept, 8).unwrap(), None);
    let loaded = reloaded.devices.get("lights").unwrap();

    assert_eq!(loaded.config.ip, "192.168.0.40");
    assert_eq!(loaded.config.model, DeviceModel::P110);
    assert!(loaded.snapshot.is_none());
}

fn check_persists_schedule_across_reload() {
    let mut board = Board::new();
    board.schedules.insert("abc".to_string(), cron_schedule());
    board.schedules.insert("iv1".to_string(), interval_schedule());

    let kept = save_persisted_state(&board);
    let mut reloaded = Board::new();
    load_persisted_state(&mut reloaded, kept, 8).unwrap();

    let cron_loaded = reloaded.schedules.get("abc").unwrap();
    assert_eq!(cron_loaded.device_name, "lights");
    assert_eq!(cron_loaded.cron.as_deref(), Some("0 0 7 * * 1-5"));
    assert_eq!(cron_loaded.action, Some(ScheduleAction::On));
    assert_eq!(cron_loaded.label.as_deref(), Some("Morning"));

    let interval_loaded = reloaded.schedules.get("iv1").unwrap();
    assert_eq!(interval_loaded.kind, ScheduleKind::Interval);
    assert_eq!(interval_loaded.on_seconds, Some(3600));
    assert_eq!(interval_loaded.off_seconds, Some(1800));
    assert_eq!(interval_loaded.start_action, Some(ScheduleAction::On));
}

fn check_condition_intent_fail_closed_for_unprobed_required_condition() {
    let mut conditions: Table<ConditionConfig> = Table::new();
    assert_eq!(condition_intent_for_device(&conditions, "lights"), None);

    conditions.insert("c".to_string(), sample_condition());
    assert_eq!(condition_intent_for_device(&conditions, "lights"), Some(false));

    let mut passing = sample_condition();
    passing.last_passing = Some(true);
    conditions.insert("c".to_string(), passing);
    assert_eq!(condition_intent_for_device(&conditions, "lights"), Some(true));

    let mut failing = sample_condition();
    failing.last_passing = Some(false);
    conditions.insert("c".to_string(), failing);
    assert_eq!(condition_intent_for_device(&conditions, "lights"), Some(false));
}

fn check_condition_hysteresis_debounces_flapping_probes() {
    let mut condition = sample_condition();
    condition.url = "http://127.0.0.1:1/never".to_string();
    condition.poll_seconds = 5;
    condition.last_passing = Some(true);
    condition.last_status_code = Some(200);
    condition.min_stable_seconds = 90;
    let mut conditions = table(vec![("c", condition)]);
    let outcome = failed_probe("connection refused".to_string());
    let now: u128 = 1_700_000_000_000;

    let group = probe_group(&conditions, "c");
    record_group(&mut conditions, &group, &outcome, now);
    let stored = conditions.get("c").unwrap();
    assert_eq!(stored.last_passing, Some(true), "hysteresis should hold previous value");
    assert_eq!(stored.pending_value, Some(false));
    assert!(stored.pending_since_ms.is_some());

    let later = now + 95_000;
    let group = probe_group(&conditions, "c");
    record_group(&mut conditions, &group, &outcome, later);
    let stored = conditions.get("c").unwrap();
    assert_eq!(stored.last_passing, Some(false), "hysteresis should commit after stable window");
    assert_eq!(stored.pending_value, None);
}

fn check_does_not_fire_hook_for_first_read_without_prior_snapshot() {
    let mut devices = table(vec![(
        "lights",
        managed_device_from_config("lights".to_string(), config("192.0.2.10"), 1),
    )]);
    let hooks = table(vec![("h", sample_hook("h"))]);

    let transition = update_device_snapshot(&mut devices, "lights", snapshot(true, 0), None, 2);
    let fired: usize =
        transition.events.iter().map(|event| matching_hooks(&hooks, "lights", *event).len()).sum();
    assert_eq!(fired, 0, "first read should not have fired the hook");
    assert_eq!(hooks.get("h").unwrap().last_fired_at_ms, None);
}

fn check_two_devices_each_fire_hook_independently() {
    let hooks = table(vec![("h", sample_hook("h"))]);
    let mut count = 0;
    for device in ["lights", "ac"] {
        let matching = matching_hooks(&hooks, device, HookEvent::Off);
        assert_eq!(matching.len(), 1, "device {} should match the hook", device);
        assert!(hook_matches(&matching[0], device, HookEvent::Off));
        count += matching.len();
    }
    assert_eq!(count, 2, "expected each device to fire the hook once");
    assert!(hooks.contains_key("h"));
}

fn check_offline_event_waits_for_consecutive_failures() {
    let mut devices = table(vec![("lights", dummy_device("lights", "192.0.2.10", true))]);

    let told = update_device_error(&mut devices, "lights", "transient".to_string(), 1);
    assert_eq!(devices.get("lights").unwrap().consecutive_failures, 1);
    assert!(!devices.get("lights").unwrap().offline_announced);
    assert!(told.events.is_empty());

    let told = update_device_error(&mut devices, "lights", "transient".to_string(), 2);
    assert_eq!(devices.get("lights").unwrap().consecutive_failures, 2);
    assert!(!devices.get("lights").unwrap().offline_announced);
    assert!(told.events.is_empty());

    let told = update_device_error(&mut devices, "lights", "transient".to_string(), 3);
    assert_eq!(devices.get("lights").unwrap().consecutive_failures, 3);
    assert!(devices.get("lights").unwrap().offline_announced);
    assert_eq!(told.events, vec![HookEvent::Offline]);

    let told = update_device_snapshot(&mut devices, "lights", snapshot(true, 1), None, 4);
    assert_eq!(devices.get("lights").unwrap().consecutive_failures, 0);
    assert!(!devices.get("lights").unwrap().offline_announced);
    assert_eq!(told.events, vec![HookEvent::Online]);
}

#[test]
fn retrying_ends_with_the_third_attempt() {
    assert!(tries_again(1, true));
    assert!(tries_again(2, true));
    assert!(!tries_again(3, true));
    assert!(!tries_again(1, false));
}

#[test]
fn changes_are_told_with_what_changed() {
    let mut devices = table(vec![("lights", dummy_device("lights", "192.0.2.10", true))]);
    let told = update_device_snapshot(&mut devices, "lights", snapshot(false, 1), None, 9);
    assert_eq!(told.events, vec![HookEvent::Off]);
    let context = transition_context("lights", &told, HookEvent::Off, HookSource::External, 9);
    assert_eq!(context.render("{{nickname}} {{previous_on}} {{new_on}} {{timestamp_ms}}"), "Lights true false 9");
    let told = update_device_snapshot(&mut devices, "lights", snapshot(false, 2), None, 10);
    assert!(told.events.is_empty());
}

#[test]
fn devices_are_found_and_named() {
    let mut devices: Table<ManagedDevice> = Table::new();
    admit_devices(
        &mut devices,
        &vec![("b".to_string(), config("192.0.2.2")), ("a".to_string(), config("192.0.2.1"))],
        5,
    );
    assert_eq!(devices.entries[0].0, "a");
    assert_eq!(devices.entries[1].0, "b");
    assert_eq!(get_device_config(&devices, "b").ok().unwrap().ip, "192.0.2.2");
    assert_eq!(get_device_config(&devices, "c").err().unwrap(), "device 'c' was not found");
    assert!(collect_device_states(&devices).entries.is_empty());
    let mut lit = dummy_device("a", "192.0.2.1", true);
    lit.offline_announced = true;
    devices.insert("a".to_string(), lit);
    let states = collect_device_states(&devices);
    assert_eq!(states.get("a"), Some(&true));
    assert_eq!(states.get("Lights"), Some(&true));
    assert_eq!(device_readings(&devices).get("a"), Some(&(Some(true), true)));
}

#[test]
fn overrides_last_while_something_else_drives_the_device() {
    let devices = table(vec![("lights", dummy_device("lights", "192.0.2.10", true))]);
    let mut intents: Table<DeviceIntent> = Table::new();
    let schedules = table(vec![("iv1", interval_schedule())]);
    let none = Table::new();
    set_device_power(&mut intents, &schedules, &Table::new(), &none, "lights", true, None, 1_000);
    let intent = device_intent(&intents, "lights");
    assert_eq!(intent.manual_override, Some(true));
    assert_eq!(intent.manual_override_until_ms, Some(1_000 + 3_600_000));
    assert!(expired_overrides(&intents, 3_600_999).is_empty());
    assert_eq!(expired_overrides(&intents, 3_601_000), vec!["lights".to_string()]);

    set_device_power(&mut intents, &schedules, &Table::new(), &none, "lights", false, Some(1), 1_000);
    assert_eq!(device_intent(&intents, "lights").manual_override_until_ms, Some(31_000));
    assert!(extend_device_override(&devices, &mut intents, "lights", Some(60), 1_000).is_ok());
    assert_eq!(device_intent(&intents, "lights").manual_override_until_ms, Some(91_000));
    assert_eq!(
        extend_device_override(&devices, &mut intents, "fan", None, 1_000).unwrap_err(),
        "unknown device 'fan'",
    );

    assert!(release_device_override(&devices, &mut intents, "lights").is_ok());
    assert_eq!(device_intent(&intents, "lights").manual_override, None);
    assert_eq!(
        extend_device_override(&devices, &mut intents, "lights", None, 1_000).unwrap_err(),
        "device 'lights' has no manual override to extend",
    );
    assert_eq!(
        release_device_override(&devices, &mut intents, "fan").unwrap_err(),
        "unknown device 'fan'",
    );

    set_device_power(&mut intents, &Table::new(), &Table::new(), &none, "lights", true, Some(60), 1_000);
    assert_eq!(device_intent(&intents, "lights").manual_override_until_ms, None);
    set_manual_override(&mut intents, "lights", true, Some(1_000_000), 0);
    assert_eq!(device_intent(&intents, "lights").manual_override_until_ms, Some(86_400_000));
}

#[test]
fn devices_are_switched_to_what_is_wanted() {
    let mut devices = table(vec![("lights", dummy_device("lights", "192.0.2.10", false))]);
    let mut intents: Table<DeviceIntent> = Table::new();
    let conditions: Table<ConditionConfig> = Table::new();
    assert!(reconcile_device(&devices, &intents, &conditions, "lights").is_none());
    set_schedule_intent(&mut intents, "lights", true);
    let switch = reconcile_device(&devices, &intents, &conditions, "lights").unwrap();
    assert!(switch.target);
    assert_eq!(switch.event, HookEvent::On);
    assert_eq!(switch.previous, Some(false));
    note_switched(&mut devices, "lights", true, 5);
    assert!(reconcile_device(&devices, &intents, &conditions, "lights").is_none());
    set_manual_override(&mut intents, "lights", false, None, 5);
    assert!(!reconcile_device(&devices, &intents, &conditions, "lights").unwrap().target);
}

#[test]
fn probes_are_judged_by_status_and_body() {
    let mut condition = sample_condition();
    condition.body_contains = Some("yes".to_string());
    let passed = judge_response(&condition, 200, "oh yes".to_string());
    assert!(passed.passing);
    assert_eq!(passed.error, None);
    assert!(!judge_response(&condition, 200, "no".to_string()).passing);
    let refused = judge_response(&condition, 404, "yes".to_string());
    assert!(!refused.passing);
    assert_eq!(refused.status_code, Some(404));
    assert!(probe_refusal(&condition).is_none());
    condition.status_match = "two hundred".to_string();
    assert!(probe_refusal(&condition).is_some());
    assert_eq!(read_response_body(&vec![0x61, 0xff, 0x62]), "a\u{fffd}b");
    assert_eq!(read_response_body(&vec![0x61; 300_000]).len(), 262_144);
}

#[test]
fn probes_are_due_when_their_time_has_come() {
    let mut probed = sample_condition();
    probed.last_checked_at_ms = Some(1_000);
    let mut idle = sample_condition();
    idle.id = "d".to_string();
    idle.enabled = false;
    idle.url = "http://other.invalid".to_string();
    let conditions = table(vec![("c", probed), ("d", idle)]);
    assert!(due_probes(&conditions, 60_999).is_empty());
    assert_eq!(due_probes(&conditions, 61_000), vec!["c".to_string()]);
}

#[test]
fn without_a_window_every_result_counts() {
    let seen = sample_condition();
    let mut stored = sample_condition();
    assert!(record_probe(&mut stored, &seen, &failed_probe("down".to_string()), 5));
    assert_eq!(stored.last_passing, Some(false));
    assert_eq!(stored.last_error.as_deref(), Some("down"));
    assert_eq!(stored.last_checked_at_ms, Some(5));
}

fn condition_request() -> CreateConditionRequest {
    CreateConditionRequest {
        name: " Up ".to_string(),
        device_name: "lights".to_string(),
        url: "https://example.test".to_string(),
        method: "get".to_string(),
        headers: Table::new(),
        body: None,
        status_match: "200-299".to_string(),
        body_contains: None,
        poll_seconds: 30,
        enabled: true,
        action_on_pass: Some(ConditionAction::On),
        action_on_fail: None,
        min_stable_seconds: 0,
    }
}

#[test]
fn conditions_are_made_changed_and_removed() {
    let devices = table(vec![("lights", true)]);
    let mut conditions = Table::new();
    let mut schedules = Table::new();
    create_condition(&mut conditions, &devices, condition_request(), "c1".to_string(), 4).unwrap();
    let made = conditions.get("c1").unwrap();
    assert_eq!(made.name, "Up");
    assert_eq!(made.url, "https://example.test");
    assert_eq!(made.method, "GET");
    assert_eq!(made.created_at_ms, 4);

    let mut bad = condition_request();
    bad.device_name = "fan".to_string();
    assert!(create_condition(&mut conditions, &devices, bad, "c2".to_string(), 4).is_err());
    let mut bad = condition_request();
    bad.method = "G T".to_string();
    assert!(create_condition(&mut conditions, &devices, bad, "c2".to_string(), 4).is_err());
    let mut bad = condition_request();
    bad.status_match = "".to_string();
    assert!(create_condition(&mut conditions, &devices, bad, "c2".to_string(), 4).is_err());
    assert!(validate_http_method("PATCH").is_ok());
    assert!(validate_http_method("PA CH").is_err());
    assert!(!conditions.contains_key("c2"));

    let nothing = UpdateConditionRequest {
        name: None,
        device_name: None,
        url: None,
        method: None,
        headers: None,
        body: None,
        status_match: None,
        body_contains: None,
        poll_seconds: Some(45),
        enabled: Some(false),
        action_on_pass: Some(None),
        action_on_fail: None,
        min_stable_seconds: None,
    };
    update_condition(&mut conditions, &devices, "c1", nothing).unwrap();
    let changed = conditions.get("c1").unwrap();
    assert_eq!(changed.poll_seconds, 45);
    assert!(!changed.enabled);
    assert_eq!(changed.action_on_pass, None);
    assert_eq!(changed.name, "Up");

    let mut guarded = cron_schedule();
    guarded.condition_ids = vec!["c0".to_string(), "c1".to_string()];
    schedules.insert("abc".to_string(), guarded);
    delete_condition(&mut conditions, &mut schedules, "c1").unwrap();
    assert!(!conditions.contains_key("c1"));
    assert_eq!(schedules.get("abc").unwrap().condition_ids, vec!["c0".to_string()]);
    assert!(delete_condition(&mut conditions, &mut schedules, "c1").is_err());
}

#[test]
fn schedules_are_made_and_changed() {
    let devices = table(vec![("lights", true)]);
    let conditions: Table<bool> = Table::new();
    let mut schedules = Table::new();
    let cron = CreateScheduleRequest::Cron {
        cron: CronRequest {
            device_name: "lights".to_string(),
            cron: "0 7 * * 1-5".to_string(),
            action: ScheduleAction::Off,
            label: Some("  ".to_string()),
            enabled: true,
            condition_ids: Vec::new(),
        },
    };
    create_schedule(&mut schedules, &devices, &conditions, cron, "s1".to_string(), 9).unwrap();
    let made = schedules.get("s1").unwrap();
    assert_eq!(made.cron.as_deref(), Some("0 0 7 * * 1-5"));
    assert_eq!(made.label, None);

    let interval = |on: u64, off: u64| CreateScheduleRequest::Interval {
        interval: IntervalRequest {
            device_name: "lights".to_string(),
            on_seconds: on,
            off_seconds: off,
            start_action: ScheduleAction::On,
            starts_at_ms: None,
            label: None,
            enabled: true,
            condition_ids: Vec::new(),
        },
    };
    create_schedule(&mut schedules, &devices, &conditions, interval(60, 60), "s2".to_string(), 9).unwrap();
    assert_eq!(schedules.get("s2").unwrap().starts_at_ms, Some(9));
    assert!(create_schedule(&mut schedules, &devices, &conditions, interval(0, 0), "s3".to_string(), 9).is_err());
    assert_eq!(schedules.len(), 2);

    let mut change = UpdateScheduleRequest {
        enabled: None,
        cron: None,
        action: None,
        on_seconds: None,
        off_seconds: None,
        start_action: None,
        label: Some(Some(" Night ".to_string())),
        condition_ids: None,
    };
    update_schedule(&mut schedules, &conditions, "s1", change, 10).unwrap();
    assert_eq!(schedules.get("s1").unwrap().label.as_deref(), Some("Night"));
    change = UpdateScheduleRequest {
        enabled: None,
        cron: Some("bad".to_string()),
        action: None,
        on_seconds: None,
        off_seconds: None,
        start_action: None,
        label: None,
        condition_ids: None,
    };
    assert!(update_schedule(&mut schedules, &conditions, "s1", change, 10).is_err());
}

#[test]
fn schedules_fire_when_due() {
    let start: i64 = 1_700_000_000_000;
    let mut interval = interval_schedule();
    assert!(matches!(schedule_due(&interval, start + 1_000, start + 2_000), Due::Fire(ScheduleAction::On)));
    interval.last_fired_at_ms = Some(1_700_000_000_000);
    assert!(matches!(schedule_due(&interval, start + 3_599_000, start + 3_600_000), Due::Fire(ScheduleAction::Off)));
    assert!(matches!(schedule_due(&interval, start + 1_000, start + 2_000), Due::Rest));
    let cron = cron_schedule();
    let fire = next_cron_fire("0 0 7 * * 1-5", start).unwrap();
    assert_eq!(fire % 1_000, 0);
    assert!(next_cron_fire("0 0 7 * * 1-5", fire).unwrap() > fire);
    assert_eq!(next_cron_fire("0 0 7 * * 1-5", MAX_MOMENT_MS), None);
    assert!(fire > start && fire < start + 7 * 86_400_000);
    let view = schedule_view(&cron_schedule(), start as u128);
    assert_eq!(view.next_fire_at_ms, Some(fire));
    assert_eq!(next_fire_at(&cron_schedule(), start as u128), Some(fire));
    assert!(fire > start);
    assert_eq!(fire % 1000, 0);
    assert!(matches!(schedule_due(&cron, start, fire), Due::Fire(ScheduleAction::On)));
    assert!(matches!(schedule_due(&cron, start, fire - 1), Due::Rest));
    let mut broken = cron_schedule();
    broken.cron = Some("nonsense".to_string());
    assert!(!matches!(schedule_due(&broken, start, fire), Due::Fire(_)));
    assert_eq!(fire_target(ScheduleAction::Toggle, Some(true)), Ok(false));
    assert!(fire_target(ScheduleAction::Toggle, None).is_err());
    assert_eq!(fire_target(ScheduleAction::On, None), Ok(true));
    assert_eq!(wait_for_minute(0, 0), 60_000_000_000);
}

#[test]
fn hooks_are_made_sent_and_recorded() {
    let mut hooks = Table::new();
    let request = CreateHookRequest {
        name: " Notify ".to_string(),
        enabled: true,
        url: "https://example.test/{{device}}".to_string(),
        method: "post".to_string(),
        headers: table(vec![("X-Event", "{{event}}".to_string())]),
        body: None,
        device_filter: Vec::new(),
        event_filter: Vec::new(),
    };
    create_hook(&mut hooks, request, "h1".to_string(), 3).unwrap();
    let hook = hooks.get("h1").unwrap();
    assert_eq!(hook.method, "POST");
    assert_eq!(hook.name, "Notify");
    let context = test_context(1_700_000_000_000);
    let sent = hook_request(hook, &context).ok().unwrap();
    assert!(sent.url.starts_with("https://example.test/"));
    assert!(!sent.url.contains("{{"));
    assert_eq!(sent.headers.iter().find(|(key, _)| key == "X-Event").unwrap().1, context.render("{{event}}"));
    let payload: serde_json::Value = serde_json::from_str(&sent.body).unwrap();
    assert_eq!(payload["timestamp_ms"], serde_json::Value::from(1_700_000_000_000u64));
    assert_eq!(payload["event"], serde_json::Value::from(context.render("{{event}}")));
    assert_eq!(payload["device"], serde_json::Value::from(context.device.clone()));

    let change = UpdateHookRequest {
        name: None,
        enabled: None,
        url: None,
        method: None,
        headers: None,
        body: Some(Some("{{event}}!".to_string())),
        device_filter: None,
        event_filter: Some(vec![HookEvent::Off]),
    };
    update_hook(&mut hooks, "h1", change).unwrap();
    let hook = hooks.get("h1").unwrap();
    assert!(!hook_matches(hook, "lights", HookEvent::On));
    assert_eq!(hook_request(hook, &context).ok().unwrap().body, context.render("{{event}}!"));

    assert_eq!(answer_error(204), None);
    assert_eq!(answer_error(404).unwrap(), "non-success status 404 Not Found");
    assert!(update_hook_result(&mut hooks, "h1", HookEvent::Off, Some(404), answer_error(404), 8));
    let hook = hooks.get("h1").unwrap();
    assert_eq!(hook.last_fired_at_ms, Some(8));
    assert_eq!(hook.last_status_code, Some(404));
    assert!(!update_hook_result(&mut hooks, "h2", HookEvent::Off, None, None, 8));
}

fn old_state() -> PersistedState {
    let mut condition = sample_condition();
    condition.action_on_pass = Some(ConditionAction::On);
    condition.action_on_fail = Some(ConditionAction::Off);
    PersistedState {
        version: 1,
        devices: table(vec![("lights", config("192.168.0.40"))]),
        schedules: table(vec![("abc", cron_schedule()), ("iv1", interval_schedule())]),
        conditions: table(vec![("c", condition)]),
        device_intents: Table::new(),
        hooks: Table::new(),
        automations: Table::new(),
    }
}

#[test]
fn older_states_are_migrated_once() {
    let mut state = old_state();
    migrate_to_automations(&mut state, 50);
    let kept: Vec<&str> = state.schedules.entries.iter().map(|(id, _)| id.as_str()).collect();
    assert_eq!(kept, vec!["abc", "iv1"]);
    assert!(state.schedules.get("abc").unwrap().enabled);
    assert_eq!(state.schedules.get("iv1").unwrap().on_seconds, Some(3600));
    assert_eq!(state.conditions.len(), 1);
    assert!(state.conditions.get("c").unwrap().enabled);
    let names: Vec<&str> = state.automations.entries.iter().map(|(id, _)| id.as_str()).collect();
    assert_eq!(names, vec!["auto-cond-c", "auto-sched-abc", "auto-sched-iv1"]);
    let condition = state.automations.get("auto-cond-c").unwrap();
    assert_eq!(condition.nodes.len(), 4);
    assert_eq!(condition.edges.len(), 3);
    let morning = state.automations.get("auto-sched-abc").unwrap();
    assert_eq!(morning.name, "Morning");
    assert_eq!(morning.nodes.len(), 2);
    assert_eq!(morning.edges[0].source_node, "trig-abc");
    assert_eq!(morning.edges[0].target_node, "act-abc");
    let morning_edge = morning.edges[0].id.clone();

    migrate_to_automations(&mut state, 60);
    assert_eq!(state.automations.len(), 3);
    assert_eq!(state.automations.get("auto-sched-abc").unwrap().edges[0].id, morning_edge);
    assert_eq!(state.schedules.len(), 2);
    assert_eq!(state.conditions.len(), 1);
}

#[test]
fn migrated_entries_are_kept_at_rest() {
    let mut board = Board::new();
    assert_eq!(load_persisted_state(&mut board, old_state(), 50).unwrap(), Some(1));
    assert_eq!(board.automations.len(), 3);
    assert!(board.automations.entries.iter().all(|(_, automation)| automation.enabled));

    let schedule = board.schedules.get("abc").unwrap();
    assert!(!schedule.enabled);
    assert_eq!(schedule.cron.as_deref(), Some("0 0 7 * * 1-5"));
    assert_eq!(schedule.label.as_deref(), Some("Morning"));
    assert!(matches!(schedule_due(board.schedules.get("iv1").unwrap(), 0, 1_700_000_000_000), Due::Rest));
    assert!(!board.conditions.get("c").unwrap().enabled);
    assert!(due_probes(&board.conditions, 1_000_000).is_empty());
    assert_eq!(condition_intent_for_device(&board.conditions, "lights"), None);

    let kept = save_persisted_state(&board);
    assert_eq!(kept.version, STATE_VERSION);
    assert_eq!(kept.schedules.len(), 2);
    assert_eq!(kept.conditions.get("c").unwrap().url, "http://example.invalid");
    let mut again = Board::new();
    assert_eq!(load_persisted_state(&mut again, kept, 60).unwrap(), None);
    assert_eq!(again.schedules.len(), 2);
    assert!(!again.schedules.get("abc").unwrap().enabled);
    assert_eq!(again.automations.len(), 3);
}

#[test]
fn probes_are_taken_up_as_requests() {
    let mut state = old_state();
    migrate_to_automations(&mut state, 50);
    let probe = &state.automations.get("auto-cond-c").unwrap().nodes[0];
    assert!(matches!(probe.config, AutomationNodeConfig::HttpProbe { .. }));

    let mut board = Board::new();
    state.version = STATE_VERSION;
    assert_eq!(load_persisted_state(&mut board, state, 60).unwrap(), None);
    let nodes = &board.automations.get("auto-cond-c").unwrap().nodes;
    assert_eq!(nodes.len(), 4);
    assert_eq!(nodes[0].id, "probe-c");
    match &nodes[0].config {
        AutomationNodeConfig::HttpRequest { http_request } => {
            assert_eq!(http_request.url, "http://example.invalid");
            assert_eq!(http_request.method, "GET");
            assert_eq!(http_request.status_match, "200");
            assert_eq!(http_request.body, None);
        }
        _ => panic!("a probe is taken up as a request"),
    }
    assert!(matches!(nodes[1].config, AutomationNodeConfig::SetDevice { .. }));

    let mut older = Board::new();
    load_persisted_state(&mut older, old_state(), 50).unwrap();
    let nodes = &older.automations.get("auto-cond-c").unwrap().nodes;
    assert!(matches!(nodes[0].config, AutomationNodeConfig::HttpRequest { .. }));
}

#[test]
fn schedules_beside_automations_stay_enabled() {
    let mut board = Board::new();
    load_persisted_state(&mut board, old_state(), 50).unwrap();
    board.schedules.insert("new".to_string(), cron_schedule());
    let mut again = Board::new();
    load_persisted_state(&mut again, save_persisted_state(&board), 60).unwrap();
    assert!(again.schedules.get("new").unwrap().enabled);
    assert!(!again.schedules.get("abc").unwrap().enabled);
}

#[test]
fn loading_checks_the_version() {
    let mut board = Board::new();
    assert_eq!(load_persisted_state(&mut board, old_state(), 50).unwrap(), Some(1));
    assert_eq!(board.automations.len(), 3);

    let mut newer = old_state();
    newer.version = 3;
    let mut board = Board::new();
    assert_eq!(
        load_persisted_state(&mut board, newer, 50).unwrap_err(),
        "unsupported state version 3; expected 2",
    );
    assert!(board.devices.entries.is_empty());
}

#[test]
fn readings_are_not_kept() {
    let mut board = Board::new();
    board.devices.insert("lights".to_string(), dummy_device("lights", "192.168.0.40", true));
    let kept = save_persisted_state(&board);
    update_device_error(&mut board.devices, "lights", "away".to_string(), 9);
    let later = save_persisted_state(&board);
    assert_eq!(kept.devices.get("lights").unwrap().ip, later.devices.get("lights").unwrap().ip);
    let mut reloaded = Board::new();
    load_persisted_state(&mut reloaded, later, 10).unwrap();
    let loaded = reloaded.devices.get("lights").unwrap();
    assert!(loaded.snapshot.is_none());
    assert_eq!(loaded.last_error, None);
    assert_eq!(loaded.consecutive_failures, 0);
}

#[test]
fn settings_are_checked() {
    assert_eq!(optional_u64_setting("N", Some("7".to_string()), 1), Ok(7));
    assert_eq!(optional_u64_setting("N", Some("x".to_string()), 1).unwrap_err(), "N must be an integer");
    assert!(check_discovery_timeout(0).is_err());
    assert!(check_discovery_timeout(60).is_ok());
    assert!(check_scan_seconds(9).is_err());
    assert!(check_scan_seconds(3600).is_ok());
    assert_eq!(default_state_home(true, true), Ok(StateHome::ConfigHome));
    assert_eq!(default_state_home(false, true), Ok(StateHome::Home));
    assert!(default_state_home(false, false).is_err());
    assert_eq!(state_home(true, false, false), Ok(StateHome::Given));
    assert_eq!(state_home(true, true, true), Ok(StateHome::Given));
    assert_eq!(state_home(false, true, true), Ok(StateHome::ConfigHome));
    assert_eq!(state_home(false, false, true), Ok(StateHome::Home));
    assert_eq!(
        state_home(false, false, false).unwrap_err(),
        "HOME or XDG_CONFIG_HOME must be set, or set FUSEBOX_STATE_PATH explicitly",
    );
    assert_eq!(default_bind_address(), "127.0.0.1:8787");
    assert_eq!(f64::from_bits(DEFAULT_ENERGY_PRICE), 27.03);
    assert_eq!((DEFAULT_REFRESH_SECONDS, DEFAULT_SCAN_SECONDS, DEFAULT_DISCOVERY_TIMEOUT_SECONDS), (10, 60, 5));
}

#[test]
fn legacy_retries_transient_tapo_handshake_failures() {
    check_retries_transient_tapo_handshake_failures();
}

#[test]
fn legacy_tests_retries_transient_tapo_handshake_failures() {
    check_retries_transient_tapo_handshake_failures();
}

#[test]
fn legacy_saves_and_loads_persisted_device_configs() {
    check_saves_and_loads_persisted_device_configs();
}

#[test]
fn legacy_tests_saves_and_loads_persisted_device_configs() {
    check_saves_and_loads_persisted_device_configs();
}

#[test]
fn legacy_persists_schedule_across_reload() {
    check_persists_schedule_across_reload();
}

#[test]
fn legacy_tests_persists_schedule_across_reload() {
    check_persists_schedule_across_reload();
}

#[test]
fn legacy_condition_intent_fail_closed_for_unprobed_required_condition() {
    check_condition_intent_fail_closed_for_unprobed_required_condition();
}

#[test]
fn legacy_tests_condition_intent_fail_closed_for_unprobed_required_condition() {
    check_condition_intent_fail_closed_for_unprobed_required_condition();
}

#[test]
fn legacy_condition_hysteresis_debounces_flapping_probes() {
    check_condition_hysteresis_debounces_flapping_probes();
}

#[test]
fn legacy_tests_condition_hysteresis_debounces_flapping_probes() {
    check_condition_hysteresis_debounces_flapping_probes();
}

#[test]
fn legacy_does_not_fire_hook_for_first_read_without_prior_snapshot() {
    check_does_not_fire_hook_for_first_read_without_prior_snapshot();
}

#[test]
fn legacy_tests_does_not_fire_hook_for_first_read_without_prior_snapshot() {
    check_does_not_fire_hook_for_first_read_without_prior_snapshot();
}

#[test]
fn legacy_two_devices_each_fire_hook_independently() {
    check_two_devices_each_fire_hook_independently();
}

#[test]
fn legacy_tests_two_devices_each_fire_hook_independently() {
    check_two_devices_each_fire_hook_independently();
}

#[test]
fn legacy_offline_event_waits_for_consecutive_failures() {
    check_offline_event_waits_for_consecutive_failures();
}

#[test]
fn legacy_tests_offline_event_waits_for_consecutive_failures() {
    check_offline_event_waits_for_consecutive_failures();
}
