use fusebox::actions::{HookEvent, HookSource, ScheduleAction, ScheduleKind};
use fusebox::conditions::{condition_probe_key, parse_status_match, status_matches, ConditionConfig};
use fusebox::devices::{compute_effective, is_tapo_handshake_error};
use fusebox::hooks::{hook_matches, HookConfig, HookTemplateContext};
use fusebox::schedules::{
    interval_phase_at, next_interval_fire_ms, normalize_cron, parse_cron, translate_dow_field, ScheduleConfig,
};
use fusebox::settings::{optional_u64_setting, parse_string_list};
use fusebox::table::Table;

fn check_parses_default_settings_without_optional_values() {
    assert_eq!(optional_u64_setting("FUSEBOX_TEST_MISSING", None, 42).unwrap(), 42);
}

#[test]
fn legacy_parses_default_settings_without_optional_values() {
    check_parses_default_settings_without_optional_values();
}

#[test]
fn legacy_tests_parses_default_settings_without_optional_values() {
    check_parses_default_settings_without_optional_values();
}

fn check_parses_comma_or_space_separated_string_lists() {
    let targets = parse_string_list("192.168.0.0/24, 10.10.0.255\n172.18.0.0/16");

    assert_eq!(
        targets,
        vec![
            "192.168.0.0/24".to_string(),
            "10.10.0.255".to_string(),
            "172.18.0.0/16".to_string(),
        ],
    );
}

#[test]
fn legacy_parses_comma_or_space_separated_string_lists() {
    check_parses_comma_or_space_separated_string_lists();
}

#[test]
fn legacy_tests_parses_comma_or_space_separated_string_lists() {
    check_parses_comma_or_space_separated_string_lists();
}

fn check_identifies_tapo_handshake_failures() {
    let handshake_error = anyhow::Error::msg("HTTP error 400: Handshake2 failed");
    let other_error = anyhow::Error::msg("HTTP error 400: device busy");

    assert!(is_tapo_handshake_error(&handshake_error));
    assert!(!is_tapo_handshake_error(&other_error));
    assert!(is_tapo_handshake_error(&handshake_error.context("failed to switch the plug")));
}

#[test]
fn legacy_identifies_tapo_handshake_failures() {
    check_identifies_tapo_handshake_failures();
}

#[test]
fn legacy_tests_identifies_tapo_handshake_failures() {
    check_identifies_tapo_handshake_failures();
}

fn check_normalizes_five_field_cron_with_seconds_prefix() {
    let normalized = normalize_cron("0 7 * * 1-5").unwrap();
    assert_eq!(normalized, "0 0 7 * * 1-5");
    parse_cron(&normalized).unwrap();
}

#[test]
fn legacy_normalizes_five_field_cron_with_seconds_prefix() {
    check_normalizes_five_field_cron_with_seconds_prefix();
}

#[test]
fn legacy_tests_normalizes_five_field_cron_with_seconds_prefix() {
    check_normalizes_five_field_cron_with_seconds_prefix();
}

fn check_passes_six_field_cron_through() {
    let normalized = normalize_cron("30 0 7 * * 1-5").unwrap();
    assert_eq!(normalized, "30 0 7 * * 1-5");
    parse_cron(&normalized).unwrap();
}

#[test]
fn legacy_passes_six_field_cron_through() {
    check_passes_six_field_cron_through();
}

#[test]
fn legacy_tests_passes_six_field_cron_through() {
    check_passes_six_field_cron_through();
}

fn check_accepts_standard_dow_zero_through_seven() {
    let normalized = normalize_cron("0 2 * * 0,6").unwrap();
    assert_eq!(normalized, "0 0 2 * * 0,6");
    parse_cron(&normalized).unwrap();

    let normalized_seven = normalize_cron("0 2 * * 7").unwrap();
    parse_cron(&normalized_seven).unwrap();
}

#[test]
fn legacy_accepts_standard_dow_zero_through_seven() {
    check_accepts_standard_dow_zero_through_seven();
}

#[test]
fn legacy_tests_accepts_standard_dow_zero_through_seven() {
    check_accepts_standard_dow_zero_through_seven();
}

fn check_translates_standard_dow_to_crate_dow() {
    assert_eq!(translate_dow_field("0"), "1");
    assert_eq!(translate_dow_field("7"), "1");
    assert_eq!(translate_dow_field("0,6"), "1,7");
    assert_eq!(translate_dow_field("1-5"), "2-6");
    assert_eq!(translate_dow_field("*"), "*");
    assert_eq!(translate_dow_field("*/2"), "*/2");
    assert_eq!(translate_dow_field("1-5/2"), "2-6/2");
}

#[test]
fn legacy_translates_standard_dow_to_crate_dow() {
    check_translates_standard_dow_to_crate_dow();
}

#[test]
fn legacy_tests_translates_standard_dow_to_crate_dow() {
    check_translates_standard_dow_to_crate_dow();
}

fn check_weekday_cron_fires_monday_to_friday() {
    let normalized = normalize_cron("0 7 * * 1-5").unwrap();
    let parsed = parse_cron(&normalized).unwrap();
    let sunday_midnight =
        chrono::DateTime::<chrono::Utc>::from_timestamp(1_704_585_600, 0).unwrap();
    let next = parsed.after(&sunday_midnight).next().unwrap();
    assert_eq!(next.timestamp(), 1_704_697_200);
}

#[test]
fn legacy_weekday_cron_fires_monday_to_friday() {
    check_weekday_cron_fires_monday_to_friday();
}

#[test]
fn legacy_tests_weekday_cron_fires_monday_to_friday() {
    check_weekday_cron_fires_monday_to_friday();
}

fn check_rejects_invalid_cron_expressions() {
    assert!(normalize_cron("").is_err());
    assert!(normalize_cron("not a cron").is_err());
    assert!(normalize_cron("99 99 * * *").is_err());
}

#[test]
fn legacy_rejects_invalid_cron_expressions() {
    check_rejects_invalid_cron_expressions();
}

#[test]
fn legacy_tests_rejects_invalid_cron_expressions() {
    check_rejects_invalid_cron_expressions();
}

fn check_interval_phase_flips_at_boundary() {
    let schedule = ScheduleConfig {
        id: "x".to_string(),
        device_name: "lights".to_string(),
        kind: ScheduleKind::Interval,
        cron: None,
        action: None,
        on_seconds: Some(60),
        off_seconds: Some(120),
        start_action: Some(ScheduleAction::On),
        starts_at_ms: Some(1_000),
        enabled: true,
        label: None,
        condition_ids: Vec::new(),
        created_at_ms: 1_000,
        last_fired_at_ms: None,
        last_error: None,
    };

    assert_eq!(
        interval_phase_at(&schedule, 1_000),
        Some(ScheduleAction::On)
    );
    assert_eq!(
        interval_phase_at(&schedule, 60_000),
        Some(ScheduleAction::On)
    );
    assert_eq!(
        interval_phase_at(&schedule, 61_001),
        Some(ScheduleAction::Off)
    );
    assert_eq!(
        interval_phase_at(&schedule, 180_000),
        Some(ScheduleAction::Off)
    );
    assert_eq!(
        interval_phase_at(&schedule, 181_001),
        Some(ScheduleAction::On)
    );
    assert_eq!(interval_phase_at(&schedule, 500), None);

    // From 30 s the next flip is at 61 s, from on to off.
    assert_eq!(next_interval_fire_ms(&schedule, 30_000), Some(61_000));
    // From 120 s the next flip is at 181 s, from off to on.
    assert_eq!(next_interval_fire_ms(&schedule, 120_000), Some(181_000));
}

#[test]
fn legacy_interval_phase_flips_at_boundary() {
    check_interval_phase_flips_at_boundary();
}

#[test]
fn legacy_tests_interval_phase_flips_at_boundary() {
    check_interval_phase_flips_at_boundary();
}

fn check_parses_status_match_formats() {
    let single = parse_status_match("200").unwrap();
    assert!(status_matches(&single, 200));
    assert!(!status_matches(&single, 201));

    let range = parse_status_match("200-299").unwrap();
    assert!(status_matches(&range, 200));
    assert!(status_matches(&range, 250));
    assert!(status_matches(&range, 299));
    assert!(!status_matches(&range, 300));

    let mixed = parse_status_match("200, 204, 301-302").unwrap();
    assert!(status_matches(&mixed, 200));
    assert!(status_matches(&mixed, 204));
    assert!(status_matches(&mixed, 302));
    assert!(!status_matches(&mixed, 201));

    assert!(parse_status_match("").is_err());
    assert!(parse_status_match("not-numbers").is_err());
    assert!(parse_status_match("500-400").is_err());
}

#[test]
fn legacy_parses_status_match_formats() {
    check_parses_status_match_formats();
}

#[test]
fn legacy_tests_parses_status_match_formats() {
    check_parses_status_match_formats();
}

fn sample_condition() -> ConditionConfig {
    ConditionConfig {
        id: "x".to_string(),
        name: "n".to_string(),
        device_name: "dev".to_string(),
        url: "https://example.test/api".to_string(),
        method: "GET".to_string(),
        headers: Table { entries: Vec::new() },
        body: None,
        status_match: "200".to_string(),
        body_contains: None,
        poll_seconds: 30,
        enabled: true,
        action_on_pass: None,
        action_on_fail: None,
        created_at_ms: 0,
        last_checked_at_ms: None,
        last_passing: None,
        last_status_code: None,
        last_error: None,
        last_action_at_ms: None,
        last_action: None,
        last_action_error: None,
        min_stable_seconds: 0,
        pending_value: None,
        pending_since_ms: None,
    }
}

fn check_probe_key_groups_identical_requests() {
    let mut a = sample_condition();
    a.id = "a".to_string();
    let mut b = sample_condition();
    b.id = "b".to_string();
    // Another device and another pace, and still the same probe.
    b.device_name = "other".to_string();
    b.poll_seconds = 5;
    let mut different_url = sample_condition();
    different_url.url = "https://example.test/other".to_string();
    let mut different_status = sample_condition();
    different_status.status_match = "200-299".to_string();
    let mut different_method = sample_condition();
    different_method.method = "POST".to_string();
    let mut different_headers = sample_condition();
    different_headers
        .headers
        .insert("Authorization".to_string(), "Bearer x".to_string());

    assert_eq!(condition_probe_key(&a), condition_probe_key(&b));
    assert_ne!(condition_probe_key(&a), condition_probe_key(&different_url));
    assert_ne!(
        condition_probe_key(&a),
        condition_probe_key(&different_status)
    );
    assert_ne!(
        condition_probe_key(&a),
        condition_probe_key(&different_method)
    );
    assert_ne!(
        condition_probe_key(&a),
        condition_probe_key(&different_headers)
    );
}

#[test]
fn legacy_probe_key_groups_identical_requests() {
    check_probe_key_groups_identical_requests();
}

#[test]
fn legacy_tests_probe_key_groups_identical_requests() {
    check_probe_key_groups_identical_requests();
}

fn check_effective_state_truth_table() {
    // (manual, schedule, condition) -> expected
    let cases = [
        // Nothing is wanted.
        ((None, None, None), None),
        // Conditions alone.
        ((None, None, Some(true)), Some(true)),
        ((None, None, Some(false)), Some(false)),
        // Schedule alone.
        ((None, Some(true), None), Some(true)),
        ((None, Some(false), None), Some(false)),
        // The schedule says on, and the conditions agree.
        ((None, Some(true), Some(true)), Some(true)),
        // The schedule says on, and the conditions force off.
        ((None, Some(true), Some(false)), Some(false)),
        // The schedule says off, whatever the conditions say.
        ((None, Some(false), Some(true)), Some(false)),
        ((None, Some(false), Some(false)), Some(false)),
        // An override beats every other input.
        ((Some(true), Some(false), Some(false)), Some(true)),
        ((Some(false), Some(true), Some(true)), Some(false)),
        ((Some(true), None, Some(false)), Some(true)),
    ];

    for ((manual, schedule, condition), expected) in cases {
        assert_eq!(
            compute_effective(manual, schedule, condition),
            expected,
            "compute_effective(manual={:?}, schedule={:?}, condition={:?})",
            manual,
            schedule,
            condition,
        );
    }
}

#[test]
fn legacy_effective_state_truth_table() {
    check_effective_state_truth_table();
}

#[test]
fn legacy_tests_effective_state_truth_table() {
    check_effective_state_truth_table();
}

fn sample_hook(device_filter: Vec<String>, event_filter: Vec<HookEvent>) -> HookConfig {
    HookConfig {
        id: "h".to_string(),
        name: "n".to_string(),
        enabled: true,
        url: "http://example.invalid".to_string(),
        method: "POST".to_string(),
        headers: Table { entries: Vec::new() },
        body: None,
        device_filter,
        event_filter,
        created_at_ms: 0,
        last_fired_at_ms: None,
        last_event: None,
        last_status_code: None,
        last_error: None,
    }
}

fn check_hook_matches_device_and_event_filters() {
    let any_device_any_event = sample_hook(Vec::new(), Vec::new());
    assert!(hook_matches(&any_device_any_event, "ac", HookEvent::On));
    assert!(hook_matches(
        &any_device_any_event,
        "lights",
        HookEvent::Offline,
    ));

    let lights_only = sample_hook(vec!["lights".to_string()], Vec::new());
    assert!(hook_matches(&lights_only, "lights", HookEvent::On));
    assert!(!hook_matches(&lights_only, "ac", HookEvent::On));

    let offline_only = sample_hook(Vec::new(), vec![HookEvent::Offline]);
    assert!(hook_matches(&offline_only, "ac", HookEvent::Offline));
    assert!(!hook_matches(&offline_only, "ac", HookEvent::On));

    let mut disabled = sample_hook(Vec::new(), Vec::new());
    disabled.enabled = false;
    assert!(!hook_matches(&disabled, "ac", HookEvent::On));

    let lights_offline = sample_hook(
        vec!["lights".to_string()],
        vec![HookEvent::Offline, HookEvent::Online],
    );
    assert!(hook_matches(&lights_offline, "lights", HookEvent::Offline));
    assert!(!hook_matches(&lights_offline, "lights", HookEvent::On));
    assert!(!hook_matches(&lights_offline, "ac", HookEvent::Offline));
}

#[test]
fn legacy_hook_matches_device_and_event_filters() {
    check_hook_matches_device_and_event_filters();
}

#[test]
fn legacy_tests_hook_matches_device_and_event_filters() {
    check_hook_matches_device_and_event_filters();
}

fn check_hook_template_substitution_renders_known_vars() {
    let ctx = HookTemplateContext {
        device: "lights".to_string(),
        nickname: "Lights".to_string(),
        model: "p110".to_string(),
        event: HookEvent::Off,
        source: HookSource::Condition,
        previous_on: Some(true),
        new_on: Some(false),
        timestamp_ms: 1_700_000_000_000,
    };

    assert_eq!(ctx.render("{{nickname}} -> {{event}}"), "Lights -> off",);
    assert_eq!(
        ctx.render("https://ntfy.example/topic/{{device}}"),
        "https://ntfy.example/topic/lights",
    );
    assert_eq!(
        ctx.render("source={{source}} prev={{previous_on}} new={{new_on}} ts={{timestamp_ms}}"),
        "source=condition prev=true new=false ts=1700000000000",
    );
    // Unknown placeholders stay.
    assert_eq!(ctx.render("{{unknown}}"), "{{unknown}}");
    // A placeholder that stands twice is replaced twice.
    assert_eq!(ctx.render("{{event}}-{{event}}"), "off-off");
}

#[test]
fn legacy_hook_template_substitution_renders_known_vars() {
    check_hook_template_substitution_renders_known_vars();
}

#[test]
fn legacy_tests_hook_template_substitution_renders_known_vars() {
    check_hook_template_substitution_renders_known_vars();
}
