//! Refresh schedules of Databricks relations.

use dbt_fusion::databricks::refresh::{
    captured_parts, checked_diff, diff, from_local_config, from_remote_state, new_component,
    normalize_every_interval, normalize_time_zone, parse_interval_parts, parse_interval_seconds,
    validate, Config, DescribeRow, RefreshLoader, RefreshMode, Schedule,
};
use dbt_fusion::json::Json;

fn none() -> Config {
    Config::none()
}

fn config(
    cron: Option<&str>,
    time_zone: Option<&str>,
    every: Option<&str>,
    on_update: bool,
    at_most_every: Option<&str>,
) -> Config {
    Config {
        cron: cron.map(str::to_string),
        time_zone_value: time_zone.map(str::to_string),
        every: every.map(str::to_string),
        on_update,
        at_most_every: at_most_every.map(str::to_string),
        ..none()
    }
}

fn describe(schedule: Option<&str>) -> Vec<DescribeRow> {
    let row = |key: &str, value: &str| DescribeRow {
        key: Some(key.to_string()),
        value: Some(value.to_string()),
    };
    vec![
        row("Catalog", "main"),
        row("Refresh Schedule", schedule.unwrap_or("MANUAL")),
    ]
}

fn schedule(
    cron: Option<&str>,
    time_zone: Option<&str>,
    every: Option<&str>,
    on_update: Option<bool>,
    at_most_every: Option<&str>,
) -> Option<Schedule> {
    Some(Schedule {
        cron: cron.map(str::to_string),
        time_zone_value: time_zone.map(str::to_string),
        every: every.map(str::to_string),
        on_update,
        at_most_every: at_most_every.map(str::to_string),
    })
}

#[test]
fn test_diff_no_change() {
    let config = Config {
        cron: None,
        time_zone_value: Some("UTC".to_string()),
        is_altered: false,
        ..none()
    };
    let diff = diff(&config, &config);
    assert!(diff.is_none());
}

#[test]
fn test_diff_new_cron() {
    let old = Config {
        cron: None,
        time_zone_value: Some("UTC".to_string()),
        is_altered: false,
        ..none()
    };
    let new = Config {
        cron: Some("* * * * *".to_string()),
        time_zone_value: Some("UTC".to_string()),
        is_altered: false,
        ..none()
    };
    let diff = diff(&new, &old).unwrap();
    assert_eq!(diff.cron, Some("* * * * *".to_string()));
    assert_eq!(diff.time_zone_value, Some("UTC".to_string()));
    assert!(!diff.is_altered);
}

#[test]
fn test_diff_changed_cron_and_timezone() {
    let old = Config {
        cron: Some("* * * * *".to_string()),
        time_zone_value: Some("UTC".to_string()),
        is_altered: false,
        ..none()
    };
    let new = Config {
        cron: Some("*/60 * * * *".to_string()),
        time_zone_value: Some("UTC-01:00".to_string()),
        is_altered: false,
        ..none()
    };
    let diff = diff(&new, &old).unwrap();
    assert_eq!(diff.cron, Some("*/60 * * * *".to_string()));
    assert_eq!(diff.time_zone_value, Some("UTC-01:00".to_string()));
    assert!(diff.is_altered);
}

#[test]
fn test_from_remote_state_manual() {
    let table = describe(None); // MANUAL by default
    let config = from_remote_state(Some(&table)).unwrap();

    assert_eq!(config.value.cron, None);
    assert_eq!(config.value.time_zone_value, None);
}

#[test]
fn test_from_remote_state_cron_schedule() {
    let table = describe(Some("CRON '0 */6 * * *' AT TIME ZONE 'UTC'"));
    let config = from_remote_state(Some(&table)).unwrap();

    assert_eq!(config.value.cron, Some("0 */6 * * *".to_string()));
    assert_eq!(config.value.time_zone_value, Some("UTC".to_string()));
}

#[test]
fn test_from_local_config_with_schedule() {
    let model = schedule(Some("0 */6 * * *"), Some("UTC"), None, None, None);
    let config = from_local_config(&model).unwrap();

    assert_eq!(config.value.cron, Some("0 */6 * * *".to_string()));
    assert_eq!(config.value.time_zone_value, Some("UTC".to_string()));
}

#[test]
fn test_from_local_config_cron_only() {
    let model = schedule(Some("0 */12 * * *"), None, None, None, None);
    let config = from_local_config(&model).unwrap();

    assert_eq!(config.value.cron, Some("0 */12 * * *".to_string()));
    assert_eq!(config.value.time_zone_value, None);
}

#[test]
fn test_from_local_config_no_schedule() {
    let config = from_local_config(&None).unwrap();

    assert_eq!(config.value.cron, None);
    assert_eq!(config.value.time_zone_value, None);
    assert!(!config.value.auto_refreshed);

    let config = from_local_config(&schedule(None, None, None, None, None)).unwrap();
    assert_eq!(config.value.cron, None);
    assert_eq!(config.value.time_zone_value, None);
    assert_eq!(config.value.every, None);
    assert!(!config.value.on_update);
    assert!(!config.value.auto_refreshed);
}

#[test]
fn equality_normalizes_cron_time_zones() {
    let implicit_utc = config(Some("*/5 * * * *"), None, None, false, None);
    let utc = config(Some("*/5 * * * *"), Some("utc"), None, false, None);
    let etc_utc = config(Some("*/5 * * * *"), Some("Etc/UTC"), None, false, None);

    assert!(implicit_utc.eq(&utc));
    assert!(utc.eq(&etc_utc));
    assert!(diff(&implicit_utc, &etc_utc).is_none());
    for time_zone in [None, Some("UTC"), Some("utc"), Some("Etc/UTC")] {
        assert_eq!(normalize_time_zone(time_zone), "UTC");
    }
}

#[test]
fn equality_normalizes_every_units() {
    let singular = config(None, None, Some("1 day"), false, None);
    let plural = config(None, None, Some("1 DAYS"), false, None);
    assert!(singular.eq(&plural));

    let different_unit = config(None, None, Some("1 WEEK"), false, None);
    assert!(!singular.eq(&different_unit));

    for (value, expected) in [
        ("1 seconds", "SECOND"),
        ("1 MINUTE", "MINUTE"),
        ("1 Hours", "HOUR"),
        ("1 day", "DAY"),
        ("1 WEEKS", "WEEK"),
    ] {
        let (quantity, unit) = parse_interval_parts(value).unwrap();
        assert_eq!(quantity, 1);
        assert_eq!(unit, expected);
    }
}

#[test]
fn equality_normalizes_on_update_intervals() {
    let minutes = config(None, None, None, true, Some("15 MINUTES"));
    let seconds = config(None, None, None, true, Some("900 SECOND"));
    assert!(minutes.eq(&seconds));

    let bare = config(None, None, None, true, None);
    assert!(!bare.eq(&minutes));
}

#[test]
fn equality_distinguishes_modes_and_ignores_render_hints() {
    let manual = config(None, None, None, false, None);
    let mut cron = config(Some("*/5 * * * *"), None, None, false, None);
    let every = config(None, None, Some("2 HOURS"), false, None);
    let on_update = config(None, None, None, true, None);

    assert!(!manual.eq(&cron));
    assert!(!cron.eq(&every));
    assert!(!every.eq(&on_update));
    let original = cron.copy();
    cron.is_altered = true;
    cron.auto_refreshed = true;
    assert!(original.eq(&cron));
}

#[test]
fn diff_marks_add_alter_and_drop() {
    let states = [
        config(None, None, None, false, None),
        config(Some("*/5 * * * *"), None, None, false, None),
        config(None, None, Some("2 HOURS"), false, None),
        config(None, None, None, true, Some("15 MINUTES")),
    ]
    .map(|cfg| new_component(cfg).value);
    for (desired_index, desired) in states.iter().enumerate() {
        for (current_index, current) in states.iter().enumerate() {
            let change = diff(desired, current);
            if desired_index == current_index {
                assert!(change.is_none());
            } else {
                let change = change.unwrap();
                assert!(change.eq(desired));
                assert_eq!(change.is_altered, desired_index != 0 && current_index != 0);
                assert_eq!(change.auto_refreshed, desired_index >= 2);
            }
        }
    }
}

#[test]
fn validation_rejects_invalid_mode_combinations() {
    let cases = [
        (
            config(Some("*/5 * * * *"), None, Some("2 HOURS"), false, None),
            "at most one",
        ),
        (
            config(None, Some("UTC"), None, false, None),
            "time_zone_value",
        ),
        (
            config(None, None, None, false, Some("15 MINUTES")),
            "at_most_every",
        ),
    ];
    for (cfg, message) in cases {
        assert!(validate(&cfg).unwrap_err().contains(message));
    }
}

#[test]
fn validation_rejects_invalid_intervals() {
    for invalid in ["30 SECONDS", "59 SECONDS"] {
        let cfg = config(None, None, None, true, Some(invalid));
        assert!(validate(&cfg).unwrap_err().contains("at least 60 seconds"));
    }
}

#[test]
fn parses_remote_automatic_schedules() {
    let cases = [
        (
            "EVERY 1 DAYS",
            config(None, None, Some("1 DAYS"), false, None),
        ),
        (
            "every 8 weeks",
            config(None, None, Some("8 WEEKS"), false, None),
        ),
        ("TRIGGER ON UPDATE", config(None, None, None, true, None)),
        (
            "TRIGGER ON UPDATE AT MOST EVERY INTERVAL 900 SECOND",
            config(None, None, None, true, Some("900 SECOND")),
        ),
    ];

    for (value, expected) in cases {
        let table = describe(Some(value));
        assert_eq!(
            from_remote_state(Some(&table)).unwrap().to_jinja(),
            new_component(expected).to_jinja(),
            "schedule: {value}"
        );
    }
}

#[test]
fn rejects_unknown_remote_schedule_shapes() {
    let table = describe(Some("invalid description"));
    assert!(from_remote_state(Some(&table))
        .unwrap_err()
        .contains("Could not parse refresh schedule"));
}

#[test]
fn invalid_every_is_rejected() {
    let model = schedule(None, None, Some("2 MINUTES"), None, None);
    assert!(from_local_config(&model)
        .unwrap_err()
        .contains("expected '<integer> {HOURS|DAYS|WEEKS}'"));
}

#[test]
fn refresh_jinja_fields_and_recorded_config_match() {
    let refresh = new_component(config(None, None, None, true, Some("15 MINUTES")));
    let fields = vec![
        ("cron", Json::Null),
        ("time_zone_value", Json::Null),
        ("every", Json::Null),
        ("on_update", Json::Bool(true)),
        ("at_most_every", Json::Text("15 MINUTES".to_string())),
        ("auto_refreshed", Json::Bool(true)),
        ("is_altered", Json::Bool(false)),
    ];
    assert_eq!(
        refresh.to_jinja(),
        Json::Object(
            fields
                .into_iter()
                .map(|(k, v)| (k.to_string(), v))
                .collect()
        )
    );
    let recorded = RefreshLoader::new_component_type_erased(
        None,
        None,
        None,
        true,
        Some("900 SECOND".to_string()),
    );
    assert!(diff(&refresh.value, &recorded.value).is_none());
}

#[test]
fn different_cron_time_zones_produce_a_diff() {
    let desired = config(
        Some("0 0 * * * ? *"),
        Some("America/Los_Angeles"),
        None,
        false,
        None,
    );
    let current = config(
        Some("0 0 * * * ? *"),
        Some("America/New_York"),
        None,
        false,
        None,
    );
    assert!(diff(&desired, &current).unwrap().is_altered);
}

#[test]
fn loads_local_schedule_modes_and_auto_refresh_state() {
    let every = from_local_config(&schedule(None, None, Some("2 HOURS"), None, None)).unwrap();
    assert_eq!(every.value.mode(), RefreshMode::Every);
    assert!(every.to_jinja().get("auto_refreshed").unwrap() == &Json::Bool(true));

    let on_update =
        from_local_config(&schedule(None, None, None, Some(true), Some("15 MINUTES"))).unwrap();
    assert_eq!(on_update.value.mode(), RefreshMode::OnUpdate);
    assert!(on_update.to_jinja().get("auto_refreshed").unwrap() == &Json::Bool(true));
}

#[test]
fn a_table_without_a_description_is_refused() {
    assert!(from_remote_state(None).is_err());
    let rows: Vec<DescribeRow> = Vec::new();
    assert!(from_remote_state(Some(&rows)).is_err());
}

#[test]
fn intervals_are_counted_in_seconds() {
    assert_eq!(parse_interval_seconds("2 minutes"), Ok(120));
    assert_eq!(parse_interval_seconds(" 1 hour "), parse_interval_seconds("60 MINUTE"));
    assert_eq!(parse_interval_seconds("1 WEEK"), Ok(604_800));
    assert!(parse_interval_seconds("1 YEAR").is_err());
    assert!(parse_interval_seconds("x").is_err());
    assert!(parse_interval_seconds("18446744073709551615 WEEKS").is_err());
    assert_eq!(
        normalize_every_interval("3 hours"),
        Ok((3, "HOUR".to_string()))
    );
    assert!(normalize_every_interval("3 minutes").is_err());
}

#[test]
fn parts_that_were_captured_are_read() {
    assert_eq!(
        captured_parts("7 days", Some(("7".to_string(), "days".to_string()))),
        Ok((7, "DAY".to_string()))
    );
    assert!(captured_parts("x", None).is_err());
}

#[test]
fn invalid_configurations_are_not_compared() {
    let bad = config(None, None, Some("nonsense"), false, None);
    let good = config(None, None, Some("2 HOURS"), false, None);
    assert!(checked_diff(&bad, &good).is_err());
    assert!(checked_diff(&good, &bad).is_err());
    assert!(checked_diff(&good, &good).unwrap().is_none());
    assert!(RefreshLoader::checked_component(
        Some("* * * * *".to_string()),
        None,
        Some("2 HOURS".to_string()),
        false,
        None
    )
    .is_err());
}

#[test]
fn same_schedules_are_an_equivalence() {
    let all = [
        config(Some("0 0 * * *"), None, None, false, None),
        config(Some("0 0 * * *"), Some("UTC"), None, false, None),
        config(None, None, Some("24 HOURS"), false, None),
        config(None, None, Some("1 DAY"), false, None),
        config(None, None, None, true, Some("1 HOUR")),
        config(None, None, None, true, Some("60 MINUTES")),
    ];
    for a in &all {
        assert!(a.eq(a));
        for b in &all {
            assert_eq!(a.eq(b), b.eq(a));
            for c in &all {
                assert!(!(a.eq(b) && b.eq(c)) || a.eq(c));
            }
        }
    }
}
