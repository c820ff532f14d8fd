//! Environment variables and YAML values in templates.

use dbt_fusion::value::Value;
use dbt_fusion::vars::env_var::{check_access, env_var, env_var_with_lookup, secret_placeholder};
use dbt_fusion::vars::yaml::{
    yml_timestamp_to_minijinja, yml_value_to_minijinja, TemplateValue, TimeOfDay, Timestamp,
    YmlNumber, YmlValue,
};

fn render_mock(name: &str) -> String {
    let got = env_var(
        true,
        name,
        Some(Value::of_text("fixture-value")),
        Some("process-value".to_string()),
        None,
    )
    .unwrap();
    assert!(
        got.recorded.is_none(),
        "mocked values must not be tracked as environment dependencies"
    );
    got.value.text
}

#[test]
fn mock_overrides_return_exact_values_without_tracking() {
    assert_eq!(render_mock("UNIT_TEST_OVERRIDE"), "fixture-value");
}

#[test]
fn secret_mock_overrides_return_exact_values_without_tracking() {
    assert_eq!(
        render_mock("DBT_ENV_SECRET_UNIT_TEST_OVERRIDE"),
        "fixture-value"
    );
}

fn render(name: &str, allow_secrets: bool) -> Result<String, String> {
    env_var_with_lookup(
        allow_secrets,
        name,
        Some(Value::of_text("overlay-value")),
        None,
        None,
    )
    .map(|got| got.value.text)
}

#[test]
fn scoped_lookup_preserves_reserved_and_secret_access_rules() {
    assert!(render("_DBT_PRIVATE", true).is_err());
    assert!(render("DBT_ENV_SECRET_PASSWORD", false).is_err());
    assert_eq!(
        render("DBT_ENV_SECRET_PASSWORD", true).unwrap(),
        secret_placeholder("DBT_ENV_SECRET_PASSWORD")
    );
    assert_eq!(render("PROFILE_ACCOUNT", true).unwrap(), "overlay-value");
}

#[test]
fn placeholders_name_the_variable() {
    assert_eq!(
        secret_placeholder("DBT_ENV_SECRET_X"),
        "$$$DBT_SECRET_START$$$DBT_ENV_SECRET_X$$$DBT_SECRET_END$$$"
    );
    assert!(check_access(true, "DBT_ENV_SECRET_X").is_ok());
    assert!(check_access(false, "DBT_ENV_SECRET_X").is_err());
    assert!(check_access(true, "_DBT_X").is_err());
}

#[test]
fn the_process_and_the_default_come_after_the_scope() {
    let from_process =
        env_var_with_lookup(true, "A", None, Some("p".to_string()), Some(Value::of_text("d")))
            .unwrap();
    assert_eq!(from_process.value.text, "p");
    assert_eq!(from_process.recorded.as_deref(), Some("p"));
    let from_default =
        env_var_with_lookup(true, "A", None, None, Some(Value::of_text("d"))).unwrap();
    assert_eq!(from_default.value.text, "d");
    let missing = env_var_with_lookup(true, "A", None, None, None).unwrap_err();
    assert_eq!(missing, "'env_var': environment variable 'A' not found");
}

fn timestamp(year: i32, month: u8, day: u8, time: Option<TimeOfDay>, tz: Option<i32>) -> Timestamp {
    Timestamp {
        year,
        month,
        day,
        time,
        tz_minutes: tz,
        text: "canonical".to_string(),
    }
}

fn noon() -> TimeOfDay {
    TimeOfDay {
        hour: 12,
        minute: 30,
        second: 5,
        nanosecond: 0,
    }
}

#[test]
fn timestamps_become_dates_and_times() {
    assert!(matches!(
        yml_timestamp_to_minijinja(&timestamp(2024, 2, 29, None, None)),
        TemplateValue::Date(2024, 2, 29)
    ));
    assert!(matches!(
        yml_timestamp_to_minijinja(&timestamp(2024, 2, 29, Some(noon()), None)),
        TemplateValue::DateTime(2024, 2, 29, _, None)
    ));
    assert!(matches!(
        yml_timestamp_to_minijinja(&timestamp(2024, 2, 29, Some(noon()), Some(60))),
        TemplateValue::DateTime(2024, 2, 29, _, Some(_))
    ));
}

#[test]
fn timestamps_that_there_are_not_stay_texts() {
    let bad_time = TimeOfDay {
        hour: 24,
        ..noon()
    };
    for t in [
        timestamp(2023, 2, 29, None, None),
        timestamp(2024, 13, 1, None, None),
        timestamp(2024, 1, 1, Some(bad_time), None),
    ] {
        match yml_timestamp_to_minijinja(&t) {
            TemplateValue::Text(s) => assert_eq!(s, "canonical"),
            other => panic!("{other:?}"),
        }
    }
}

#[test]
fn values_keep_their_shape() {
    let number = |integer: Option<i64>, float: Option<&str>, text: &str| {
        YmlValue::Number(YmlNumber {
            integer,
            float: float.map(str::to_string),
            text: text.to_string(),
        })
    };
    let value = YmlValue::Sequence(vec![
        YmlValue::Null,
        YmlValue::Boolean(true),
        number(Some(7), None, "7"),
        number(None, Some("1.5"), "1.5"),
        YmlValue::Tagged(Box::new(YmlValue::Text("x".to_string()))),
        YmlValue::Mapping(vec![
            (YmlValue::Text("b".to_string()), YmlValue::Null),
            (YmlValue::Text("a".to_string()), YmlValue::Boolean(false)),
        ]),
    ]);
    match yml_value_to_minijinja(&value) {
        TemplateValue::Sequence(items) => {
            assert!(matches!(items[0], TemplateValue::Nothing));
            assert!(matches!(items[1], TemplateValue::Boolean(true)));
            assert!(matches!(items[2], TemplateValue::Integer(7)));
            assert!(matches!(&items[3], TemplateValue::Real(t) if t == "1.5"));
            assert!(matches!(&items[4], TemplateValue::Text(t) if t == "x"));
            match &items[5] {
                TemplateValue::Mapping(entries) => {
                    let keys: Vec<&str> = entries.iter().map(|e| e.0.as_str()).collect();
                    assert_eq!(keys, vec!["a", "b"]);
                }
                other => panic!("{other:?}"),
            }
        }
        other => panic!("{other:?}"),
    }
}
