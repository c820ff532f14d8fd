//! The Athena profile.

use dbt_fusion::profile::athena_config::{
    apply_values, default_threads, setup_athena_profile, AthenaDbConfig, FieldKind, FieldValue,
    StringOrInteger, AUTH_ACCESS_KEY, AUTH_DEFAULT_CHAIN, AUTH_PROFILE,
};

fn values(pairs: Vec<(&str, FieldValue)>) -> Vec<(String, FieldValue)> {
    pairs.into_iter().map(|(k, v)| (k.to_string(), v)).collect()
}

fn s(v: &str) -> FieldValue {
    FieldValue::Text(v.to_string())
}

#[test]
fn default_chain_sets_no_credentials() {
    let config = apply_values(
        &AthenaDbConfig::blank(),
        &values(vec![
            ("region_name", s("us-east-2")),
            ("s3_staging_dir", s("s3://bucket/results/")),
            ("s3_data_dir", s("")),
            ("database", s("awsdatacatalog")),
            ("schema", s("analytics")),
            ("work_group", s("")),
            ("auth_method", FieldValue::Integer(AUTH_DEFAULT_CHAIN)),
            // Would only apply when the matching method is selected.
            ("aws_profile_name", s("ignored")),
            ("aws_access_key_id", s("ignored")),
        ]),
    );

    assert_eq!(config.region_name.as_deref(), Some("us-east-2"));
    assert_eq!(
        config.s3_staging_dir.as_deref(),
        Some("s3://bucket/results/")
    );
    assert_eq!(config.s3_data_dir, None);
    assert_eq!(config.database.as_deref(), Some("awsdatacatalog"));
    assert_eq!(config.schema.as_deref(), Some("analytics"));
    assert_eq!(config.work_group, None);
    assert_eq!(config.aws_profile_name, None);
    assert_eq!(config.aws_access_key_id, None);
    assert_eq!(config.aws_secret_access_key, None);
}

#[test]
fn profile_method_shows_only_the_profile_prompt() {
    let config = apply_values(
        &AthenaDbConfig::blank(),
        &values(vec![
            ("auth_method", FieldValue::Integer(AUTH_PROFILE)),
            ("aws_profile_name", s("analytics-sso")),
            ("aws_access_key_id", s("ignored")),
        ]),
    );

    assert_eq!(config.aws_profile_name.as_deref(), Some("analytics-sso"));
    assert_eq!(config.aws_access_key_id, None);
}

#[test]
fn access_key_method_collects_the_pair_and_optional_token() {
    let config = apply_values(
        &AthenaDbConfig::blank(),
        &values(vec![
            ("auth_method", FieldValue::Integer(AUTH_ACCESS_KEY)),
            ("aws_access_key_id", s("AKIAEXAMPLE")),
            ("aws_secret_access_key", s("secret")),
            ("aws_session_token", s("")),
            ("aws_profile_name", s("ignored")),
        ]),
    );

    assert_eq!(config.aws_access_key_id.as_deref(), Some("AKIAEXAMPLE"));
    assert_eq!(config.aws_secret_access_key.as_deref(), Some("secret"));
    assert_eq!(config.aws_session_token, None);
    assert_eq!(config.aws_profile_name, None);
}

#[test]
fn switching_method_clears_the_previous_credentials() {
    let existing = AthenaDbConfig {
        aws_access_key_id: Some("AKIAEXAMPLE".to_string()),
        aws_secret_access_key: Some("secret".to_string()),
        ..AthenaDbConfig::blank()
    };
    assert!(existing
        .get_field("auth_method")
        .unwrap()
        .is(&FieldValue::Integer(AUTH_ACCESS_KEY)));

    let config = apply_values(
        &existing,
        &values(vec![
            ("auth_method", FieldValue::Integer(AUTH_PROFILE)),
            ("aws_profile_name", s("analytics-sso")),
        ]),
    );

    assert_eq!(config.aws_profile_name.as_deref(), Some("analytics-sso"));
    assert_eq!(config.aws_access_key_id, None);
    assert_eq!(config.aws_secret_access_key, None);
}

#[test]
fn threads_default_to_one() {
    let fresh = setup_athena_profile(None, &Vec::new());
    assert!(matches!(fresh.threads, Some(StringOrInteger::Integer(1))));
    assert_eq!(default_threads(), 1);
    let existing = AthenaDbConfig {
        threads: Some(StringOrInteger::Text("4".to_string())),
        schema: Some("kept".to_string()),
        ..AthenaDbConfig::blank()
    };
    let kept = setup_athena_profile(Some(&existing), &Vec::new());
    assert!(matches!(kept.threads, Some(StringOrInteger::Text(t)) if t == "4"));
    assert_eq!(kept.schema.as_deref(), Some("kept"));
}

#[test]
fn fields_are_asked_in_order() {
    let fields = AthenaDbConfig::get_fields();
    let names: Vec<&str> = fields.iter().map(|f| f.name.as_str()).collect();
    assert_eq!(
        names,
        vec![
            "region_name",
            "s3_staging_dir",
            "s3_data_dir",
            "database",
            "schema",
            "work_group",
            "auth_method",
            "aws_profile_name",
            "aws_access_key_id",
            "aws_secret_access_key",
            "aws_session_token",
        ]
    );
    assert_eq!(fields[3].default.as_deref(), Some("awsdatacatalog"));
    assert!(matches!(&fields[6].kind, FieldKind::Select(options, 0) if options.len() == 3));
    assert!(matches!(fields[9].kind, FieldKind::Password));
    assert!(fields[9].required);
    assert!(!fields[10].required);
}

#[test]
fn a_condition_is_read_from_the_profile_where_nothing_is_answered() {
    let existing = AthenaDbConfig {
        aws_profile_name: Some("sso".to_string()),
        ..AthenaDbConfig::blank()
    };
    let fields = AthenaDbConfig::get_fields();
    assert!(fields[7].is_asked(&existing, &Vec::new()));
    assert!(!fields[8].is_asked(&existing, &Vec::new()));
    assert!(!fields[7].is_asked(&AthenaDbConfig::blank(), &Vec::new()));
    let config = apply_values(&existing, &values(vec![("aws_profile_name", s("other"))]));
    assert_eq!(config.aws_profile_name.as_deref(), Some("other"));
}

#[test]
fn set_texts_are_read_back() {
    let mut config = AthenaDbConfig::blank();
    assert!(!config.is_field_set("region_name"));
    config.set_field("region_name", s(""));
    assert!(config.get_field("region_name").unwrap().is(&s("")));
    config.set_field("work_group", s("wg"));
    assert!(config.get_field("work_group").unwrap().is(&s("wg")));
    config.set_field("work_group", s(""));
    assert!(!config.is_field_set("work_group"));
    config.set_field("schema", FieldValue::Integer(1));
    assert!(!config.is_field_set("schema"));
    config.set_field("nothing", s("x"));
    assert!(config.get_field("nothing").is_none());
}
