//! From a profile to the options of an Athena connection.

use dbt_fusion::athena::auth::{
    parse_auth, AdapterConfig, AthenaAuth, AthenaAuthIR, AthenaOption, AuthError, DatabaseBuilder,
    ProfileField, DEFAULT_CATALOG, DEFAULT_WORK_GROUP,
};

struct Profile {
    fields: Vec<ProfileField>,
}

impl Profile {
    fn text(&mut self, name: &str, value: &str) {
        self.fields.push(ProfileField {
            name: name.to_string(),
            string: Some(value.to_string()),
            shown: Some(value.to_string()),
        });
    }

    fn scalar(&mut self, name: &str, value: &str) {
        self.fields.push(ProfileField {
            name: name.to_string(),
            string: None,
            shown: Some(value.to_string()),
        });
    }

    fn remove(&mut self, name: &str) {
        self.fields.retain(|f| f.name != name);
    }
}

fn base_required() -> Profile {
    let mut profile = Profile { fields: Vec::new() };
    profile.text("region_name", "us-east-1");
    profile.text("s3_staging_dir", "s3://my-bucket/athena/");
    profile.text("schema", "analytics");
    profile
}

fn configure(profile: Profile) -> Result<DatabaseBuilder, AuthError> {
    let config = AdapterConfig {
        fields: profile.fields,
    };
    let poll_seconds = config
        .get_string("poll_interval")
        .and_then(|text| text.parse::<f64>().ok())
        .filter(|seconds| seconds.is_finite() && *seconds > 0.0)
        .map(|seconds| seconds.to_string());
    AthenaAuth::new().configure(&config, poll_seconds.as_deref())
}

fn option(builder: &DatabaseBuilder, option: AthenaOption) -> Option<String> {
    builder.option(option)
}

#[test]
fn test_iam_default_method() {
    let builder = configure(base_required())
        .expect("configure");

    assert_eq!(option(&builder, AthenaOption::AuthType).as_deref(), Some("iam"));
    assert_eq!(
        option(&builder, AthenaOption::Region).as_deref(),
        Some("us-east-1")
    );
    assert_eq!(
        option(&builder, AthenaOption::S3StagingDir).as_deref(),
        Some("s3://my-bucket/athena/")
    );
    assert_eq!(
        option(&builder, AthenaOption::Schema).as_deref(),
        Some("analytics")
    );
    assert_eq!(
        option(&builder, AthenaOption::Catalog).as_deref(),
        Some(DEFAULT_CATALOG)
    );
    assert_eq!(
        option(&builder, AthenaOption::WorkGroup).as_deref(),
        Some(DEFAULT_WORK_GROUP)
    );
}

#[test]
fn test_access_key_inferred() {
    let mut config = base_required();
    config.text("aws_access_key_id", "AKIAEXAMPLE");
    config.text("aws_secret_access_key", "secret");

    let builder = configure(config)
        .expect("configure");

    assert_eq!(
        option(&builder, AthenaOption::AuthType).as_deref(),
        Some("access_key")
    );
    assert_eq!(
        option(&builder, AthenaOption::AccessKeyId).as_deref(),
        Some("AKIAEXAMPLE")
    );
    assert_eq!(
        option(&builder, AthenaOption::SecretAccessKey).as_deref(),
        Some("secret")
    );
    assert!(option(&builder, AthenaOption::SessionToken).as_deref().is_none());
}

#[test]
fn test_temporary_credentials_inferred_from_session_token() {
    let mut config = base_required();
    config.text("aws_access_key_id", "AKIAEXAMPLE");
    config.text("aws_secret_access_key", "secret");
    config.text("aws_session_token", "token-xyz");

    let builder = configure(config)
        .expect("configure");

    assert_eq!(
        option(&builder, AthenaOption::SessionToken).as_deref(),
        Some("token-xyz")
    );
}

#[test]
fn test_profile_inferred() {
    let mut config = base_required();
    config.text("aws_profile_name", "my-profile");

    let builder = configure(config)
        .expect("configure");

    assert_eq!(
        option(&builder, AthenaOption::AuthType).as_deref(),
        Some("profile")
    );
    assert_eq!(
        option(&builder, AthenaOption::ProfileName).as_deref(),
        Some("my-profile")
    );
}

#[test]
fn test_custom_catalog_and_work_group() {
    let mut config = base_required();
    config.text("database", "my_catalog");
    config.text("work_group", "analytics-wg");

    let builder = configure(config)
        .expect("configure");

    assert_eq!(
        option(&builder, AthenaOption::Catalog).as_deref(),
        Some("my_catalog")
    );
    assert_eq!(
        option(&builder, AthenaOption::WorkGroup).as_deref(),
        Some("analytics-wg")
    );
}

#[test]
fn test_catalog_alias_maps_to_database() {
    let mut config = base_required();
    config.text("catalog", "my_catalog");

    let builder = configure(config)
        .expect("configure");

    assert_eq!(
        option(&builder, AthenaOption::Catalog).as_deref(),
        Some("my_catalog")
    );
}

#[test]
fn test_database_takes_precedence_over_catalog_alias() {
    let mut config = base_required();
    config.text("database", "canonical");
    config.text("catalog", "alias_value");

    let builder = configure(config)
        .expect("configure");

    assert_eq!(
        option(&builder, AthenaOption::Catalog).as_deref(),
        Some("canonical")
    );
}

#[test]
fn test_missing_region_returns_error() {
    let mut config = base_required();
    config.remove("region_name");

    let err = configure(config)
        .expect_err("should require region_name");
    assert!(err.msg().contains("region_name"), "got: {}", err.msg());
}

#[test]
fn test_missing_s3_staging_dir_returns_error() {
    let mut config = base_required();
    config.remove("s3_staging_dir");

    let err = configure(config)
        .expect_err("should require s3_staging_dir");
    assert!(err.msg().contains("s3_staging_dir"), "got: {}", err.msg());
}

#[test]
fn test_missing_schema_returns_error() {
    let mut config = base_required();
    config.remove("schema");

    let err = configure(config)
        .expect_err("should require schema");
    assert!(err.msg().contains("schema"), "got: {}", err.msg());
}

#[test]
fn test_access_key_id_without_secret_returns_error() {
    let mut config = base_required();
    config.text("aws_access_key_id", "AKIAEXAMPLE");

    let err = configure(config)
        .expect_err("should require aws_secret_access_key");
    assert!(
        err.msg().contains("aws_secret_access_key"),
        "got: {}",
        err.msg()
    );
}

#[test]
fn test_empty_access_key_id_returns_error() {
    let mut config = base_required();
    config.text("aws_access_key_id", "");
    config.text("aws_secret_access_key", "secret");

    let err = configure(config)
        .expect_err("empty access_key_id should error");
    assert!(
        err.msg().contains("aws_access_key_id"),
        "got: {}",
        err.msg()
    );
}

#[test]
fn test_empty_profile_name_returns_error() {
    let mut config = base_required();
    config.text("aws_profile_name", "");

    let err = configure(config)
        .expect_err("empty profile name should error");
    assert!(err.msg().contains("aws_profile_name"), "got: {}", err.msg());
}

#[test]
fn test_assume_role_defaults() {
    let mut config = base_required();
    config.text("assume_role_arn", "arn:aws:iam::123456789012:role/MyRole");

    let builder = configure(config)
        .expect("configure");

    assert_eq!(option(&builder, AthenaOption::AuthType).as_deref(), Some("iam"));
    assert_eq!(
        option(&builder, AthenaOption::RoleArn).as_deref(),
        Some("arn:aws:iam::123456789012:role/MyRole")
    );
    assert_eq!(
        option(&builder, AthenaOption::RoleSessionName).as_deref(),
        Some("dbt-athena")
    );
    assert_eq!(
        option(&builder, AthenaOption::RoleDuration).as_deref(),
        Some("3600s")
    );
    assert!(option(&builder, AthenaOption::RoleExternalId).as_deref().is_none());
}

#[test]
fn test_assume_role_on_top_of_a_named_profile() {
    let mut config = base_required();
    config.text("aws_profile_name", "base");
    config.text("assume_role_arn", "arn:aws:iam::123456789012:role/MyRole");
    config.text("assume_role_external_id", "ext-1");
    config.text("assume_role_session_name", "ci");
    config.scalar("assume_role_duration_seconds", &900.to_string());

    let builder = configure(config)
        .expect("configure");

    assert_eq!(
        option(&builder, AthenaOption::ProfileName).as_deref(),
        Some("base")
    );
    assert_eq!(
        option(&builder, AthenaOption::RoleExternalId).as_deref(),
        Some("ext-1")
    );
    assert_eq!(
        option(&builder, AthenaOption::RoleSessionName).as_deref(),
        Some("ci")
    );
    assert_eq!(
        option(&builder, AthenaOption::RoleDuration).as_deref(),
        Some("900s")
    );
}

#[test]
fn test_assume_role_duration_outside_the_sts_bounds_returns_error() {
    for duration in [899i64, 43201] {
        let mut config = base_required();
        config.text("assume_role_arn", "arn:aws:iam::123456789012:role/MyRole");
        config.scalar("assume_role_duration_seconds", &duration.to_string());

        let err = configure(config)
            .expect_err("duration outside 900..=43200 should be rejected");
        assert!(
            err.msg().contains("between 900 and 43200"),
            "got: {}",
            err.msg()
        );
    }
}

#[test]
fn test_retry_defaults_match_dbt_athena() {
    let builder = configure(base_required())
        .expect("configure");

    // num_retries: 5 retries on top of the first attempt.
    assert_eq!(
        option(&builder, AthenaOption::MaxAttempts).as_deref(),
        Some("6")
    );
    assert_eq!(
        option(&builder, AthenaOption::IcebergCommitRetries).as_deref(),
        Some("3")
    );
    assert!(option(&builder, AthenaOption::PollInterval).as_deref().is_none());
    assert!(option(&builder, AthenaOption::EndpointUrl).as_deref().is_none());
    assert!(option(&builder, AthenaOption::RoleArn).as_deref().is_none());
}

#[test]
fn test_num_boto3_retries_wins_over_num_retries_unless_zero() {
    for (boto3_retries, want) in [(2i64, "3"), (0, "8")] {
        let mut config = base_required();
        config.text("num_retries", "7");
        config.scalar("num_boto3_retries", &boto3_retries.to_string());

        let builder = configure(config)
            .expect("configure");
        assert_eq!(
            option(&builder, AthenaOption::MaxAttempts).as_deref(),
            Some(want)
        );
    }
}

#[test]
fn test_connection_settings_reach_the_driver() {
    let mut config = base_required();
    config.text("endpoint_url", "https://vpce-123.athena.us-east-1.vpce.amazonaws.com");
    config.scalar("poll_interval", &0.5.to_string());
    config.text("num_iceberg_retries", "0");
    config.scalar("skip_workgroup_check", "true");
    config.scalar("debug_query_state", "true");

    let builder = configure(config)
        .expect("configure");

    assert_eq!(
        option(&builder, AthenaOption::EndpointUrl).as_deref(),
        Some("https://vpce-123.athena.us-east-1.vpce.amazonaws.com")
    );
    assert_eq!(
        option(&builder, AthenaOption::PollInterval).as_deref(),
        Some("0.5s")
    );
    assert_eq!(
        option(&builder, AthenaOption::IcebergCommitRetries).as_deref(),
        Some("0")
    );
}

#[test]
fn test_invalid_connection_settings_return_errors() {
    for (field, value) in [
        ("poll_interval", "soon"),
        ("poll_interval", "0"),
        ("num_retries", "-1"),
        ("num_iceberg_retries", "three"),
    ] {
        let mut config = base_required();
        config.text(field, value);

        let err = configure(config)
            .expect_err("invalid value should be rejected");
        assert!(err.msg().contains(field), "got: {}", err.msg());
    }
}

#[test]
fn test_lake_formation_tags_return_an_error() {
    let mut config = base_required();
    config.text("lf_tags_database", "value");

    let err = configure(config)
        .expect_err("lf_tags_database should be rejected");
    assert!(err.msg().contains("lf_tags_database"), "got: {}", err.msg());
}

#[test]
fn test_spark_work_group_is_accepted() {
    // Read by the adapter for Python models, not by the driver.
    let mut config = base_required();
    config.text("spark_work_group", "spark-wg");

    configure(config)
        .expect("spark_work_group is accepted");
}

#[test]
fn test_s3_layout_fields_are_accepted() {
    // Read by the macros (`target.*`) and the adapter methods, not by the driver.
    let mut config = base_required();
    config.text("s3_data_dir", "s3://mybucket/data/");
    config.text("s3_data_naming", "schema_table");
    config.text("s3_tmp_table_dir", "s3://mybucket/tmp/");

    configure(config)
        .expect("s3 layout fields are accepted");
}

#[test]
fn secrets_stay_with_their_keys() {
    let mut config = base_required();
    config.text("aws_profile_name", "named");
    config.text("aws_access_key_id", "AKIAEXAMPLE");
    config.text("aws_secret_access_key", "secret");
    let builder = configure(config).unwrap();
    assert!(option(&builder, AthenaOption::ProfileName).is_none());
    assert_eq!(
        option(&builder, AthenaOption::SecretAccessKey).as_deref(),
        Some("secret")
    );

    let mut config = base_required();
    config.text("aws_profile_name", "named");
    config.text("aws_secret_access_key", "secret");
    let builder = configure(config).unwrap();
    assert!(option(&builder, AthenaOption::SecretAccessKey).is_none());
}

#[test]
fn credentials_follow_the_options_that_are_there() {
    let mut builder = DatabaseBuilder::new();
    builder.with_named_option(AthenaOption::Region, "here");
    AthenaAuthIR::Iam.apply(&mut builder);
    assert_eq!(builder.options.len(), 2);
    assert_eq!(builder.options[1].1, "iam");
    let empty = AdapterConfig { fields: Vec::new() };
    assert!(matches!(parse_auth(&empty), Ok(AthenaAuthIR::Iam)));
}

#[test]
fn an_empty_secret_is_refused() {
    let mut config = base_required();
    config.text("aws_access_key_id", "AKIAEXAMPLE");
    config.text("aws_secret_access_key", "");
    assert_eq!(
        configure(config).unwrap_err().msg(),
        "Athena 'aws_secret_access_key' must not be empty"
    );
}
