//! S3 layout, partitions, documentation, Spark settings and metadata of the Athena adapter.

use dbt_fusion::athena::dispatch::{Adapter, MethodError, QueryStep, Step};
use dbt_fusion::athena::docs::{
    clean_sql_comment, ellipsis_comment, is_valid_table_parameter_key, prepare_docs,
    stringify_table_parameter_value, to_usize,
};
use dbt_fusion::athena::driver::{OpsError, OpsErrorKind, Reply};
use dbt_fusion::athena::glue::RelationParts;
use dbt_fusion::athena::grants::filter_changed;
use dbt_fusion::athena::lakeformation::{
    column_tags_to_remove, table_tags_to_remove, FilterConfig,
};
use dbt_fusion::athena::metadata::{
    athena_string_literal, list_relations_sql, relation_type_from_table_type, schema_probe_sql,
    AthenaMetadataAdapter, ColumnRow, ListingRow, TableRow,
};
use dbt_fusion::athena::methods::{
    after_run, location_arguments, partitions_limit_result, s3_location, s3_location_with, seed_object, upload_arguments, AfterRun,
    LocationError, QueryStats, S3Arguments, S3Profile,
};
use dbt_fusion::athena::partition::{
    format_one_partition_key, format_partition_keys, format_value_for_partition, murmur3_32,
    murmur3_hash,
};
use dbt_fusion::athena::s3::{
    generate_s3_location, is_s3_tables_database, parse_s3_path, s3_table_prefix, S3DataNaming,
};
use dbt_fusion::athena::spark::SparkConfig;
use dbt_fusion::athena::table_type::TableType;
use dbt_fusion::json::Json;
use dbt_fusion::number::{plain_number, shown_number_of};
use dbt_fusion::relation::{AdapterType, RelationType, ResolvedQuoting};
use dbt_fusion::value::{Value, ValueKind};

type Jinja = minijinja::value::Value;

fn from_serde(v: &serde_json::Value) -> Json {
    match v {
        serde_json::Value::Null => Json::Null,
        serde_json::Value::Bool(b) => Json::Bool(*b),
        serde_json::Value::Number(n) => match n.as_i64() {
            Some(i) => Json::Int(i as i128),
            None => Json::Real(n.to_string()),
        },
        serde_json::Value::String(s) => Json::Text(s.clone()),
        serde_json::Value::Array(a) => Json::List(a.iter().map(from_serde).collect()),
        serde_json::Value::Object(o) => Json::Object(
            o.iter()
                .map(|(k, v)| (k.clone(), from_serde(v)))
                .collect(),
        ),
    }
}

fn to_serde(v: &Json) -> serde_json::Value {
    match v {
        Json::Null => serde_json::Value::Null,
        Json::Bool(b) => serde_json::Value::Bool(*b),
        Json::Int(i) => serde_json::Value::from(*i as i64),
        Json::Real(t) => t.parse::<serde_json::Value>().unwrap(),
        Json::Text(s) => serde_json::Value::String(s.clone()),
        Json::List(a) => serde_json::Value::Array(a.iter().map(to_serde).collect()),
        Json::Object(o) => {
            serde_json::Value::Object(o.iter().map(|(k, v)| (k.clone(), to_serde(v))).collect())
        }
    }
}

fn json(text: &str) -> Json {
    from_serde(&serde(text))
}

fn serde(text: &str) -> serde_json::Value {
    text.parse().unwrap()
}

/// What the template engine tells of a value.
fn value(v: &Jinja) -> Value {
    let kind = match v.kind() {
        minijinja::value::ValueKind::Undefined => ValueKind::Undefined,
        minijinja::value::ValueKind::None => ValueKind::Nothing,
        minijinja::value::ValueKind::Bool => ValueKind::Boolean,
        minijinja::value::ValueKind::Number => ValueKind::Number,
        minijinja::value::ValueKind::String => ValueKind::Str,
        minijinja::value::ValueKind::Bytes => ValueKind::Bytes,
        minijinja::value::ValueKind::Seq => ValueKind::Sequence,
        minijinja::value::ValueKind::Map => ValueKind::Mapping,
        minijinja::value::ValueKind::Iterable => ValueKind::Iterable,
        minijinja::value::ValueKind::Plain => ValueKind::Plain,
        _ => ValueKind::Invalid,
    };
    let items: Option<Vec<Jinja>> = v.try_iter().ok().map(|items| items.collect());
    let entries = if kind == ValueKind::Mapping {
        items
            .iter()
            .flatten()
            .map(|k| (k.to_string(), value(&v.get_item(k).unwrap())))
            .collect()
    } else {
        Vec::new()
    };
    Value {
        kind,
        truthy: v.is_true(),
        text: v.to_string(),
        string: v.as_str().map(str::to_string),
        integer: v.as_i64(),
        bytes: v.as_bytes().map(|b| b.to_vec()),
        data: serde_json::to_value(v).ok().map(|j| from_serde(&j)),
        json: serde_json::to_string(v).ok(),
        items: if kind == ValueKind::Str {
            None
        } else {
            items.map(|items| items.iter().map(value).collect())
        },
        entries,
    }
}

fn val<T>(v: T) -> Value
where
    Jinja: From<T>,
{
    value(&Jinja::from(v))
}

fn map(entries: Vec<(&str, Jinja)>) -> Jinja {
    Jinja::from_iter(entries.into_iter().map(|(k, v)| (k.to_string(), v)))
}

fn strings(items: &[&str]) -> Vec<String> {
    items.iter().map(|s| s.to_string()).collect()
}

fn relation() -> RelationParts {
    RelationParts {
        database: Some("awsdatacatalog".to_string()),
        schema: "analytics".to_string(),
        identifier: "events".to_string(),
        s3_path_table_part: None,
        rendered: "\"awsdatacatalog\".\"analytics\".\"events\"".to_string(),
    }
}

// ---------------------------------------------------------------------------
// S3
// ---------------------------------------------------------------------------

#[test]
fn s3_data_naming_parses_the_python_enum_values() {
    assert_eq!(
        S3DataNaming::parse("table_unique"),
        Some(S3DataNaming::TableUnique)
    );
    assert_eq!(
        S3DataNaming::parse("schema_table"),
        Some(S3DataNaming::SchemaTable)
    );
    assert_eq!(S3DataNaming::parse("nope"), None);
}

#[test]
fn table_prefix_defaults_to_staging_dir_tables() {
    assert_eq!(
        s3_table_prefix("s3://b/stage/", None, None, None, false),
        "s3://b/stage/tables"
    );
    assert_eq!(
        s3_table_prefix("s3://b/stage", None, Some("s3://d/data"), None, false),
        "s3://d/data"
    );
    assert_eq!(
        s3_table_prefix(
            "s3://b/stage",
            Some("s3://t/tmp"),
            Some("s3://d/data"),
            None,
            true
        ),
        "s3://t/tmp"
    );
    assert_eq!(
        s3_table_prefix(
            "s3://b/stage",
            Some("s3://t/tmp"),
            Some("s3://d/data"),
            None,
            false
        ),
        "s3://d/data"
    );
}

#[test]
fn generate_s3_location_follows_the_naming_strategy() {
    let render = |naming, external: Option<&str>, temp| {
        generate_s3_location(
            "sch",
            "tbl",
            "s3://b/tables",
            naming,
            external,
            temp,
            "UUID",
        )
    };
    assert_eq!(
        render(S3DataNaming::Unique, None, false),
        "s3://b/tables/UUID"
    );
    assert_eq!(
        render(S3DataNaming::Table, None, false),
        "s3://b/tables/tbl"
    );
    assert_eq!(
        render(S3DataNaming::TableUnique, None, false),
        "s3://b/tables/tbl/UUID"
    );
    assert_eq!(
        render(S3DataNaming::SchemaTable, None, false),
        "s3://b/tables/sch/tbl"
    );
    assert_eq!(
        render(S3DataNaming::SchemaTableUnique, None, false),
        "s3://b/tables/sch/tbl/UUID"
    );
    assert_eq!(
        render(S3DataNaming::Table, Some("s3://x/ext/"), false),
        "s3://x/ext"
    );
    // a temporary table ignores external_location
    assert_eq!(
        render(S3DataNaming::Table, Some("s3://x/ext/"), true),
        "s3://b/tables/tbl"
    );
}

#[test]
fn parse_s3_path_splits_bucket_and_prefix_with_trailing_slash() {
    assert_eq!(
        parse_s3_path("s3://bucket/a/b"),
        ("bucket".to_string(), "a/b/".to_string())
    );
    assert_eq!(
        parse_s3_path("s3://bucket/a/b/"),
        ("bucket".to_string(), "a/b/".to_string())
    );
    assert_eq!(
        parse_s3_path("s3://bucket"),
        ("bucket".to_string(), "/".to_string())
    );
}

#[test]
fn a_slash_at_the_end_of_a_path_is_ignored() {
    for path in ["s3://b", "s3://b/", "s3://b//", "s3://b//a//", "s3://b/a//c", "x://", "s3:///a"] {
        let (bucket, prefix) = parse_s3_path(path);
        assert_eq!(
            parse_s3_path(&format!("{path}/")),
            (bucket.clone(), prefix.clone()),
            "{path}"
        );
        assert!(!bucket.contains('/'));
        assert!(prefix.ends_with('/') && !prefix.ends_with("//"));
        assert!(!prefix.starts_with('/') || prefix == "/");
    }
    // without a scheme the slash can complete one
    assert_eq!(parse_s3_path("s3:/").0, "s3:");
    assert_eq!(parse_s3_path("s3://").0, "");
}

#[test]
fn a_clean_comment_stays_as_it_is() {
    for comment in ["  a\n\n  b  \nc", "", " \n\t\n ", "one line", "a\r\nb", "\u{a0}x\u{2003}\ny"] {
        let clean = clean_sql_comment(comment);
        assert_eq!(clean_sql_comment(&clean), clean);
        assert!(!clean.contains('\n'));
        assert_eq!(clean.trim(), clean);
    }
}

#[test]
fn s3_tables_databases_are_recognised_by_prefix() {
    assert!(is_s3_tables_database(Some("s3tablescatalog/my-bucket")));
    assert!(is_s3_tables_database(Some("S3TablesCatalog/my-bucket")));
    assert!(!is_s3_tables_database(Some("awsdatacatalog")));
    assert!(!is_s3_tables_database(None));
}

fn no_arguments() -> S3Arguments {
    S3Arguments {
        s3_data_dir: None,
        s3_data_naming: None,
        s3_tmp_table_dir: None,
        external_location: None,
        is_temporary_table: false,
    }
}

#[test]
fn athena_generate_s3_location_requires_the_staging_dir() {
    let err = adapter()
        .athena_generate_s3_location(&relation(), None, None, None, None, None)
        .unwrap_err();
    match err {
        MethodError::Operation(error) => {
            assert_eq!(error.kind, OpsErrorKind::Configuration);
            assert!(error.message.contains("s3_staging_dir"));
        }
        MethodError::Invalid(message) | MethodError::NotSupported(message) => panic!("{message}"),
    }
}

#[test]
fn a_location_has_a_unique_part() {
    let profile = S3Profile {
        s3_staging_dir: Some("s3://b/stage/".to_string()),
        s3_data_naming: None,
        s3_tmp_table_dir: None,
    };
    let first = s3_location(&profile, &relation(), &no_arguments()).unwrap();
    let second = s3_location(&profile, &relation(), &no_arguments()).unwrap();
    assert!(first.starts_with("s3://b/stage/tables/events/"));
    assert_eq!(first.len(), "s3://b/stage/tables/events/".len() + 36);
    assert_ne!(first, second);
    assert_eq!(
        s3_location_with(&profile, &relation(), &no_arguments(), "U").unwrap(),
        "s3://b/stage/tables/events/U"
    );
}

#[test]
fn a_naming_that_there_is_not_is_refused() {
    let profile = S3Profile {
        s3_staging_dir: Some("s3://b".to_string()),
        s3_data_naming: Some("nope".to_string()),
        s3_tmp_table_dir: None,
    };
    assert_eq!(
        s3_location(&profile, &relation(), &no_arguments()),
        Err(LocationError::Invalid(
            "'nope' is not a valid s3_data_naming".to_string()
        ))
    );
    let arguments = S3Arguments {
        s3_data_naming: Some("table".to_string()),
        ..no_arguments()
    };
    assert_eq!(
        s3_location(&profile, &relation(), &arguments),
        Ok("s3://b/tables/events".to_string())
    );
}

#[test]
fn location_arguments_are_read_from_values() {
    let arguments = location_arguments(
        Some(&val("s3://d")),
        Some(&val(())),
        None,
        Some(&val("s3://x")),
        Some(&val(true)),
    );
    assert_eq!(arguments.s3_data_dir.as_deref(), Some("s3://d"));
    assert_eq!(arguments.s3_data_naming, None);
    assert_eq!(arguments.s3_tmp_table_dir, None);
    assert_eq!(arguments.external_location.as_deref(), Some("s3://x"));
    assert!(arguments.is_temporary_table);
}

#[test]
fn a_seed_is_uploaded_below_its_location() {
    assert_eq!(
        seed_object("s3://bucket/a/b", "seed"),
        ("bucket".to_string(), "a/b/seed.csv".to_string())
    );
}

// ---------------------------------------------------------------------------
// Partitions
// ---------------------------------------------------------------------------

#[test]
fn format_value_for_partition_matches_python() {
    assert_eq!(
        format_value_for_partition(&val(()), "integer").unwrap(),
        ("null".to_string(), " is ")
    );
    assert_eq!(
        format_value_for_partition(&val(7), "integer").unwrap(),
        ("7".to_string(), "=")
    );
    assert_eq!(
        format_value_for_partition(&val("it's"), "string").unwrap(),
        ("'it''s'".to_string(), "=")
    );
    assert_eq!(
        format_value_for_partition(&val("2024-01-02"), "date").unwrap(),
        ("DATE'2024-01-02'".to_string(), "=")
    );
    assert_eq!(
        format_value_for_partition(&val("2024-01-02 03:04:05"), "timestamp").unwrap(),
        ("TIMESTAMP'2024-01-02 03:04:05'".to_string(), "=")
    );
    assert!(format_value_for_partition(&val(1.5), "double").is_err());
}

#[test]
fn format_partition_keys_handles_hidden_and_bucket_partitioning() {
    assert_eq!(format_one_partition_key("DAY(ts)"), "date_trunc('day', ts)");
    assert_eq!(format_one_partition_key("bucket(user_id, 16)"), "user_id");
    assert_eq!(format_one_partition_key("Region"), "region");
    assert_eq!(
        format_partition_keys(&strings(&["year(dt)", "bucket(id, 4)", "kind"])),
        "date_trunc('year', dt), id, kind"
    );
}

#[test]
fn murmur3_matches_the_iceberg_reference_vectors() {
    assert_eq!(murmur3_32(&34i64.to_le_bytes(), 0), 2017239379);
    assert_eq!(murmur3_32("iceberg".as_bytes(), 0), 1210000089);
    assert_eq!(murmur3_hash(&val(34), 100).unwrap(), 2017239379 % 100);
    assert_eq!(murmur3_hash(&val("iceberg"), 16).unwrap(), 1210000089 % 16);
    assert!(murmur3_hash(&val(1.5), 16).is_err());
}

#[test]
fn a_string_without_bytes_hashes_as_utf8() {
    let mut text = val("iceberg");
    text.bytes = None;
    assert_eq!(murmur3_hash(&text, 16).unwrap(), 1210000089 % 16);
    text.string = None;
    assert_eq!(
        murmur3_hash(&text, 16).unwrap_err(),
        "Need to add support data type for hashing: string"
    );
}

fn adapter() -> Adapter {
    Adapter {
        parsing: false,
        profile: S3Profile {
            s3_staging_dir: None,
            s3_data_naming: None,
            s3_tmp_table_dir: None,
        },
        work_group: None,
        lf_tags_database: Vec::new(),
    }
}

fn message(error: MethodError) -> String {
    match error {
        MethodError::Invalid(message) | MethodError::NotSupported(message) => message,
        MethodError::Operation(error) => error.message,
    }
}

#[test]
fn athena_format_value_for_partition_returns_value_and_operator() {
    let adapter = adapter();
    let pair = adapter
        .athena_format_value_for_partition(&val("it's"), "string")
        .unwrap();
    assert_eq!(pair, ("'it''s'".to_string(), "="));

    let null = adapter
        .athena_format_value_for_partition(&val(()), "integer")
        .unwrap();
    assert_eq!(null, ("null".to_string(), " is "));

    let err = adapter
        .athena_format_value_for_partition(&val(1), "double")
        .unwrap_err();
    assert!(message(err).contains("Unsupported column type: double"));
}

#[test]
fn athena_partition_key_formatting_and_bucketing() {
    let adapter = adapter();
    assert_eq!(
        adapter
            .athena_format_partition_keys(&val(vec!["day(ts)", "bucket(id, 4)", "Region"]))
            .unwrap(),
        "date_trunc('day', ts), id, region"
    );
    assert_eq!(
        adapter.athena_format_one_partition_key("MONTH(dt)"),
        "date_trunc('month', dt)"
    );
    // Iceberg reference vector: murmur3(34) = 2017239379
    assert_eq!(
        adapter.athena_murmur3_hash(&val(34), 100).unwrap(),
        2017239379 % 100
    );
}

#[test]
fn partition_keys_are_walked() {
    let adapter = adapter();
    assert_eq!(
        adapter.athena_format_partition_keys(&val("Ab")).unwrap(),
        "a, b"
    );
    assert_eq!(adapter.athena_format_partition_keys(&val(())).unwrap(), "");
    assert_eq!(
        message(adapter.athena_format_partition_keys(&val(1)).unwrap_err()),
        "number is not iterable"
    );
    assert_eq!(
        message(adapter.athena_murmur3_hash(&val(34), 0).unwrap_err()),
        "num_buckets must be positive, got 0"
    );
}

#[test]
fn buckets_lie_in_range() {
    for n in [-5i64, 0, 1, 2017, i64::MAX, i64::MIN] {
        let bucket = murmur3_hash(&val(n), 7).unwrap();
        assert!((0..7).contains(&bucket));
    }
}

#[test]
fn partition_keys_at_the_edges() {
    assert_eq!(format_one_partition_key("hour(a) b)"), "date_trunc('hour', a) b)");
    assert_eq!(format_one_partition_key("day()"), "day()");
    assert_eq!(format_one_partition_key("x bucket(Id, 4)"), "id");
    assert_eq!(format_partition_keys(&Vec::new()), "");
}

#[test]
fn athena_is_list_distinguishes_sequences() {
    assert!(adapter().athena_is_list(&val(vec![1, 2])));
    assert!(!adapter().athena_is_list(&val("a, b")));
}

// ---------------------------------------------------------------------------
// Tables and their documentation
// ---------------------------------------------------------------------------

#[test]
fn table_type_from_glue_prefers_the_iceberg_parameter() {
    assert_eq!(
        TableType::from_glue(Some("customer"), Some("ICEBERG"), "t").unwrap(),
        TableType::Iceberg
    );
    assert_eq!(
        TableType::from_glue(Some("EXTERNAL_TABLE"), None, "t").unwrap(),
        TableType::Table
    );
    assert_eq!(
        TableType::from_glue(Some("VIRTUAL_VIEW"), None, "t").unwrap(),
        TableType::View
    );
    assert!(TableType::from_glue(Some("customer"), None, "t").is_err());
    assert!(TableType::from_glue(None, None, "t").is_err());
    let jinja = TableType::Iceberg.to_jinja();
    assert_eq!(
        jinja.attr("value").unwrap().string.as_deref(),
        Some("iceberg_table")
    );
}

#[test]
fn docs_string_helpers_match_python() {
    assert_eq!(clean_sql_comment("  a\n\n  b  \nc"), "a b c");
    assert_eq!(ellipsis_comment("abcdef", 5), "ab...");
    assert_eq!(ellipsis_comment("abcde", 5), "abcde");
    assert!(is_valid_table_parameter_key("dbt_project_name"));
    assert!(!is_valid_table_parameter_key("bad\nkey"));
    assert_eq!(
        stringify_table_parameter_value(&value(&map(vec![("a", Jinja::from(1))]))).unwrap(),
        r#"{"a":1}"#
    );
    assert_eq!(stringify_table_parameter_value(&val(true)).unwrap(), "True");
    assert_eq!(stringify_table_parameter_value(&val("x")).unwrap(), "x");
}

#[test]
fn parameter_values_at_the_edges() {
    assert_eq!(stringify_table_parameter_value(&val(())).unwrap(), "None");
    assert_eq!(stringify_table_parameter_value(&val(false)).unwrap(), "False");
    let long = "x".repeat(512_001);
    assert_eq!(
        stringify_table_parameter_value(&val(long.as_str()))
            .unwrap()
            .len(),
        512_000
    );
    assert!(is_valid_table_parameter_key(""));
    assert!(is_valid_table_parameter_key(&"k".repeat(255)));
    assert!(!is_valid_table_parameter_key(&"k".repeat(256)));
}

#[test]
fn counts_are_read_from_values() {
    assert_eq!(to_usize(&val(3), "to_keep"), Ok(3));
    assert!(to_usize(&val(-1), "to_keep").is_err());
    assert!(to_usize(&val("x"), "to_keep").is_err());
}

#[test]
fn athena_persist_docs_reads_its_flags_as_truthiness() {
    // `athena__persist_docs` hands over `... and model.columns`: a mapping, not a bool.
    let columns = map(vec![(
        "customer_id",
        map(vec![("description", Jinja::from("Primary key."))]),
    )]);
    let model = map(vec![("columns", columns.clone())]);
    let docs = prepare_docs(
        &value(&model),
        Some(&val(true)),
        Some(&value(&columns)),
        Some(&val(true)),
        None,
    )
    .unwrap();
    assert_eq!(
        docs.column_descriptions,
        vec![("customer_id".to_string(), "Primary key.".to_string())]
    );
    assert!(docs.skip_archive_table_version);
}

// ---------------------------------------------------------------------------
// Lake Formation
// ---------------------------------------------------------------------------

#[test]
fn column_tags_to_remove_groups_by_tag_and_skips_inherited() {
    let columns = vec![
        json(
            r#"{ "Name": "email", "LFTags": [
                { "TagKey": "pii", "TagValues": ["true"] },
                { "TagKey": "domain", "TagValues": ["sales"] }
            ] }"#,
        ),
        json(r#"{ "Name": "phone", "LFTags": [{ "TagKey": "pii", "TagValues": ["true"] }] }"#),
    ];
    let inherited = strings(&["domain"]);
    let to_remove = column_tags_to_remove(&columns, &inherited);
    assert_eq!(to_remove.len(), 1);
    assert_eq!(to_remove[0].key, "pii");
    assert_eq!(to_remove[0].value, "true");
    assert_eq!(to_remove[0].columns, strings(&["email", "phone"]));
}

#[test]
fn table_tags_to_remove_keeps_configured_and_inherited() {
    let table = vec![
        json(r#"{ "TagKey": "tier", "TagValues": ["gold"] }"#),
        json(r#"{ "TagKey": "domain", "TagValues": ["sales"] }"#),
        json(r#"{ "TagKey": "old", "TagValues": ["x", "y"] }"#),
    ];
    let configured = vec![("tier".to_string(), "lab".to_string())];
    let inherited = strings(&["domain"]);
    assert_eq!(
        table_tags_to_remove(&table, &configured, &inherited),
        vec![json(r#"{ "TagKey": "old", "TagValues": ["x", "y"] }"#)]
    );
}

#[test]
fn filter_changed_compares_row_filter_and_column_set() {
    let filter = FilterConfig {
        row_filter: "country = 'IT'".to_string(),
        column_names: vec!["b".to_string(), "a".to_string()],
        principals: vec![],
    };
    let same = json(
        r#"{ "RowFilter": { "FilterExpression": "country = 'IT'" }, "ColumnNames": ["a", "b"] }"#,
    );
    let other_row =
        json(r#"{ "RowFilter": { "FilterExpression": "true" }, "ColumnNames": ["a", "b"] }"#);
    let other_columns =
        json(r#"{ "RowFilter": { "FilterExpression": "country = 'IT'" }, "ColumnNames": ["a"] }"#);
    assert!(!filter_changed(&filter, &same));
    assert!(filter_changed(&filter, &other_row));
    assert!(filter_changed(&filter, &other_columns));
}

#[test]
fn athena_lake_formation_configs_are_no_ops_when_disabled_and_checked_when_malformed() {
    let adapter = adapter();
    let disabled = value(&Jinja::from_iter([("enabled", Jinja::from(false))]));
    assert_eq!(adapter.athena_add_lf_tags(&disabled), Step::Done(()));

    let grants = |enabled: bool| {
        value(&Jinja::from_iter([(
            "data_cell_filters",
            Jinja::from_iter([
                ("enabled", Jinja::from(enabled)),
                ("filters", Jinja::from_iter::<[(&str, Jinja); 0]>([])),
            ]),
        )]))
    };
    assert_eq!(adapter.athena_apply_lf_grants(&grants(false)), Step::Done(()));

    // without lf_tags_database in the profile the call is a no-op
    assert_eq!(
        adapter.athena_add_lf_tags_to_database("analytics", &Vec::new()),
        Step::Done(())
    );

    // a tag value that is not a string is rejected
    let malformed = value(&Jinja::from_iter([
        ("enabled", Jinja::from(true)),
        ("tags", Jinja::from_iter([("tier", Jinja::from(1))])),
    ]));
    match adapter.athena_add_lf_tags(&malformed) {
        Step::Failed(MethodError::Invalid(error)) => {
            assert!(error.contains("invalid lf_tags_config"), "{error}")
        }
        other => panic!("{other:?}"),
    }
}

#[test]
fn enabled_lake_formation_configs_are_not_supported() {
    let adapter = adapter();
    let tags = |fields: &str| {
        let parsed: serde_json::Value = serde_json::from_str(fields).unwrap();
        value(&Jinja::from_serialize(&parsed))
    };
    let not_supported = |what: &str| {
        Step::Failed(MethodError::NotSupported(format!(
            "{what} is not yet supported by the dbt Athena backend"
        )))
    };
    assert_eq!(
        adapter.athena_add_lf_tags(&tags(
            r#"{ "enabled": true, "tags": { "tier": "lab" },
                 "tags_columns": { "pii": { "true": ["email"] } },
                 "inherited_tags": ["domain"] }"#
        )),
        not_supported("lf_tags_config")
    );
    assert_eq!(
        adapter.athena_add_lf_tags(&tags(r#"{ "enabled": true, "tags": null }"#)),
        not_supported("lf_tags_config")
    );
    for malformed in [
        r#"{ "enabled": true, "tags_columns": { "pii": ["email"] } }"#,
        r#"{ "enabled": true, "tags_columns": { "pii": { "true": [1] } } }"#,
        r#"{ "enabled": true, "inherited_tags": "domain" }"#,
        r#"{ "enabled": "yes" }"#,
    ] {
        assert_eq!(
            adapter.athena_add_lf_tags(&tags(malformed)),
            Step::Failed(MethodError::Invalid("invalid lf_tags_config".to_string())),
            "{malformed}"
        );
    }
    assert_eq!(
        adapter.athena_apply_lf_grants(&tags(r#"{ "data_cell_filters": { "enabled": true } }"#)),
        not_supported("lf_grants")
    );
    assert_eq!(
        adapter.athena_apply_lf_grants(&tags(r#"{ "data_cell_filters": 1 }"#)),
        Step::Done(())
    );
}

// ---------------------------------------------------------------------------
// Methods that reach the services
// ---------------------------------------------------------------------------

fn at_bucket() -> Adapter {
    Adapter {
        profile: S3Profile {
            s3_staging_dir: Some("s3://b/stage/".to_string()),
            s3_data_naming: None,
            s3_tmp_table_dir: None,
        },
        ..adapter()
    }
}

fn operation<T>(step: Step<T>) -> String {
    match step {
        Step::Ask(request) => request.operation,
        Step::Done(_) => "done".to_string(),
        Step::Failed(error) => message(error),
    }
}

#[test]
fn methods_ask_the_services() {
    let adapter = at_bucket();
    let none = Vec::new();
    let plain = RelationParts {
        database: None,
        ..relation()
    };
    let other = RelationParts {
        database: None,
        ..relation()
    };
    assert_eq!(
        operation(adapter.athena_get_glue_table_type(&plain, &none)),
        "glue.get_table"
    );
    assert_eq!(
        operation(adapter.athena_clean_up_table(&plain, &none)),
        "glue.get_table"
    );
    assert_eq!(
        operation(adapter.athena_delete_from_glue_catalog(&plain, &none)),
        "glue.delete_table"
    );
    assert_eq!(
        operation(adapter.athena_drop_glue_database("d", None, &none)),
        "sts.get_caller_identity"
    );
    assert_eq!(
        operation(adapter.athena_drop_glue_database("d", Some(""), &none)),
        "glue.delete_database"
    );
    assert_eq!(
        operation(adapter.athena_expire_glue_table_versions(&plain, &val("2"), false, &none)),
        "glue.get_table_versions"
    );
    assert_eq!(
        operation(adapter.athena_swap_table(&plain, &other, &none)),
        "glue.get_table"
    );
    assert_eq!(
        operation(adapter.athena_clean_up_partitions(&plain, &val("a = 1"), &none)),
        "glue.get_partitions"
    );
    assert_eq!(
        operation(adapter.athena_delete_from_s3("s3://b/p", &none)),
        "s3.list_objects"
    );
    assert_eq!(
        operation(adapter.athena_is_work_group_output_location_enforced(&none)),
        "athena.get_work_group"
    );
    assert_eq!(
        operation(adapter.athena_persist_docs_to_glue(
            &plain,
            &value(&map(Vec::new())),
            Some(&val(true)),
            None,
            None,
            None,
            &none
        )),
        "glue.get_table"
    );
    let found = Ok(from_serde(&serde(r#"{"Table": {"TableType": "VIRTUAL_VIEW"}}"#)));
    assert_eq!(
        adapter.athena_get_glue_table_type(&plain, &vec![found]),
        Step::Done(Some(TableType::View))
    );
}

#[test]
fn methods_refuse_what_is_not_valid() {
    let adapter = at_bucket();
    let none = Vec::new();
    assert_eq!(
        operation(adapter.athena_expire_glue_table_versions(&relation(), &val(-1), true, &none)),
        "to_keep must be >= 0, got -1"
    );
    assert_eq!(
        operation(adapter.athena_clean_up_partitions(&relation(), &val(1), &none)),
        "number is not iterable"
    );
    assert_eq!(
        operation(adapter.athena_persist_docs_to_glue(
            &relation(),
            &value(&map(vec![("columns", Jinja::from(1))])),
            None,
            Some(&val(true)),
            None,
            None,
            &none
        )),
        "expected a mapping, got number"
    );
}

#[test]
fn nothing_is_asked_while_a_project_is_parsed() {
    let adapter = Adapter {
        parsing: true,
        ..at_bucket()
    };
    let none = Vec::new();
    assert_eq!(
        adapter.athena_get_glue_table_type(&relation(), &none),
        Step::Done(None)
    );
    assert_eq!(
        adapter.athena_is_work_group_output_location_enforced(&none),
        Step::Done(false)
    );
    assert_eq!(
        adapter.athena_expire_glue_table_versions(&relation(), &val(1), true, &none),
        Step::Done(Vec::new())
    );
    assert_eq!(
        adapter.athena_clean_up_partitions(&relation(), &val("a"), &none),
        Step::Done(())
    );
    assert_eq!(
        adapter.athena_upload_seed_to_s3(&relation(), b"x", None, None, None, None, "u", &none),
        Step::Done(None)
    );
    assert_eq!(
        adapter.athena_run_query_with_partitions_limit_catching(None),
        QueryStep::Done(None)
    );
    assert_eq!(
        adapter.athena_run_operation_with_potential_multiple_runs("vacuum", None),
        QueryStep::Done(None)
    );
    // what a macro hands over is read first
    assert_eq!(
        operation(adapter.athena_expire_glue_table_versions(&relation(), &val("x"), true, &none)),
        "to_keep must be an integer, got 'x'"
    );
}

#[test]
fn seeds_are_uploaded_to_their_location() {
    let adapter = at_bucket();
    let arguments = value(&map(vec![("ACL", Jinja::from("private"))]));
    let upload = |replies: &Vec<Reply>| {
        adapter.athena_upload_seed_to_s3(
            &relation(),
            b"id\n1\n",
            Some(&val("s3://d/data")),
            Some(&val("schema_table")),
            None,
            Some(&arguments),
            "u",
            replies,
        )
    };
    match upload(&Vec::new()) {
        Step::Ask(request) => {
            assert_eq!(request.operation, "s3.put_object");
            assert_eq!(
                to_serde(&request.payload),
                serde(
                    r#"{"Bucket": "d", "Key": "data/analytics/events/events.csv",
                        "Body": "aWQKMQo=", "ACL": "private"}"#
                )
            );
        }
        other => panic!("{other:?}"),
    }
    assert_eq!(
        upload(&vec![Ok(Json::Null)]),
        Step::Done(Some("s3://d/data/analytics/events".to_string()))
    );
    let denied = OpsError {
        kind: OpsErrorKind::Driver,
        message: "denied".to_string(),
    };
    assert_eq!(operation(upload(&vec![Err(denied)])), "denied");
}

#[test]
fn queries_are_run_and_answered() {
    let adapter = adapter();
    assert_eq!(
        adapter.athena_run_query_with_partitions_limit_catching(None),
        QueryStep::Execute
    );
    assert_eq!(
        adapter.athena_run_query_with_partitions_limit_catching(Some(Err(
            "TOO_MANY_OPEN_PARTITIONS".to_string()
        ))),
        QueryStep::Done(Some("TOO_MANY_OPEN_PARTITIONS".to_string()))
    );
    assert_eq!(
        adapter.athena_run_query_with_partitions_limit_catching(Some(Err("broken".to_string()))),
        QueryStep::Failed("broken".to_string())
    );
    assert_eq!(
        adapter.athena_run_operation_with_potential_multiple_runs("vacuum", None),
        QueryStep::Execute
    );
    assert_eq!(
        adapter.athena_run_operation_with_potential_multiple_runs(
            "vacuum",
            Some(Err("ICEBERG_VACUUM_MORE_RUNS_NEEDED".to_string()))
        ),
        QueryStep::Execute
    );
    assert_eq!(
        adapter.athena_run_operation_with_potential_multiple_runs("vacuum", Some(Ok(()))),
        QueryStep::Done(None)
    );
}

// ---------------------------------------------------------------------------
// Spark
// ---------------------------------------------------------------------------

#[test]
fn spark_config_defaults_follow_dbt_athena() {
    let spark = SparkConfig::from_model_config(&value(&map(Vec::new())), None).unwrap();
    assert_eq!(spark.timeout_secs, 43200);
    assert_eq!(spark.polling_interval, Json::Int(1));
    assert_eq!(
        to_serde(&spark.engine_config),
        serde(
            r#"{
                "CoordinatorDpuSize": 1,
                "MaxConcurrentDpus": 2,
                "DefaultExecutorDpuSize": 1,
                "SparkProperties": {}
            }"#
        )
    );

    let half = Json::Real("0.5".to_string());
    let from_profile =
        SparkConfig::from_model_config(&value(&map(Vec::new())), Some(&half)).unwrap();
    assert_eq!(from_profile.polling_interval, half);
}

#[test]
fn spark_config_merges_table_format_flags_and_engine_config() {
    let config = map(vec![
        ("table_type", Jinja::from("ICEBERG")),
        ("spark_requester_pays", Jinja::from(true)),
        ("timeout", Jinja::from(600)),
        ("polling_interval", Jinja::from(2)),
        (
            "engine_config",
            map(vec![
                ("MaxConcurrentDpus", Jinja::from(4)),
                (
                    "SparkProperties",
                    map(vec![("spark.sql.shuffle.partitions", Jinja::from("8"))]),
                ),
            ]),
        ),
    ]);
    let half = Json::Real("0.5".to_string());
    let spark = SparkConfig::from_model_config(&value(&config), Some(&half)).unwrap();
    assert_eq!(spark.timeout_secs, 600);
    assert_eq!(spark.polling_interval, Json::Int(2));
    let engine = to_serde(&spark.engine_config);
    assert_eq!(engine["MaxConcurrentDpus"], serde("4"));
    let properties = engine["SparkProperties"].as_object().unwrap();
    assert_eq!(
        properties["spark.sql.catalog.spark_catalog.catalog-impl"],
        serde(r#""org.apache.iceberg.aws.glue.GlueCatalog""#)
    );
    assert_eq!(
        properties["spark.hadoop.fs.s3.useRequesterPaysHeader"],
        serde(r#""true""#)
    );
    assert_eq!(properties["spark.sql.shuffle.partitions"], serde(r#""8""#));
}

#[test]
fn spark_config_rejects_what_dbt_athena_rejects() {
    for (entries, message) in [
        (vec![("timeout", Jinja::from(0))], "positive integer"),
        (vec![("timeout", Jinja::from("1h"))], "must be an integer"),
        (
            vec![("polling_interval", Jinja::from(-1))],
            "positive number",
        ),
        (
            vec![(
                "engine_config",
                map(vec![("MaxConcurrentDpus", Jinja::from(1))]),
            )],
            "MaxConcurrentDpus is 2",
        ),
        (
            vec![("engine_config", map(vec![("Workers", Jinja::from(1))]))],
            "expected athena engine keys",
        ),
    ] {
        let err = SparkConfig::from_model_config(&value(&map(entries)), None).unwrap_err();
        assert!(err.message.contains(message), "got: {}", err.message);
    }
}

#[test]
fn a_refused_polling_interval_is_shown_as_a_number() {
    for (interval, shown) in [
        (Jinja::from(0.0), "0"),
        (Jinja::from(-1.0), "-1"),
        (Jinja::from(-1.5), "-1.5"),
        (Jinja::from(-0.0000001), "-0.0000001"),
        (Jinja::from(-1e20), "-100000000000000000000"),
        (Jinja::from(-2), "-2"),
        (Jinja::from(-9007199254740993i64), "-9007199254740992"),
        (Jinja::from(-1234567890123456789i64), "-1234567890123456800"),
        (Jinja::from("soon"), "soon"),
    ] {
        let config = value(&map(vec![("polling_interval", interval)]));
        let err = SparkConfig::from_model_config(&config, None).unwrap_err();
        assert_eq!(
            err.message,
            format!("Polling_interval must be a positive number. Got: {shown}")
        );
    }
}

#[test]
fn numbers_are_written_out() {
    for (text, plain) in [
        ("0.0", "0"),
        ("-0.0", "-0"),
        ("12.50", "12.50"),
        ("1e-7", "0.0000001"),
        ("1.25e+3", "1250"),
        ("1.25e1", "12.5"),
        ("-2.5e-1", "-0.25"),
        ("1e401", "1e401"),
        ("nan", "nan"),
    ] {
        assert_eq!(plain_number(text), plain, "{text}");
    }
}

#[test]
fn integers_are_shown_as_floating_point_numbers() {
    let mut numbers: Vec<i128> = vec![
        0,
        -1,
        -120,
        i64::MIN as i128,
        i64::MIN as i128 + 1,
        i64::MAX as i128,
        u64::MAX as i128,
        -9007199254740991,
        -9007199254740992,
        -9007199254740993,
        -9007199254740995,
        -999999999999999999,
        -123456789012345678,
        10_000_000_000_000_000_000,
        9_999_999_999_999_999_999,
    ];
    for bits in 1..64 {
        for offset in -3..4 {
            numbers.push((1i128 << bits) + offset);
            numbers.push((1i128 << bits) / 3 * 2 + offset);
        }
    }
    let mut power: i128 = 1;
    for _ in 0..19 {
        for offset in -2..3 {
            numbers.push(-power + offset);
            numbers.push(-power / 7 * 5 + offset);
        }
        power *= 10;
    }
    for n in numbers {
        if (i64::MIN as i128..=u64::MAX as i128).contains(&n) {
            assert_eq!(shown_number_of(n), format!("{}", n as f64));
        }
    }
    // no number of more than 64 bits is read as a floating-point number
    assert_eq!(shown_number_of(-18446744073709551617), "-18446744073709551617");
}

// ---------------------------------------------------------------------------
// Other methods
// ---------------------------------------------------------------------------

#[test]
fn seed_upload_arguments_are_texts() {
    let arguments = map(vec![
        ("ACL", Jinja::from("private")),
        ("BucketKeyEnabled", Jinja::from(true)),
    ]);
    assert_eq!(
        upload_arguments(Some(&value(&arguments))).unwrap(),
        vec![
            ("ACL".to_string(), "private".to_string()),
            ("BucketKeyEnabled".to_string(), "True".to_string()),
        ]
    );
    assert!(upload_arguments(None).unwrap().is_empty());
    assert!(upload_arguments(Some(&val(1))).is_err());
}

#[test]
fn too_many_open_partitions_is_a_result() {
    let stats = QueryStats {
        rows_affected: 3,
        bytes_processed: Some(7),
    };
    assert_eq!(
        partitions_limit_result(Ok(stats)),
        Ok(r#"{"rowcount":3,"data_scanned_in_bytes":7}"#.to_string())
    );
    assert_eq!(
        partitions_limit_result(Err("x TOO_MANY_OPEN_PARTITIONS: y".to_string())),
        Ok("TOO_MANY_OPEN_PARTITIONS".to_string())
    );
    assert_eq!(
        partitions_limit_result(Err("broken".to_string())),
        Err("broken".to_string())
    );
}

#[test]
fn a_run_is_repeated_while_more_runs_are_needed() {
    assert!(matches!(after_run("optimize", Ok(())), AfterRun::Done));
    assert!(matches!(
        after_run(
            "optimize",
            Err("ICEBERG_OPTIMIZE_MORE_RUNS_NEEDED: again".to_string())
        ),
        AfterRun::Again
    ));
    assert!(matches!(
        after_run("optimize", Err("broken".to_string())),
        AfterRun::Failed(_)
    ));
}

// ---------------------------------------------------------------------------
// Metadata
// ---------------------------------------------------------------------------

#[test]
fn literals_are_lowercased_and_quote_escaped() {
    assert_eq!(
        athena_string_literal("Analytics_Bronze_QA"),
        "analytics_bronze_qa"
    );
    assert_eq!(athena_string_literal("o'neil"), "o''neil");
}

#[test]
fn table_type_mapping_follows_trino() {
    assert_eq!(
        relation_type_from_table_type("BASE TABLE"),
        RelationType::Table
    );
    assert_eq!(relation_type_from_table_type("VIEW"), RelationType::View);
    assert_eq!(relation_type_from_table_type("view"), RelationType::View);
    assert_eq!(
        relation_type_from_table_type("SOMETHING"),
        RelationType::Table
    );
}

fn row(name: &str, comment: &str) -> TableRow {
    TableRow {
        table_database: "db".to_string(),
        table_schema: "sch".to_string(),
        table_name: name.to_string(),
        table_type: "table".to_string(),
        table_comment: comment.to_string(),
        table_owner: String::new(),
    }
}

#[test]
fn the_catalog_holds_the_first_row_of_each_table() {
    let adapter = AthenaMetadataAdapter::new(ResolvedQuoting::trues());
    assert_eq!(adapter.adapter_type(), AdapterType::Athena);
    let tables =
        adapter.build_schemas_from_stats_sql(&vec![row("b", "1"), row("a", "2"), row("b", "3")]);
    assert_eq!(tables.len(), 2);
    assert_eq!(tables[0].0, "db.sch.a");
    assert_eq!(tables[1].0, "db.sch.b");
    assert_eq!(tables[1].1.metadata.comment.as_deref(), Some("1"));
    assert_eq!(tables[0].1.metadata.owner.as_deref(), Some(""));
}

#[test]
fn columns_are_grouped_by_table() {
    let adapter = AthenaMetadataAdapter::new(ResolvedQuoting::trues());
    let column = |table: &str, name: &str, index: i64| ColumnRow {
        table_database: "db".to_string(),
        table_schema: "sch".to_string(),
        table_name: table.to_string(),
        column_name: name.to_string(),
        column_index: index,
        column_type: "varchar".to_string(),
        column_comment: String::new(),
    };
    let columns = adapter.build_columns_from_get_columns(&vec![
        column("t", "x", 0),
        column("s", "y", 0),
        column("t", "z", 1),
    ]);
    assert_eq!(columns.len(), 2);
    assert_eq!(columns[0].0, "db.sch.s");
    assert_eq!(columns[1].0, "db.sch.t");
    assert_eq!(columns[1].1.columns.len(), 2);
    assert_eq!(columns[1].1.columns[1].1.index, 1);
    assert_eq!(columns[1].1.columns[1].1.comment, None);
}

#[test]
fn relations_are_listed_with_their_types() {
    let adapter = AthenaMetadataAdapter::new(ResolvedQuoting::trues());
    let rows = vec![ListingRow {
        table_schema: "sch".to_string(),
        table_name: "v".to_string(),
        table_type: "VIEW".to_string(),
    }];
    let relations = adapter.list_relations("cat", &rows);
    assert_eq!(relations.len(), 1);
    assert_eq!(relations[0].database, "cat");
    assert_eq!(relations[0].relation_type, Some(RelationType::View));
    assert!(list_relations_sql("Cat", "O'Sch").contains("'o''sch'"));
    assert!(list_relations_sql("Cat", "s").contains("lower(table_catalog) = 'cat'"));
    assert!(!list_relations_sql("", "s").contains("table_catalog) ="));
    assert_eq!(
        schema_probe_sql("a.b"),
        "select * from a.b where false limit 0"
    );
}
