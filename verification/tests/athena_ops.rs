//! Operations of the Athena adapter, as conversations with the driver.

use dbt_fusion::athena::cleanup::partition_expressions;
use dbt_fusion::athena::docs::{ColumnParameter, Docs};
use dbt_fusion::athena::driver::{
    invalid_json, result_cell, unreadable_column, OpsError, OpsErrorKind, Progress, Reply, Request,
};
use dbt_fusion::athena::facts::EngineFacts;
use dbt_fusion::athena::glue::{AthenaOps, RelationParts};
use dbt_fusion::athena::lakeformation::{
    DataCellFiltersConfig, FilterConfig, LfGrantsConfig, LfTagsConfig,
};
use dbt_fusion::athena::session::SessionPool;
use dbt_fusion::json::Json;

fn from_serde(v: &serde_json::Value) -> Json {
    match v {
        serde_json::Value::Null => Json::Null,
        serde_json::Value::Bool(b) => Json::Bool(*b),
        serde_json::Value::Number(n) => match n.as_i64() {
            Some(i) => Json::Int(i as i128),
            None => Json::Real(n.to_string()),
        },
        serde_json::Value::String(s) => Json::Text(s.clone()),
        serde_json::Value::Array(a) => Json::List(a.iter().map(from_serde).collect()),
        serde_json::Value::Object(o) => Json::Object(
            o.iter()
                .map(|(k, v)| (k.clone(), from_serde(v)))
                .collect(),
        ),
    }
}

fn to_serde(v: &Json) -> serde_json::Value {
    match v {
        Json::Null => serde_json::Value::Null,
        Json::Bool(b) => serde_json::Value::Bool(*b),
        Json::Int(i) => serde_json::Value::from(*i as i64),
        Json::Real(t) => t.parse::<serde_json::Value>().unwrap(),
        Json::Text(s) => serde_json::Value::String(s.clone()),
        Json::List(a) => serde_json::Value::Array(a.iter().map(to_serde).collect()),
        Json::Object(o) => {
            serde_json::Value::Object(o.iter().map(|(k, v)| (k.clone(), to_serde(v))).collect())
        }
    }
}

fn ok(text: &str) -> Reply {
    Ok(from_serde(&text.parse().unwrap()))
}

/// A failure of the driver.
fn broken(message: &str) -> Reply {
    Err(OpsError {
        kind: OpsErrorKind::Driver,
        message: message.to_string(),
    })
}

/// Runs an operation against a script of replies, to what it asked and what came of it.
fn run<T>(
    operation: impl Fn(&Vec<Reply>) -> Progress<T>,
    script: Vec<Reply>,
) -> (Vec<Request>, Result<T, OpsError>) {
    let mut replies: Vec<Reply> = Vec::new();
    let mut asked = Vec::new();
    let mut script = script.into_iter();
    loop {
        match operation(&replies) {
            Progress::Ask(request) => {
                let reply = match script.next() {
                    Some(reply) => reply,
                    None => panic!("no reply to {request:?}"),
                };
                asked.push(request);
                replies.push(reply);
            }
            Progress::Got(value, taken) => {
                assert_eq!(taken, replies.len());
                assert!(script.next().is_none(), "replies are left");
                return (asked, Ok(value));
            }
            Progress::Fail(error, taken) => {
                assert_eq!(taken, replies.len());
                assert!(script.next().is_none(), "replies are left");
                return (asked, Err(error));
            }
        }
    }
}

fn operations(asked: &[Request]) -> Vec<&str> {
    asked.iter().map(|r| r.operation.as_str()).collect()
}

fn payload(asked: &[Request], i: usize) -> serde_json::Value {
    to_serde(&asked[i].payload)
}

fn serde(text: &str) -> serde_json::Value {
    text.parse().unwrap()
}

fn events(database: Option<&str>) -> RelationParts {
    RelationParts {
        database: database.map(str::to_string),
        schema: "analytics".to_string(),
        identifier: "events".to_string(),
        s3_path_table_part: None,
        rendered: "analytics.events".to_string(),
    }
}

fn catalog() -> Reply {
    ok(r#"{"Account": "123"}"#)
}

#[test]
fn catalogs_are_found_by_the_database() {
    let (asked, got) = run(
        |r| AthenaOps::catalog_id(Some("AwsDataCatalog"), r, 0),
        vec![catalog()],
    );
    assert_eq!(operations(&asked), vec!["sts.get_caller_identity"]);
    assert_eq!(got.unwrap().as_deref(), Some("123"));

    let (_, got) = run(
        |r| AthenaOps::catalog_id(Some("s3tablescatalog/b"), r, 0),
        vec![catalog()],
    );
    assert_eq!(got.unwrap().as_deref(), Some("123:s3tablescatalog/b"));

    let glue = r#"{"DataCatalog": {"Type": "GLUE", "Parameters": {"catalog-id": "9"}}}"#;
    let (asked, got) = run(
        |r| AthenaOps::catalog_id(Some("other"), r, 0),
        vec![ok(glue)],
    );
    assert_eq!(payload(&asked, 0), serde(r#"{"Name": "other"}"#));
    assert_eq!(got.unwrap().as_deref(), Some("9"));

    let lambda = r#"{"DataCatalog": {"Type": "LAMBDA", "Parameters": {"catalog-id": "9"}}}"#;
    let (_, got) = run(
        |r| AthenaOps::catalog_id(Some("other"), r, 0),
        vec![ok(lambda)],
    );
    assert_eq!(got.unwrap(), None);

    let (asked, got) = run(|r| AthenaOps::catalog_id(Some(""), r, 0), Vec::new());
    assert!(asked.is_empty());
    assert_eq!(got.unwrap(), None);

    let (_, got) = run(
        |r| AthenaOps::catalog_id(Some("awsdatacatalog"), r, 0),
        vec![ok("{}")],
    );
    let error = got.unwrap_err();
    assert_eq!(error.kind, OpsErrorKind::UnexpectedResult);
    assert!(error.message.contains("no account id"));
}

#[test]
fn physical_tables_have_a_location() {
    let relation = events(Some("awsdatacatalog"));
    let located = r#"{"Table": {"TableType": "EXTERNAL_TABLE",
        "StorageDescriptor": {"Location": "s3://b/x"}}}"#;
    let (asked, got) = run(
        |r| AthenaOps::glue_table_location(&relation, r, 0),
        vec![catalog(), ok(located)],
    );
    assert_eq!(got.unwrap().as_deref(), Some("s3://b/x"));
    assert_eq!(
        payload(&asked, 1),
        serde(r#"{"CatalogId": "123", "DatabaseName": "analytics", "Name": "events"}"#)
    );

    let (_, got) = run(
        |r| AthenaOps::glue_table_location(&relation, r, 0),
        vec![catalog(), ok(r#"{"Table": {"TableType": "VIRTUAL_VIEW"}}"#)],
    );
    assert_eq!(got.unwrap(), None);

    let (_, got) = run(
        |r| AthenaOps::glue_table_location(&relation, r, 0),
        vec![catalog(), ok(r#"{"Table": null}"#)],
    );
    assert_eq!(got.unwrap(), None);

    let (_, got) = run(
        |r| AthenaOps::glue_table_location(&relation, r, 0),
        vec![catalog(), ok(r#"{"Table": {"TableType": "EXTERNAL_TABLE"}}"#)],
    );
    assert!(got.unwrap_err().message.contains("requires a location"));
}

#[test]
fn a_failure_of_the_driver_ends_the_operation() {
    let relation = events(Some("awsdatacatalog"));
    let (asked, got) = run(
        |r| AthenaOps::glue_table(&relation, r, 0),
        vec![broken("throttled")],
    );
    assert_eq!(asked.len(), 1);
    let error = got.unwrap_err();
    assert_eq!(error.kind, OpsErrorKind::Driver);
    assert_eq!(error.message, "throttled");
}

#[test]
fn paths_are_deleted_by_their_keys() {
    let (asked, got) = run(
        |r| AthenaOps::delete_from_s3("s3://b/a", r, 0),
        vec![ok(r#"{"Keys": ["a/1", "a/2"]}"#), ok(r#"{"Errors": []}"#)],
    );
    assert!(got.is_ok());
    assert_eq!(
        payload(&asked, 0),
        serde(r#"{"Bucket": "b", "Prefix": "a/"}"#)
    );
    assert_eq!(
        payload(&asked, 1),
        serde(r#"{"Bucket": "b", "Keys": ["a/1", "a/2"]}"#)
    );

    let (asked, got) = run(
        |r| AthenaOps::delete_from_s3("s3://b/a", r, 0),
        vec![ok(r#"{"Keys": []}"#)],
    );
    assert!(got.is_ok());
    assert_eq!(asked.len(), 1);

    let (_, got) = run(
        |r| AthenaOps::delete_from_s3("s3://b/a", r, 0),
        vec![ok(r#"{"Keys": ["k"]}"#), ok(r#"{"Errors": [{"Key": "k"}]}"#)],
    );
    assert_eq!(got.unwrap_err().message, "Failed to delete files from S3.");
}

#[test]
fn paths_are_deleted_bucket_by_bucket() {
    let paths = vec![
        "s3://b/1".to_string(),
        "s3://c/2".to_string(),
        "s3://b/3".to_string(),
    ];
    let (asked, got) = run(
        |r| AthenaOps::bulk_delete_from_s3(&paths, r, 0),
        vec![
            ok(r#"{"Keys": ["1/x"]}"#),
            ok(r#"{"Keys": []}"#),
            ok(r#"{"Keys": ["3/y"]}"#),
            ok("{}"),
        ],
    );
    assert!(got.is_ok());
    assert_eq!(
        operations(&asked),
        vec![
            "s3.list_objects",
            "s3.list_objects",
            "s3.list_objects",
            "s3.delete_objects"
        ]
    );
    assert_eq!(
        payload(&asked, 3),
        serde(r#"{"Bucket": "b", "Keys": ["1/x", "3/y"]}"#)
    );
}

#[test]
fn objects_are_uploaded_encoded() {
    let arguments = vec![
        ("ACL".to_string(), "private".to_string()),
        ("BucketKeyEnabled".to_string(), "True".to_string()),
    ];
    let (asked, got) = run(
        |r| AthenaOps::upload_object("b", "k", b"a,b\n", &arguments, r, 0),
        vec![ok("{}")],
    );
    assert!(got.is_ok());
    assert_eq!(
        payload(&asked, 0),
        serde(
            r#"{"Bucket": "b", "Key": "k", "Body": "YSxiCg==", "ACL": "private",
                "BucketKeyEnabled": true}"#
        )
    );
    let unknown = vec![("Nope".to_string(), "x".to_string())];
    let (asked, got) = run(
        |r| AthenaOps::upload_object("b", "k", b"x", &unknown, r, 0),
        Vec::new(),
    );
    assert!(asked.is_empty());
    let error = got.unwrap_err();
    assert_eq!(error.kind, OpsErrorKind::NotSupported);
    assert!(error.message.contains("'Nope'"));
}

#[test]
fn the_newest_versions_are_kept() {
    let relation = events(None);
    let versions = r#"{"TableVersions": [
        {"Table": {"VersionId": "2", "StorageDescriptor": {"Location": "s3://b/2"}}},
        {"Table": {"VersionId": "10"}},
        {"Table": {"VersionId": "x"}},
        {"Table": {"VersionId": "1", "StorageDescriptor": {"Location": "s3://b/1"}}}
    ]}"#;
    let (asked, got) = run(
        |r| AthenaOps::expire_glue_table_versions(&relation, 1, true, r, 0),
        vec![
            ok(versions),
            ok("{}"),
            ok(r#"{"Keys": []}"#),
            broken("busy"),
        ],
    );
    assert_eq!(got.unwrap(), vec!["2".to_string()]);
    assert_eq!(
        operations(&asked),
        vec![
            "glue.get_table_versions",
            "glue.delete_table_version",
            "s3.list_objects",
            "glue.delete_table_version"
        ]
    );
    assert_eq!(payload(&asked, 1)["VersionId"], serde(r#""2""#));
    assert_eq!(payload(&asked, 3)["VersionId"], serde(r#""1""#));
}

#[test]
fn tables_are_swapped_with_their_partitions() {
    let src = events(None);
    let target = RelationParts {
        identifier: "target".to_string(),
        ..events(None)
    };
    let (asked, got) = run(
        |r| AthenaOps::swap_table(&src, &target, r, 0),
        vec![
            ok(r#"{"Table": {"TableType": "EXTERNAL_TABLE", "Parameters": {"p": "1"}}}"#),
            ok(r#"{"Partitions": [{"Values": ["a"], "StorageDescriptor": {}}]}"#),
            ok(r#"{"Partitions": [{"Values": ["b"]}]}"#),
            ok("{}"),
            ok("{}"),
            ok("{}"),
        ],
    );
    assert!(got.is_ok());
    assert_eq!(
        operations(&asked),
        vec![
            "glue.get_table",
            "glue.get_partitions",
            "glue.get_partitions",
            "glue.update_table",
            "glue.batch_delete_partition",
            "glue.batch_create_partition"
        ]
    );
    assert_eq!(
        payload(&asked, 3),
        serde(
            r#"{"DatabaseName": "analytics", "TableInput": {"Name": "target",
                "TableType": "EXTERNAL_TABLE", "Parameters": {"p": "1"}, "Description": ""}}"#
        )
    );
    assert_eq!(
        payload(&asked, 4)["PartitionsToDelete"],
        serde(r#"[{"Values": ["b"]}]"#)
    );
    assert_eq!(
        payload(&asked, 5)["PartitionInputList"],
        serde(r#"[{"Values": ["a"], "StorageDescriptor": {}, "Parameters": null}]"#)
    );
    for i in 3..6 {
        assert_eq!(payload(&asked, i)["DatabaseName"], serde(r#""analytics""#));
    }

    let (_, got) = run(
        |r| AthenaOps::swap_table(&src, &target, r, 0),
        vec![ok(r#"{"Table": null}"#)],
    );
    assert_eq!(got.unwrap_err().kind, OpsErrorKind::NotFound);
}

#[test]
fn partitions_are_cleaned_up_with_their_data() {
    let relation = events(None);
    let conditions = vec!["a = 1".to_string(), "a = 2".to_string()];
    let (asked, got) = run(
        |r| AthenaOps::clean_up_partitions(&relation, &conditions, r, 0),
        vec![
            ok(r#"{"Partitions": [{"Values": ["1"], "StorageDescriptor": {"Location": "s3://b/1"}}]}"#),
            ok(r#"{"Keys": ["1/x"]}"#),
            ok("{}"),
            ok(r#"{"Errors": [{"PartitionValues": ["1"]}]}"#),
        ],
    );
    assert_eq!(
        payload(&asked, 0)["Expression"],
        serde(r#""(a = 1) or (a = 2)""#)
    );
    assert_eq!(payload(&asked, 0)["ExcludeColumnSchema"], serde("true"));
    assert_eq!(
        got.unwrap_err().message,
        "Failed to delete 1 partition(s) from Glue table 'analytics.events'"
    );
}

#[test]
fn conditions_are_grouped_up_to_the_limit() {
    let long = "x".repeat(1500);
    let expressions = partition_expressions(&vec![long.clone(), "b".to_string(), "c".to_string()]);
    assert_eq!(
        expressions.unwrap(),
        vec![format!("({long}) or (b) or (c)")]
    );
    let two = partition_expressions(&vec![long.clone(), long.clone()]).unwrap();
    assert_eq!(two.len(), 2);
    assert!(partition_expressions(&Vec::new()).unwrap().is_empty());
    let refused = partition_expressions(&vec!["y".repeat(5000)]).unwrap_err();
    assert!(refused.contains("exceeds the Glue API expression limit"));
}

fn docs() -> Docs {
    Docs {
        table_description: Some("about".to_string()),
        table_parameters: vec![("owner".to_string(), "me".to_string())],
        column_descriptions: vec![("id".to_string(), "key".to_string())],
        column_parameters: vec![ColumnParameter {
            column: "id".to_string(),
            key: "pii".to_string(),
            value: "no".to_string(),
        }],
        skip_archive_table_version: true,
    }
}

#[test]
fn documentation_is_written_once() {
    let relation = events(None);
    let table = r#"{"Table": {"Name": "events", "CreatedBy": "x",
        "StorageDescriptor": {"Columns": [{"Name": "id"}, {"Name": "other"}]}}}"#;
    let (asked, got) = run(
        |r| AthenaOps::persist_docs_to_glue(&relation, &docs(), r, 0),
        vec![ok(table), ok("{}")],
    );
    assert!(got.is_ok());
    let written = payload(&asked, 1);
    assert_eq!(written["SkipArchive"], serde("true"));
    assert_eq!(
        written["TableInput"],
        serde(
            r#"{"Name": "events", "Description": "about",
                "Parameters": {"comment": "about", "owner": "me"},
                "StorageDescriptor": {"Columns": [
                    {"Name": "id", "Comment": "key", "Parameters": {"pii": "no"}},
                    {"Name": "other"}]}}"#
        )
    );

    // what was written would be written again: nothing changes
    let mut again = serde_json::Map::new();
    again.insert("Table".to_string(), written["TableInput"].clone());
    let again = Ok(from_serde(&serde_json::Value::Object(again)));
    let (asked, got) = run(
        |r| AthenaOps::persist_docs_to_glue(&relation, &docs(), r, 0),
        vec![again],
    );
    assert!(got.is_ok());
    assert_eq!(asked.len(), 1);
}

#[test]
fn work_groups_may_enforce_their_output() {
    let ops = AthenaOps::new(None);
    assert_eq!(ops.work_group, "primary");
    let enforced = r#"{"WorkGroup": {"Configuration": {"EnforceWorkGroupConfiguration": true,
        "ResultConfiguration": {"OutputLocation": "s3://o"}}}}"#;
    let (asked, got) = run(
        |r| ops.is_work_group_output_location_enforced(r, 0),
        vec![ok(enforced)],
    );
    assert!(got.unwrap());
    assert_eq!(payload(&asked, 0), serde(r#"{"WorkGroup": "primary"}"#));
    let (_, got) = run(
        |r| ops.is_work_group_output_location_enforced(r, 0),
        vec![ok("{}")],
    );
    assert!(!got.unwrap());
}

#[test]
fn tags_are_brought_to_what_is_configured() {
    let relation = events(Some("awsdatacatalog"));
    let config = LfTagsConfig {
        enabled: true,
        tags: Some(vec![("tier".to_string(), "lab".to_string())]),
        tags_columns: None,
        inherited_tags: Some(vec!["domain".to_string()]),
    };
    let existing = r#"{"LFTagsOnTable": [
        {"TagKey": "old", "TagValues": ["x"]},
        {"TagKey": "domain", "TagValues": ["sales"]}]}"#;
    let (asked, got) = run(
        |r| AthenaOps::add_lf_tags(&relation, &config, r, 0),
        vec![ok(existing), ok("{}"), ok("{}")],
    );
    assert!(got.is_ok());
    assert_eq!(
        operations(&asked),
        vec![
            "lakeformation.get_resource_lf_tags",
            "lakeformation.remove_lf_tags_from_resource",
            "lakeformation.add_lf_tags_to_resource"
        ]
    );
    assert_eq!(
        payload(&asked, 1)["LFTags"],
        serde(r#"[{"TagKey": "old", "TagValues": ["x"]}]"#)
    );
    assert_eq!(
        payload(&asked, 2)["LFTags"],
        serde(r#"[{"TagKey": "tier", "TagValues": ["lab"]}]"#)
    );
}

#[test]
fn grants_follow_the_configured_filters() {
    let relation = events(Some("awsdatacatalog"));
    let config = LfGrantsConfig {
        data_cell_filters: DataCellFiltersConfig {
            enabled: true,
            filters: vec![(
                "it_only".to_string(),
                FilterConfig {
                    row_filter: "country = 'IT'".to_string(),
                    column_names: Vec::new(),
                    principals: vec!["arn:r".to_string()],
                },
            )],
        },
    };
    let (asked, got) = run(
        |r| AthenaOps::apply_lf_grants(&relation, &config, r, 0),
        vec![
            catalog(),
            ok(r#"{"DataCellsFilters": [{"Name": "stale"}]}"#),
            ok("{}"),
            ok("{}"),
            ok(r#"{"PrincipalResourcePermissions": []}"#),
            ok("{}"),
        ],
    );
    assert!(got.is_ok(), "{got:?}");
    assert_eq!(
        operations(&asked),
        vec![
            "sts.get_caller_identity",
            "lakeformation.list_data_cells_filter",
            "lakeformation.delete_data_cells_filter",
            "lakeformation.create_data_cells_filter",
            "lakeformation.list_permissions",
            "lakeformation.batch_grant_permissions"
        ]
    );
    assert_eq!(
        payload(&asked, 5)["Entries"][0]["Principal"]["DataLakePrincipalIdentifier"],
        serde(r#""arn:r""#)
    );
}

#[test]
fn sessions_are_not_shared_until_they_are_released() {
    let mut pool = SessionPool::new();
    assert_eq!(pool.take("d"), None);
    pool.add_busy("1", "d");
    assert_eq!(pool.take("d"), None);
    pool.release("1", true);
    assert_eq!(pool.take("other"), None);
    assert_eq!(pool.take("d").as_deref(), Some("1"));
    assert_eq!(pool.take("d"), None);
    pool.release("1", false);
    assert_eq!(pool.take("d"), None);
}

/// Runs an operation whose questions are answered from what is known, else by a driver
/// that counts them.
fn run_with_facts<T>(
    facts: &mut EngineFacts,
    put: &mut Vec<String>,
    driver: impl Fn(&Request) -> Reply,
    operation: impl Fn(&Vec<Reply>) -> Progress<T>,
) -> Result<T, OpsError> {
    let mut replies: Vec<Reply> = Vec::new();
    loop {
        match operation(&replies) {
            Progress::Ask(request) => {
                let reply = match facts.answer(&request) {
                    Some(known) => Ok(known),
                    None => {
                        put.push(request.operation.clone());
                        let reply = driver(&request);
                        facts.learn(&request, &reply);
                        reply
                    }
                };
                replies.push(reply);
            }
            Progress::Got(value, _) => return Ok(value),
            Progress::Fail(error, _) => return Err(error),
        }
    }
}

#[test]
fn facts_of_an_engine_are_asked_for_once() {
    let driver = |request: &Request| match request.operation.as_str() {
        "sts.get_caller_identity" => catalog(),
        "athena.get_work_group" => ok(
            r#"{"WorkGroup": {"Configuration": {"EnforceWorkGroupConfiguration": true,
                "ResultConfiguration": {"OutputLocation": "s3://x"}}}}"#,
        ),
        _ => ok(r#"{"Table": {"Name": "events"}}"#),
    };
    let docs = Docs {
        table_description: Some("about".to_string()),
        table_parameters: vec![],
        column_descriptions: vec![],
        column_parameters: vec![],
        skip_archive_table_version: true,
    };
    let ops = AthenaOps::new(None);
    let events = events(Some("awsdatacatalog"));
    let mut facts = EngineFacts::new();
    let mut put = Vec::new();
    for _ in 0..2 {
        run_with_facts(&mut facts, &mut put, driver, |r| {
            AthenaOps::persist_docs_to_glue(&events, &docs, r, 0)
        })
        .unwrap();
        let enforced = run_with_facts(&mut facts, &mut put, driver, |r| {
            ops.is_work_group_output_location_enforced(r, 0)
        });
        assert_eq!(enforced, Ok(true));
    }
    let count = |operation: &str| put.iter().filter(|o| o.as_str() == operation).count();
    assert_eq!(count("sts.get_caller_identity"), 1);
    assert_eq!(count("athena.get_work_group"), 1);
    assert_eq!(count("glue.get_table"), 2);
}

#[test]
fn an_answer_without_an_account_is_asked_for_again() {
    let mut facts = EngineFacts::new();
    let mut put = Vec::new();
    let nameless = run_with_facts(&mut facts, &mut put, |_| ok("{}"), |r| {
        AthenaOps::account_id(r, 0)
    });
    assert_eq!(
        nameless.unwrap_err().message,
        "[athena] sts.get_caller_identity returned no account id"
    );
    let lost = run_with_facts(&mut facts, &mut put, |_| broken("lost"), |r| {
        AthenaOps::account_id(r, 0)
    });
    assert!(lost.is_err());
    for _ in 0..2 {
        let named = run_with_facts(&mut facts, &mut put, |_| catalog(), |r| {
            AthenaOps::account_id(r, 0)
        });
        assert_eq!(named.unwrap(), "123");
    }
    assert_eq!(put.len(), 3);
}

#[test]
fn the_driver_answers_with_one_cell() {
    let columns = |names: &[&str]| names.iter().map(|n| n.to_string()).collect::<Vec<_>>();
    let cell = |text: &str| Some(text.to_string());
    let result = columns(&["query_id", "result"]);
    assert_eq!(result_cell("glue.get_table", &result, &vec![cell("{}")]), Ok("{}".to_string()));

    let unexpected = |message: &str| {
        Err(OpsError {
            kind: OpsErrorKind::UnexpectedResult,
            message: message.to_string(),
        })
    };
    assert_eq!(
        result_cell("glue.get_table", &columns(&["a", "b\"c"]), &vec![cell("{}")]),
        unexpected(
            r#"[athena] glue.get_table: the driver returned no result column (columns ["a", "b\"c"])"#
        )
    );
    for (cells, rows) in [
        (vec![], 0),
        (vec![None], 1),
        (vec![cell("{}"), cell("{}")], 2),
    ] {
        assert_eq!(
            result_cell("s3.list_objects", &result, &cells),
            unexpected(&format!(
                "[athena] s3.list_objects: the driver returned no result cell ({rows} rows)"
            ))
        );
    }
    assert_eq!(
        Err(unreadable_column("op", "cannot cast")),
        unexpected("[athena] op: result column: cannot cast").map(|text: String| text)
    );
    assert_eq!(
        invalid_json("op", "eof").message,
        "[athena] op: the driver returned invalid JSON: eof"
    );
}

#[test]
fn an_operation_fails_as_the_driver_did() {
    let (_, got) = run(
        |r| AthenaOps::account_id(r, 0),
        vec![Err(invalid_json("sts.get_caller_identity", "eof"))],
    );
    let error = got.unwrap_err();
    assert_eq!(error.kind, OpsErrorKind::UnexpectedResult);
    assert!(error.message.ends_with("invalid JSON: eof"));
}
