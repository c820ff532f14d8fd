//! Operations of the Athena adapter against the services themselves.

use dbt_fusion::athena::aws::{
    split_texts, AthenaAws, ClientCredentials, ClientSettings, BATCH_CREATE_PARTITION_API_LIMIT,
    BATCH_DELETE_PARTITION_API_LIMIT, BATCH_DELETE_S3_OBJECTS_API_LIMIT,
};
use dbt_fusion::athena::docs::Docs;
use dbt_fusion::athena::driver::{OpsError, OpsErrorKind, Progress, Reply, Request};
use dbt_fusion::athena::glue::{GlueTable, RelationParts};
use dbt_fusion::athena::table_type::TableType;
use dbt_fusion::json::Json;

fn from_serde(v: &serde_json::Value) -> Json {
    match v {
        serde_json::Value::Null => Json::Null,
        serde_json::Value::Bool(b) => Json::Bool(*b),
        serde_json::Value::Number(n) => match n.as_i64() {
            Some(i) => Json::Int(i as i128),
            None => Json::Real(n.to_string()),
        },
        serde_json::Value::String(s) => Json::Text(s.clone()),
        serde_json::Value::Array(a) => Json::List(a.iter().map(from_serde).collect()),
        serde_json::Value::Object(o) => Json::Object(
            o.iter()
                .map(|(k, v)| (k.clone(), from_serde(v)))
                .collect(),
        ),
    }
}

fn to_serde(v: &Json) -> serde_json::Value {
    match v {
        Json::Null => serde_json::Value::Null,
        Json::Bool(b) => serde_json::Value::Bool(*b),
        Json::Int(i) => serde_json::Value::from(*i as i64),
        Json::Real(t) => t.parse::<serde_json::Value>().unwrap(),
        Json::Text(s) => serde_json::Value::String(s.clone()),
        Json::List(a) => serde_json::Value::Array(a.iter().map(to_serde).collect()),
        Json::Object(o) => {
            serde_json::Value::Object(o.iter().map(|(k, v)| (k.clone(), to_serde(v))).collect())
        }
    }
}

fn ok(text: &str) -> Reply {
    Ok(from_serde(&text.parse().unwrap()))
}

/// A failure of the driver.
fn broken(message: &str) -> Reply {
    Err(OpsError {
        kind: OpsErrorKind::Driver,
        message: message.to_string(),
    })
}

/// Runs an operation against a script of replies, to what it asked and what came of it.
fn run<T>(
    operation: impl Fn(&Vec<Reply>) -> Progress<T>,
    script: Vec<Reply>,
) -> (Vec<Request>, Result<T, OpsError>) {
    let mut replies: Vec<Reply> = Vec::new();
    let mut asked = Vec::new();
    let mut script = script.into_iter();
    loop {
        match operation(&replies) {
            Progress::Ask(request) => {
                let reply = match script.next() {
                    Some(reply) => reply,
                    None => panic!("no reply to {request:?}"),
                };
                asked.push(request);
                replies.push(reply);
            }
            Progress::Got(value, taken) => {
                assert_eq!(taken, replies.len());
                assert!(script.next().is_none(), "replies are left");
                return (asked, Ok(value));
            }
            Progress::Fail(error, taken) => {
                assert_eq!(taken, replies.len());
                assert!(script.next().is_none(), "replies are left");
                return (asked, Err(error));
            }
        }
    }
}

fn operations(asked: &[Request]) -> Vec<&str> {
    asked.iter().map(|r| r.operation.as_str()).collect()
}

fn payload(asked: &[Request], i: usize) -> serde_json::Value {
    to_serde(&asked[i].payload)
}

fn serde(text: &str) -> serde_json::Value {
    text.parse().unwrap()
}

fn events(database: Option<&str>) -> RelationParts {
    RelationParts {
        database: database.map(str::to_string),
        schema: "analytics".to_string(),
        identifier: "events".to_string(),
        s3_path_table_part: None,
        rendered: "analytics.events".to_string(),
    }
}

fn catalog() -> Reply {
    ok(r#"{"Account": "123"}"#)
}

fn len(asked: &[Request], i: usize, key: &str) -> usize {
    payload(asked, i)[key].as_array().unwrap().len()
}

fn numbered(n: usize) -> Vec<String> {
    (0..n).map(|i| i.to_string()).collect()
}

fn keys(n: usize) -> Reply {
    Ok(Json::Object(vec![(
        "Keys".to_string(),
        Json::List(numbered(n).into_iter().map(Json::Text).collect()),
    )]))
}

fn partitions(n: usize) -> Reply {
    let found = numbered(n)
        .into_iter()
        .map(|i| {
            Json::Object(vec![(
                "Values".to_string(),
                Json::List(vec![Json::Text(i)]),
            )])
        })
        .collect();
    Ok(Json::Object(vec![(
        "Partitions".to_string(),
        Json::List(found),
    )]))
}

#[test]
fn batches_hold_everything_in_order() {
    let all = numbered(7);
    let split = split_texts(&all, 3);
    assert_eq!(
        split.iter().map(|b| b.len()).collect::<Vec<_>>(),
        vec![3, 3, 1]
    );
    assert_eq!(split.concat(), all);
    assert!(split_texts(&vec![], 3).is_empty());
    assert_eq!(split_texts(&numbered(3), 3).len(), 1);
    assert_eq!(BATCH_CREATE_PARTITION_API_LIMIT, 100);
    assert_eq!(BATCH_DELETE_PARTITION_API_LIMIT, 25);
    assert_eq!(BATCH_DELETE_S3_OBJECTS_API_LIMIT, 1000);
}

#[test]
fn objects_are_deleted_in_batches() {
    let (asked, got) = run(
        |r| AthenaAws::delete_from_s3("s3://b/p", r, 0),
        vec![keys(1001), ok("{}"), ok("{}")],
    );
    assert!(got.is_ok());
    assert_eq!(
        operations(&asked),
        vec!["s3.list_objects", "s3.delete_objects", "s3.delete_objects"]
    );
    assert_eq!(len(&asked, 1, "Keys"), 1000);
    assert_eq!(payload(&asked, 2)["Keys"], serde(r#"["1000"]"#));

    let (asked, got) = run(
        |r| AthenaAws::delete_from_s3("s3://b/p", r, 0),
        vec![keys(0)],
    );
    assert!(got.is_ok());
    assert_eq!(asked.len(), 1);
}

#[test]
fn an_error_in_a_batch_fails_after_the_last() {
    let (asked, got) = run(
        |r| AthenaAws::delete_from_s3("s3://b/p", r, 0),
        vec![keys(2001), ok(r#"{"Errors": [{"Key": "0"}]}"#), ok("{}"), ok("{}")],
    );
    assert_eq!(asked.len(), 4);
    assert_eq!(
        got,
        Err(OpsError {
            kind: OpsErrorKind::UnexpectedResult,
            message: "Failed to delete files from S3.".to_string()
        })
    );
}

#[test]
fn several_paths_are_listed_before_any_is_deleted() {
    let paths = vec![
        "s3://b/p".to_string(),
        "s3://c/q".to_string(),
        "s3://b/r".to_string(),
    ];
    let (asked, got) = run(
        |r| AthenaAws::bulk_delete_prefixes(&paths, r, 0),
        vec![keys(999), keys(0), keys(2), ok("{}"), ok("{}")],
    );
    assert!(got.is_ok());
    assert_eq!(
        operations(&asked)[3..],
        ["s3.delete_objects", "s3.delete_objects"]
    );
    assert_eq!(payload(&asked, 3)["Bucket"], serde(r#""b""#));
    assert_eq!(len(&asked, 3, "Keys"), 1000);
    assert_eq!(len(&asked, 4, "Keys"), 1);
}

#[test]
fn tables_are_named_with_their_catalog() {
    let (_, got) = run(
        |r| AthenaAws::glue_table(&events(None), r, 0),
        vec![ok(
            r#"{"Table": {"CatalogId": "1", "DatabaseName": "d", "Name": "t", "TableType": "odd"}}"#,
        )],
    );
    let refused = got.unwrap_err();
    assert_eq!(refused.kind, OpsErrorKind::UnexpectedResult);
    assert!(refused.message.contains("1.d.t"), "{}", refused.message);
    let (_, got) = run(
        |r| AthenaAws::glue_table(&events(None), r, 0),
        vec![ok(r#"{"Table": {"Name": "t", "TableType": "odd"}}"#)],
    );
    assert!(!got.unwrap_err().message.contains(".t"));

    let (_, got) = run(
        |r| AthenaAws::glue_table(&events(None), r, 0),
        vec![ok(
            r#"{"Table": {"Name": "t", "TableType": "VIRTUAL_VIEW", "StorageDescriptor": {"Location": "s3://b/t"}}}"#,
        )],
    );
    assert_eq!(
        got,
        Ok(Some(GlueTable {
            table_type: TableType::View,
            location: Some("s3://b/t".to_string())
        }))
    );
}

#[test]
fn tables_that_glue_does_not_know_have_no_location() {
    let unknown = r#"{"EntityNotFound": "no such table"}"#;
    let (_, got) = run(
        |r| AthenaAws::glue_table_location(&events(None), r, 0),
        vec![ok(unknown)],
    );
    assert_eq!(got, Ok(None));
    let (_, got) = run(
        |r| AthenaAws::glue_table_location(&events(None), r, 0),
        vec![ok(r#"{"Table": {"TableType": "EXTERNAL_TABLE", "StorageDescriptor": {"Location": ""}}}"#)],
    );
    assert_eq!(
        got.unwrap_err().message,
        "Relation analytics.events is of type 'table' which requires a location, but no location returned by Glue."
    );
    let (_, got) = run(
        |r| AthenaAws::glue_table_location(&events(None), r, 0),
        vec![ok(r#"{"Table": {"TableType": "EXTERNAL_TABLE", "StorageDescriptor": {"Location": "s3://b/x"}}}"#)],
    );
    assert_eq!(got, Ok(Some("s3://b/x".to_string())));

    // an operation that needs the table fails with the message of the service
    let docs = Docs {
        table_description: None,
        table_parameters: vec![],
        column_descriptions: vec![],
        column_parameters: vec![],
        skip_archive_table_version: false,
    };
    let (_, got) = run(
        |r| AthenaAws::persist_docs_to_glue(&events(None), &docs, r, 0),
        vec![ok(unknown)],
    );
    assert_eq!(
        got,
        Err(OpsError {
            kind: OpsErrorKind::Driver,
            message: "no such table".to_string()
        })
    );
    let (_, got) = run(
        |r| AthenaAws::persist_docs_to_glue(&events(None), &docs, r, 0),
        vec![ok("{}")],
    );
    assert_eq!(
        got,
        Err(OpsError {
            kind: OpsErrorKind::NotFound,
            message: "[athena] glue.get_table returned no table for analytics.events".to_string()
        })
    );
}

#[test]
fn changed_documentation_updates_the_table() {
    let docs = Docs {
        table_description: Some("about".to_string()),
        table_parameters: vec![],
        column_descriptions: vec![],
        column_parameters: vec![],
        skip_archive_table_version: true,
    };
    let (asked, got) = run(
        |r| AthenaAws::persist_docs_to_glue(&events(Some("awsdatacatalog")), &docs, r, 0),
        vec![catalog(), ok(r#"{"Table": {"Name": "events"}}"#), ok("{}")],
    );
    assert!(got.is_ok());
    assert_eq!(
        payload(&asked, 2),
        serde(
            r#"{"CatalogId": "123", "DatabaseName": "analytics", "SkipArchive": true,
                "TableInput": {"Name": "events", "Description": "about",
                    "Parameters": {"comment": "about"}, "PartitionKeys": [], "Retention": 0}}"#
        )
    );
}

#[test]
fn documented_tables_keep_their_own_keys() {
    let docs = Docs {
        table_description: None,
        table_parameters: vec![],
        column_descriptions: vec![("a".to_string(), "about a".to_string())],
        column_parameters: vec![],
        skip_archive_table_version: false,
    };
    let (asked, got) = run(
        |r| AthenaAws::persist_docs_to_glue(&events(None), &docs, r, 0),
        vec![
            ok(
                r#"{"Table": {"Name": "events", "Retention": 7, "PartitionKeys": [{"Name": "p"}],
                    "StorageDescriptor": {"Columns": [{"Name": "a"}]}}}"#,
            ),
            ok("{}"),
        ],
    );
    assert!(got.is_ok());
    assert_eq!(
        payload(&asked, 1)["TableInput"],
        serde(
            r#"{"Name": "events", "Retention": 7, "PartitionKeys": [{"Name": "p"}],
                "StorageDescriptor": {"Columns": [{"Name": "a", "Comment": "about a"}]},
                "Parameters": {}}"#
        )
    );
}

#[test]
fn partitions_are_swapped_in_batches() {
    let src = events(None);
    let target = RelationParts {
        schema: "other".to_string(),
        identifier: "target".to_string(),
        ..events(None)
    };
    let (asked, got) = run(
        |r| AthenaAws::swap_table(&src, &target, r, 0),
        vec![
            ok(r#"{"Table": {"TableType": "EXTERNAL_TABLE"}}"#),
            partitions(101),
            partitions(26),
            ok("{}"),
            ok(r#"{"Errors": [{}]}"#),
            ok("{}"),
            ok("{}"),
            ok("{}"),
        ],
    );
    assert!(got.is_ok());
    assert_eq!(
        operations(&asked),
        vec![
            "glue.get_table",
            "glue.get_partitions",
            "glue.get_partitions",
            "glue.update_table",
            "glue.batch_delete_partition",
            "glue.batch_delete_partition",
            "glue.batch_create_partition",
            "glue.batch_create_partition"
        ]
    );
    assert_eq!(len(&asked, 4, "PartitionsToDelete"), 25);
    assert_eq!(len(&asked, 5, "PartitionsToDelete"), 1);
    assert_eq!(len(&asked, 6, "PartitionInputList"), 100);
    assert_eq!(len(&asked, 7, "PartitionInputList"), 1);
    assert_eq!(payload(&asked, 1)["DatabaseName"], serde(r#""analytics""#));
    for i in 2..8 {
        assert_eq!(payload(&asked, i)["DatabaseName"], serde(r#""other""#));
    }

    let (asked, got) = run(
        |r| AthenaAws::swap_table(&src, &target, r, 0),
        vec![ok(r#"{"Table": {}}"#), ok("{}"), ok("{}"), ok("{}")],
    );
    assert!(got.is_ok());
    assert_eq!(asked.len(), 4);
    assert_eq!(
        payload(&asked, 3)["TableInput"],
        serde(r#"{"Name": "target", "Description": "", "PartitionKeys": []}"#)
    );
}

#[test]
fn errors_of_all_batches_are_counted() {
    let conditions = vec!["a = 1".to_string()];
    let (asked, got) = run(
        |r| AthenaAws::clean_up_partitions(&events(None), &conditions, r, 0),
        vec![
            partitions(26),
            ok(r#"{"Errors": [{}, {}]}"#),
            ok(r#"{"Errors": [{}]}"#),
        ],
    );
    assert_eq!(len(&asked, 1, "PartitionsToDelete"), 25);
    assert_eq!(
        got.unwrap_err().message,
        "Failed to delete 3 partition(s) from Glue table 'analytics.events'"
    );
    let (asked, got) = run(
        |r| AthenaAws::clean_up_partitions(&events(None), &vec!["y".repeat(5000)], r, 0),
        vec![],
    );
    assert!(asked.is_empty());
    assert_eq!(got.unwrap_err().kind, OpsErrorKind::Configuration);
}

#[test]
fn old_versions_go_with_their_data() {
    let versions = r#"{"TableVersions": [
        {"Table": {"VersionId": "1", "StorageDescriptor": {"Location": "s3://b/1"}}},
        {"Table": {"VersionId": "3"}},
        {"Table": {"VersionId": "2", "StorageDescriptor": {"Location": "s3://b/2"}}}]}"#;
    let (asked, got) = run(
        |r| AthenaAws::expire_glue_table_versions(&events(None), 1, true, r, 0),
        vec![
            ok(versions),
            ok("{}"),
            keys(1001),
            ok("{}"),
            broken("denied"),
            broken("gone"),
        ],
    );
    assert_eq!(got, Ok(vec!["2".to_string()]));
    assert_eq!(
        operations(&asked),
        vec![
            "glue.get_table_versions",
            "glue.delete_table_version",
            "s3.list_objects",
            "s3.delete_objects",
            "s3.delete_objects",
            "glue.delete_table_version"
        ]
    );
}

#[test]
fn uploads_name_their_arguments() {
    let arguments = |name: &str, value: &str| vec![(name.to_string(), value.to_string())];
    let (asked, got) = run(
        |r| AthenaAws::upload_object("b", "k", &arguments("BucketKeyEnabled", "true"), r, 0),
        vec![ok("{}")],
    );
    assert!(got.is_ok());
    assert_eq!(
        payload(&asked, 0),
        serde(r#"{"Bucket": "b", "Key": "k", "BucketKeyEnabled": true}"#)
    );
    let (asked, _) = run(
        |r| AthenaAws::upload_object("b", "k", &arguments("BucketKeyEnabled", "True"), r, 0),
        vec![ok("{}")],
    );
    assert_eq!(payload(&asked, 0)["BucketKeyEnabled"], serde("false"));
    let (asked, got) = run(
        |r| AthenaAws::upload_object("b", "k", &arguments("Tagging", "x"), r, 0),
        vec![],
    );
    assert!(asked.is_empty());
    let refused = got.unwrap_err();
    assert_eq!(refused.kind, OpsErrorKind::NotSupported);
    assert_eq!(
        refused.message,
        "seed_s3_upload_args key 'Tagging' is not supported by the dbt Athena backend"
    );
}

#[test]
fn the_rest_is_asked_of_the_services() {
    let (asked, got) = run(
        |r| AthenaAws::delete_from_glue_catalog(&events(None), r, 0),
        vec![ok(r#"{"EntityNotFound": "no such table"}"#)],
    );
    assert!(got.is_ok());
    assert_eq!(operations(&asked), vec!["glue.delete_table"]);
    let (asked, got) = run(
        |r| AthenaAws::drop_glue_database("d", "", r, 0),
        vec![ok("{}")],
    );
    assert!(got.is_ok());
    assert_eq!(payload(&asked, 0), serde(r#"{"Name": "d"}"#));
    let aws = AthenaAws {
        work_group: "w".to_string(),
    };
    let (asked, got) = run(
        |r| aws.is_work_group_output_location_enforced(r, 0),
        vec![ok(r#"{"WorkGroup": {"Configuration": {"EnforceWorkGroupConfiguration": true,
            "ResultConfiguration": {"OutputLocation": "s3://b/o"}}}}"#)],
    );
    assert_eq!(got, Ok(true));
    assert_eq!(payload(&asked, 0), serde(r#"{"WorkGroup": "w"}"#));
}

#[test]
fn clients_have_their_credentials_from_the_profile() {
    let settings = || ClientSettings {
        region_name: Some("eu-west-1".to_string()),
        aws_access_key_id: None,
        aws_secret_access_key: None,
        aws_session_token: None,
        aws_profile_name: None,
        work_group: None,
    };
    let plain = AthenaAws::from_config(&settings()).unwrap();
    assert_eq!(plain.region, "eu-west-1");
    assert_eq!(plain.work_group, "primary");
    assert_eq!(plain.credentials, ClientCredentials::DefaultChain);
    let named = AthenaAws::from_config(&ClientSettings {
        aws_profile_name: Some("p".to_string()),
        ..settings()
    })
    .unwrap();
    assert_eq!(
        named.credentials,
        ClientCredentials::Profile("p".to_string())
    );
    let keyed = AthenaAws::from_config(&ClientSettings {
        aws_access_key_id: Some("id".to_string()),
        aws_secret_access_key: Some("secret".to_string()),
        aws_session_token: Some("".to_string()),
        aws_profile_name: Some("p".to_string()),
        work_group: Some("w".to_string()),
        ..settings()
    })
    .unwrap();
    assert_eq!(keyed.work_group, "w");
    assert_eq!(
        keyed.credentials,
        ClientCredentials::Keys {
            access_key_id: "id".to_string(),
            secret_access_key: "secret".to_string(),
            session_token: None
        }
    );
    assert_eq!(
        AthenaAws::from_config(&ClientSettings {
            aws_access_key_id: Some("id".to_string()),
            ..settings()
        }),
        Err(
            "Athena auth requires 'aws_secret_access_key' when 'aws_access_key_id' is set"
                .to_string()
        )
    );
    assert_eq!(
        AthenaAws::from_config(&ClientSettings {
            region_name: None,
            ..settings()
        }),
        Err("Athena requires 'region_name' in profile configuration".to_string())
    );
}
