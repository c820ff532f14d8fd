//! The stage of a model that is published after its audits: inspection, creation of the
//! working table, and the statements that build it.

use dbt_fusion::json::{fields, Json};
use dbt_fusion::relation::{AdapterType, Relation, ResolvedQuoting};
use dbt_fusion::snowflake::{
    create_or_replace_clone_sql, create_table_as_sql, create_table_claim_sql,
    create_table_clone_sql,
};
use dbt_fusion::value::{Value, ValueKind};
use dbt_fusion::wap::inspect::{
    exact_relation_row, inspect_relation_rows, inspect_table_rows, table_lifecycle, Column,
    RelationExpectation, ShownRows, TableLifecycle,
};
use dbt_fusion::wap::nodes::{
    DbtMaterialization, DbtModel, ErrorCode, FsError, Grant, ModelConfig, SnowflakeAttr,
};
use dbt_fusion::wap::plan::{WapCandidateState, WapModel};
use dbt_fusion::wap::publication::PublicationStep;
use dbt_fusion::wap::publish::{
    clone_failed, clone_statement, cloned, finalize_publication, inspect_relations,
    interruption_message, preflight_stage, prepare_publication, publication_model,
    resolved_transient, CatalogRelation, FinalizeAction, Inspection, Lookup, Preflight, Preparation,
    Prepared, PublishTask, TaskPhase,
};
use dbt_fusion::wap::audit::NodeStatus;
use dbt_fusion::wap::stage::{initialize_candidate, sql_header, Piece, Stage, Turn};
use std::collections::BTreeMap;

const CANDIDATE: &str = "\"My\"\"Database\".\"My.Schema\".\"__DBT_WAP_TEST\"";
const PUBLIC: &str = "\"My\"\"Database\".\"My.Schema\".\"Orders\"";

fn fixture(copy_grants: Option<bool>) -> WapModel {
    WapModel {
        model: DbtModel {
            unique_id: "model.wap_test.orders".to_string(),
            adapter: AdapterType::Snowflake,
            enabled: true,
            materialized: DbtMaterialization::Table,
            database: "My\"Database".to_string(),
            schema: "My.Schema".to_string(),
            alias: "Orders".to_string(),
            relation_name: None,
            quoting: ResolvedQuoting::trues(),
            compute: None,
            propagates: false,
            id_hash: "hash".to_string(),
            settings_error: None,
            config: ModelConfig {
                alias: Some("Orders".to_string()),
                copy_grants,
                grants: vec![Grant {
                    privilege: "select".to_string(),
                    grantees: vec!["READER".to_string()],
                }],
                ..ModelConfig::none()
            },
            snowflake: None,
        },
        candidate_identifier: "__DBT_WAP_TEST".to_string(),
        audit_ids: Vec::new(),
    }
}

fn error(message: String) -> FsError {
    FsError {
        code: ErrorCode::ExecutionError,
        message,
    }
}

// ---------------------------------------------------------------------------
// SQL
// ---------------------------------------------------------------------------

#[test]
fn working_table_claim_is_create_only_and_preserves_quoting_and_lifecycle() {
    let destination = Relation::new(
        AdapterType::Snowflake,
        "My\"Database",
        "My.Schema",
        "__DBT_WAP_TEST",
        None,
        ResolvedQuoting::trues(),
    );
    for (transient, lifecycle) in [(false, ""), (true, "transient ")] {
        assert_eq!(
            create_table_claim_sql(&destination, transient),
            format!(
                "create {lifecycle}table \"My\"\"Database\".\"My.Schema\".\"__DBT_WAP_TEST\" \
                 (__DBT_WAP_PLACEHOLDER boolean)"
            )
        );
    }
}

#[test]
fn statements_name_their_relations() {
    let wap = fixture(None);
    let (public, working) = (wap.public_relation(), wap.candidate_relation());
    assert_eq!(
        create_table_clone_sql(&working, &public, true),
        format!("create transient table {CANDIDATE} clone {PUBLIC}")
    );
    assert_eq!(
        create_table_as_sql(&working, "select 1 as id", false),
        format!("create or replace table {CANDIDATE} as (select 1 as id ) ;")
    );
    let unquoted = Relation::new(
        AdapterType::Snowflake,
        "db",
        "s",
        "t",
        None,
        ResolvedQuoting::falses(),
    );
    assert_eq!(unquoted.render_self_as_str(), "db.s.t");
    assert!(unquoted.relation_identity().is(&Relation::new(
        AdapterType::Snowflake,
        "DB",
        "S",
        "T",
        None,
        ResolvedQuoting::trues()
    )
    .relation_identity()));
}

fn render_clone(wap: &WapModel, transient: bool, target_exists: bool) -> String {
    let model = publication_model(&wap.model, transient, target_exists);
    create_or_replace_clone_sql(
        &wap.public_relation(),
        &wap.candidate_relation(),
        model.config.transient.unwrap(),
        model.config.copy_grants.unwrap(),
    )
}

#[test]
fn actual_clone_macro_uses_resolved_lifecycle_and_public_destination() {
    let mut wap = fixture(Some(false));
    for transient in [false, true] {
        // The catalog's resolved lifecycle must win over the original model option.
        wap.model.config.transient = Some(!transient);
        let rendered = render_clone(&wap, transient, true);
        let lifecycle = if transient { "transient " } else { "" };
        assert_eq!(
            rendered,
            format!(
                "create or replace {lifecycle}table \"My\"\"Database\".\"My.Schema\".\"Orders\" \
                 clone \"My\"\"Database\".\"My.Schema\".\"__DBT_WAP_TEST\""
            )
        );
        assert_eq!(wap.model.alias, "Orders");
        assert_eq!(
            wap.model.config.transient,
            Some(!transient),
            "publication must leave the canonical model unchanged"
        );
    }
}

#[test]
fn actual_clone_macro_copies_grants_only_for_configured_replacements() {
    for configured in [None, Some(false), Some(true)] {
        let wap = fixture(configured);
        for target_exists in [false, true] {
            let rendered = render_clone(&wap, true, target_exists);
            assert_eq!(
                rendered.ends_with(" copy grants"),
                target_exists && configured == Some(true),
                "copy_grants={configured:?}, target_exists={target_exists}: {rendered}"
            );
            assert!(!rendered.contains("copy tags"));
            assert_eq!(
                wap.model.config.copy_grants, configured,
                "publication must leave the canonical model unchanged"
            );
        }
    }
}

#[test]
fn candidate_runtime_config_suppresses_public_grants_and_keeps_candidate_identity() {
    let wap = fixture(Some(true));
    let candidate = wap.execution_model();
    assert!(candidate.config.grants.is_empty());
    assert!(!candidate.config.copy_grants.unwrap_or(false));
    assert!(!wap.model.config.grants.is_empty());
    assert_eq!(wap.model.config.copy_grants, Some(true));
    assert_eq!(candidate.relation_name.as_deref(), Some(CANDIDATE));
    assert_eq!(candidate.alias, "__DBT_WAP_TEST");
    assert_eq!(candidate.config.alias.as_deref(), Some("__DBT_WAP_TEST"));
}

// ---------------------------------------------------------------------------
// The stage
// ---------------------------------------------------------------------------

#[derive(Default)]
struct StageConfig {
    pre_hooks: Vec<String>,
    post_hooks: Vec<String>,
    sql_header: Option<String>,
    runtime_sql_header: Option<Value>,
    fail_execution: bool,
    fail_creation: bool,
    fail_on: Option<&'static str>,
}

#[derive(Default)]
struct Recording {
    submitted: Vec<String>,
    statements: Vec<String>,
    candidate_exists: bool,
}

/// A warehouse that records what it is handed, one statement after the other.
fn execute(recording: &mut Recording, config: &StageConfig, sql: &str) -> Result<(), FsError> {
    recording.submitted.push(sql.to_string());
    for statement in sql.split(';').map(str::trim).filter(|s| !s.is_empty()) {
        recording.statements.push(statement.to_string());
        if let Some(failure) = config.fail_on {
            if statement.contains(failure) {
                return Err(error(format!("injected failure: {failure}")));
            }
        }
    }
    if sql.contains(" clone ") || sql.contains("__DBT_WAP_PLACEHOLDER boolean") {
        if config.fail_creation {
            return Err(error("injected candidate creation failure".to_string()));
        }
        if recording.candidate_exists {
            return Err(error("candidate already exists".to_string()));
        }
        recording.candidate_exists = true;
    } else if config.fail_execution {
        return Err(error("injected CTAS failure".to_string()));
    }
    Ok(())
}

fn render(template: &str, this: &str) -> Result<String, FsError> {
    minijinja::Environment::new()
        .render_str(template, BTreeMap::from([("this", this)]))
        .map_err(|e| error(e.to_string()))
}

fn stage_with_config(
    transient: bool,
    source: Option<TableLifecycle>,
    transformation: &str,
    config: StageConfig,
) -> (Result<(), FsError>, Recording) {
    let mut wap = fixture(Some(true));
    wap.model.config.transient = Some(transient);
    wap.model.config.pre_hooks = config.pre_hooks.clone();
    wap.model.config.post_hooks = config.post_hooks.clone();
    let header = sql_header(&config.sql_header, &config.runtime_sql_header);
    let mut recording = Recording::default();
    let mut stage = match Stage::start(&wap, source, transformation, transient, &header) {
        Ok(stage) => stage,
        Err(e) => return (Err(e), recording),
    };
    while let Some(turn) = stage.turn() {
        let next = match turn {
            Turn::Render { template, this } => stage.hook_rendered(render(&template, &this)),
            Turn::Submit(sql) => stage.submitted(execute(&mut recording, &config, &sql)),
        };
        match next {
            Ok(next) => stage = next,
            Err(e) => return (Err(e), recording),
        }
    }
    assert_eq!(stage.candidate_state(), Some(WapCandidateState::Created));
    assert_eq!(wap.model.alias, "Orders");
    (Ok(()), recording)
}

fn stage(
    transient: bool,
    source: Option<TableLifecycle>,
    transformation: &str,
    fail_execution: bool,
    fail_creation: bool,
) -> (Result<(), FsError>, Recording) {
    stage_with_config(
        transient,
        source,
        transformation,
        StageConfig {
            fail_execution,
            fail_creation,
            ..Default::default()
        },
    )
}

fn hooks_and_header() -> StageConfig {
    StageConfig {
        pre_hooks: vec![
            "delete from {{ this }} where id < 0".to_owned(),
            "update {{ this }} set id = id + 1".to_owned(),
        ],
        post_hooks: vec![
            "update {{ this }} set id = id + 2".to_owned(),
            "delete from {{ this }} where id = 0".to_owned(),
        ],
        sql_header: Some("set wap_test_header = 7;".to_owned()),
        ..Default::default()
    }
}

#[test]
fn wap_hooks_render_candidate_this_once_around_header_and_transformation() {
    let (result, recording) = stage_with_config(
        true,
        Some(TableLifecycle::Permanent),
        "select 1 as id",
        hooks_and_header(),
    );
    result.unwrap();
    let candidate = "\"My\"\"Database\".\"My.Schema\".\"__DBT_WAP_TEST\"";
    assert_eq!(
        recording.submitted,
        [
            format!(
                "create transient table {candidate} clone \"My\"\"Database\".\"My.Schema\".\"Orders\""
            ),
            format!("delete from {candidate} where id < 0"),
            format!("update {candidate} set id = id + 1"),
            format!(
                "set wap_test_header = 7; create or replace transient table {candidate} as (select 1 as id ) ;"
            ),
            format!("update {candidate} set id = id + 2"),
            format!("delete from {candidate} where id = 0"),
        ]
    );
}

#[test]
fn wap_does_not_rewrite_hook_sql_already_resolved_to_the_public_table() {
    let sql = "update \"My\"\"Database\".\"My.Schema\".\"Orders\" set id = 1";
    let (result, recording) = stage_with_config(
        true,
        Some(TableLifecycle::Permanent),
        "select 1 as id",
        StageConfig {
            post_hooks: vec![sql.to_owned()],
            ..Default::default()
        },
    );
    result.unwrap();
    assert_eq!(recording.submitted.last().unwrap(), sql);
}

#[test]
fn wap_hook_header_and_transformation_failures_stop_later_statements() {
    for (failure, expected_statements) in [
        ("where id < 0", 2),
        ("set wap_test_header", 4),
        ("create or replace", 5),
        ("id = id + 2", 6),
    ] {
        let (result, recording) = stage_with_config(
            true,
            Some(TableLifecycle::Permanent),
            "select 1 as id",
            StageConfig {
                fail_on: Some(failure),
                ..hooks_and_header()
            },
        );
        assert!(result
            .unwrap_err()
            .message
            .contains(&format!("injected failure: {failure}")));
        assert_eq!(recording.statements.len(), expected_statements, "{failure}");
        assert!(recording.statements.last().unwrap().contains(failure));
        assert!(recording.candidate_exists);
    }
}

#[test]
fn wap_claims_or_clones_before_rebuilding_the_same_schema_candidate() {
    for transient in [false, true] {
        for source in [
            None,
            Some(TableLifecycle::Permanent),
            Some(TableLifecycle::Transient),
        ] {
            if source == Some(TableLifecycle::Transient) && !transient {
                continue;
            }
            for transformation in [
                "select 1 as id, 10 as amount",
                "select 2 as id, -10 as amount",
            ] {
                let (result, recording) = stage(transient, source, transformation, false, false);
                result.unwrap();
                let lifecycle = if transient { "transient " } else { "" };
                let mut expected = Vec::new();
                if source.is_some() {
                    expected.push(format!(
                        "create {lifecycle}table \"My\"\"Database\".\"My.Schema\".\"__DBT_WAP_TEST\" \
                         clone \"My\"\"Database\".\"My.Schema\".\"Orders\""
                    ));
                } else {
                    expected.push(format!(
                        "create {lifecycle}table \"My\"\"Database\".\"My.Schema\".\"__DBT_WAP_TEST\" \
                         (__DBT_WAP_PLACEHOLDER boolean)"
                    ));
                }
                expected.push(format!(
                    "create or replace {lifecycle}table \
                         \"My\"\"Database\".\"My.Schema\".\"__DBT_WAP_TEST\" \
                         as ({transformation} ) ;"
                ));
                assert_eq!(
                    recording.submitted, expected,
                    "source={source:?}, transient={transient}"
                );
            }
        }
    }
}

#[test]
fn wap_actual_table_materialization_propagates_transformation_failure() {
    let (result, recording) = stage(
        true,
        Some(TableLifecycle::Transient),
        "select missing_column from upstream",
        true,
        false,
    );
    assert!(result
        .unwrap_err()
        .message
        .contains("injected CTAS failure"));
    assert_eq!(recording.submitted.len(), 2);
    assert!(recording.candidate_exists);
}

#[test]
fn wap_candidate_creation_failure_prevents_transformation() {
    for source in [None, Some(TableLifecycle::Permanent)] {
        let (result, recording) = stage(true, source, "select 1 as id", false, true);
        let error = result.unwrap_err().message;
        assert!(error.contains("injected candidate creation failure"));
        assert!(error.contains("was not replaced"));
        assert!(error.contains("may have been created"));
        assert_eq!(recording.submitted.len(), 1);
        assert!(!recording.submitted[0].contains("create or replace"));
        assert!(!recording.candidate_exists);
    }
}

#[test]
fn wap_rejects_transient_to_permanent_clone_before_writing() {
    let (result, recording) = stage(
        false,
        Some(TableLifecycle::Transient),
        "select 1 as id",
        false,
        false,
    );
    assert!(result
        .unwrap_err()
        .message
        .contains("cannot clone transient public table"));
    assert!(recording.submitted.is_empty());
}

#[test]
fn a_first_build_claims_the_name() {
    let wap = fixture(Some(false));
    assert_eq!(
        initialize_candidate(
            &wap.public_relation(),
            &wap.candidate_relation(),
            None,
            true
        )
        .unwrap(),
        format!("create transient table {CANDIDATE} (__DBT_WAP_PLACEHOLDER boolean)")
    );
}

#[test]
fn a_hook_that_cannot_be_rendered_fails_in_its_turn() {
    let mut wap = fixture(None);
    wap.model.config.pre_hooks = vec!["select {{ this".to_string()];
    let stage = Stage::start(&wap, None, "select 1", false, &None).unwrap();
    assert!(matches!(&stage.pieces[1], Piece::Hook(t) if t == "select {{ this"));
    assert_eq!(stage.candidate_state(), None);
    let stage = stage.submitted(Ok(())).unwrap();
    let Some(Turn::Render { template, this }) = stage.turn() else {
        panic!("a hook to render");
    };
    assert_eq!(this, CANDIDATE);
    let failed = stage.hook_rendered(render(&template, &this)).unwrap_err();
    assert_eq!(failed.code, ErrorCode::ExecutionError);
}

#[test]
fn a_hook_is_submitted_as_it_was_rendered() {
    let mut wap = fixture(None);
    wap.model.config.post_hooks = vec!["{{ log('x') }} analyze {{ this.name }}".to_string()];
    let stage = Stage::start(&wap, None, "select 1", false, &None).unwrap();
    let stage = stage.submitted(Ok(())).unwrap().submitted(Ok(())).unwrap();
    assert!(matches!(stage.turn(), Some(Turn::Render { .. })));
    let stage = stage.hook_rendered(Ok("analyze orders".to_string())).unwrap();
    assert!(matches!(stage.turn(), Some(Turn::Submit(sql)) if sql == "analyze orders"));
    let stage = stage.submitted(Ok(())).unwrap();
    assert!(stage.turn().is_none());
}

// ---------------------------------------------------------------------------
// Headers
// ---------------------------------------------------------------------------

#[test]
fn wap_executes_runtime_sql_header_with_candidate_this_before_ctas() {
    let wap = fixture(Some(false));
    let model = wap.execution_model();
    assert!(model.config.sql_header.is_none());
    let env = minijinja::Environment::new();
    for execute in [false, true] {
        let expected_header =
            "update \"My\"\"Database\".\"My.Schema\".\"__DBT_WAP_TEST\" set id = id + 1;";
        let header = if execute {
            let this = wap.candidate_relation().render_self_as_str();
            let context = minijinja::value::Value::from_iter([("this", this)]);
            Some(Value::of_text(
                env.render_str("update {{ this }} set id = id + 1;", context)
                    .unwrap()
                    .as_str(),
            ))
        } else {
            None
        };
        if execute {
            assert_eq!(header.as_ref().unwrap().text, expected_header);
        }
        let (result, recording) = stage_with_config(
            true,
            Some(TableLifecycle::Permanent),
            "select 1 as id",
            StageConfig {
                runtime_sql_header: header,
                ..Default::default()
            },
        );
        result.unwrap();
        assert_eq!(recording.submitted.len(), 2);
        let expected_ctas = "create or replace transient table \
            \"My\"\"Database\".\"My.Schema\".\"__DBT_WAP_TEST\" as (select 1 as id ) ;";
        assert_eq!(
            recording.submitted[1],
            if execute {
                format!("{expected_header} {expected_ctas}")
            } else {
                expected_ctas.to_owned()
            }
        );
    }
    assert!(wap.model.config.sql_header.is_none());
    assert_eq!(wap.model.alias, "Orders");
}

#[test]
fn wap_runtime_sql_header_overrides_the_parsed_header() {
    let (result, recording) = stage_with_config(
        true,
        None,
        "select 1 as id",
        StageConfig {
            sql_header: Some("set wap_parsed_header = 1;".to_owned()),
            runtime_sql_header: Some(Value::of_text("set wap_runtime_header = 2;")),
            ..Default::default()
        },
    );
    result.unwrap();
    assert!(recording.submitted[1].starts_with("set wap_runtime_header = 2; create or replace"));
    assert!(!recording.submitted[1].contains("wap_parsed_header"));
}

fn nothing() -> Value {
    Value {
        kind: ValueKind::Nothing,
        truthy: false,
        text: "none".to_string(),
        string: None,
        integer: None,
        bytes: None,
        data: None,
        json: None,
        items: None,
        entries: Vec::new(),
    }
}

#[test]
fn wap_runtime_sql_header_allows_absent_or_empty_values() {
    for header in [
        None,
        Some(nothing()),
        Some(Value::of_text("")),
        Some(Value::of_text(" \n\t")),
    ] {
        let (result, recording) = stage_with_config(
            true,
            None,
            "select 1 as id",
            StageConfig {
                runtime_sql_header: header,
                ..Default::default()
            },
        );
        result.unwrap();
        assert!(recording.submitted[1].starts_with("create or replace transient table"));
    }
}

// ---------------------------------------------------------------------------
// Inspection
// ---------------------------------------------------------------------------

fn objects(names: &[&str], kinds: &[&str], dynamic: &[&str]) -> ShownRows {
    let column = |name: &str, values: &[&str]| Column {
        name: name.to_string(),
        values: values.iter().map(|v| Some(v.to_string())).collect(),
    };
    ShownRows {
        columns: vec![
            column("name", names),
            column("kind", kinds),
            column("is_dynamic", dynamic),
        ],
        rows: names.len(),
    }
}

fn metadata_row(columns: &[(&str, Option<&str>)]) -> ShownRows {
    ShownRows {
        columns: columns
            .iter()
            .map(|(name, value)| Column {
                name: name.to_string(),
                values: vec![value.map(str::to_string)],
            })
            .collect(),
        rows: 1,
    }
}

fn table(kind: &str, overrides: &[(&str, Option<&str>)]) -> ShownRows {
    let mut columns = vec![
        ("name", Some("PUBLIC")),
        ("kind", Some(kind)),
        ("is_external", Some("N")),
        ("is_event", Some("N")),
        ("is_hybrid", Some("N")),
        ("is_iceberg", Some("N")),
        ("is_immutable", Some("N")),
    ];
    for (name, value) in &mut columns {
        if let Some((_, replacement)) = overrides.iter().find(|(flag, _)| *flag == *name) {
            *value = *replacement;
        }
    }
    metadata_row(&columns)
}

#[test]
fn wap_preflight_preserves_collisions_and_unsupported_targets() {
    let empty = objects(&[], &[], &[]);
    assert!(!inspect_relation_rows(&empty, "PUBLIC", RelationExpectation::OptionalTable).unwrap());
    assert!(inspect_relation_rows(&empty, "WORK", RelationExpectation::ExistingTable).is_err());
    let existing = objects(&["PUBLIC"], &["TABLE"], &["N"]);
    assert!(inspect_relation_rows(&existing, "PUBLIC", RelationExpectation::OptionalTable).unwrap());
    let ready = objects(&["PUBLIC", "WORK"], &["TABLE", "TABLE"], &["N", "N"]);
    assert!(inspect_relation_rows(&ready, "WORK", RelationExpectation::Absent).is_err());
    assert!(inspect_relation_rows(&ready, "WORK", RelationExpectation::ExistingTable).unwrap());
    for kind in ["VIEW", "TEMPORARY", "EXTERNAL TABLE"] {
        assert!(inspect_relation_rows(
            &objects(&["PUBLIC"], &[kind], &["N"]),
            "PUBLIC",
            RelationExpectation::OptionalTable
        )
        .is_err());
    }
    assert!(inspect_relation_rows(
        &objects(&["PUBLIC"], &["TABLE"], &["Y"]),
        "PUBLIC",
        RelationExpectation::OptionalTable
    )
    .is_err());
    assert!(inspect_relation_rows(
        &objects(&["PUBLIC", "PUBLIC"], &["TABLE", "TABLE"], &["N", "N"]),
        "PUBLIC",
        RelationExpectation::OptionalTable
    )
    .is_err());
}

#[test]
fn wap_requires_native_permanent_or_transient_table_details() {
    for kind in ["TABLE", "TRANSIENT"] {
        assert!(inspect_table_rows(&table(kind, &[]), "PUBLIC").is_ok());
    }
    for kind in [
        "TEMPORARY",
        "EXTERNAL TABLE",
        "VIEW",
        "INTERACTIVE TABLE",
        "",
    ] {
        assert!(inspect_table_rows(&table(kind, &[]), "PUBLIC").is_err());
    }
    for flag in [
        "is_external",
        "is_event",
        "is_hybrid",
        "is_iceberg",
        "is_immutable",
    ] {
        assert!(inspect_table_rows(&table("TABLE", &[(flag, Some("Y"))]), "PUBLIC").is_err());
    }
    assert!(inspect_table_rows(
        &table("TABLE", &[("name", Some("PUBLIC_SUFFIX"))]),
        "PUBLIC"
    )
    .is_err());
    assert!(inspect_table_rows(
        &objects(&["PUBLIC", "PUBLIC"], &["TABLE", "TABLE"], &["N", "N"]),
        "PUBLIC"
    )
    .is_err());
}

#[test]
fn wap_rejects_missing_or_unknown_type_metadata() {
    for flag in ["is_external", "is_event", "is_hybrid", "is_iceberg"] {
        let mut batch = table("TABLE", &[]);
        batch.columns.retain(|c| c.name != flag);
        assert!(inspect_table_rows(&batch, "PUBLIC").is_err());
        for value in [None, Some(""), Some("unknown")] {
            assert!(inspect_table_rows(&table("TABLE", &[(flag, value)]), "PUBLIC").is_err());
        }
        assert!(inspect_table_rows(&table("TABLE", &[(flag, Some("false"))]), "PUBLIC").is_ok());
    }
    for field in ["name", "kind"] {
        assert!(inspect_table_rows(&table("TABLE", &[(field, None)]), "PUBLIC").is_err());
    }
    for value in [None, Some(""), Some("unknown"), Some("Y")] {
        let batch = metadata_row(&[
            ("name", Some("PUBLIC")),
            ("kind", Some("TABLE")),
            ("is_dynamic", value),
        ]);
        assert!(
            inspect_relation_rows(&batch, "PUBLIC", RelationExpectation::OptionalTable).is_err()
        );
    }
    let missing_dynamic = metadata_row(&[("name", Some("PUBLIC")), ("kind", Some("TABLE"))]);
    assert!(inspect_relation_rows(
        &missing_dynamic,
        "PUBLIC",
        RelationExpectation::OptionalTable
    )
    .is_err());
}

#[test]
fn wap_rejects_interactive_tables_and_unknown_interactive_flags() {
    for value in [None, Some(""), Some("unknown"), Some("Y")] {
        let batch = metadata_row(&[
            ("name", Some("PUBLIC")),
            ("kind", Some("TABLE")),
            ("is_dynamic", Some("N")),
            ("is_interactive", value),
        ]);
        assert!(
            inspect_relation_rows(&batch, "PUBLIC", RelationExpectation::OptionalTable).is_err()
        );
    }
    let supported = metadata_row(&[
        ("name", Some("PUBLIC")),
        ("kind", Some("TABLE")),
        ("is_dynamic", Some("N")),
        ("is_interactive", Some("N")),
    ]);
    assert!(
        inspect_relation_rows(&supported, "PUBLIC", RelationExpectation::OptionalTable).unwrap()
    );
}

#[test]
fn lifecycles_are_read_from_the_rows() {
    assert_eq!(
        table_lifecycle(&table("TRANSIENT", &[]), "PUBLIC"),
        Some(TableLifecycle::Transient)
    );
    assert_eq!(
        table_lifecycle(&table("TABLE", &[]), "PUBLIC"),
        Some(TableLifecycle::Permanent)
    );
    assert_eq!(table_lifecycle(&table("TABLE", &[]), "OTHER"), None);
    assert_eq!(
        exact_relation_row(&table("TABLE", &[]), "PUBLIC").unwrap(),
        Some(0)
    );
    assert_eq!(
        exact_relation_row(&table("TABLE", &[]), "public").unwrap(),
        None
    );
}

fn shown(name: &str) -> ShownRows {
    objects(&[name], &["TABLE"], &["N"])
}

fn detailed(name: &str) -> ShownRows {
    table("TABLE", &[("name", Some(name))])
}

#[test]
fn both_relations_are_inspected() {
    let wap = fixture(None);
    let (target, working) = (wap.public_relation(), wap.candidate_relation());
    let mut replies = Vec::new();
    let mut asked = Vec::new();
    let answers = [
        shown("Orders"),
        detailed("Orders"),
        objects(&[], &[], &[]),
    ];
    for answer in answers {
        match inspect_relations(&target, &working, false, &replies) {
            Inspection::Ask(lookup) => asked.push(lookup),
            other => panic!("{other:?}"),
        }
        replies.push(answer);
    }
    assert!(matches!(
        inspect_relations(&target, &working, false, &replies),
        Inspection::Inspected(true)
    ));
    assert_eq!(
        asked,
        vec![
            Lookup {
                working: false,
                details: false
            },
            Lookup {
                working: false,
                details: true
            },
            Lookup {
                working: true,
                details: false
            },
        ]
    );
    replies[2] = shown("__DBT_WAP_TEST");
    assert!(matches!(
        inspect_relations(&target, &working, false, &replies),
        Inspection::Refused(_)
    ));
}

fn native(transient: bool) -> Option<CatalogRelation> {
    Some(CatalogRelation {
        native: true,
        default_format: true,
        is_transient: Some(transient),
    })
}

#[test]
fn the_catalog_tells_the_lifecycle() {
    assert!(resolved_transient(native(true)).unwrap());
    assert!(!resolved_transient(native(false)).unwrap());
    assert!(resolved_transient(None).is_err());
    assert!(resolved_transient(Some(CatalogRelation {
        native: false,
        default_format: true,
        is_transient: Some(true)
    }))
    .is_err());
}

#[test]
fn preflight_refuses_what_cannot_be_staged() {
    let wap = fixture(None);
    assert!(matches!(
        preflight_stage(&wap, true, None, native(true), &Vec::new()),
        Preflight::Refused(_)
    ));
    let absent = vec![objects(&[], &[], &[]), objects(&[], &[], &[])];
    match preflight_stage(
        &wap,
        false,
        Some(ResolvedQuoting::trues()),
        native(true),
        &absent,
    ) {
        Preflight::Ready(message) => assert!(message.contains(CANDIDATE)),
        other => panic!("{other:?}"),
    }
}

#[test]
fn a_publication_is_prepared_and_finalized() {
    let mut wap = fixture(Some(true));
    wap.model.snowflake = Some(SnowflakeAttr {
        copy_grants: None,
        copy_tags: None,
        snowflake_warehouse: None,
    });
    let replies = vec![
        shown("Orders"),
        detailed("Orders"),
        shown("__DBT_WAP_TEST"),
        detailed("__DBT_WAP_TEST"),
    ];
    match prepare_publication(&wap, native(true), &replies) {
        Preparation::Ready(prepared) => {
            assert!(prepared.target_exists);
            assert_eq!(
                prepared.clone_sql,
                format!(
                    "create or replace transient table {PUBLIC} clone {CANDIDATE} copy grants"
                )
            );
            let actions =
                finalize_publication(&prepared, &wap.public_relation(), true, false, false);
            assert!(matches!(actions[0], FinalizeAction::EvictMetadata));
            assert!(actions
                .iter()
                .any(|a| matches!(a, FinalizeAction::ApplyGrants(_))));
        }
        other => panic!("{other:?}"),
    }
    assert!(matches!(
        prepare_publication(&wap, native(true), &Vec::new()),
        Preparation::Ask(_)
    ));
}

#[test]
fn a_lost_clone_is_not_called_a_failure() {
    let failed = clone_failed(&fixture(None), &error("lost".to_string()));
    assert!(failed.message.contains("may have committed"));
    assert!(failed.message.contains(PUBLIC));
    assert!(failed.message.contains(CANDIDATE));
    assert_eq!(failed.code, ErrorCode::ExecutionError);
}

#[test]
fn wap_cancellation_preserves_confirmed_publication_outcome() {
    let published = fields().with("wap_published", Json::Bool(true)).object();
    assert!(interruption_message(Some(&published)).contains("was published"));
    assert!(interruption_message(Some(&published)).contains("finalization was interrupted"));
    assert!(interruption_message(None).contains("verify its outcome"));
    let empty = fields().object();
    assert!(interruption_message(Some(&empty)).contains("verify its outcome"));
}

#[test]
fn a_confirmed_clone_is_recorded_with_its_working_table() {
    let wap = fixture(None);
    let response = fields().text("_message", "SUCCESS 1").with("wap_published", Json::Int(0));
    let record = cloned(&wap, Ok(response)).unwrap();
    assert_eq!(record.get("_message"), Some(&Json::Text("SUCCESS 1".to_string())));
    assert_eq!(record.get("wap_published"), Some(&Json::Bool(true)));
    assert_eq!(record.get("wap_candidate"), Some(&Json::Text(CANDIDATE.to_string())));
    assert!(interruption_message(Some(&record)).contains("was published"));

    let lost = cloned(&wap, Err(error("lost".to_string()))).unwrap_err();
    assert!(lost.message.contains("may have committed"));
}

#[test]
fn a_cancelled_run_submits_no_clone() {
    let prepared = Prepared {
        model: fixture(None).model,
        target_exists: true,
        clone_sql: "create or replace table t clone c".to_string(),
    };
    assert_eq!(
        clone_statement(&prepared, None).unwrap(),
        "create or replace table t clone c"
    );
    let cancelled = clone_statement(&prepared, Some(error("cancelled".to_string())));
    assert_eq!(cancelled.unwrap_err().message, "cancelled");
}

#[test]
fn a_publication_is_a_task_of_its_model() {
    let task = PublishTask::new(fixture(None).model);
    assert_eq!(task.task_type(), "wap_publish_run");
    assert_eq!(task.work_node_id(), "model.wap_test.orders");
    assert_eq!(task.task_phase(), Some(TaskPhase::Run));
    assert_eq!(task.outcome(&Ok(())).0, NodeStatus::Succeeded);
    let failed = task.outcome(&Err(error("x".to_string())));
    assert_eq!(failed.0, NodeStatus::Errored);
    assert_eq!(failed.1, "x");
    assert_ne!(PublicationStep::Prepare, PublicationStep::Clone);
}
