//! The plan of what an invocation publishes after its audits.

use dbt_fusion::json::Json;
use dbt_fusion::relation::{AdapterType, Relation, RelationType, ResolvedQuoting};
use dbt_fusion::value::{Value, ValueKind};
use dbt_fusion::wap::invocation::{
    Materialization, MaterializationResolver, RunTasksArgs, WapPlan,
};
use dbt_fusion::wap::nodes::{
    DbtMaterialization, DbtModel, DbtTest, FsCommand, LocalExecutionBackendKind, ModelConfig,
    Nodes, StoreFailuresAs,
};
use dbt_fusion::wap::plan::{
    stores_test_failures, WapModel, DEFAULT_DATA_TEST_ERROR_IF, DEFAULT_DATA_TEST_FAIL_CALC,
    DEFAULT_DATA_TEST_WARN_IF,
};
use dbt_fusion::wap::publish::{publish_model, retained_candidate, RunStat};
use dbt_fusion::wap::audit::{NodeStatus, TestExecutionResult};

const MODEL: &str = "model.pkg.orders";
const AUDIT: &str = "test.pkg.orders_not_null";

fn model(id: &str) -> DbtModel {
    let mut config = ModelConfig::none();
    config.wap = Some(true);
    DbtModel {
        unique_id: id.to_string(),
        adapter: AdapterType::Snowflake,
        enabled: true,
        materialized: DbtMaterialization::Table,
        database: "DB".to_string(),
        schema: "PUBLIC".to_string(),
        alias: "ORDERS".to_string(),
        relation_name: None,
        quoting: ResolvedQuoting::trues(),
        compute: None,
        propagates: false,
        id_hash: "0123456789abcdef".to_string(),
        settings_error: None,
        config,
        snowflake: None,
    }
}

fn audit(id: &str) -> DbtTest {
    DbtTest {
        unique_id: id.to_string(),
        adapter: AdapterType::Snowflake,
        enabled: true,
        config_enabled: None,
        database: String::new(),
        schema: String::new(),
        alias: String::new(),
        compute: None,
        depends_on: vec![MODEL.to_string()],
        attached_node: Some(MODEL.to_string()),
        unrendered_config: Vec::new(),
        where_clause: None,
        fail_calc: None,
        error_if: None,
        warn_if: None,
        severity: None,
        sql_header: None,
        store_failures: None,
        store_failures_as: None,
    }
}

type Selected = Vec<(String, ())>;

fn fixtures() -> (RunTasksArgs, Selected, Nodes) {
    let args = RunTasksArgs {
        command: FsCommand::Build,
        empty: false,
        sample: None,
        sample_renaming: Vec::new(),
        local_execution_backend: LocalExecutionBackendKind::Remote,
        infer_schemas_and_typeless: false,
        invocation_id: 0,
    };
    let mut nodes = Nodes::new();
    nodes.insert_model(model(MODEL));
    nodes.insert_test(audit(AUDIT));
    let selected = vec![(MODEL.to_string(), ()), (AUDIT.to_string(), ())];
    (args, selected, nodes)
}

fn test_mut<'a>(nodes: &'a mut Nodes, id: &str) -> &'a mut DbtTest {
    &mut nodes.tests.iter_mut().find(|t| t.0 == id).unwrap().1
}

fn model_mut<'a>(nodes: &'a mut Nodes, id: &str) -> &'a mut DbtModel {
    &mut nodes.models.iter_mut().find(|m| m.0 == id).unwrap().1
}

fn entry(plan: &WapPlan) -> &WapModel {
    plan.model(MODEL).unwrap()
}

fn author(test: &mut DbtTest, key: &str, value: Json) {
    test.unrendered_config.retain(|e| e.0 != key);
    test.unrendered_config.push((key.to_string(), value));
}

fn relation(database: &str, schema: &str, name: &str, quoting: ResolvedQuoting) -> Relation {
    Relation::new(
        AdapterType::Snowflake,
        database,
        schema,
        name,
        Some(RelationType::View),
        quoting,
    )
}

#[test]
fn candidates_are_scoped_and_leave_manifest_relations_unchanged() {
    let (mut args, schedule, nodes) = fixtures();
    let first = WapPlan::build(&args, &schedule, &nodes).unwrap();
    let entry = first.model(MODEL).unwrap();
    let candidate = entry.execution_model();
    assert_ne!(candidate.alias, entry.model.alias);
    assert_eq!(candidate.schema, entry.model.schema);
    assert_eq!(candidate.unique_id, entry.model.unique_id);
    assert_eq!(nodes.model(MODEL).unwrap().alias, "ORDERS");
    assert!(first.audit_owner(AUDIT).is_some());
    args.invocation_id = 1;
    let second = WapPlan::build(&args, &schedule, &nodes).unwrap();
    assert_ne!(
        entry.candidate_identifier,
        second.model(MODEL).unwrap().candidate_identifier
    );
}

#[test]
fn candidate_rendering_preserves_quoted_database_and_schema_names() {
    let (args, schedule, mut nodes) = fixtures();
    let model = model_mut(&mut nodes, MODEL);
    model.database = "DB\"name".to_owned();
    model.schema = "schema.with.dot".to_owned();
    model.alias = "Ord\"ers".to_owned();
    let plan = WapPlan::build(&args, &schedule, &nodes).unwrap();
    let entry = entry(&plan);

    let candidate = entry.execution_model();
    let candidate_sql = entry.candidate_relation().render_self_as_str();
    assert_eq!(
        candidate_sql,
        format!(
            "\"DB\"\"name\".\"schema.with.dot\".\"{}\"",
            entry.candidate_identifier
        )
    );
    assert_eq!(
        candidate.relation_name.as_deref(),
        Some(candidate_sql.as_str())
    );
    assert_eq!(
        entry.public_relation().render_self_as_str(),
        "\"DB\"\"name\".\"schema.with.dot\".\"Ord\"\"ers\""
    );
    assert_eq!(nodes.model(MODEL).unwrap().alias, "Ord\"ers");
}

#[test]
fn materialization_quoting_guard_matches_jinja_relation_creation() {
    for (database, schema, model_quoting, effective_quoting, compatible) in [
        (
            "DB",
            "PUBLIC",
            ResolvedQuoting::trues(),
            ResolvedQuoting::falses(),
            true,
        ),
        (
            "Db",
            "PUBLIC",
            ResolvedQuoting::trues(),
            ResolvedQuoting::falses(),
            false,
        ),
        (
            "DB",
            "Public",
            ResolvedQuoting::trues(),
            ResolvedQuoting::falses(),
            false,
        ),
        (
            "db",
            "public",
            ResolvedQuoting::falses(),
            ResolvedQuoting::trues(),
            false,
        ),
        (
            "db",
            "public",
            ResolvedQuoting::trues(),
            ResolvedQuoting::trues(),
            true,
        ),
    ] {
        let (args, schedule, mut nodes) = fixtures();
        let model = model_mut(&mut nodes, MODEL);
        model.database = database.to_owned();
        model.schema = schema.to_owned();
        model.quoting = model_quoting;
        let plan = WapPlan::build(&args, &schedule, &nodes).unwrap();
        let entry = entry(&plan);
        let actual = relation(
            database,
            schema,
            entry.candidate_identifier.as_str(),
            effective_quoting,
        );
        let expected = entry.candidate_relation();
        assert_eq!(
            actual
                .relation_identity()
                .is(&expected.relation_identity()),
            compatible,
            "database={database}, schema={schema}",
        );
        assert_eq!(
            entry
                .validate_materialization_quoting(effective_quoting)
                .is_ok(),
            compatible,
            "database={database}, schema={schema}",
        );
    }
}

#[test]
fn missing_and_empty_audit_selections_fail_closed() {
    let (args, mut schedule, mut nodes) = fixtures();
    schedule.retain(|s| s.0 != AUDIT);
    assert!(WapPlan::build(&args, &schedule, &nodes)
        .unwrap_err()
        .message
        .contains("all WAP audits"));
    nodes.tests.clear();
    assert!(WapPlan::build(&args, &schedule, &nodes)
        .unwrap_err()
        .message
        .contains("at least one"));
}

#[test]
fn generic_test_owner_is_attachment_not_every_dependency() {
    let (args, schedule, mut nodes) = fixtures();
    let relationship = |owner: &str| {
        let mut test = audit("test.pkg.downstream_relationship");
        test.depends_on = vec![MODEL.to_owned(), "model.pkg.downstream".to_owned()];
        test.attached_node = Some(owner.to_owned());
        test
    };
    nodes.insert_test(relationship("model.pkg.downstream"));
    let plan = WapPlan::build(&args, &schedule, &nodes).unwrap();
    assert!(plan
        .audit_owner("test.pkg.downstream_relationship")
        .is_none());
    nodes.insert_test(relationship(MODEL));
    assert!(WapPlan::build(&args, &schedule, &nodes)
        .unwrap_err()
        .message
        .contains("multi-relation"));
}

#[test]
fn singular_audits_support_one_relation_and_reject_ambiguous_ownership() {
    let (args, schedule, mut nodes) = fixtures();
    test_mut(&mut nodes, AUDIT).attached_node = None;
    assert!(WapPlan::build(&args, &schedule, &nodes).is_ok());
    test_mut(&mut nodes, AUDIT)
        .depends_on
        .push("source.pkg.raw".to_owned());
    assert!(WapPlan::build(&args, &schedule, &nodes).is_err());
}

#[test]
fn disabled_audits_are_not_required() {
    let (args, schedule, mut nodes) = fixtures();
    let mut disabled = audit("test.pkg.disabled");
    disabled.config_enabled = Some(false);
    disabled.depends_on.push("model.pkg.other".to_owned());
    nodes.insert_test(disabled);
    assert!(WapPlan::build(&args, &schedule, &nodes).is_ok());
}

#[test]
fn audit_sql_headers_are_rejected_before_building_a_candidate() {
    let (args, schedule, mut nodes) = fixtures();
    for attached_node in [Some(MODEL.to_owned()), None] {
        let audit = test_mut(&mut nodes, AUDIT);
        audit.attached_node = attached_node;
        audit.sql_header = Some("delete from DB.PUBLIC.ORDERS".to_owned());
        let error = WapPlan::build(&args, &schedule, &nodes).unwrap_err();
        assert!(error.message.contains("test.pkg.orders_not_null"));
        assert!(error.message.contains("does not support sql_header"));
    }
}

#[test]
fn absent_and_blank_audit_sql_headers_remain_supported() {
    let (args, schedule, mut nodes) = fixtures();
    for header in [None, Some(String::new()), Some(" \n\t ".to_owned())] {
        test_mut(&mut nodes, AUDIT).sql_header = header;
        assert!(WapPlan::build(&args, &schedule, &nodes).is_ok());
    }

    let mut other = audit("test.pkg.unrelated");
    other.depends_on = vec!["model.pkg.other".to_owned()];
    other.attached_node = Some("model.pkg.other".to_owned());
    other.sql_header = Some("select 1".to_owned());
    nodes.insert_test(other);
    let mut other = audit("test.pkg.disabled");
    other.sql_header = Some("select 1".to_owned());
    other.enabled = false;
    nodes.insert_test(other);
    assert!(WapPlan::build(&args, &schedule, &nodes).is_ok());
}

#[test]
fn dynamically_rendered_audit_sql_configs_cannot_read_public_relations() {
    for (key, resolved, authored) in [
        (
            "fail_calc",
            "case when (select max(id) from DB.PUBLIC.ORDERS) = 999 then 0 else count(*) end",
            "\"case when (select max(id) from \" ~ ref('orders') ~ \") = 999 then 0 else count(*) end\"",
        ),
        (
            "where",
            "id in (select id from DB.PUBLIC.ORDERS)",
            "id in (select id from {{ ref('orders') }})",
        ),
        ("error_if", "> 5", "{{ var('failure_threshold') }}"),
        ("warn_if", "> 0", "warning_threshold()"),
    ] {
        let (args, schedule, mut nodes) = fixtures();
        let audit = test_mut(&mut nodes, AUDIT);
        match key {
            "fail_calc" => audit.fail_calc = Some(resolved.to_owned()),
            "where" => audit.where_clause = Some(resolved.to_owned()),
            "error_if" => audit.error_if = Some(resolved.to_owned()),
            "warn_if" => audit.warn_if = Some(resolved.to_owned()),
            _ => unreachable!(),
        }
        author(audit, key, Json::Text(authored.to_owned()));
        let error = WapPlan::build(&args, &schedule, &nodes).unwrap_err();
        assert!(error.message.contains(&format!("literal '{key}'")));
        assert!(error
            .message
            .contains("Move relation-dependent expressions"));

        // Config set inside a helper macro has no authored field in the
        // test's unrendered_config, so absence cannot certify a SQL literal.
        test_mut(&mut nodes, AUDIT)
            .unrendered_config
            .retain(|e| e.0 != key);
        assert!(WapPlan::build(&args, &schedule, &nodes).is_err());
    }
}

#[test]
fn literal_audit_sql_configs_and_parser_defaults_remain_supported() {
    let (args, schedule, mut nodes) = fixtures();
    let audit = test_mut(&mut nodes, AUDIT);
    audit.fail_calc = Some(DEFAULT_DATA_TEST_FAIL_CALC.to_owned());
    audit.error_if = Some(DEFAULT_DATA_TEST_ERROR_IF.to_owned());
    audit.warn_if = Some(DEFAULT_DATA_TEST_WARN_IF.to_owned());
    assert!(WapPlan::build(&args, &schedule, &nodes).is_ok());

    let audit = test_mut(&mut nodes, AUDIT);
    for key in ["where", "fail_calc", "error_if", "warn_if"] {
        author(audit, key, Json::Null);
    }
    assert!(WapPlan::build(&args, &schedule, &nodes).is_ok());

    let audit = test_mut(&mut nodes, AUDIT);
    audit.fail_calc = Some("sum(id)".to_owned());
    audit.where_clause = Some("id > 0".to_owned());
    audit.error_if = Some("> 5".to_owned());
    audit.warn_if = Some("> 0".to_owned());
    for (key, value) in [
        ("fail_calc", "sum(id)"),
        ("where", "id > 0"),
        ("error_if", "> 5"),
        ("warn_if", "> 0"),
    ] {
        author(audit, key, Json::Text(value.to_owned()));
    }
    assert!(WapPlan::build(&args, &schedule, &nodes).is_ok());

    let audit = test_mut(&mut nodes, AUDIT);
    audit.where_clause = None;
    author(audit, "where", Json::Null);
    assert!(WapPlan::build(&args, &schedule, &nodes).is_ok());
}

fn materialization(custom: bool) -> Materialization {
    Materialization {
        error: None,
        custom,
    }
}

#[test]
fn wap_materializations_follow_dispatch_and_reject_selected_overrides() {
    let (args, schedule, nodes) = fixtures();
    let plan = WapPlan::build(&args, &schedule, &nodes).unwrap();
    for (custom_name, accepted) in [
        (None, true),
        (Some("materialization_table_default"), true),
        (Some("materialization_table_snowflake"), false),
        (Some("materialization_test_default"), false),
        (Some("materialization_test_snowflake"), false),
    ] {
        // dispatch prefers the adapter's own table materialization
        let resolver = MaterializationResolver {
            table: materialization(custom_name == Some("materialization_table_snowflake")),
            test: materialization(
                custom_name.is_some_and(|name| name.starts_with("materialization_test")),
            ),
        };
        let result = plan.validate_materializations(&resolver);
        assert_eq!(result.is_ok(), accepted, "override={custom_name:?}");
        if let Err(error) = result {
            assert!(error.message.contains("requires the built-in Snowflake"));
        }
    }
    assert!(WapPlan::none()
        .validate_materializations(&MaterializationResolver {
            table: materialization(true),
            test: materialization(true),
        })
        .is_ok());
}

#[test]
fn commands_cannot_bypass_audits() {
    let (mut args, schedule, nodes) = fixtures();
    for command in [FsCommand::Run, FsCommand::Clone] {
        args.command = command;
        assert!(WapPlan::build(&args, &schedule, &nodes).is_err());
    }
    for command in [FsCommand::Test, FsCommand::Compile] {
        args.command = command;
        assert!(WapPlan::build(&args, &schedule, &nodes)
            .unwrap()
            .models
            .is_empty());
    }
    args.command = FsCommand::Build;
    args.empty = true;
    assert!(WapPlan::build(&args, &schedule, &nodes).is_err());
    args.empty = false;
    args.sample = Some("10 rows".to_owned());
    assert!(WapPlan::build(&args, &schedule, &nodes).is_err());
    args.sample = None;
    args.local_execution_backend = LocalExecutionBackendKind::Inline;
    assert!(WapPlan::build(&args, &schedule, &nodes).is_err());
}

#[test]
fn test_only_builds_and_unselected_wap_parents_use_public_relations() {
    let (args, mut schedule, mut nodes) = fixtures();
    schedule.retain(|s| s.0 != MODEL);
    assert!(WapPlan::build(&args, &schedule, &nodes)
        .unwrap()
        .models
        .is_empty());

    schedule.insert(0, (MODEL.to_owned(), ()));
    model_mut(&mut nodes, MODEL).config.wap = Some(false);
    nodes.tests.clear();
    assert!(WapPlan::build(&args, &schedule, &nodes)
        .unwrap()
        .models
        .is_empty());
}

#[test]
fn public_relation_collisions_respect_snowflake_identifier_case() {
    let (args, schedule, mut nodes) = fixtures();
    let mut other = model("model.pkg.other");
    other.alias = "orders".to_owned();
    other.quoting.identifier = false;
    nodes.insert_model(other);
    assert!(WapPlan::build(&args, &schedule, &nodes)
        .unwrap_err()
        .message
        .contains("shares its public relation"));
    model_mut(&mut nodes, "model.pkg.other").quoting.identifier = true;
    let plan = WapPlan::build(&args, &schedule, &nodes);
    assert!(plan.is_ok(), "{plan:?}");
}

#[test]
fn relation_identity_preserves_component_boundaries() {
    let (args, schedule, mut nodes) = fixtures();
    let first = model_mut(&mut nodes, MODEL);
    first.database = "A.B".to_owned();
    first.schema = "C".to_owned();
    let mut other = model("model.pkg.other");
    other.database = "A".to_owned();
    other.schema = "B.C".to_owned();
    nodes.insert_model(other);
    assert!(WapPlan::build(&args, &schedule, &nodes).is_ok());
}

#[test]
fn auxiliary_relations_cannot_replace_public_or_candidate_tables() {
    let (args, schedule, nodes) = fixtures();
    let plan = WapPlan::build(&args, &schedule, &nodes).unwrap();
    for identifier in [
        "orders".to_owned(),
        entry(&plan).candidate_identifier.to_ascii_lowercase(),
    ] {
        let relation = relation("db", "public", &identifier, ResolvedQuoting::falses());
        let error = plan
            .validate_auxiliary_relation(&relation, "Latest-version pointer")
            .unwrap_err();
        assert!(error.message.contains("Latest-version pointer"));
        assert!(error.message.contains("model.pkg.orders"));
    }
}

#[test]
fn auxiliary_relation_collisions_respect_quoted_names_and_schemas() {
    let (args, schedule, nodes) = fixtures();
    let plan = WapPlan::build(&args, &schedule, &nodes).unwrap();
    for (database, schema, identifier) in [
        ("DB", "PUBLIC", "orders"),
        ("DB", "public", "ORDERS"),
        ("DB", "OTHER", "ORDERS"),
        ("other_db", "PUBLIC", "ORDERS"),
    ] {
        let relation = relation(database, schema, identifier, ResolvedQuoting::trues());
        assert!(plan
            .validate_auxiliary_relation(&relation, "Latest-version pointer")
            .is_ok());
    }
}

#[test]
fn other_materialization_outputs_use_runtime_quoting_for_collision_checks() {
    let (args, schedule, mut nodes) = fixtures();
    let mut other = model("model.pkg.other");
    other.alias = "orders".to_owned();
    other.config.wap = Some(false);
    nodes.insert_model(other);
    let plan = WapPlan::build(&args, &schedule, &nodes).unwrap();
    let error = plan
        .validate_materialization_relations(&nodes, ResolvedQuoting::falses())
        .unwrap_err();
    assert!(error.message.contains("model.pkg.other"));
    assert!(error.message.contains("model.pkg.orders"));
    assert!(plan
        .validate_materialization_relations(&nodes, ResolvedQuoting::trues())
        .is_ok());

    nodes.models.retain(|m| m.0 != "model.pkg.other");
    assert!(
        plan.validate_materialization_relations(&nodes, ResolvedQuoting::falses())
            .is_ok(),
        "WAP models write their candidates instead of their public outputs"
    );
}

#[test]
fn persisted_audit_failures_are_rejected_before_building_a_candidate() {
    for (store_failures, store_failures_as) in [
        (Some(true), None),
        (Some(true), Some(StoreFailuresAs::Table)),
        (Some(true), Some(StoreFailuresAs::View)),
        (Some(true), Some(StoreFailuresAs::Ephemeral)),
        (None, Some(StoreFailuresAs::Table)),
        (None, Some(StoreFailuresAs::View)),
    ] {
        let (args, schedule, mut nodes) = fixtures();
        let audit = test_mut(&mut nodes, AUDIT);
        audit.store_failures = store_failures;
        audit.store_failures_as = store_failures_as;
        let error = WapPlan::build(&args, &schedule, &nodes).unwrap_err();
        assert!(error.message.contains("test.pkg.orders_not_null"));
        assert!(error.message.contains("persisted failure storage"));
    }
}

#[test]
fn audit_failure_storage_respects_runtime_flags_and_explicit_false() {
    for store_failures_as in [
        None,
        Some(StoreFailuresAs::Table),
        Some(StoreFailuresAs::View),
        Some(StoreFailuresAs::Ephemeral),
    ] {
        let (args, schedule, mut nodes) = fixtures();
        let audit = test_mut(&mut nodes, AUDIT);
        audit.store_failures = Some(false);
        audit.store_failures_as = store_failures_as;
        let plan = WapPlan::build(&args, &schedule, &nodes).unwrap();
        assert!(plan.validate_audit_failure_storage(&nodes, true).is_ok());
    }
    for store_failures_as in [None, Some(StoreFailuresAs::Ephemeral)] {
        let (args, schedule, mut nodes) = fixtures();
        test_mut(&mut nodes, AUDIT).store_failures_as = store_failures_as;
        let plan = WapPlan::build(&args, &schedule, &nodes).unwrap();
        assert!(plan.validate_audit_failure_storage(&nodes, false).is_ok());
        assert!(plan
            .validate_audit_failure_storage(&nodes, true)
            .unwrap_err()
            .message
            .contains("persisted failure storage"));
    }
}

#[test]
fn resolved_cli_failure_storage_is_rejected() {
    let (args, schedule, mut nodes) = fixtures();
    // the flag of the command line is resolved into the test's own setting
    test_mut(&mut nodes, AUDIT).store_failures = Some(true);
    assert!(WapPlan::build(&args, &schedule, &nodes)
        .unwrap_err()
        .message
        .contains("persisted failure storage"));
}

fn flag(value: bool) -> Option<Value> {
    let mut v = Value::of_text(if value { "true" } else { "false" });
    v.kind = ValueKind::Boolean;
    v.truthy = value;
    v.string = None;
    Some(v)
}

#[test]
fn runtime_failure_storage_reads_real_jinja_flags_and_fails_closed() {
    let (args, schedule, mut nodes) = fixtures();
    let plan = WapPlan::build(&args, &schedule, &nodes).unwrap();
    let quoting = ResolvedQuoting::trues();
    assert!(plan
        .validate_runtime_failure_storage(&nodes, quoting, &None)
        .unwrap_err()
        .message
        .contains("resolved boolean STORE_FAILURES"));
    assert!(plan
        .validate_runtime_failure_storage(&nodes, quoting, &flag(false))
        .is_ok());

    assert!(plan
        .validate_runtime_failure_storage(&nodes, quoting, &flag(true))
        .unwrap_err()
        .message
        .contains("persisted failure storage"));
    test_mut(&mut nodes, AUDIT).store_failures = Some(false);
    assert!(plan
        .validate_runtime_failure_storage(&nodes, quoting, &flag(true))
        .is_ok());

    let unknown = Some(Value::of_text("unknown"));
    assert!(plan
        .validate_runtime_failure_storage(&nodes, quoting, &unknown)
        .unwrap_err()
        .message
        .contains("resolved boolean STORE_FAILURES"));
    assert!(WapPlan::none()
        .validate_runtime_failure_storage(&nodes, quoting, &unknown)
        .is_ok());
}

#[test]
fn builds_without_selected_wap_models_allow_persisted_failures() {
    let (args, mut schedule, mut nodes) = fixtures();
    schedule.retain(|s| s.0 != MODEL);
    test_mut(&mut nodes, AUDIT).store_failures = Some(true);
    let plan = WapPlan::build(&args, &schedule, &nodes).unwrap();
    assert!(plan.validate_audit_failure_storage(&nodes, true).is_ok());
}

fn other_storage() -> DbtTest {
    let mut other = audit("test.pkg.other_storage");
    other.attached_node = Some("model.pkg.other".to_owned());
    other.depends_on = vec!["model.pkg.other".to_owned()];
    other
}

#[test]
fn unrelated_failure_storage_cannot_replace_public_or_candidate_tables() {
    let (args, schedule, mut nodes) = fixtures();
    nodes.insert_test(other_storage());
    let plan = WapPlan::build(&args, &schedule, &nodes).unwrap();
    let candidate = entry(&plan).candidate_identifier.clone();
    for alias in ["ORDERS", candidate.as_str()] {
        for (store_failures, store_failures_as) in [
            (Some(true), None),
            (Some(true), Some(StoreFailuresAs::Table)),
            (None, Some(StoreFailuresAs::View)),
        ] {
            let audit = test_mut(&mut nodes, "test.pkg.other_storage");
            audit.database = "DB".to_owned();
            audit.schema = "PUBLIC".to_owned();
            audit.alias = alias.to_ascii_lowercase();
            audit.store_failures = store_failures;
            audit.store_failures_as = store_failures_as;
            let error = plan
                .validate_test_storage_relations(
                    &nodes,
                    ResolvedQuoting {
                        database: true,
                        schema: true,
                        identifier: false,
                    },
                    false,
                )
                .unwrap_err();
            assert!(error.message.contains("test.pkg.other_storage"));
        }
    }
}

#[test]
fn unrelated_failure_storage_and_disabled_storing_audits_remain_supported() {
    let (args, schedule, mut nodes) = fixtures();
    nodes.insert_test(other_storage());
    for storage_type in [StoreFailuresAs::Table, StoreFailuresAs::View] {
        let audit = test_mut(&mut nodes, "test.pkg.other_storage");
        audit.database = "DB".to_owned();
        audit.schema = "PUBLIC".to_owned();
        audit.alias = "ORDERS_FAILURES".to_owned();
        audit.store_failures = Some(true);
        audit.store_failures_as = Some(storage_type);
        let plan = WapPlan::build(&args, &schedule, &nodes).unwrap();
        assert!(plan
            .validate_test_storage_relations(&nodes, ResolvedQuoting::trues(), false)
            .is_ok());
    }

    let own = test_mut(&mut nodes, AUDIT);
    own.alias = "ORDERS".to_owned();
    own.store_failures = Some(false);
    own.store_failures_as = Some(StoreFailuresAs::Ephemeral);
    let plan = WapPlan::build(&args, &schedule, &nodes).unwrap();
    assert!(plan
        .validate_test_storage_relations(&nodes, ResolvedQuoting::trues(), false)
        .is_ok());

    let mut disabled = audit("test.pkg.disabled_storage");
    disabled.alias = "ORDERS".to_owned();
    disabled.store_failures = Some(true);
    disabled.store_failures_as = Some(StoreFailuresAs::Table);
    disabled.config_enabled = Some(false);
    nodes.insert_test(disabled);
    let plan = WapPlan::build(&args, &schedule, &nodes).unwrap();
    assert!(plan
        .validate_test_storage_relations(&nodes, ResolvedQuoting::trues(), false)
        .is_ok());
}

#[test]
fn storage_collision_check_uses_runtime_quoting_and_all_enabled_tests() {
    let (args, schedule, mut nodes) = fixtures();
    let plan = WapPlan::build(&args, &schedule, &nodes).unwrap();
    let mut other = other_storage();
    other.database = "DB".to_owned();
    other.schema = "PUBLIC".to_owned();
    other.alias = "orders".to_owned();
    other.store_failures = Some(true);
    nodes.insert_test(other);
    assert!(plan
        .validate_test_storage_relations(&nodes, ResolvedQuoting::trues(), false)
        .is_ok());
    assert!(plan
        .validate_test_storage_relations(&nodes, ResolvedQuoting::falses(), false)
        .unwrap_err()
        .message
        .contains("test.pkg.other_storage"));

    test_mut(&mut nodes, "test.pkg.other_storage").store_failures = None;
    assert!(plan
        .validate_test_storage_relations(&nodes, ResolvedQuoting::falses(), false)
        .is_ok());
    assert!(plan
        .validate_test_storage_relations(&nodes, ResolvedQuoting::falses(), true)
        .unwrap_err()
        .message
        .contains("test.pkg.other_storage"));
}

// ---------------------------------------------------------------------------
// What the plan is good for
// ---------------------------------------------------------------------------

#[test]
fn candidates_are_named_by_invocation_and_model() {
    let (mut args, schedule, nodes) = fixtures();
    args.invocation_id = 0x0123_4567_89ab_cdef_0123_4567_89ab_cdef;
    let plan = WapPlan::build(&args, &schedule, &nodes).unwrap();
    let name = &entry(&plan).candidate_identifier;
    assert!(name.starts_with("__DBT_WAP_"));
    assert!(name.contains("0123456789ABCDEF0123456789ABCDEF"), "{name}");

    args.invocation_id += 1;
    let later = WapPlan::build(&args, &schedule, &nodes).unwrap();
    assert_ne!(&entry(&later).candidate_identifier, name);
}

#[test]
fn required_audits_are_those_of_the_model() {
    let (_, _, mut nodes) = fixtures();
    assert_eq!(
        WapPlan::required_audit_ids(MODEL, &nodes).unwrap(),
        vec![(AUDIT.to_string(), ())]
    );
    assert!(WapPlan::required_audit_ids("model.pkg.other", &nodes)
        .unwrap()
        .is_empty());
    test_mut(&mut nodes, AUDIT).enabled = false;
    assert!(WapPlan::required_audit_ids(MODEL, &nodes).unwrap().is_empty());
}

#[test]
fn models_with_settings_that_do_not_fit_are_refused() {
    let (args, schedule, mut nodes) = fixtures();
    model_mut(&mut nodes, MODEL).settings_error = Some("does not fit".to_string());
    assert!(WapPlan::build(&args, &schedule, &nodes)
        .unwrap_err()
        .message
        .contains("does not fit"));
}

#[test]
fn a_plan_knows_its_nodes() {
    let (args, schedule, nodes) = fixtures();
    let plan = WapPlan::build(&args, &schedule, &nodes).unwrap();
    assert!(plan.contains_node(MODEL));
    assert!(plan.contains_node(AUDIT));
    assert!(!plan.contains_node("model.pkg.other"));
    let retained = retained_candidate(&plan, MODEL).unwrap();
    assert!(retained.starts_with("WAP working table retained if created: "));
    assert!(retained.ends_with("(model model.pkg.orders)"));
    assert!(retained_candidate(&plan, "model.pkg.other").is_none());
}

#[test]
fn a_model_is_published_by_its_plan() {
    let (args, schedule, nodes) = fixtures();
    let plan = WapPlan::build(&args, &schedule, &nodes).unwrap();
    let stats = |failures: i64| {
        vec![(
            AUDIT.to_string(),
            RunStat {
                status: NodeStatus::TestPassed,
                message: "pass".to_string(),
                raw: Some(TestExecutionResult {
                    failures,
                    should_warn: false,
                    should_error: failures > 0,
                }),
            },
        )]
    };
    assert!(publish_model(&plan, MODEL, true, &stats(0), &nodes).is_ok());
    assert!(publish_model(&plan, MODEL, true, &stats(1), &nodes).is_err());
    assert!(publish_model(&plan, MODEL, true, &Vec::new(), &nodes).is_err());
    assert!(publish_model(&plan, MODEL, false, &stats(0), &nodes).is_err());
    assert!(publish_model(&plan, "model.pkg.other", true, &stats(0), &nodes)
        .unwrap_err()
        .message
        .contains("Missing WAP plan"));
}

#[test]
fn explicit_settings_tell_whether_failures_are_stored() {
    let mut test = audit("t");
    assert!(!stores_test_failures(&test, false));
    assert!(stores_test_failures(&test, true));
    test.store_failures_as = Some(StoreFailuresAs::View);
    assert!(stores_test_failures(&test, false));
    test.store_failures = Some(false);
    assert!(!stores_test_failures(&test, true));
}
