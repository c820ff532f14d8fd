//! Retrying what failed in a run.

use dbt_fusion::json::Json;
use dbt_fusion::relation::{AdapterType, ResolvedQuoting};
use dbt_fusion::retry::{
    check_names_from_retry_ids, expand_wap_retry_ids, is_retryable_status,
    is_warn_error_retryable_status, CoreCommand, RetryArgs, RetryState, RunResult, RunResults,
    StaticAnalysisKind, UnitTest,
};
use dbt_fusion::wap::nodes::{DbtMaterialization, DbtModel, DbtTest, ModelConfig, Nodes};

const RETRIABLE: [&str; 7] = [
    "run", "build", "test", "seed", "snapshot", "compile", "check",
];

fn run_results(results: &[(&str, &str)], which: &str) -> RunResults {
    run_results_with_sa(results, which, None)
}

fn run_results_with_sa(
    results: &[(&str, &str)],
    which: &str,
    static_analysis: Option<&str>,
) -> RunResults {
    RunResults {
        which: which.to_string(),
        static_analysis: static_analysis.map(str::to_string),
        full_refresh: None,
        results: results
            .iter()
            .map(|(id, status)| RunResult {
                unique_id: id.to_string(),
                status: status.to_string(),
                batch_results: None,
            })
            .collect(),
    }
}

fn run_results_with_full_refresh(
    results: &[(&str, &str)],
    which: &str,
    full_refresh: Option<bool>,
) -> RunResults {
    RunResults {
        full_refresh,
        ..run_results(results, which)
    }
}

fn wap_retry_nodes() -> Nodes {
    let model_id = "model.project.orders";
    let mut nodes = Nodes::new();
    let mut config = ModelConfig::none();
    config.wap = Some(true);
    nodes.insert_model(DbtModel {
        unique_id: model_id.to_string(),
        adapter: AdapterType::Snowflake,
        enabled: true,
        materialized: DbtMaterialization::Table,
        database: String::new(),
        schema: String::new(),
        alias: String::new(),
        relation_name: None,
        quoting: ResolvedQuoting::trues(),
        compute: None,
        propagates: false,
        id_hash: String::new(),
        settings_error: None,
        config,
        snowflake: None,
    });
    for id in [
        "test.failed",
        "test.passed",
        "test.singular",
        "test.disabled",
    ] {
        nodes.insert_test(DbtTest {
            unique_id: id.to_string(),
            adapter: AdapterType::Snowflake,
            enabled: id != "test.disabled",
            config_enabled: None,
            database: String::new(),
            schema: String::new(),
            alias: String::new(),
            compute: None,
            depends_on: vec![model_id.to_string()],
            attached_node: if id != "test.singular" {
                Some(model_id.to_string())
            } else {
                None
            },
            unrendered_config: Vec::<(String, Json)>::new(),
            where_clause: None,
            fail_calc: None,
            error_if: None,
            warn_if: None,
            severity: None,
            sql_header: None,
            store_failures: None,
            store_failures_as: None,
        });
    }
    nodes
}

fn unit_tests() -> Vec<(String, UnitTest)> {
    vec![(
        "unit_test.orders".to_string(),
        UnitTest {
            enabled: true,
            config_enabled: None,
            depends_on: vec!["model.project.orders".to_string()],
        },
    )]
}

type CommonArgs = Vec<(&'static str, &'static str)>;

/// The arguments that every command takes.
fn common_args() -> CommonArgs {
    vec![("target", "dev"), ("threads", "4")]
}

fn cmd_for_retry(
    original_cmd: &str,
    original_sa: Option<StaticAnalysisKind>,
    retry_sa: Option<StaticAnalysisKind>,
) -> Result<CoreCommand<&'static CommonArgs>, String> {
    let state = RetryState {
        original_command: original_cmd.into(),
        retryable_node_ids: vec!["some_node_id".to_string()],
        original_static_analysis: original_sa,
        previous_batch_results: Vec::new(),
        original_full_refresh: false,
    };
    let retry_args = Box::leak(Box::new(RetryArgs {
        common_args: common_args(),
        static_analysis: retry_sa,
    }));
    state.to_command(retry_args)
}

fn check_cmd_for_retry(
    original_cmd: &str,
    original_sa: Option<StaticAnalysisKind>,
    retry_sa: Option<StaticAnalysisKind>,
) {
    let cmd = cmd_for_retry(original_cmd, original_sa, retry_sa).unwrap();
    assert_eq!(cmd.name(), original_cmd);
    assert_eq!(**cmd.common_args(), common_args());

    let expected_sa = retry_sa.or(original_sa);

    assert_eq!(
        cmd.static_analysis(),
        expected_sa,
        "Failed for command: {original_cmd}, original_sa: {original_sa:?}, \
         retry_args.sa: {retry_sa:?}, expected_sa: {expected_sa:?}",
    );
}

fn cmd_for_retry_full_refresh(original_cmd: &str, original_full_refresh: bool) -> CoreCommand<&'static CommonArgs> {
    let state = RetryState {
        original_command: original_cmd.into(),
        retryable_node_ids: vec!["some_node_id".to_string()],
        original_static_analysis: None,
        previous_batch_results: Vec::new(),
        original_full_refresh,
    };
    let retry_args = Box::leak(Box::new(RetryArgs {
        common_args: common_args(),
        static_analysis: None,
    }));
    state.to_command(retry_args).unwrap()
}

#[test]
fn test_retryable_statuses_contains_expected() {
    assert!(is_retryable_status("error"));
    assert!(is_retryable_status("fail"));
    assert!(is_retryable_status("skipped"));
    assert!(!is_retryable_status("success"));
    assert!(!is_retryable_status("pass"));
    // `warn` is retryable only under --warn-error, so it lives in a separate set.
    assert!(!is_retryable_status("warn"));
    assert!(is_warn_error_retryable_status("warn"));
}

#[test]
fn wap_retry_rebuilds_unpublished_models_and_all_audits() {
    let model_id = "model.project.orders";
    let nodes = wap_retry_nodes();
    let expected = vec![
        model_id.to_string(),
        "test.failed".to_string(),
        "test.passed".to_string(),
        "test.singular".to_string(),
        "unit_test.orders".to_string(),
    ];
    for status in ["error", "fail", "skipped"] {
        let file = run_results(
            &[
                (model_id, status),
                ("test.failed", "fail"),
                ("test.passed", "pass"),
                ("test.singular", "pass"),
                ("unit_test.orders", "pass"),
                ("model.other", "success"),
            ],
            "build",
        );
        let state = RetryState::from_run_results(&file, false).unwrap();
        assert_eq!(
            expand_wap_retry_ids(&state.retryable_node_ids, &nodes, &unit_tests()).unwrap(),
            expected,
            "unpublished model status: {status}"
        );
    }
    assert_eq!(
        expand_wap_retry_ids(&vec!["model.other".to_string()], &nodes, &unit_tests()).unwrap(),
        ["model.other"]
    );
}

#[test]
fn retrying_what_a_retry_selects_selects_the_same() {
    let nodes = wap_retry_nodes();
    for ids in [
        vec!["model.project.orders"],
        vec!["test.failed", "model.project.orders", "model.other"],
        vec!["model.other", "test.failed", "test.failed"],
        vec![],
    ] {
        let ids: Vec<String> = ids.iter().map(|id| id.to_string()).collect();
        let selected = expand_wap_retry_ids(&ids, &nodes, &unit_tests()).unwrap();
        assert!(selected.windows(2).all(|pair| pair[0] < pair[1]));
        assert_eq!(
            expand_wap_retry_ids(&selected, &nodes, &unit_tests()).unwrap(),
            selected
        );
    }
}

#[test]
fn wap_retry_test_only_builds_do_not_select_the_owner() {
    let nodes = wap_retry_nodes();
    for (id, status) in [
        ("test.failed", "fail"),
        ("test.singular", "fail"),
        ("unit_test.orders", "error"),
    ] {
        let file = run_results(&[(id, status)], "build");
        let state = RetryState::from_run_results(&file, false).unwrap();
        assert_eq!(
            expand_wap_retry_ids(&state.retryable_node_ids, &nodes, &unit_tests()).unwrap(),
            [id],
            "test-only build: {id}"
        );
    }
}

#[test]
fn wap_retry_does_not_rebuild_a_successful_owner_for_a_failed_test() {
    let nodes = wap_retry_nodes();
    let file = run_results(
        &[
            ("model.project.orders", "success"),
            ("test.failed", "fail"),
            ("test.passed", "pass"),
            ("test.singular", "pass"),
            ("unit_test.orders", "pass"),
        ],
        "build",
    );
    let state = RetryState::from_run_results(&file, false).unwrap();
    assert_eq!(
        expand_wap_retry_ids(&state.retryable_node_ids, &nodes, &unit_tests()).unwrap(),
        ["test.failed"]
    );
}

#[test]
fn test_command_for_retry() {
    const SA: [Option<StaticAnalysisKind>; 5] = [
        None,
        Some(StaticAnalysisKind::On),
        Some(StaticAnalysisKind::Strict),
        Some(StaticAnalysisKind::Off),
        Some(StaticAnalysisKind::Unsafe),
    ];
    for cmd in RETRIABLE {
        for original_sa in SA.iter() {
            for retry_sa in SA.iter() {
                check_cmd_for_retry(cmd, *original_sa, *retry_sa);
            }
        }
    }
}

#[test]
fn test_command_for_retry_preserves_full_refresh() {
    // Commands that support --full-refresh must propagate it from the original run.
    for cmd in &["run", "build", "seed", "compile"] {
        assert!(
            cmd_for_retry_full_refresh(cmd, true).full_refresh(),
            "expected full_refresh=true to be preserved for command: {cmd}"
        );
        assert!(
            !cmd_for_retry_full_refresh(cmd, false).full_refresh(),
            "expected full_refresh=false to be preserved for command: {cmd}"
        );
    }
    // test/snapshot have no --full-refresh flag; they always report false.
    for cmd in &["test", "snapshot"] {
        assert!(!cmd_for_retry_full_refresh(cmd, true).full_refresh());
    }
}

#[test]
fn test_from_run_results_parses_full_refresh() {
    let with_ff = run_results_with_full_refresh(
        &[("model.my_project.model_a", "error")],
        "build",
        Some(true),
    );
    let state = RetryState::from_run_results(&with_ff, false).unwrap();
    assert!(state.original_full_refresh);

    let without_ff = run_results_with_full_refresh(
        &[("model.my_project.model_a", "error")],
        "build",
        Some(false),
    );
    let state = RetryState::from_run_results(&without_ff, false).unwrap();
    assert!(!state.original_full_refresh);

    // Missing full_refresh (e.g. run_results from an older version) defaults to false.
    let file = run_results(&[("model.my_project.model_a", "error")], "build");
    let state = RetryState::from_run_results(&file, false).unwrap();
    assert!(!state.original_full_refresh);
}

#[test]
fn test_retry_check_decodes_check_names_from_recorded_ids() {
    let state = RetryState {
        original_command: "check".into(),
        retryable_node_ids: vec![
            "check.my_project.no_undocumented_models".to_string(),
            // A check name that itself contains a dot must survive decoding.
            "check.my_project.pii.not_leaked".to_string(),
        ],
        original_static_analysis: None,
        previous_batch_results: Vec::new(),
        original_full_refresh: false,
    };
    let retry_args = RetryArgs {
        common_args: common_args(),
        static_analysis: None,
    };
    match state.to_command(&retry_args).unwrap() {
        CoreCommand::Check { check_names, .. } => assert_eq!(
            check_names,
            vec![
                "no_undocumented_models".to_string(),
                "pii.not_leaked".to_string(),
            ]
        ),
        other => panic!("expected Check, got {other:?}"),
    }
}

#[test]
fn test_check_names_from_retry_ids_ignores_non_check_nodes() {
    assert_eq!(
        check_names_from_retry_ids(&vec![
            "check.pkg.failed_check".to_string(),
            "model.pkg.skipped".to_string(),
            "check.pkg.dot.named".to_string(),
        ]),
        vec!["failed_check".to_string(), "dot.named".to_string()]
    );
}

#[test]
fn test_invalid_command_for_retry() {
    assert_eq!(
        cmd_for_retry("other-command-that-cant-be-retried", None, None).unwrap_err(),
        "other-command-that-cant-be-retried"
    );
}

#[test]
fn test_from_run_results_with_failures() {
    let file = run_results(
        &[
            ("model.my_project.model_a", "success"),
            ("model.my_project.model_b", "error"),
            ("model.my_project.model_c", "fail"),
            ("model.my_project.model_d", "skipped"),
        ],
        "run",
    );

    let state = RetryState::from_run_results(&file, false).unwrap();

    assert_eq!(state.original_command, "run");
    assert_eq!(state.retryable_node_ids.len(), 3);
    assert!(
        state
            .retryable_node_ids
            .contains(&"model.my_project.model_b".to_string())
    );
    assert!(
        state
            .retryable_node_ids
            .contains(&"model.my_project.model_c".to_string())
    );
    assert!(
        state
            .retryable_node_ids
            .contains(&"model.my_project.model_d".to_string())
    );
    // success should NOT be included
    assert!(
        !state
            .retryable_node_ids
            .contains(&"model.my_project.model_a".to_string())
    );
}

#[test]
fn test_from_run_results_all_success_errors() {
    let file = run_results(
        &[
            ("model.my_project.model_a", "success"),
            ("model.my_project.model_b", "success"),
        ],
        "run",
    );

    let result = RetryState::from_run_results(&file, false);
    assert!(result.is_err());
    let err = result.unwrap_err();
    assert!(err.message.contains("No failed nodes"));
}

#[test]
fn test_from_run_results_preserves_command_type() {
    for cmd in &["run", "build", "test", "seed", "snapshot", "compile"] {
        let file = run_results(&[("model.my_project.model_a", "error")], cmd);

        let state = RetryState::from_run_results(&file, false).unwrap();
        assert_eq!(state.original_command, *cmd);
    }
}

#[test]
fn test_from_run_results_gates_warn_status_on_warn_error() {
    // A passing test plus a warning test: the only non-success status is `warn`.
    let make = || {
        run_results(
            &[
                ("test.my_project.test_a", "pass"),
                ("test.my_project.test_b", "warn"),
            ],
            "test",
        )
    };

    // Without --warn-error, `warn` is NOT retryable -> nothing to retry.
    let file = make();
    assert!(
        RetryState::from_run_results(&file, false).is_err(),
        "warn-only run must have nothing to retry without --warn-error"
    );

    // With --warn-error, the warned node becomes retryable (the passing one does not).
    let file = make();
    let state = RetryState::from_run_results(&file, true).unwrap();
    assert_eq!(
        state.retryable_node_ids,
        vec!["test.my_project.test_b".to_string()],
    );
}

#[test]
fn test_from_run_results_parses_static_analysis_on() {
    let file = run_results_with_sa(
        &[("model.my_project.model_a", "error")],
        "run",
        Some("on"),
    );

    let state = RetryState::from_run_results(&file, false).unwrap();
    assert_eq!(state.original_static_analysis, Some(StaticAnalysisKind::On));
}

#[test]
fn test_from_run_results_parses_static_analysis_off() {
    let file = run_results_with_sa(
        &[("model.my_project.model_a", "error")],
        "run",
        Some("off"),
    );

    let state = RetryState::from_run_results(&file, false).unwrap();
    assert_eq!(
        state.original_static_analysis,
        Some(StaticAnalysisKind::Off)
    );
}

#[test]
fn test_from_run_results_parses_static_analysis_unsafe() {
    let file = run_results_with_sa(
        &[("model.my_project.model_a", "error")],
        "run",
        Some("unsafe"),
    );

    let state = RetryState::from_run_results(&file, false).unwrap();
    assert_eq!(
        state.original_static_analysis,
        Some(StaticAnalysisKind::Unsafe)
    );
}

#[test]
fn test_from_run_results_parses_static_analysis_baseline() {
    let file = run_results_with_sa(
        &[("model.my_project.model_a", "error")],
        "run",
        Some("baseline"),
    );

    let state = RetryState::from_run_results(&file, false).unwrap();
    assert_eq!(
        state.original_static_analysis,
        Some(StaticAnalysisKind::Baseline)
    );
}

#[test]
fn test_from_run_results_no_static_analysis() {
    let file = run_results(&[("model.my_project.model_a", "error")], "run");

    let state = RetryState::from_run_results(&file, false).unwrap();
    assert_eq!(state.original_static_analysis, None);
}

#[test]
fn operations_are_retried_with_their_command() {
    let results = [("operation.pkg.hook", "error"), ("model.pkg.a", "error")];
    let state = RetryState::from_run_results(&run_results(&results, "run"), false).unwrap();
    assert_eq!(state.retryable_node_ids, vec!["model.pkg.a".to_string()]);
    let state =
        RetryState::from_run_results(&run_results(&results, "run-operation"), false).unwrap();
    assert_eq!(state.retryable_node_ids.len(), 2);
}

#[test]
fn batch_results_are_kept_by_node() {
    let mut results = run_results(&[("model.pkg.a", "error")], "run");
    results.results[0].batch_results = Some(Json::Int(3));
    let state = RetryState::from_run_results(&results, false).unwrap();
    assert_eq!(
        state.previous_batch_results,
        vec![("model.pkg.a".to_string(), Json::Int(3))]
    );
}
