//! The publication of a working table, and what becomes of the working table.

use dbt_fusion::json::Json;
use dbt_fusion::relation::AdapterType;
use dbt_fusion::wap::audit::{
    audit_publication_status, get_audit_result, require_passing_audits, Audit, Cell, NodeStatus,
    ResultTable, TestExecutionResult,
};
use dbt_fusion::wap::nodes::{DbtTest, ErrorCode, FsError, Severity};
use dbt_fusion::wap::plan::WapCandidateState;
use dbt_fusion::wap::publication::PublicationStep::{
    DropCandidate, Finalize, Prepare, ResetOverrides, ResetQueryTag, SetQueryTag,
};
use dbt_fusion::wap::publication::{run_publication_steps, Next, PublicationStep};
use dbt_fusion::wap::publish::run_failed_candidate_cleanup;

fn audit(id: &str, status: Option<NodeStatus>) -> Audit {
    let message = format!("{status:?}");
    Audit {
        id: id.to_string(),
        status,
        message,
    }
}

fn default_test() -> DbtTest {
    DbtTest {
        unique_id: "audit".to_string(),
        adapter: AdapterType::Snowflake,
        enabled: true,
        config_enabled: None,
        database: String::new(),
        schema: String::new(),
        alias: String::new(),
        compute: None,
        depends_on: Vec::new(),
        attached_node: None,
        unrendered_config: Vec::<(String, Json)>::new(),
        where_clause: None,
        fail_calc: None,
        error_if: None,
        warn_if: None,
        severity: None,
        sql_header: None,
        store_failures: None,
        store_failures_as: None,
    }
}

fn error(message: String) -> FsError {
    FsError {
        code: ErrorCode::ExecutionError,
        message,
    }
}

/// Runs a publication to its end.
fn run(
    audits: &Vec<Audit>,
    target: &str,
    candidate: &str,
    mut execute: impl FnMut(PublicationStep) -> Result<(), FsError>,
) -> Result<Option<String>, FsError> {
    let mut publication = run_publication_steps(audits, target, candidate)?;
    loop {
        let outcome = execute(publication.step);
        match publication.done(outcome) {
            Next::Run(next) => publication = next,
            Next::Published(warning) => return Ok(warning),
            Next::Failed(e) => return Err(e),
        }
    }
}

/// Simulate warehouse effects at the production publication boundary. A failed
/// statement leaves its previous state intact; tests below check what can run next.
struct Warehouse {
    steps: Vec<PublicationStep>,
    failures: Vec<PublicationStep>,
    public_revision: u8,
    candidate_exists: bool,
    query_tag_set: bool,
    overrides_set: bool,
}

impl Warehouse {
    fn new(failures: Vec<PublicationStep>) -> Self {
        Self {
            steps: Vec::new(),
            failures,
            public_revision: 1,
            candidate_exists: true,
            query_tag_set: false,
            overrides_set: false,
        }
    }

    fn execute(&mut self, step: PublicationStep) -> Result<(), FsError> {
        self.steps.push(step);
        if self.failures.contains(&step) {
            return Err(error(format!("injected {step:?} failure")));
        }
        match step {
            Prepare => self.overrides_set = true,
            SetQueryTag => self.query_tag_set = true,
            PublicationStep::Clone => self.public_revision = 2,
            Finalize => {}
            ResetQueryTag => self.query_tag_set = false,
            ResetOverrides => self.overrides_set = false,
            DropCandidate => self.candidate_exists = false,
        }
        Ok(())
    }

    fn publish(&mut self) -> Result<Option<String>, FsError> {
        run(
            &vec![audit("audit", Some(NodeStatus::TestPassed))],
            "DB.SCHEMA.ORDERS",
            "DB.SCHEMA.__DBT_WAP_TEST",
            |step| self.execute(step),
        )
    }
}

fn nonpassing() -> Vec<Option<NodeStatus>> {
    vec![
        None,
        Some(NodeStatus::Errored),
        Some(NodeStatus::TestWarned),
        Some(NodeStatus::SkippedUpstreamFailed),
        Some(NodeStatus::StaticallyCheckedDataTest),
        Some(NodeStatus::ReusedNoChanges("cached".to_owned())),
    ]
}

#[test]
fn publication_does_not_touch_warehouse_without_every_audit_passing() {
    for status in nonpassing() {
        let mut warehouse = Warehouse::new(vec![]);
        let result = run(
            &vec![
                audit("passed", Some(NodeStatus::TestPassed)),
                audit("blocking", status),
            ],
            "ORDERS",
            "WORK",
            |step| warehouse.execute(step),
        );
        assert!(result.is_err());
        assert!(warehouse.steps.is_empty());
        assert_eq!(warehouse.public_revision, 1);
        assert!(warehouse.candidate_exists);
    }
    assert!(run(&Vec::new(), "ORDERS", "WORK", |_| {
        panic!("no publication step may run without an audit")
    })
    .is_err());
}

#[test]
fn publication_rejects_silenced_audit_warnings() {
    let mut test = default_test();
    test.severity = Some(Severity::Warn);
    let raw_result = TestExecutionResult {
        failures: 1,
        should_warn: true,
        should_error: true,
    };
    // a silenced warning is reported as passed
    let reported_status = NodeStatus::TestPassed;

    let status = audit_publication_status(Some(reported_status), Some(&test), Some(raw_result));
    let mut warehouse = Warehouse::new(vec![]);
    let error = run(&vec![audit("audit", status)], "ORDERS", "WORK", |step| {
        warehouse.execute(step)
    })
    .unwrap_err();
    assert!(error.message.contains("did not PASS"));
    assert!(warehouse.steps.is_empty());
    assert_eq!(warehouse.public_revision, 1);
    assert!(warehouse.candidate_exists);
}

#[test]
fn publication_requires_the_audit_node_and_raw_result() {
    let test = default_test();
    let raw_result = TestExecutionResult {
        failures: 0,
        should_warn: false,
        should_error: false,
    };
    for (test, raw_result) in [(Some(&test), None), (None, Some(raw_result))] {
        let status = audit_publication_status(Some(NodeStatus::TestPassed), test, raw_result);
        let mut warehouse = Warehouse::new(vec![]);
        let result = run(&vec![audit("audit", status)], "ORDERS", "WORK", |step| {
            warehouse.execute(step)
        });
        assert!(result.is_err());
        assert!(warehouse.steps.is_empty());
        assert_eq!(warehouse.public_revision, 1);
        assert!(warehouse.candidate_exists);
    }
}

#[test]
fn publication_rejects_invalid_raw_failure_counts() {
    let test = default_test();
    let status = audit_publication_status(
        Some(NodeStatus::TestPassed),
        Some(&test),
        Some(TestExecutionResult {
            failures: -1,
            should_warn: false,
            should_error: false,
        }),
    );
    let mut warehouse = Warehouse::new(vec![]);
    assert!(run(&vec![audit("audit", status)], "ORDERS", "WORK", |step| {
        warehouse.execute(step)
    })
    .is_err());
    assert!(warehouse.steps.is_empty());
    assert_eq!(warehouse.public_revision, 1);
    assert!(warehouse.candidate_exists);
}

#[test]
fn publication_raw_results_do_not_override_nonpassing_statuses() {
    let test = default_test();
    for reported_status in nonpassing() {
        let raw_result = TestExecutionResult {
            failures: 0,
            should_warn: false,
            should_error: false,
        };
        let copied = reported_status.as_ref().map(|s| s.copy());
        let status = audit_publication_status(copied, Some(&test), Some(raw_result));
        assert_eq!(status, reported_status);
        let mut warehouse = Warehouse::new(vec![]);
        let result = run(&vec![audit("audit", status)], "ORDERS", "WORK", |step| {
            warehouse.execute(step)
        });
        assert!(result.is_err());
        assert!(warehouse.steps.is_empty());
    }
}

#[test]
fn publication_uses_configured_thresholds_and_severity_for_raw_results() {
    for (severity, failures, should_warn, should_error, passes) in [
        (None, 0, false, false, true),
        (Some(Severity::Error), 3, false, false, true),
        (Some(Severity::Warn), 3, false, true, true),
        (Some(Severity::Error), 3, false, true, false),
        (Some(Severity::Warn), 3, true, false, false),
    ] {
        let mut test = default_test();
        test.severity = severity;
        let status = audit_publication_status(
            Some(NodeStatus::TestPassed),
            Some(&test),
            Some(TestExecutionResult {
                failures,
                should_warn,
                should_error,
            }),
        );
        let mut warehouse = Warehouse::new(vec![]);
        let result = run(&vec![audit("audit", status)], "ORDERS", "WORK", |step| {
            warehouse.execute(step)
        });
        assert_eq!(result.is_ok(), passes);
        if passes {
            assert_eq!(warehouse.public_revision, 2);
            assert!(!warehouse.candidate_exists);
        } else {
            assert!(warehouse.steps.is_empty());
            assert_eq!(warehouse.public_revision, 1);
            assert!(warehouse.candidate_exists);
        }
    }
}

#[test]
fn publication_cleans_up_only_after_finalization_and_session_restoration() {
    let mut warehouse = Warehouse::new(vec![]);
    warehouse.publish().unwrap();
    assert_eq!(warehouse.public_revision, 2);
    assert!(!warehouse.candidate_exists);
    assert!(!warehouse.query_tag_set);
    assert!(!warehouse.overrides_set);
    assert_eq!(
        warehouse.steps,
        [
            Prepare,
            SetQueryTag,
            PublicationStep::Clone,
            Finalize,
            ResetQueryTag,
            ResetOverrides,
            DropCandidate
        ]
    );
}

#[test]
fn publication_failures_before_clone_confirmation_retain_candidate_and_restore_session() {
    for failure in [Prepare, SetQueryTag, PublicationStep::Clone] {
        let mut warehouse = Warehouse::new(vec![failure]);
        let error = warehouse.publish().unwrap_err();
        assert!(error.message.contains(&format!("injected {failure:?}")));
        assert!(!error.message.contains("was published"));
        assert_eq!(warehouse.public_revision, 1);
        assert!(warehouse.candidate_exists);
        assert!(!warehouse.query_tag_set);
        assert!(!warehouse.overrides_set);
        assert!(!warehouse.steps.contains(&Finalize));
        assert!(!warehouse.steps.contains(&DropCandidate));
        assert_eq!(warehouse.steps.last(), Some(&ResetOverrides));
        assert_eq!(warehouse.steps.contains(&ResetQueryTag), failure == PublicationStep::Clone);
    }
}

#[test]
fn publication_retains_candidate_when_clone_outcome_is_unknown() {
    let mut warehouse = Warehouse::new(vec![]);
    let error = run(
        &vec![audit("audit", Some(NodeStatus::TestPassed))],
        "ORDERS",
        "WORK",
        |step| {
            warehouse.execute(step)?;
            if step == PublicationStep::Clone {
                // Snowflake committed, but the client lost its response. The
                // orchestration must not claim either confirmed success or rollback.
                return Err(error(
                    "Publication may have committed; inspect Snowflake query history".to_string(),
                ));
            }
            Ok(())
        },
    )
    .unwrap_err();
    assert!(error.message.contains("may have committed"));
    assert!(!error.message.contains("was published"));
    assert_eq!(warehouse.public_revision, 2);
    assert!(warehouse.candidate_exists);
    assert!(!warehouse.steps.contains(&Finalize));
    assert!(!warehouse.steps.contains(&DropCandidate));
    assert!(!warehouse.query_tag_set);
    assert!(!warehouse.overrides_set);
}

#[test]
fn publication_finalization_failures_report_published_and_retain_candidate() {
    for failure in [Finalize, ResetQueryTag, ResetOverrides] {
        let mut warehouse = Warehouse::new(vec![failure]);
        let message = warehouse.publish().unwrap_err().message;
        assert!(message.contains("DB.SCHEMA.ORDERS was published"));
        assert!(message.contains(&format!("injected {failure:?}")));
        assert!(message.contains("Working table at failure: DB.SCHEMA.__DBT_WAP_TEST"));
        assert_eq!(warehouse.public_revision, 2);
        assert!(warehouse.candidate_exists);
        assert!(warehouse.steps.contains(&ResetQueryTag));
        assert!(warehouse.steps.contains(&ResetOverrides));
        assert!(!warehouse.steps.contains(&DropCandidate));
    }
}

#[test]
fn publication_preserves_primary_error_when_session_restoration_also_fails() {
    for failure in [PublicationStep::Clone, Finalize] {
        let mut warehouse = Warehouse::new(vec![failure, ResetQueryTag, ResetOverrides]);
        let message = warehouse.publish().unwrap_err().message;
        assert!(message.contains(&format!("injected {failure:?}")));
        assert!(!message.contains("injected Reset"));
        assert!(warehouse.steps.contains(&ResetQueryTag));
        assert!(warehouse.steps.contains(&ResetOverrides));
        assert!(warehouse.candidate_exists);
    }
}

#[test]
fn publication_remains_successful_when_candidate_cleanup_fails() {
    let mut warehouse = Warehouse::new(vec![DropCandidate]);
    let warning = warehouse.publish().unwrap();
    assert!(warning.is_some());
    assert_eq!(warehouse.public_revision, 2);
    assert!(warehouse.candidate_exists);
    assert!(!warehouse.query_tag_set);
    assert!(!warehouse.overrides_set);
}

// ---------------------------------------------------------------------------
// The working table of a failed model
// ---------------------------------------------------------------------------

#[test]
fn failed_candidate_cleanup_defaults_to_removal_unless_retention_is_requested() {
    let statuses = [
        None,
        Some(NodeStatus::Errored),
        Some(NodeStatus::SkippedUpstreamFailed),
        Some(NodeStatus::Succeeded),
        Some(NodeStatus::SucceededWithWarning),
        Some(NodeStatus::TestPassed),
        Some(NodeStatus::TestWarned),
        Some(NodeStatus::StaticallyCheckedDataTest),
        Some(NodeStatus::NoOp),
        Some(NodeStatus::ReusedNoChanges(String::new())),
        Some(NodeStatus::ReusedStillFresh(String::new(), 0, 0)),
        Some(NodeStatus::ReusedStillFreshNoChanges(String::new())),
        Some(NodeStatus::ReusedCloned(None)),
    ];
    for retain_failed in [None, Some(false), Some(true)] {
        for state in [
            None,
            Some(WapCandidateState::Created),
            Some(WapCandidateState::PublicationSubmitted),
            Some(WapCandidateState::Published),
        ] {
            for status in &statuses {
                let expected = retain_failed != Some(true)
                    && matches!(
                        state,
                        Some(WapCandidateState::Created | WapCandidateState::Published)
                    )
                    && matches!(
                        status,
                        Some(NodeStatus::Errored | NodeStatus::SkippedUpstreamFailed)
                    );
                let mut calls = 0;
                let dropped = run_failed_candidate_cleanup(retain_failed, state, status, || {
                    calls += 1;
                    Ok(())
                })
                .unwrap();
                assert_eq!(
                    dropped, expected,
                    "retain_failed={retain_failed:?}, state={state:?}, status={status:?}"
                );
                assert_eq!(calls, usize::from(expected));
            }
        }
    }
}

#[test]
fn failed_claim_does_not_authorize_dropping_an_existing_candidate() {
    // A collision or a lost CREATE response does not establish ownership,
    // even when a candidate with the expected name exists in Snowflake.
    let mut candidate_exists = true;
    let dropped = run_failed_candidate_cleanup(None, None, &Some(NodeStatus::Errored), || {
        candidate_exists = false;
        Ok(())
    })
    .unwrap();
    assert!(!dropped);
    assert!(candidate_exists);
}

#[test]
fn uncertain_publication_retains_the_candidate_even_after_the_graph_drains() {
    let dropped = run_failed_candidate_cleanup(
        None,
        Some(WapCandidateState::PublicationSubmitted),
        &Some(NodeStatus::Errored),
        || panic!("a lost publication response must not authorize cleanup"),
    )
    .unwrap();
    assert!(!dropped);
}

#[test]
fn cleanup_error_is_reported_without_claiming_the_candidate_was_removed() {
    for state in [WapCandidateState::Created, WapCandidateState::Published] {
        let mut candidate_exists = true;
        let mut attempts = 0;
        let failed =
            run_failed_candidate_cleanup(None, Some(state), &Some(NodeStatus::Errored), || {
                attempts += 1;
                Err(error("injected candidate drop failure".to_string()))
            })
            .unwrap_err();
        assert!(failed.message.contains("injected candidate drop failure"));
        assert_eq!(attempts, 1);
        assert!(candidate_exists);

        // The caller keeps ownership on failure, so a later confirmed cleanup
        // can still remove this exact candidate.
        let dropped =
            run_failed_candidate_cleanup(None, Some(state), &Some(NodeStatus::Errored), || {
                attempts += 1;
                candidate_exists = false;
                Ok(())
            })
            .unwrap();
        assert!(dropped);
        assert_eq!(attempts, 2);
        assert!(!candidate_exists);
    }
}

// ---------------------------------------------------------------------------
// Audits
// ---------------------------------------------------------------------------

#[test]
fn wap_requires_actual_pass_for_every_audit() {
    assert!(require_passing_audits(&vec![audit("a", Some(NodeStatus::TestPassed))]).is_ok());
    for status in nonpassing() {
        assert!(require_passing_audits(&vec![
            audit("passed", Some(NodeStatus::TestPassed)),
            audit("blocking", status),
        ])
        .is_err());
    }
    assert!(require_passing_audits(&Vec::new()).is_err());
}

fn table(columns: Vec<(&str, Cell)>) -> ResultTable {
    let names = columns.iter().map(|(name, _)| name.to_string()).collect();
    let row = columns.into_iter().map(|(_, cell)| cell).collect();
    ResultTable {
        columns: names,
        rows: vec![row],
    }
}

fn boolean(value: Option<bool>) -> Cell {
    match value {
        Some(b) => Cell::Boolean(b),
        None => Cell::Null,
    }
}

fn integer(value: Option<i64>) -> Cell {
    match value {
        Some(n) => Cell::Integer(i128::from(n)),
        None => Cell::Null,
    }
}

fn audit_table(failures: Cell, should_warn: Cell, should_error: Cell) -> ResultTable {
    table(vec![
        ("failures", failures),
        ("should_warn", should_warn),
        ("should_error", should_error),
    ])
}

#[test]
fn wap_audit_accepts_snowflake_decimal_counts_and_resolves_reordered_uppercase_columns() {
    for failures in [0, 1, i64::MAX] {
        let table = table(vec![
            ("SHOULD_ERROR", boolean(Some(false))),
            ("FAILURES", Cell::Decimal(i128::from(failures), 0)),
            ("SHOULD_WARN", boolean(Some(true))),
        ]);
        let result = get_audit_result(&table).unwrap();
        assert_eq!(result.failures, failures);
        assert!(result.should_warn);
        assert!(!result.should_error);
    }
}

#[test]
fn wap_audit_accepts_boolean_verdicts_without_changing_their_meaning() {
    for should_warn in [false, true] {
        for should_error in [false, true] {
            let table = audit_table(
                integer(Some(0)),
                boolean(Some(should_warn)),
                boolean(Some(should_error)),
            );
            let result = get_audit_result(&table).unwrap();
            assert_eq!(result.should_warn, should_warn);
            assert_eq!(result.should_error, should_error);
        }
    }
}

#[test]
fn wap_audit_rejects_null_counts_and_null_verdicts() {
    for table in [
        audit_table(integer(None), boolean(Some(false)), boolean(Some(false))),
        audit_table(Cell::Null, boolean(Some(false)), boolean(Some(false))),
        audit_table(integer(Some(0)), boolean(None), boolean(Some(false))),
        audit_table(integer(Some(0)), boolean(Some(false)), boolean(None)),
    ] {
        assert!(get_audit_result(&table).is_err());
    }
}

#[test]
fn wap_audit_rejects_invalid_failure_counts_instead_of_coercing_them() {
    let invalid: Vec<(&str, Cell)> = vec![
        ("false", boolean(Some(false))),
        ("true", boolean(Some(true))),
        ("float", Cell::Float),
        ("negative", integer(Some(-1))),
        ("negative decimal", Cell::Decimal(-1, 0)),
        ("scaled decimal", Cell::Decimal(100, 2)),
        (
            "overflow decimal",
            Cell::Decimal(i128::from(i64::MAX) + 1, 0),
        ),
        ("overflow unsigned", Cell::Integer(i128::from(u64::MAX))),
        ("string", Cell::Text("0".to_string())),
    ];
    for (description, failures) in invalid {
        let table = audit_table(failures, boolean(Some(false)), boolean(Some(false)));
        assert!(
            get_audit_result(&table).is_err(),
            "accepted {description} failures"
        );
    }
}

#[test]
fn wap_audit_rejects_string_and_numeric_verdicts() {
    let invalid = || {
        vec![
            Cell::Text("false".to_string()),
            Cell::Text("TRUE".to_string()),
            Cell::Text(String::new()),
            integer(Some(0)),
            integer(Some(1)),
            Cell::Float,
        ]
    };
    for value in invalid() {
        let table = audit_table(integer(Some(0)), value, boolean(Some(false)));
        assert!(get_audit_result(&table).is_err());
    }
    for value in invalid() {
        let table = audit_table(integer(Some(0)), boolean(Some(false)), value);
        assert!(get_audit_result(&table).is_err());
    }
}

#[test]
fn wap_audit_rejects_missing_extra_and_duplicate_result_columns() {
    for columns in [
        vec![
            ("failures", integer(Some(0))),
            ("should_warn", boolean(Some(false))),
        ],
        vec![
            ("failures", integer(Some(0))),
            ("should_warn", boolean(Some(false))),
            ("should_error", boolean(Some(false))),
            ("extra", integer(Some(0))),
        ],
        vec![
            ("wrong_name", integer(Some(0))),
            ("should_warn", boolean(Some(false))),
            ("should_error", boolean(Some(false))),
        ],
        vec![
            ("failures", integer(Some(0))),
            ("FAILURES", integer(Some(0))),
            ("should_error", boolean(Some(false))),
        ],
        vec![
            ("failures", integer(Some(0))),
            ("should_warn", boolean(Some(false))),
            ("SHOULD_WARN", boolean(Some(false))),
        ],
        vec![
            ("column_name", Cell::Text("id".to_string())),
            ("failures", integer(Some(0))),
            ("should_warn", boolean(Some(false))),
            ("should_error", boolean(Some(false))),
        ],
    ] {
        assert!(get_audit_result(&table(columns)).is_err());
    }
}

#[test]
fn wap_audit_requires_exactly_one_result_row() {
    for rows in [0, 2] {
        let mut table = audit_table(
            integer(Some(0)),
            boolean(Some(false)),
            boolean(Some(false)),
        );
        table.rows.clear();
        for _ in 0..rows {
            table.rows.push(vec![
                integer(Some(0)),
                boolean(Some(false)),
                boolean(Some(false)),
            ]);
        }
        assert!(get_audit_result(&table).is_err());
    }
}
