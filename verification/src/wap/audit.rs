//! Audits: what they report, and when they allow a publication.

use crate::text::{ascii_lower, same_ignoring_case, views};
use crate::wap::nodes::{
    checked, invalid, invalid_config, DbtTest, ErrorCode, FsError, FsErrorView, Severity,
};
use vstd::prelude::*;

verus! {

/// How a node ended.
#[derive(Debug, PartialEq)]
pub enum NodeStatus {
    Succeeded,
    SucceededWithWarning,
    Errored,
    SkippedUpstreamFailed,
    TestPassed,
    TestWarned,
    StaticallyCheckedDataTest,
    NoOp,
    ReusedNoChanges(String),
    ReusedStillFresh(String, u64, u64),
    ReusedStillFreshNoChanges(String),
    ReusedCloned(Option<String>),
}

impl NodeStatus {
    pub fn copy(&self) -> (r: NodeStatus)
        ensures
            r == *self,
    {
        match self {
            NodeStatus::Succeeded => NodeStatus::Succeeded,
            NodeStatus::SucceededWithWarning => NodeStatus::SucceededWithWarning,
            NodeStatus::Errored => NodeStatus::Errored,
            NodeStatus::SkippedUpstreamFailed => NodeStatus::SkippedUpstreamFailed,
            NodeStatus::TestPassed => NodeStatus::TestPassed,
            NodeStatus::TestWarned => NodeStatus::TestWarned,
            NodeStatus::StaticallyCheckedDataTest => NodeStatus::StaticallyCheckedDataTest,
            NodeStatus::NoOp => NodeStatus::NoOp,
            NodeStatus::ReusedNoChanges(s) => NodeStatus::ReusedNoChanges(s.clone()),
            NodeStatus::ReusedStillFresh(s, a, b) => NodeStatus::ReusedStillFresh(
                s.clone(),
                *a,
                *b,
            ),
            NodeStatus::ReusedStillFreshNoChanges(s) => NodeStatus::ReusedStillFreshNoChanges(
                s.clone(),
            ),
            NodeStatus::ReusedCloned(s) => NodeStatus::ReusedCloned(
                match s {
                    Some(t) => Some(t.clone()),
                    None => None,
                },
            ),
        }
    }

    pub fn is_passed(&self) -> (r: bool)
        ensures
            r == (*self == NodeStatus::TestPassed),
    {
        matches!(self, NodeStatus::TestPassed)
    }
}

/// An audit and how it ended, where it did.
#[derive(Debug)]
pub struct Audit {
    pub id: String,
    pub status: Option<NodeStatus>,
    /// What is said of the status.
    pub message: String,
}

/// What is said of an audit's result.
pub open spec fn result_text(audit: Audit) -> Seq<char> {
    if audit.status is None {
        "missing"@
    } else {
        audit.message@
    }
}

pub open spec fn passed(audit: Audit) -> bool {
    audit.status == Some(NodeStatus::TestPassed)
}

/// The first audit that did not pass, from a place on.
pub open spec fn failed_audit(audits: Seq<Audit>, i: int) -> Option<FsErrorView>
    decreases audits.len() - i,
{
    if i < 0 || i >= audits.len() {
        None
    } else if !passed(audits[i]) {
        Some(
            FsErrorView {
                code: ErrorCode::ExecutionError,
                message: "WAP: table not published because audit '"@ + audits[i].id@
                    + "' did not PASS (result: "@ + result_text(audits[i])
                    + "). Warnings, missing results, and skipped audits also prevent publication"@,
            },
        )
    } else {
        failed_audit(audits, i + 1)
    }
}

/// Why audits do not allow a publication, where they do not.
pub open spec fn audits_failure(audits: Seq<Audit>) -> Option<FsErrorView> {
    match failed_audit(audits, 0) {
        Some(e) => Some(e),
        None => if audits.len() == 0 {
            Some(invalid("WAP requires at least one passing audit before publication"@))
        } else {
            None
        },
    }
}

proof fn failed_audit_is_there(audits: Seq<Audit>, i: int)
    requires
        0 <= i,
    ensures
        failed_audit(audits, i) is None <==> forall|k: int|
            i <= k < audits.len() ==> passed(#[trigger] audits[k]),
    decreases audits.len() - i,
{
    if i < audits.len() {
        failed_audit_is_there(audits, i + 1);
        if failed_audit(audits, i) is None {
            assert forall|k: int| i <= k < audits.len() implies passed(#[trigger] audits[k]) by {
                if k > i {
                    assert(failed_audit(audits, i + 1) is None);
                }
            }
        } else if passed(audits[i]) {
            assert(failed_audit(audits, i + 1) is Some);
        } else {
            assert(!passed(audits[i]));
        }
    }
}

/// A publication is allowed exactly when there is an audit and every audit passed.
pub proof fn publication_needs_every_audit_to_pass(audits: Seq<Audit>)
    ensures
        audits_failure(audits) is None <==> audits.len() > 0 && forall|k: int|
            0 <= k < audits.len() ==> passed(#[trigger] audits[k]),
{
    failed_audit_is_there(audits, 0);
}

pub fn require_passing_audits(audits: &Vec<Audit>) -> (r: Result<(), FsError>)
    ensures
        checked(r, audits_failure(audits@)),
{
    let mut i: usize = 0;
    while i < audits.len()
        invariant
            i <= audits.len(),
            failed_audit(audits@, 0) == failed_audit(audits@, i as int),
        decreases audits.len() - i,
    {
        let audit = &audits[i];
        let passes = match &audit.status {
            Some(s) => s.is_passed(),
            None => false,
        };
        if !passes {
            let result = match &audit.status {
                Some(_) => audit.message.as_str(),
                None => "missing",
            };
            return Err(
                FsError::new(
                    ErrorCode::ExecutionError,
                    "WAP: table not published because audit '".to_owned().concat(
                        audit.id.as_str(),
                    ).concat("' did not PASS (result: ").concat(result).concat(
                        "). Warnings, missing results, and skipped audits also prevent publication",
                    ),
                ),
            );
        }
        i += 1;
    }
    if audits.len() == 0 {
        return Err(
            invalid_config(
                "WAP requires at least one passing audit before publication".to_owned(),
            ),
        );
    }
    Ok(())
}

// ---------------------------------------------------------------------------
// Raw results
// ---------------------------------------------------------------------------

/// What a test counted, before warnings were silenced or turned into errors.
#[derive(Debug, Clone, Copy, PartialEq, Eq, Structural)]
pub struct TestExecutionResult {
    pub failures: i64,
    pub should_warn: bool,
    pub should_error: bool,
}

/// The status that a raw result has by the severity of its test.
pub open spec fn raw_status(severity: Option<Severity>, raw: TestExecutionResult) -> NodeStatus {
    if raw.failures < 0 {
        NodeStatus::Errored
    } else if severity != Some(Severity::Warn) && raw.should_error {
        NodeStatus::Errored
    } else if raw.should_warn {
        NodeStatus::TestWarned
    } else {
        NodeStatus::TestPassed
    }
}

/// The status of an audit for its publication. A reported pass holds only with the test
/// and a raw result that passes by itself.
pub open spec fn publication_status(
    reported: Option<NodeStatus>,
    test: Option<DbtTest>,
    raw: Option<TestExecutionResult>,
) -> Option<NodeStatus> {
    if reported != Some(NodeStatus::TestPassed) {
        reported
    } else {
        match (test, raw) {
            (Some(t), Some(r)) => Some(raw_status(t.severity, r)),
            _ => None,
        }
    }
}

/// A pass allows a publication only if the test's own counts pass: no option that
/// silences warnings can turn one into a pass.
pub proof fn silenced_warnings_do_not_publish(
    reported: Option<NodeStatus>,
    test: Option<DbtTest>,
    raw: Option<TestExecutionResult>,
)
    ensures
        publication_status(reported, test, raw) == Some(NodeStatus::TestPassed) <==> {
            &&& reported == Some(NodeStatus::TestPassed)
            &&& test is Some
            &&& raw is Some
            &&& raw->0.failures >= 0
            &&& !raw->0.should_warn
            &&& raw->0.should_error ==> test->0.severity == Some(Severity::Warn)
        },
{
}

pub open spec fn borrowed_test(test: Option<&DbtTest>) -> Option<DbtTest> {
    match test {
        Some(t) => Some(*t),
        None => None,
    }
}

pub fn audit_publication_status(
    reported: Option<NodeStatus>,
    test: Option<&DbtTest>,
    raw: Option<TestExecutionResult>,
) -> (r: Option<NodeStatus>)
    ensures
        r == publication_status(reported, borrowed_test(test), raw),
{
    let passes = match &reported {
        Some(s) => s.is_passed(),
        None => false,
    };
    if !passes {
        return reported;
    }
    match (test, raw) {
        (Some(t), Some(counted)) => {
            let warns_only = match t.severity {
                Some(s) => s == Severity::Warn,
                None => false,
            };
            Some(
                if counted.failures < 0 {
                    NodeStatus::Errored
                } else if !warns_only && counted.should_error {
                    NodeStatus::Errored
                } else if counted.should_warn {
                    NodeStatus::TestWarned
                } else {
                    NodeStatus::TestPassed
                },
            )
        },
        _ => None,
    }
}

// ---------------------------------------------------------------------------
// Results of the warehouse
// ---------------------------------------------------------------------------

/// A cell of a result, by its type.
#[derive(Debug)]
pub enum Cell {
    Null,
    Boolean(bool),
    Integer(i128),
    /// A decimal number, scaled by a power of ten.
    Decimal(i128, i8),
    Float,
    Text(String),
}

/// A result: the names of its columns, and its rows.
#[derive(Debug)]
pub struct ResultTable {
    pub columns: Vec<String>,
    pub rows: Vec<Vec<Cell>>,
}

/// The place of the last column with a name before a place; -1 where there is none.
pub open spec fn column_place(columns: Seq<Seq<char>>, name: Seq<char>, to: int) -> int
    decreases to,
{
    if to <= 0 || to > columns.len() {
        -1
    } else if ascii_lower(columns[to - 1]) == ascii_lower(name) {
        to - 1
    } else {
        column_place(columns, name, to - 1)
    }
}

/// A count: an integer, or a decimal without fractions, that is not negative.
pub open spec fn count(cell: Cell) -> Option<i64> {
    match cell {
        Cell::Integer(n) => if 0 <= n <= i64::MAX {
            Some(n as i64)
        } else {
            None
        },
        Cell::Decimal(n, scale) => if scale == 0 && 0 <= n <= i64::MAX {
            Some(n as i64)
        } else {
            None
        },
        _ => None,
    }
}

pub open spec fn verdict(cell: Cell) -> Option<bool> {
    match cell {
        Cell::Boolean(b) => Some(b),
        _ => None,
    }
}

/// The result of an audit: one row of exactly three columns, a count and two verdicts.
pub open spec fn audit_counts(table: ResultTable) -> Option<TestExecutionResult> {
    let columns = views(table.columns@);
    let failures = column_place(columns, "failures"@, columns.len() as int);
    let should_warn = column_place(columns, "should_warn"@, columns.len() as int);
    let should_error = column_place(columns, "should_error"@, columns.len() as int);
    if columns.len() != 3 || failures < 0 || should_warn < 0 || should_error < 0
        || table.rows@.len() != 1 || table.rows@[0]@.len() != 3 {
        None
    } else {
        let row = table.rows@[0]@;
        match (count(row[failures]), verdict(row[should_warn]), verdict(row[should_error])) {
            (Some(n), Some(w), Some(e)) => Some(
                TestExecutionResult { failures: n, should_warn: w, should_error: e },
            ),
            _ => None,
        }
    }
}

fn place_of(columns: &Vec<String>, name: &str) -> (r: Option<usize>)
    ensures
        match r {
            Some(p) => p == column_place(views(columns@), name@, columns.len() as int) && p
                < columns.len(),
            None => column_place(views(columns@), name@, columns.len() as int) < 0,
        },
{
    let ghost all = views(columns@);
    let mut i: usize = columns.len();
    while i > 0
        invariant
            i <= columns.len(),
            all == views(columns@),
            column_place(all, name@, columns.len() as int) == column_place(all, name@, i as int),
        decreases i,
    {
        assert(all[i - 1] == columns@[i - 1]@);
        i -= 1;
        if same_ignoring_case(columns[i].as_str(), name) {
            return Some(i);
        }
    }
    None
}

fn count_of(cell: &Cell) -> (r: Option<i64>)
    ensures
        r == count(*cell),
{
    match cell {
        Cell::Integer(n) => if 0 <= *n && *n <= i64::MAX as i128 {
            Some(*n as i64)
        } else {
            None
        },
        Cell::Decimal(n, scale) => if *scale == 0 && 0 <= *n && *n <= i64::MAX as i128 {
            Some(*n as i64)
        } else {
            None
        },
        _ => None,
    }
}

fn verdict_of(cell: &Cell) -> (r: Option<bool>)
    ensures
        r == verdict(*cell),
{
    match cell {
        Cell::Boolean(b) => Some(*b),
        _ => None,
    }
}

/// The result of an audit. Nothing is coerced: what is not exactly one row with a count
/// and two verdicts cannot establish that the audit passed.
pub fn get_audit_result(table: &ResultTable) -> (r: Result<TestExecutionResult, FsError>)
    ensures
        match (r, audit_counts(*table)) {
            (Ok(a), Some(b)) => a == b,
            (Err(e), None) => e@.code == ErrorCode::ExecutionError,
            _ => false,
        },
{
    let malformed = FsError::new(
        ErrorCode::ExecutionError,
        "WAP audit must return one row with a failure count and boolean verdicts".to_owned(),
    );
    let (failures, should_warn, should_error) = match (
        place_of(&table.columns, "failures"),
        place_of(&table.columns, "should_warn"),
        place_of(&table.columns, "should_error"),
    ) {
        (Some(a), Some(b), Some(c)) => (a, b, c),
        _ => {
            return Err(malformed);
        },
    };
    if table.columns.len() != 3 || table.rows.len() != 1 || table.rows[0].len() != 3 {
        return Err(malformed);
    }
    let row = &table.rows[0];
    match (
        count_of(&row[failures]),
        verdict_of(&row[should_warn]),
        verdict_of(&row[should_error]),
    ) {
        (Some(n), Some(w), Some(e)) => Ok(
            TestExecutionResult { failures: n, should_warn: w, should_error: e },
        ),
        _ => Err(malformed),
    }
}

} // verus!
