//! How a working table is built, audited, inspected and published.

use crate::json::{field, opt, place_is_unique, put, put_then_field, FieldsView, JsonView};
use crate::ordered::{found, found_is_there, has_key};
use crate::relation::{identity, rendered, AdapterType, RelationView, ResolvedQuoting};
use crate::snowflake::{build_sql, claim_sql, clone_sql, replace_sql};
use crate::text::{ascii_lower, trim, views};
use crate::value::{missing, Value};
use crate::wap::audit::{
    audit_counts, column_place, count, failed_audit, passed, publication_status, raw_status,
    verdict, Audit, Cell, NodeStatus, ResultTable, TestExecutionResult,
};
use crate::wap::inspect::{
    cell, column, column_from, exact_row, existence, flag_refusal, is_disabled, is_kind,
    kind_refusal, lifecycle_shown, no_column, optional_flag_refusal, or_null, row_from,
    table_refusal, Column, RelationExpectation, ShownRows, TableLifecycle,
};
use crate::wap::invocation::owner_from;
use crate::wap::nodes::{DbtTest, ErrorCode, FsErrorView, ModelView, Severity};
use crate::wap::plan::{candidate, public, quoting_refusal, WapCandidateState, WapModelView};
use crate::wap::publication::{failure, result, steps, Outcomes, PublicationStep};
use crate::wap::publish::{
    cleanup_due, finalization, inspect_both, inspect_one, preflight, preparation, publication,
    publication_record, says_published, transience, unknown_outcome, CatalogRelation, FinalizeView,
    InspectionView, Lookup, PreflightView, PreparationView, TableInspection,
};
use crate::wap::schedule::{
    audits, graph, is_failure, node_tasks, ready, reason, render_after, test_runs, tests_node,
    waits, waits_for, ScheduledView, SkipReasonView, TaskKind, TaskState, TaskView,
};
use crate::wap::stage::{
    creation, header, not_created, submissions, turn_of, PieceView, Stage, TurnView,
};
use vstd::prelude::*;

verus! {

// ---------------------------------------------------------------------------
// Statements
// ---------------------------------------------------------------------------

/// Tables are created permanent unless they are to be transient; only the public table and
/// the build replace what is there, and grants are copied just where that is asked for.
pub proof fn statements_say_what_they_do(
    to: RelationView,
    from: RelationView,
    query: Seq<char>,
)
    ensures
        clone_sql(to, from, false) == "create table "@ + rendered(to) + " clone "@ + rendered(from),
        clone_sql(to, from, true) == "create transient table "@ + rendered(to) + " clone "@
            + rendered(from),
        claim_sql(to, false) == "create table "@ + rendered(to)
            + " (__DBT_WAP_PLACEHOLDER boolean)"@,
        claim_sql(to, true) == "create transient table "@ + rendered(to)
            + " (__DBT_WAP_PLACEHOLDER boolean)"@,
        replace_sql(to, from, false, false) == "create or replace table "@ + rendered(to)
            + " clone "@ + rendered(from),
        replace_sql(to, from, true, false) == "create or replace transient table "@ + rendered(to)
            + " clone "@ + rendered(from),
        replace_sql(to, from, false, true) == replace_sql(to, from, false, false)
            + " copy grants"@,
        replace_sql(to, from, true, true) == replace_sql(to, from, true, false) + " copy grants"@,
        build_sql(to, query, false) == "create or replace table "@ + rendered(to) + " as ("@ + query
            + " ) ;"@,
        build_sql(to, query, true) == "create or replace transient table "@ + rendered(to)
            + " as ("@ + query + " ) ;"@,
{
    reveal_strlit("");
    reveal_strlit("create ");
    reveal_strlit("table ");
    reveal_strlit("transient ");
    reveal_strlit("create or replace ");
    reveal_strlit("create table ");
    reveal_strlit("create transient table ");
    reveal_strlit("create or replace table ");
    reveal_strlit("create or replace transient table ");
    assert(""@ =~= Seq::empty());
    assert("create "@ + ""@ + "table "@ =~= "create table "@);
    assert("create "@ + "transient "@ + "table "@ =~= "create transient table "@);
    assert("create or replace "@ + ""@ + "table "@ =~= "create or replace table "@);
    assert("create or replace "@ + "transient "@ + "table "@
        =~= "create or replace transient table "@);
    assert(replace_sql(to, from, false, false) =~= "create or replace table "@ + rendered(to)
        + " clone "@ + rendered(from));
    assert(replace_sql(to, from, true, false) =~= "create or replace transient table "@ + rendered(
        to,
    ) + " clone "@ + rendered(from));
    assert(replace_sql(to, from, false, true) =~= replace_sql(to, from, false, false)
        + " copy grants"@);
    assert(replace_sql(to, from, true, true) =~= replace_sql(to, from, true, false)
        + " copy grants"@);
}

// ---------------------------------------------------------------------------
// Stages
// ---------------------------------------------------------------------------

/// The working table is a clone of the public one, or a placeholder where there is none; a
/// transient table is never made permanent.
pub proof fn working_tables_are_created(
    target: RelationView,
    working: RelationView,
    transient: bool,
)
    ensures
        creation(target, working, None, transient) == Ok::<Seq<char>, FsErrorView>(
            claim_sql(working, transient),
        ),
        creation(target, working, Some(TableLifecycle::Permanent), transient) == Ok::<
            Seq<char>,
            FsErrorView,
        >(clone_sql(working, target, transient)),
        creation(target, working, Some(TableLifecycle::Transient), true) == Ok::<
            Seq<char>,
            FsErrorView,
        >(clone_sql(working, target, true)),
        creation(target, working, Some(TableLifecycle::Transient), false) is Err,
{
}

/// The header of a model is the one of its run, or else the parsed one; a blank header is
/// none.
pub proof fn headers_come_from_the_run(parsed: Option<Seq<char>>, value: Value)
    ensures
        !missing(value) && trim(value.text@).len() > 0 ==> header(parsed, Some(value)) == Some(
            value.text@,
        ),
        !missing(value) && trim(value.text@).len() == 0 ==> header(parsed, Some(value)) is None,
        missing(value) ==> header(parsed, Some(value)) == header(parsed, None),
        parsed is None ==> header(parsed, None) is None,
        parsed matches Some(text) ==> header(parsed, None) == (if trim(text).len() > 0 {
            Some(text)
        } else {
            None
        }),
{
}

/// A stage submits its statements in this order: the creation, the hooks before, the
/// transformation behind its header, and the hooks after.
pub proof fn a_stage_keeps_its_order(
    m: WapModelView,
    created: Seq<char>,
    query: Seq<char>,
    transient: bool,
    head: Option<Seq<char>>,
    i: int,
)
    ensures
        ({
            let all = submissions(m, created, query, transient, head);
            let before = m.model.config.pre_hooks;
            let after = m.model.config.post_hooks;
            &&& all.len() == before.len() + after.len() + 2
            &&& all[0] == PieceView::Sql(created)
            &&& 0 <= i < before.len() ==> all[1 + i] == PieceView::Hook(before[i])
            &&& all[1 + before.len() as int] == PieceView::Sql(
                match head {
                    Some(h) => h + seq![' '] + build_sql(candidate(m), query, transient),
                    None => build_sql(candidate(m), query, transient),
                },
            )
            &&& 0 <= i < after.len() ==> all[2 + before.len() + i] == PieceView::Hook(after[i])
        }),
{
    reveal_strlit(" ");
    assert(" "@ =~= seq![' ']);
}

// ---------------------------------------------------------------------------
// Audits
// ---------------------------------------------------------------------------

/// Only an audit that is reported as passed counts as passed.
pub proof fn what_passes(audit: Audit)
    ensures
        passed(audit) <==> (audit.status matches Some(NodeStatus::TestPassed)),
{
}

/// The first audit that did not pass is the one that is named.
pub proof fn the_first_failure_is_named(audits: Seq<Audit>, i: int, k: int)
    requires
        0 <= i <= k < audits.len(),
        audits[k].status != Some(NodeStatus::TestPassed),
        forall|j: int| i <= j < k ==> (#[trigger] audits[j]).status == Some(NodeStatus::TestPassed),
    ensures
        failed_audit(audits, i) matches Some(e) && e.code == ErrorCode::ExecutionError && e.message
            == "WAP: table not published because audit '"@ + audits[k].id@
            + "' did not PASS (result: "@ + (if audits[k].status is None {
            "missing"@
        } else {
            audits[k].message@
        })
            + "). Warnings, missing results, and skipped audits also prevent publication"@,
    decreases k - i,
{
    if i < k {
        assert(audits[i].status == Some(NodeStatus::TestPassed));
        the_first_failure_is_named(audits, i + 1, k);
    }
}

/// What the counts of a test come to: an error where there are fewer than none or it is
/// asked for and not softened, then a warning, then a pass.
pub proof fn counts_come_to(severity: Option<Severity>, raw: TestExecutionResult)
    ensures
        raw.failures < 0 ==> raw_status(severity, raw) == NodeStatus::Errored,
        raw.should_error && severity != Some(Severity::Warn) ==> raw_status(severity, raw)
            == NodeStatus::Errored,
        raw.failures >= 0 && !(raw.should_error && severity != Some(Severity::Warn))
            && raw.should_warn ==> raw_status(severity, raw) == NodeStatus::TestWarned,
        raw.failures >= 0 && !(raw.should_error && severity != Some(Severity::Warn))
            && !raw.should_warn ==> raw_status(severity, raw) == NodeStatus::TestPassed,
{
}

/// A status that is not a pass stands; a pass is held against the counts, and without them
/// it is no result.
pub proof fn passes_are_held_against_their_counts(
    reported: Option<NodeStatus>,
    test: DbtTest,
    raw: TestExecutionResult,
)
    ensures
        reported != Some(NodeStatus::TestPassed) ==> publication_status(
            reported,
            Some(test),
            Some(raw),
        ) == reported,
        publication_status(Some(NodeStatus::TestPassed), Some(test), Some(raw)) == Some(
            raw_status(test.severity, raw),
        ),
        publication_status(Some(NodeStatus::TestPassed), None, Some(raw)) is None,
        publication_status(Some(NodeStatus::TestPassed), Some(test), None) is None,
{
}

/// The cells that hold a count, and those that hold a verdict.
pub proof fn cells_that_count(c: Cell, n: i128, scale: i8)
    ensures
        count(Cell::Integer(n)) is Some <==> 0 <= n <= i64::MAX,
        count(Cell::Integer(n)) matches Some(m) ==> m == n,
        count(Cell::Decimal(n, scale)) is Some <==> scale == 0 && 0 <= n <= i64::MAX,
        count(Cell::Decimal(n, scale)) matches Some(m) ==> m == n,
        count(c) is Some ==> c is Integer || c is Decimal,
        verdict(c) matches Some(b) <==> c is Boolean,
        verdict(c) matches Some(b) ==> c == Cell::Boolean(b),
{
}

proof fn column_place_holds(columns: Seq<Seq<char>>, name: Seq<char>, to: int)
    requires
        0 <= to <= columns.len(),
    ensures
        ({
            let p = column_place(columns, name, to);
            &&& -1 <= p < to
            &&& p >= 0 ==> ascii_lower(columns[p]) == ascii_lower(name)
        }),
    decreases to,
{
    if to > 0 {
        column_place_holds(columns, name, to - 1);
    }
}

/// The counts of an audit come from the one row of the three columns with their names, in
/// whatever case and order.
pub proof fn counts_are_read_by_name(table: ResultTable)
    ensures
        audit_counts(table) matches Some(r) ==> {
            &&& table.columns@.len() == 3
            &&& table.rows@.len() == 1
            &&& table.rows@[0]@.len() == 3
            &&& exists|a: int, b: int, c: int|
                #![trigger table.columns@[a], table.columns@[b], table.columns@[c]]
                0 <= a < 3 && 0 <= b < 3 && 0 <= c < 3 && ascii_lower(table.columns@[a]@)
                    == "failures"@ && ascii_lower(table.columns@[b]@) == "should_warn"@
                    && ascii_lower(table.columns@[c]@) == "should_error"@ && count(
                    table.rows@[0]@[a],
                ) == Some(r.failures) && table.rows@[0]@[b] == Cell::Boolean(r.should_warn)
                    && table.rows@[0]@[c] == Cell::Boolean(r.should_error)
        },
{
    let columns = views(table.columns@);
    let n = columns.len() as int;
    column_place_holds(columns, "failures"@, n);
    column_place_holds(columns, "should_warn"@, n);
    column_place_holds(columns, "should_error"@, n);
    reveal_strlit("failures");
    reveal_strlit("should_warn");
    reveal_strlit("should_error");
    assert(ascii_lower("failures"@) =~= "failures"@);
    assert(ascii_lower("should_warn"@) =~= "should_warn"@);
    assert(ascii_lower("should_error"@) =~= "should_error"@);
    if let Some(r) = audit_counts(table) {
        let a = column_place(columns, "failures"@, n);
        let b = column_place(columns, "should_warn"@, n);
        let c = column_place(columns, "should_error"@, n);
        assert(columns[a] == table.columns@[a]@);
        assert(columns[b] == table.columns@[b]@);
        assert(columns[c] == table.columns@[c]@);
    }
}

// ---------------------------------------------------------------------------
// Inspection
// ---------------------------------------------------------------------------

proof fn rows_before_are_passed_over(
    names: Column,
    rows: int,
    identifier: Seq<char>,
    i: int,
    matched: Option<int>,
)
    requires
        0 <= i <= rows,
        matched matches Some(p) ==> 0 <= p < i && cell(names, p) == Some(identifier),
    ensures
        row_from(names, rows, identifier, i, matched) matches Ok(found) ==> {
            &&& forall|k: int| i <= k < rows ==> (#[trigger] cell(names, k)) is Some
            &&& found matches Some(p) ==> {
                &&& 0 <= p < rows
                &&& cell(names, p) == Some(identifier)
                &&& forall|k: int|
                    i <= k < rows && k != p ==> #[trigger] cell(names, k) != Some(identifier)
                &&& matched is Some ==> matched == Some(p)
            }
            &&& found is None ==> matched is None && forall|k: int|
                i <= k < rows ==> #[trigger] cell(names, k) != Some(identifier)
        },
    decreases rows - i,
{
    if i < rows {
        if let Some(name) = cell(names, i) {
            if name != identifier {
                rows_before_are_passed_over(names, rows, identifier, i + 1, matched);
            } else if matched is None {
                rows_before_are_passed_over(names, rows, identifier, i + 1, Some(i));
            }
        }
    }
}

/// The row of a relation is the only one whose name is exactly its own; with two of them,
/// or a row without a name, there is no answer.
pub proof fn relations_are_found_by_exact_name(
    batch: ShownRows,
    names: Column,
    identifier: Seq<char>,
)
    requires
        column(batch, "name"@) == Some(names),
    ensures
        exact_row(batch, identifier) matches Ok(found) ==> {
            &&& found matches Some(p) ==> {
                &&& 0 <= p < batch.rows
                &&& opt(names.values@[p]) == Some(identifier)
                &&& forall|k: int|
                    0 <= k < batch.rows && k != p ==> opt(#[trigger] names.values@[k]) != Some(
                        identifier,
                    )
            }
            &&& found is None ==> forall|k: int|
                0 <= k < batch.rows ==> opt(#[trigger] names.values@[k]) != Some(identifier)
        },
{
    rows_before_are_passed_over(names, batch.rows as int, identifier, 0, None);
    if let Ok(found) = exact_row(batch, identifier) {
        if let Some(p) = found {
            assert forall|k: int| 0 <= k < batch.rows && k != p implies opt(
                #[trigger] names.values@[k],
            ) != Some(identifier) by {
                assert(cell(names, k) != Some(identifier));
            }
        } else {
            assert forall|k: int| 0 <= k < batch.rows implies opt(
                #[trigger] names.values@[k],
            ) != Some(identifier) by {
                assert(cell(names, k) != Some(identifier));
            }
        }
    }
}

proof fn column_is_first(columns: Seq<Column>, name: Seq<char>, i: int, k: int)
    requires
        0 <= i <= k < columns.len(),
        columns[k].name@ == name,
        forall|j: int| i <= j < k ==> (#[trigger] columns[j]).name@ != name,
    ensures
        column_from(columns, name, i) == Some(columns[k]),
    decreases k - i,
{
    if i < k {
        assert(columns[i].name@ != name);
        column_is_first(columns, name, i + 1, k);
    }
}

/// A column is found by its exact name, the first of two.
pub proof fn columns_are_found_by_exact_name(batch: ShownRows, k: int)
    requires
        0 <= k < batch.columns@.len(),
        forall|j: int|
            0 <= j < k ==> (#[trigger] batch.columns@[j]).name@ != batch.columns@[k].name@,
    ensures
        column(batch, batch.columns@[k].name@) == Some(batch.columns@[k]),
{
    column_is_first(batch.columns@, batch.columns@[k].name@, 0, k);
}

/// The kinds of table that are published, and the values of a flag that is off.
pub proof fn kinds_and_flags(value: Seq<char>)
    ensures
        is_kind(Some(value), false) <==> ascii_lower(value) == "table"@,
        is_kind(Some(value), true) <==> ascii_lower(value) == "table"@ || ascii_lower(value)
            == "transient"@,
        !is_kind(None, true),
        is_disabled(Some(value)) <==> ascii_lower(value) == "n"@ || ascii_lower(value) == "false"@,
        !is_disabled(None),
{
    reveal_strlit("TABLE");
    reveal_strlit("table");
    reveal_strlit("TRANSIENT");
    reveal_strlit("transient");
    reveal_strlit("n");
    reveal_strlit("false");
    assert(ascii_lower("TABLE"@) =~= "table"@);
    assert(ascii_lower("TRANSIENT"@) =~= "transient"@);
    assert(ascii_lower("n"@) =~= "n"@);
    assert(ascii_lower("false"@) =~= "false"@);
}

/// Whether a cell of the row switches a flag off.
pub open spec fn is_off(batch: ShownRows, row: int, flag: Seq<char>) -> bool {
    column(batch, flag) matches Some(values) && (opt(values.values@[row]) matches Some(v) && (
    ascii_lower(v) == "n"@ || ascii_lower(v) == "false"@))
}

/// A relation that is there passes where it is an ordinary table, and neither dynamic nor
/// interactive; it must not be there for a new working table, and must be for publication.
pub proof fn relations_that_pass(
    batch: ShownRows,
    identifier: Seq<char>,
    expectation: RelationExpectation,
    row: int,
)
    ensures
        exact_row(batch, identifier) == Ok::<Option<int>, FsErrorView>(None) ==> (match expectation {
            RelationExpectation::Absent => existence(batch, identifier, expectation) == Ok::<
                bool,
                FsErrorView,
            >(false),
            RelationExpectation::OptionalTable => existence(batch, identifier, expectation) == Ok::<
                bool,
                FsErrorView,
            >(false),
            RelationExpectation::ExistingTable => existence(batch, identifier, expectation) is Err,
        }),
        exact_row(batch, identifier) == Ok::<Option<int>, FsErrorView>(Some(row)) ==> {
            &&& expectation == RelationExpectation::Absent ==> existence(
                batch,
                identifier,
                expectation,
            ) is Err
            &&& expectation != RelationExpectation::Absent ==> {
                let passes = (column(batch, "kind"@) matches Some(kinds) && (opt(
                    kinds.values@[row],
                ) matches Some(k) && ascii_lower(k) == "table"@)) && is_off(
                    batch,
                    row,
                    "is_dynamic"@,
                ) && (column(batch, "is_interactive"@) is None || is_off(
                    batch,
                    row,
                    "is_interactive"@,
                ));
                &&& passes ==> existence(batch, identifier, expectation) == Ok::<bool, FsErrorView>(
                    true,
                )
                &&& !passes ==> existence(batch, identifier, expectation) is Err
            }
        },
{
    if let Some(kinds) = column(batch, "kind"@) {
        if let Some(k) = opt(kinds.values@[row]) {
            kinds_and_flags(k);
        }
    }
    flag_is_off(batch, row, identifier, "is_dynamic"@);
    flag_is_off(batch, row, identifier, "is_interactive"@);
}

proof fn flag_is_off(batch: ShownRows, row: int, identifier: Seq<char>, flag: Seq<char>)
    ensures
        flag_refusal(batch, row, identifier, flag) is None <==> is_off(batch, row, flag),
        optional_flag_refusal(batch, row, identifier, flag) is None <==> column(batch, flag) is None
            || is_off(batch, row, flag),
{
    if let Some(values) = column(batch, flag) {
        if let Some(v) = opt(values.values@[row]) {
            kinds_and_flags(v);
        }
    }
}

/// The details of a table pass where it is permanent or transient and nothing else than an
/// ordinary table.
pub proof fn details_that_pass(batch: ShownRows, identifier: Seq<char>, row: int)
    ensures
        exact_row(batch, identifier) == Ok::<Option<int>, FsErrorView>(None) ==> table_refusal(
            batch,
            identifier,
        ) is Some,
        exact_row(batch, identifier) == Ok::<Option<int>, FsErrorView>(Some(row)) ==> (
        table_refusal(batch, identifier) is None <==> {
            &&& column(batch, "kind"@) matches Some(kinds) && (opt(
                kinds.values@[row],
            ) matches Some(k) && (ascii_lower(k) == "table"@ || ascii_lower(k) == "transient"@))
            &&& is_off(batch, row, "is_external"@)
            &&& is_off(batch, row, "is_event"@)
            &&& is_off(batch, row, "is_hybrid"@)
            &&& is_off(batch, row, "is_iceberg"@)
            &&& column(batch, "is_immutable"@) is None || is_off(batch, row, "is_immutable"@)
        }),
        exact_row(batch, identifier) == Ok::<Option<int>, FsErrorView>(Some(row)) ==> (column(
            batch,
            "kind"@,
        ) matches Some(kinds) ==> (lifecycle_shown(batch, identifier) == Some(
            TableLifecycle::Transient,
        ) <==> (opt(kinds.values@[row]) matches Some(k) && ascii_lower(k) == "transient"@))),
{
    if let Some(kinds) = column(batch, "kind"@) {
        if let Some(k) = opt(kinds.values@[row]) {
            kinds_and_flags(k);
        }
    }
    reveal_strlit("TRANSIENT");
    reveal_strlit("transient");
    assert(ascii_lower("TRANSIENT"@) =~= "transient"@);
    flag_is_off(batch, row, identifier, "is_external"@);
    flag_is_off(batch, row, identifier, "is_event"@);
    flag_is_off(batch, row, identifier, "is_hybrid"@);
    flag_is_off(batch, row, identifier, "is_iceberg"@);
    flag_is_off(batch, row, identifier, "is_immutable"@);
}

/// A table is looked up, and where it is there its details too, under the name that
/// Snowflake reads.
pub proof fn tables_are_looked_up(
    relation: RelationView,
    expectation: RelationExpectation,
    working: bool,
    replies: Seq<ShownRows>,
    at: int,
)
    requires
        0 <= at <= replies.len(),
    ensures
        ({
            let r = inspect_one(relation, expectation, working, replies, at);
            let name = identity(relation).2;
            &&& relation.adapter_type != AdapterType::Snowflake ==> r is Refused
            &&& relation.adapter_type == AdapterType::Snowflake ==> {
                &&& at == replies.len() ==> r == TableInspection::Ask(
                    Lookup { working, details: false },
                )
                &&& at < replies.len() ==> {
                    let there = existence(replies[at], name, expectation);
                    &&& there matches Err(e) ==> r == TableInspection::Refused(e)
                    &&& there == Ok::<bool, FsErrorView>(false) ==> r == TableInspection::Done(
                        false,
                        at + 1,
                    )
                    &&& there == Ok::<bool, FsErrorView>(true) && at + 1 == replies.len() ==> r
                        == TableInspection::Ask(Lookup { working, details: true })
                    &&& there == Ok::<bool, FsErrorView>(true) && at + 1 < replies.len() ==> (
                    match table_refusal(replies[at + 1], name) {
                        Some(e) => r == TableInspection::Refused(e),
                        None => r == TableInspection::Done(true, at + 2),
                    })
                }
            }
        }),
{
}

/// Before a build the working table must not be there; before publication it must. The
/// public table may be there or not, and that is what is told.
pub proof fn both_tables_are_inspected(
    target: RelationView,
    working: RelationView,
    must_exist: bool,
    replies: Seq<ShownRows>,
)
    ensures
        inspect_both(target, working, must_exist, replies) matches InspectionView::Inspected(there)
            ==> (inspect_one(target, RelationExpectation::OptionalTable, false, replies, 0)
            matches TableInspection::Done(b, at) && {
            &&& b == there
            &&& must_exist ==> (inspect_one(
                working,
                RelationExpectation::ExistingTable,
                true,
                replies,
                at,
            ) is Done)
            &&& !must_exist ==> (inspect_one(
                working,
                RelationExpectation::Absent,
                true,
                replies,
                at,
            ) is Done)
        }),
        (inspect_one(target, RelationExpectation::OptionalTable, false, replies, 0)
            matches TableInspection::Done(b, at) && inspect_one(
            working,
            if must_exist {
                RelationExpectation::ExistingTable
            } else {
                RelationExpectation::Absent
            },
            true,
            replies,
            at,
        ) is Done) ==> inspect_both(target, working, must_exist, replies) is Inspected,
{
}

// ---------------------------------------------------------------------------
// Publication
// ---------------------------------------------------------------------------

/// Only a native catalog with the default format tells whether its tables are transient.
pub proof fn catalogs_tell_transience(c: CatalogRelation)
    ensures
        transience(None) is Err,
        transience(Some(c)) is Ok <==> c.native && c.default_format && c.is_transient is Some,
        transience(Some(c)) matches Ok(b) ==> c.is_transient == Some(b),
{
}

/// A stage begins where the materialization is the built-in one, the quoting agrees, the
/// catalog is native and neither table stands in the way.
pub proof fn stages_that_begin(
    m: WapModelView,
    custom: bool,
    quoting: Option<ResolvedQuoting>,
    catalog: Option<CatalogRelation>,
    replies: Seq<ShownRows>,
)
    ensures
        preflight(m, custom, quoting, catalog, replies) is Ready <==> {
            &&& !custom
            &&& quoting matches Some(q) && quoting_refusal(m, q) is None
            &&& transience(catalog) is Ok
            &&& inspect_both(public(m), candidate(m), false, replies) is Inspected
        },
        custom ==> preflight(m, custom, quoting, catalog, replies) is Refused,
{
}

/// What is published is the model with the lifecycle of its catalog, and with the grants of
/// the table that it replaces where it is to copy them and there is one.
pub proof fn publications_copy_grants(
    m: WapModelView,
    catalog: Option<CatalogRelation>,
    replies: Seq<ShownRows>,
)
    ensures
        preparation(m, catalog, replies) matches PreparationView::Ready(model, there, sql) ==> {
            &&& inspect_both(public(m), candidate(m), true, replies) == InspectionView::Inspected(
                there,
            )
            &&& transience(catalog) matches Ok(transient) && {
                let copies = there && m.model.config.copy_grants == Some(true);
                &&& sql == replace_sql(public(m), candidate(m), transient, copies)
                &&& model.config.transient == Some(transient)
                &&& model.config.copy_grants == Some(copies)
                &&& model.alias == m.model.alias
                &&& model.unique_id == m.model.unique_id
                &&& model.database == m.model.database
                &&& model.schema == m.model.schema
                &&& model.quoting == m.model.quoting
                &&& model.config.grants == m.model.config.grants
                &&& model.config.copy_tags == m.model.config.copy_tags
                &&& model.config.automatic_clustering == m.model.config.automatic_clustering
                &&& model.config.wap_retain_failed == m.model.config.wap_retain_failed
            }
        },
{
}

/// Once published, what was known of the table is forgotten where a cache is kept, the
/// table is cached, its grants are applied, its clustering goes on and its latest version
/// points to it.
pub proof fn publications_are_finished(
    model: ModelView,
    target: RelationView,
    there: bool,
    cached: bool,
    clustered: bool,
    latest: bool,
)
    ensures
        ({
            let all = finalization(model, target, there, cached, clustered, latest);
            let first: int = if cached {
                1
            } else {
                0
            };
            &&& cached <==> all[0] == FinalizeView::EvictMetadata
            &&& all[first] == FinalizeView::CachePublic
            &&& all[first + 1] == FinalizeView::ApplyGrants(
                there && model.config.copy_grants == Some(true),
            )
            &&& model.config.automatic_clustering == Some(true) && clustered ==> all[first + 2]
                == FinalizeView::Execute("alter table "@ + rendered(target) + " resume recluster"@)
            &&& latest <==> all.last() == FinalizeView::PointLatestVersion
            &&& all.len() == first + 2 + (if model.config.automatic_clustering == Some(true)
                && clustered {
                1int
            } else {
                0
            }) + (if latest {
                1int
            } else {
                0
            })
        }),
{
}

/// A working table is dropped where its run failed, unless failed tables are kept or it
/// may have been published.
pub proof fn tables_that_are_cleaned_up(
    retain: Option<bool>,
    state: Option<WapCandidateState>,
    status: Option<NodeStatus>,
)
    ensures
        cleanup_due(retain, state, status) <==> {
            &&& retain != Some(true)
            &&& state == Some(WapCandidateState::Created) || state == Some(
                WapCandidateState::Published,
            )
            &&& status == Some(NodeStatus::Errored) || status == Some(
                NodeStatus::SkippedUpstreamFailed,
            )
        },
{
}

/// Publication is told by its flag, and the response keeps everything else.
pub proof fn publication_is_told(response: FieldsView, working: RelationView, key: Seq<char>)
    ensures
        field(publication_record(response, working), "wap_published"@) == Some(
            JsonView::Bool(true),
        ),
        field(publication_record(response, working), "wap_candidate"@) == Some(
            JsonView::Text(rendered(working)),
        ),
        key != "wap_published"@ && key != "wap_candidate"@ ==> field(
            publication_record(response, working),
            key,
        ) == field(response, key),
        !says_published(None),
        !says_published(Some(JsonView::Object(Seq::empty()))),
        !says_published(
            Some(
                JsonView::Object(
                    Seq::<(Seq<char>, JsonView)>::empty().push(
                        ("wap_published"@, JsonView::Bool(false)),
                    ),
                ),
            ),
        ),
{
    reveal_strlit("wap_published");
    reveal_strlit("wap_candidate");
    assert("wap_published"@.len() == 13 && "wap_candidate"@.len() == 13);
    assert("wap_published"@[4] == 'p' && "wap_candidate"@[4] == 'c');
    put_then_field(response, "wap_published"@, JsonView::Bool(true), key);
    let middle = put(response, "wap_published"@, JsonView::Bool(true));
    put_then_field(middle, "wap_candidate"@, JsonView::Text(rendered(working)), key);
    put_then_field(
        middle,
        "wap_candidate"@,
        JsonView::Text(rendered(working)),
        "wap_published"@,
    );
    let off = Seq::<(Seq<char>, JsonView)>::empty().push(("wap_published"@, JsonView::Bool(false)));
    place_is_unique(off, "wap_published"@, 0);
}

/// A publication that fails before its clone goes no further; behind the clone it is told
/// as published.
pub proof fn publications_stop_at_failures(f: Outcomes, target: Seq<char>, working: Seq<char>)
    ensures
        f(PublicationStep::Prepare) is Some ==> !steps(f).contains(PublicationStep::SetQueryTag)
            && !steps(f).contains(PublicationStep::Clone),
        f(PublicationStep::SetQueryTag) is Some ==> !steps(f).contains(PublicationStep::Clone),
        f(PublicationStep::Clone) is Some ==> !steps(f).contains(PublicationStep::Finalize),
        f(PublicationStep::Clone) is Some || f(PublicationStep::SetQueryTag) is Some || f(
            PublicationStep::Prepare,
        ) is Some ==> result(f, target, working) == failure(f),
        f(PublicationStep::Prepare) is None && f(PublicationStep::SetQueryTag) is None && f(
            PublicationStep::Clone,
        ) is None && f(PublicationStep::Finalize) is None && f(PublicationStep::ResetQueryTag)
            is None && f(PublicationStep::ResetOverrides) is None ==> result(
            f,
            target,
            working,
        ) is None,
        (f(PublicationStep::Prepare) is None && f(PublicationStep::SetQueryTag) is None && f(
            PublicationStep::Clone,
        ) is None && failure(f) is Some) ==> (result(f, target, working) matches Some(e) && e.code
            == failure(f)->0.code && e.message == "WAP: "@ + target
            + " was published; finalization failed: "@ + failure(f)->0.message
            + ". Working table at failure: "@ + working),
{
    assert forall|i: int|
        0 <= i < steps(f).len() && f(PublicationStep::Prepare) is Some implies #[trigger] steps(
        f,
    )[i] != PublicationStep::SetQueryTag && steps(f)[i] != PublicationStep::Clone by {
    }
}

/// What is said of a clone whose response was lost.
pub proof fn lost_clones_are_told(
    target: RelationView,
    working: RelationView,
    e: FsErrorView,
)
    ensures
        unknown_outcome(target, working, e).code == e.code,
        unknown_outcome(target, working, e).message == "WAP publication failed for "@ + rendered(
            target,
        ) + ": "@ + e.message
            + ". Publication may have committed; inspect Snowflake query history before retrying. Working table: "@
            + rendered(working),
{
}

// ---------------------------------------------------------------------------
// The order of tasks
// ---------------------------------------------------------------------------

proof fn test_runs_hold(nodes: Seq<ScheduledView>, id: Seq<char>, to: int, t: Seq<char>)
    requires
        0 <= to <= nodes.len(),
    ensures
        test_runs(nodes, id, to).contains((t, TaskKind::Run)) <==> exists|k: int|
            0 <= k < to && (#[trigger] nodes[k]).id == t && nodes[k].is_test
                && nodes[k].depends_on.contains(id),
    decreases to,
{
    if to > 0 {
        test_runs_hold(nodes, id, to - 1, t);
        let before = test_runs(nodes, id, to - 1);
        let all = test_runs(nodes, id, to);
        if tests_node(nodes[to - 1], id) {
            let one = (nodes[to - 1].id, TaskKind::Run);
            assert(all == before.push(one));
            assert(all[before.len() as int] == one);
            if before.contains((t, TaskKind::Run)) {
                assert(all[before.index_of((t, TaskKind::Run))] == (t, TaskKind::Run));
            }
            if all.contains((t, TaskKind::Run)) && nodes[to - 1].id != t {
                assert(before[all.index_of((t, TaskKind::Run))] == (t, TaskKind::Run));
            }
        }
    }
}

/// What a node waits for on account of a dependency. An audit waits for the build of its
/// model; every other node for what ends the dependency, which is publication where that
/// is planned; and a node that is no test for all tests of the dependency too.
pub proof fn nodes_wait_for_their_dependencies(
    nodes: Seq<ScheduledView>,
    plan: Seq<(Seq<char>, WapModelView)>,
    node: ScheduledView,
    dependency: Seq<char>,
    t: Seq<char>,
)
    ensures
        ({
            let planned = found(plan, dependency);
            let audits_it = planned is Some && has_key(planned->0.audit_ids, node.id);
            let all = waits_for(nodes, plan, node, dependency);
            &&& audits_it ==> all == seq![(dependency, TaskKind::Run)]
            &&& !audits_it && planned is Some ==> all[0] == (dependency, TaskKind::Publish)
            &&& !audits_it && planned is None ==> all[0] == (dependency, TaskKind::Run)
            &&& !audits_it && node.is_test ==> all.len() == 1
            &&& !audits_it && !node.is_test && (exists|k: int|
                0 <= k < nodes.len() && (#[trigger] nodes[k]).id == t && nodes[k].is_test
                    && nodes[k].depends_on.contains(dependency)) ==> all.contains(
                (t, TaskKind::Run),
            )
        }),
{
    let planned = found(plan, dependency);
    if planned is Some {
        found_is_there(planned->0.audit_ids, node.id);
    }
    let all = waits_for(nodes, plan, node, dependency);
    let audits_it = planned is Some && has_key(planned->0.audit_ids, node.id);
    if audits_it {
        assert(all =~= seq![(dependency, TaskKind::Run)]);
    }
    if !audits_it && !node.is_test {
        let n = nodes.len() as int;
        test_runs_hold(nodes, dependency, n, t);
        let tests = test_runs(nodes, dependency, n);
        if tests.contains((t, TaskKind::Run)) {
            let k = tests.index_of((t, TaskKind::Run));
            assert(all[1 + k] == (t, TaskKind::Run));
        }
    }
}

/// A node is rendered behind all that its dependencies ask for, then run; a planned model
/// is published behind its own run and the runs of all of its audits.
pub proof fn every_node_has_its_tasks(
    nodes: Seq<ScheduledView>,
    plan: Seq<(Seq<char>, WapModelView)>,
    node: ScheduledView,
    i: int,
    j: int,
)
    ensures
        ({
            let tasks = node_tasks(nodes, plan, node);
            &&& tasks.len() == (if found(plan, node.id) is Some {
                3int
            } else {
                2
            })
            &&& tasks[0].key == (node.id, TaskKind::Render)
            &&& tasks[1].key == (node.id, TaskKind::Run)
            &&& tasks[1].after.contains((node.id, TaskKind::Render))
            &&& 0 <= i < node.depends_on.len() && 0 <= j < waits_for(
                nodes,
                plan,
                node,
                node.depends_on[i],
            ).len() ==> tasks[0].after.contains(
                waits_for(nodes, plan, node, node.depends_on[i])[j],
            )
            &&& found(plan, node.id) is Some ==> tasks[2].key == (node.id, TaskKind::Publish)
        }),
{
    let tasks = node_tasks(nodes, plan, node);
    assert(tasks[1].after[0] == (node.id, TaskKind::Render));
    if 0 <= i < node.depends_on.len() && 0 <= j < waits_for(
        nodes,
        plan,
        node,
        node.depends_on[i],
    ).len() {
        rendering_waits(nodes, plan, node, node.depends_on.len() as int, i, j);
    }
}

proof fn rendering_waits(
    nodes: Seq<ScheduledView>,
    plan: Seq<(Seq<char>, WapModelView)>,
    node: ScheduledView,
    to: int,
    i: int,
    j: int,
)
    requires
        0 <= i < to <= node.depends_on.len(),
        0 <= j < waits_for(nodes, plan, node, node.depends_on[i]).len(),
    ensures
        render_after(nodes, plan, node, to).contains(
            waits_for(nodes, plan, node, node.depends_on[i])[j],
        ),
    decreases to,
{
    let before = render_after(nodes, plan, node, to - 1);
    let all = render_after(nodes, plan, node, to);
    let one = waits_for(nodes, plan, node, node.depends_on[i])[j];
    if i == to - 1 {
        assert(all[before.len() + j] == one);
    } else {
        rendering_waits(nodes, plan, node, to - 1, i, j);
        assert(all[before.index_of(one)] == one);
    }
}

/// A task is ready once all that it waits for has ended or was skipped, and a failure
/// names the node that failed, or its own phase.
pub proof fn tasks_become_ready(
    tasks: Seq<TaskView>,
    states: Seq<TaskState>,
    i: int,
    j: int,
    failed: Seq<char>,
    status: NodeStatus,
)
    requires
        0 <= j < tasks.len(),
        tasks[i].after.contains(tasks[j].key),
    ensures
        ready(tasks, states, i) ==> states[j] is Ended || states[j] is Skipped,
        tasks[i].key.0 == failed ==> reason(tasks[i], failed) == SkipReasonView::FailedPhase,
        tasks[i].key.0 != failed ==> reason(tasks[i], failed) == SkipReasonView::FailedUpstream(
            failed,
        ),
        is_failure(status) <==> status is Errored || status is SkippedUpstreamFailed,
{
    assert(waits(tasks, i, j));
}

/// The tasks of all nodes, in the order of the nodes, and no others.
pub proof fn every_node_is_scheduled(
    nodes: Seq<ScheduledView>,
    plan: Seq<(Seq<char>, WapModelView)>,
    task: TaskView,
)
    ensures
        graph(nodes, plan, nodes.len() as int).contains(task) <==> exists|k: int, j: int|
            0 <= k < nodes.len() && 0 <= j < node_tasks(nodes, plan, nodes[k]).len()
                && #[trigger] node_tasks(nodes, plan, nodes[k])[j] == task,
{
    graph_holds(nodes, plan, nodes.len() as int, task);
}

proof fn graph_holds(
    nodes: Seq<ScheduledView>,
    plan: Seq<(Seq<char>, WapModelView)>,
    to: int,
    task: TaskView,
)
    requires
        0 <= to <= nodes.len(),
    ensures
        graph(nodes, plan, to).contains(task) <==> exists|k: int, j: int|
            0 <= k < to && 0 <= j < node_tasks(nodes, plan, nodes[k]).len()
                && #[trigger] node_tasks(nodes, plan, nodes[k])[j] == task,
    decreases to,
{
    if to > 0 {
        graph_holds(nodes, plan, to - 1, task);
        let before = graph(nodes, plan, to - 1);
        let own = node_tasks(nodes, plan, nodes[to - 1]);
        let all = graph(nodes, plan, to);
        assert(all == before + own);
        if all.contains(task) {
            let p = all.index_of(task);
            if p < before.len() {
                assert(before[p] == task);
            } else {
                assert(node_tasks(nodes, plan, nodes[to - 1])[p - before.len()] == task);
            }
        }
        if exists|k: int, j: int|
            0 <= k < to && 0 <= j < node_tasks(nodes, plan, nodes[k]).len()
                && #[trigger] node_tasks(nodes, plan, nodes[k])[j] == task {
            let (k, j) = choose|k: int, j: int|
                0 <= k < to && 0 <= j < node_tasks(nodes, plan, nodes[k]).len()
                    && #[trigger] node_tasks(nodes, plan, nodes[k])[j] == task;
            if k == to - 1 {
                assert(all[before.len() + j] == task);
            } else {
                assert(before.contains(task));
                assert(all[before.index_of(task)] == task);
            }
        }
    }
}

/// Besides what ends the dependency, a node waits for tests of it alone.
pub proof fn nodes_wait_for_nothing_else(
    nodes: Seq<ScheduledView>,
    plan: Seq<(Seq<char>, WapModelView)>,
    node: ScheduledView,
    dependency: Seq<char>,
    t: Seq<char>,
    kind: TaskKind,
)
    requires
        t != dependency,
        waits_for(nodes, plan, node, dependency).contains((t, kind)),
    ensures
        kind is Run,
        !node.is_test,
        exists|k: int|
            0 <= k < nodes.len() && (#[trigger] nodes[k]).id == t && nodes[k].is_test
                && nodes[k].depends_on.contains(dependency),
{
    let all = waits_for(nodes, plan, node, dependency);
    let tests = test_runs(nodes, dependency, nodes.len() as int);
    let p = all.index_of((t, kind));
    assert(all[p] == (t, kind));
    assert(p > 0);
    assert(tests[p - 1] == (t, kind));
    test_runs_run(nodes, dependency, nodes.len() as int, p - 1);
    test_runs_hold(nodes, dependency, nodes.len() as int, t);
}

proof fn test_runs_run(nodes: Seq<ScheduledView>, id: Seq<char>, to: int, p: int)
    requires
        0 <= p < test_runs(nodes, id, to).len(),
    ensures
        test_runs(nodes, id, to)[p].1 is Run,
    decreases to,
{
    if 0 < to <= nodes.len() && p < test_runs(nodes, id, to - 1).len() {
        test_runs_run(nodes, id, to - 1, p);
    }
}

/// Rendering waits for what the dependencies ask for and nothing else, a run for the
/// rendering alone.
pub proof fn rendering_waits_for_nothing_else(
    nodes: Seq<ScheduledView>,
    plan: Seq<(Seq<char>, WapModelView)>,
    node: ScheduledView,
    key: (Seq<char>, TaskKind),
)
    ensures
        node_tasks(nodes, plan, node)[1].after == seq![(node.id, TaskKind::Render)],
        node_tasks(nodes, plan, node)[0].after.contains(key) ==> exists|i: int|
            0 <= i < node.depends_on.len() && #[trigger] waits_for(
                nodes,
                plan,
                node,
                node.depends_on[i],
            ).contains(key),
{
    assert(node_tasks(nodes, plan, node)[1].after =~= seq![(node.id, TaskKind::Render)]);
    rendering_is_asked_for(nodes, plan, node, node.depends_on.len() as int, key);
}

proof fn rendering_is_asked_for(
    nodes: Seq<ScheduledView>,
    plan: Seq<(Seq<char>, WapModelView)>,
    node: ScheduledView,
    to: int,
    key: (Seq<char>, TaskKind),
)
    requires
        0 <= to <= node.depends_on.len(),
    ensures
        render_after(nodes, plan, node, to).contains(key) ==> exists|i: int|
            0 <= i < to && #[trigger] waits_for(nodes, plan, node, node.depends_on[i]).contains(
                key,
            ),
    decreases to,
{
    if to > 0 {
        rendering_is_asked_for(nodes, plan, node, to - 1, key);
        let before = render_after(nodes, plan, node, to - 1);
        let own = waits_for(nodes, plan, node, node.depends_on[to - 1]);
        let all = render_after(nodes, plan, node, to);
        if all.contains(key) {
            let p = all.index_of(key);
            if p < before.len() {
                assert(before[p] == key);
            } else {
                assert(own[p - before.len()] == key);
                assert(waits_for(nodes, plan, node, node.depends_on[to - 1]).contains(key));
            }
        }
    }
}

/// A stage submits its statements in turn, and a hook once it was rendered for the working
/// table; it is over behind the last one.
pub proof fn a_stage_takes_its_turns(stage: Stage)
    ensures
        stage.done >= stage.pieces@.len() ==> turn_of(stage) is None,
        stage.done < stage.pieces@.len() ==> {
            let piece = stage.pieces@[stage.done as int]@;
            &&& piece matches PieceView::Sql(sql) ==> turn_of(stage) == Some(TurnView::Submit(sql))
            &&& piece matches PieceView::Hook(template) ==> (match stage.hook {
                Some(text) => turn_of(stage) == Some(TurnView::Submit(text@)),
                None => turn_of(stage) == Some(
                    TurnView::Render { template, this: rendered(stage.working@) },
                ),
            })
        },
{
}

/// A working table that was not created is told by its name and its cause, and that the
/// public table was not replaced.
pub proof fn missing_working_tables_are_told(
    target: RelationView,
    working: RelationView,
    e: FsErrorView,
)
    ensures
        not_created(target, working, e).code == e.code,
        not_created(target, working, e).message == "WAP could not create working table "@
            + rendered(working) + ": "@ + e.message + ". Public table "@ + rendered(target)
            + " was not replaced; the working table may have been created"@,
{
}

/// The owner of an audit is the first planned model that has it.
pub proof fn audits_have_owners(models: Seq<(Seq<char>, WapModelView)>, audit: Seq<char>, k: int)
    requires
        0 <= k <= models.len(),
        k < models.len() ==> has_key(models[k].1.audit_ids, audit),
        forall|j: int| 0 <= j < k ==> !has_key((#[trigger] models[j]).1.audit_ids, audit),
    ensures
        k < models.len() ==> owner_from(models, audit, 0) == Some(models[k].1),
        k == models.len() ==> owner_from(models, audit, 0) is None,
{
    owner_is(models, audit, k, 0);
}

proof fn owner_is(
    models: Seq<(Seq<char>, WapModelView)>,
    audit: Seq<char>,
    k: int,
    i: int,
)
    requires
        0 <= i <= k <= models.len(),
        k < models.len() ==> has_key(models[k].1.audit_ids, audit),
        forall|j: int| i <= j < k ==> !has_key((#[trigger] models[j]).1.audit_ids, audit),
    ensures
        owner_from(models, audit, i) == (if k < models.len() {
            Some(models[k].1)
        } else {
            None
        }),
    decreases k - i,
{
    if i < models.len() {
        found_is_there(models[i].1.audit_ids, audit);
        if i < k {
            owner_is(models, audit, k, i + 1);
        }
    }
}

/// What is said of tables that are refused.
pub proof fn inspection_refusals_are_told(
    name: Seq<char>,
    relation: RelationView,
    expectation: RelationExpectation,
    batch: ShownRows,
    row: int,
    transient_too: bool,
    flag: Seq<char>,
)
    ensures
        no_column(name).code == ErrorCode::Unexpected,
        no_column(name).message == "WAP relation inspection did not return the column '"@ + name
            + "'"@,
        relation.adapter_type != AdapterType::Snowflake ==> (inspect_one(
            relation,
            expectation,
            true,
            seq![batch],
            0,
        ) matches TableInspection::Refused(e) && e.code == ErrorCode::InvalidConfig && e.message
            == "WAP requires Snowflake"@),
        column(batch, "kind"@) is None ==> kind_refusal(batch, row, name, transient_too) == Some(
            no_column("kind"@),
        ),
        column(batch, "kind"@) matches Some(kinds) ==> {
            &&& is_kind(cell(kinds, row), transient_too) ==> kind_refusal(
                batch,
                row,
                name,
                transient_too,
            ) is None
            &&& !is_kind(cell(kinds, row), transient_too) ==> (kind_refusal(
                batch,
                row,
                name,
                transient_too,
            ) matches Some(e) && e.message == "WAP requires an ordinary native table; '"@ + name
                + "' has unsupported or unknown kind: "@ + or_null(cell(kinds, row)))
        },
        column(batch, flag) matches Some(values) ==> (!is_disabled(cell(values, row)) ==> (
        flag_refusal(batch, row, name, flag) matches Some(e) && e.message
            == "WAP does not support '"@ + name + "' with "@ + flag + "="@ + or_null(
            cell(values, row),
        ))),
{
}

/// What a preflight says.
pub proof fn preflights_are_told(
    m: WapModelView,
    quoting: Option<ResolvedQuoting>,
    catalog: Option<CatalogRelation>,
    replies: Seq<ShownRows>,
)
    ensures
        preflight(m, true, quoting, catalog, replies) matches PreflightView::Refused(e) && e.message
            == "WAP requires the built-in Snowflake table materialization: "@ + m.model.unique_id,
        preflight(m, false, None, catalog, replies) matches PreflightView::Refused(e) && e.message
            == "Missing adapter for WAP staging"@,
        preflight(m, false, quoting, catalog, replies) matches PreflightView::Ready(told) ==> told
            == "WAP: building "@ + rendered(public(m)) + " in working table "@ + rendered(
            candidate(m),
        ),
{
}

} // verus!
