//! What is read of tables, columns, work groups and the driver's answers.

use crate::athena::driver::{cell, OpsErrorKind, ProgressView, ReplyView};
use crate::athena::glue::{table_location_of, RelationParts};
use crate::athena::metadata::{
    column_key, columns, listed, listing_sql, literal, or_none, probe_sql, relation_type,
    row_column, row_key, row_table, ColumnRow, ListingRow, TableRow,
};
use crate::athena::methods::{
    cleaned_table, conditions_of, enforces_location, limit_outcome, location_enforced, more_runs,
    QueryStats,
};
use crate::athena::storage::deleted_path;
use crate::json::{member, place_is_unique, text_at, JsonView};
use crate::number::decimal;
use crate::ordered::{ascending, found, inserted_is_found};
use crate::relation::{AdapterType, RelationType, ResolvedQuoting};
use crate::text::{ascii_upper, contains, replace_char, trim, unicode_lower};
use crate::value::{missing, Value};
use vstd::prelude::*;

verus! {

// ---------------------------------------------------------------------------
// Answers of the driver
// ---------------------------------------------------------------------------

/// An answer is the one cell of the column `result`; anything else is an error that names
/// the operation.
pub proof fn answers_are_one_cell(
    operation: Seq<char>,
    names: Seq<Seq<char>>,
    cells: Seq<Option<Seq<char>>>,
)
    ensures
        cell(operation, names, cells) is Ok <==> names.contains("result"@) && cells.len() == 1
            && cells[0] is Some,
        cell(operation, names, cells) matches Ok(t) ==> cells[0] == Some(t),
        cell(operation, names, cells) matches Err(e) ==> e.kind == OpsErrorKind::UnexpectedResult
            && e.message.take(10 + operation.len() as int) == "[athena] "@ + operation + seq![':'],
{
    reveal_strlit("[athena] ");
    reveal_strlit(": ");
    if let Err(e) = cell(operation, names, cells) {
        assert("[athena] "@.len() == 9 && ": "@.len() == 2);
        assert(e.message.take(10 + operation.len() as int) =~= "[athena] "@ + operation
            + seq![':']);
    }
}

// ---------------------------------------------------------------------------
// Tables and columns
// ---------------------------------------------------------------------------

/// Only what is called a view, in whatever case and with whatever white space round it, is
/// one.
pub proof fn views_are_called_so(table_type: Seq<char>)
    ensures
        relation_type(table_type) == RelationType::View <==> ascii_upper(trim(table_type))
            == "VIEW"@,
        relation_type(table_type) == RelationType::Table <==> ascii_upper(trim(table_type))
            != "VIEW"@,
{
}

/// A relation that is listed stands in the catalog that was asked for, under its own schema
/// and name.
pub proof fn listed_relations_stand_in_their_catalog(
    row: ListingRow,
    database: Seq<char>,
    adapter: AdapterType,
    quoting: ResolvedQuoting,
)
    ensures
        ({
            let r = listed(row, database, adapter, quoting);
            &&& r.database == database
            &&& r.schema == row.table_schema@
            &&& r.identifier == row.table_name@
            &&& r.adapter_type == adapter
            &&& r.quoting == quoting
            &&& r.relation_type == Some(
                if ascii_upper(trim(row.table_type@)) == "VIEW"@ {
                    RelationType::View
                } else {
                    RelationType::Table
                },
            )
        }),
{
}

/// A table of the catalog has the fields of its row; an empty comment is none.
pub proof fn tables_are_read_from_their_rows(row: TableRow)
    ensures
        ({
            let t = row_table(row);
            &&& t.metadata.materialization_type == row.table_type@
            &&& t.metadata.schema == row.table_schema@
            &&& t.metadata.name == row.table_name@
            &&& t.metadata.database == Some(row.table_database@)
            &&& t.metadata.owner == Some(row.table_owner@)
            &&& row.table_comment@.len() == 0 ==> t.metadata.comment is None
            &&& row.table_comment@.len() > 0 ==> t.metadata.comment == Some(row.table_comment@)
            &&& t.columns.len() == 0
            &&& t.unique_id is None
            &&& t.stats.len() == 1
            &&& t.stats[0].0 == "has_stats"@
            &&& t.stats[0].1.id == "has_stats"@
            &&& t.stats[0].1.label == "Has Stats?"@
            &&& !t.stats[0].1.value
            &&& !t.stats[0].1.included
        }),
        row_key(row) == unicode_lower(
            row.table_database@ + seq!['.'] + row.table_schema@ + seq!['.'] + row.table_name@,
        ),
{
    reveal_strlit("");
    reveal_strlit(".");
    assert("."@ =~= seq!['.']);
    assert(""@.len() == 0);
    if row.table_comment@.len() == 0 {
        assert(row.table_comment@ =~= ""@);
    }
}

/// A column has the fields of its row.
pub proof fn columns_are_read_from_their_rows(row: ColumnRow)
    ensures
        row_column(row).name == row.column_name@,
        row_column(row).index == row.column_index,
        row_column(row).data_type == row.column_type@,
        row.column_comment@.len() == 0 ==> row_column(row).comment is None,
        row.column_comment@.len() > 0 ==> row_column(row).comment == Some(row.column_comment@),
        column_key(row) == unicode_lower(
            row.table_database@ + seq!['.'] + row.table_schema@ + seq!['.'] + row.table_name@,
        ),
{
    reveal_strlit("");
    reveal_strlit(".");
    assert("."@ =~= seq!['.']);
    assert(""@.len() == 0);
    if row.column_comment@.len() == 0 {
        assert(row.column_comment@ =~= ""@);
    }
}

proof fn columns_ascend(rows: Seq<ColumnRow>, key: Seq<char>)
    ensures
        ascending(columns(rows)),
        ascending(or_none(found(columns(rows), key))),
    decreases rows.len(),
{
    if rows.len() > 0 {
        let init = rows.drop_last();
        let row = rows.last();
        let own = column_key(row);
        columns_ascend(init, key);
        columns_ascend(init, own);
        let prior = columns(init);
        let before = or_none(found(prior, own));
        inserted_is_found(before, row.column_name@, row_column(row), row.column_name@);
        inserted_is_found(prior, own, crate::ordered::inserted(before, row.column_name@, row_column(row)), key);
    }
}

/// The columns of a table are those of its rows, by name; of two rows for one column the
/// later counts, and a row changes nothing of another table or column.
pub proof fn columns_go_to_their_tables(
    rows: Seq<ColumnRow>,
    row: ColumnRow,
    table: Seq<char>,
    column: Seq<char>,
)
    ensures
        columns(Seq::empty()).len() == 0,
        found(or_none(found(columns(rows.push(row)), column_key(row))), row.column_name@) == Some(
            row_column(row),
        ),
        table != column_key(row) || column != row.column_name@ ==> found(
            or_none(found(columns(rows.push(row)), table)),
            column,
        ) == found(or_none(found(columns(rows), table)), column),
{
    assert(rows.push(row).drop_last() =~= rows);
    let own = column_key(row);
    columns_ascend(rows, own);
    let prior = columns(rows);
    let before = or_none(found(prior, own));
    inserted_is_found(before, row.column_name@, row_column(row), column);
    inserted_is_found(
        prior,
        own,
        crate::ordered::inserted(before, row.column_name@, row_column(row)),
        table,
    );
}

/// The names in a query for relations are compared in lower case and quoted, each quote
/// doubled; without a catalog the catalog is not compared.
pub proof fn relations_are_listed_by_schema(database: Seq<char>, schema: Seq<char>)
    ensures
        literal(schema) == replace_char(unicode_lower(schema), '\'', seq!['\'', '\'']),
        listing_sql(Seq::empty(), schema)
            == "select table_schema, table_name, table_type from information_schema.tables where lower(table_schema) = '"@
            + literal(schema) + seq!['\''],
        database.len() > 0 ==> listing_sql(database, schema) == listing_sql(Seq::empty(), schema)
            + " and lower(table_catalog) = '"@ + literal(database) + seq!['\''],
        probe_sql(database) == "select * from "@ + database + " where false limit 0"@,
{
    reveal_strlit("'");
    reveal_strlit("''");
    reveal_strlit("");
    assert("'"@ =~= seq!['\'']);
    assert("''"@ =~= seq!['\'', '\'']);
    assert(""@ =~= Seq::empty());
    let start = "select table_schema, table_name, table_type from information_schema.tables where lower(table_schema) = '"@
        + literal(schema) + "'"@;
    assert(start + ""@ =~= start);
    if database.len() > 0 {
        let more = " and lower(table_catalog) = '"@ + literal(database) + "'"@;
        assert(start + more =~= start + " and lower(table_catalog) = '"@ + literal(database)
            + seq!['\'']);
    }
}

// ---------------------------------------------------------------------------
// Work groups and statements
// ---------------------------------------------------------------------------

/// A work group enforces its location where it has one and enforces its configuration.
pub proof fn enforced_locations(
    work_group: Seq<char>,
    response: JsonView,
    replies: Seq<ReplyView>,
    at: int,
)
    requires
        0 <= at <= replies.len(),
    ensures
        enforces_location(response) <==> {
            let c = member(member(response, "WorkGroup"@), "Configuration"@);
            &&& text_at(member(c, "ResultConfiguration"@), "OutputLocation"@) is Some
            &&& member(c, "EnforceWorkGroupConfiguration"@) == JsonView::Bool(true)
        },
        at == replies.len() ==> (location_enforced(work_group, replies, at)
            matches ProgressView::Ask(r) && r.operation == "athena.get_work_group"@ && text_at(
            r.payload,
            "WorkGroup"@,
        ) == Some(work_group)),
        at < replies.len() && replies[at] is Ok ==> location_enforced(work_group, replies, at)
            == ProgressView::Got(enforces_location(replies[at]->Ok_0), at + 1),
{
    let f = Seq::<(Seq<char>, JsonView)>::empty().push(
        ("WorkGroup"@, JsonView::Text(work_group)),
    );
    place_is_unique(f, "WorkGroup"@, 0);
}

/// A table is emptied where it has a location, and left alone where it has none.
pub proof fn tables_are_emptied(
    relation: RelationParts,
    location: Option<Seq<char>>,
    replies: Seq<ReplyView>,
    at: int,
    n: int,
)
    requires
        table_location_of(relation, replies, at) == ProgressView::Got(location, n),
    ensures
        location is None ==> cleaned_table(relation, replies, at) == ProgressView::Got((), n),
        location matches Some(path) ==> cleaned_table(relation, replies, at) == deleted_path(
            path,
            replies,
            n,
        ),
{
}

/// Too many open partitions are reported by name, other errors stay errors, and a statement
/// that ran is reported with its rows and bytes.
pub proof fn open_partitions_are_reported(
    message: Seq<char>,
    stats: QueryStats,
)
    ensures
        contains(message, "TOO_MANY_OPEN_PARTITIONS"@) ==> limit_outcome(
            Err::<QueryStats, Seq<char>>(message),
        ) == Ok::<Seq<char>, Seq<char>>("TOO_MANY_OPEN_PARTITIONS"@),
        !contains(message, "TOO_MANY_OPEN_PARTITIONS"@) ==> limit_outcome(
            Err::<QueryStats, Seq<char>>(message),
        ) == Err::<Seq<char>, Seq<char>>(message),
        limit_outcome(Ok::<QueryStats, Seq<char>>(stats)) == Ok::<Seq<char>, Seq<char>>(
            "{\"rowcount\":"@ + decimal(stats.rows_affected as int)
                + ",\"data_scanned_in_bytes\":"@ + decimal(
                if stats.bytes_processed is Some {
                    stats.bytes_processed->0 as int
                } else {
                    0
                },
            ) + "}"@,
        ),
        more_runs(message) == "ICEBERG_"@ + ascii_upper(message) + "_MORE_RUNS_NEEDED"@,
{
}

/// A condition that is a string is one condition; others are walked.
pub proof fn conditions_are_taken_whole(value: Value)
    ensures
        value.string matches Some(s) ==> conditions_of(value) == Ok::<Seq<Seq<char>>, Seq<char>>(
            seq![s@],
        ),
        value.string is None ==> (value.items matches Some(items) ==> (conditions_of(value)
            matches Ok(all) && all.len() == items@.len() && forall|i: int|
            0 <= i < all.len() ==> (#[trigger] all[i]) == items@[i].text@)),
        value.string is None && value.items is None && missing(value) ==> conditions_of(value)
            == Ok::<Seq<Seq<char>>, Seq<char>>(Seq::empty()),
        value.string is None && value.items is None && !missing(value) ==> conditions_of(
            value,
        ) is Err,
{
}

} // verus!
