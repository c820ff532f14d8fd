//! Reads of the Athena catalog through `information_schema`: the queries, and what their
//! rows mean.

use crate::athena::driver::{OpsError, OpsErrorKind};
use crate::ordered::{ascending, find, found, insert, inserted, inserted_is_found, keyed};
use crate::relation::{AdapterType, Relation, RelationType, RelationView, ResolvedQuoting};
use crate::text::{
    ascii_upper, replace_char, replaced, same, to_ascii_upper, to_lowercase, trim, trimmed,
    unicode_lower,
};
use vstd::prelude::*;

verus! {

/// A name as a literal to compare with: lower case, with its single quotes doubled.
pub open spec fn literal(value: Seq<char>) -> Seq<char> {
    replace_char(unicode_lower(value), '\'', "''"@)
}

/// Athena folds every unquoted identifier to lowercase and Glue stores names
/// lowercased, so `information_schema` literals are compared in lowercase.
/// Single quotes are doubled to keep the literal well-formed.
pub fn athena_string_literal(value: &str) -> (r: String)
    ensures
        r@ == literal(value@),
{
    replaced(to_lowercase(value).as_str(), '\'', "''")
}

pub open spec fn relation_type(table_type: Seq<char>) -> RelationType {
    if ascii_upper(trim(table_type)) == "VIEW"@ {
        RelationType::View
    } else {
        RelationType::Table
    }
}

/// The type of a relation by its `information_schema.tables.table_type`. Trino reports
/// `BASE TABLE` and `VIEW`; anything else is taken for a table.
pub fn relation_type_from_table_type(table_type: &str) -> (r: RelationType)
    ensures
        r == relation_type(table_type@),
{
    if same(to_ascii_upper(trimmed(table_type).as_str()).as_str(), "VIEW") {
        RelationType::View
    } else {
        RelationType::Table
    }
}

// ---------------------------------------------------------------------------
// Rows
// ---------------------------------------------------------------------------

/// A row of the catalog's tables.
pub struct TableRow {
    pub table_database: String,
    pub table_schema: String,
    pub table_name: String,
    pub table_type: String,
    pub table_comment: String,
    pub table_owner: String,
}

/// A row of the catalog's columns.
pub struct ColumnRow {
    pub table_database: String,
    pub table_schema: String,
    pub table_name: String,
    pub column_name: String,
    pub column_index: i64,
    pub column_type: String,
    pub column_comment: String,
}

/// A row of a listing of tables.
pub struct ListingRow {
    pub table_schema: String,
    pub table_name: String,
    pub table_type: String,
}

// ---------------------------------------------------------------------------
// Tables and columns of a catalog
// ---------------------------------------------------------------------------

#[derive(Debug)]
pub struct TableMetadata {
    pub materialization_type: String,
    pub schema: String,
    pub name: String,
    pub database: Option<String>,
    pub comment: Option<String>,
    pub owner: Option<String>,
}

pub struct TableMetadataView {
    pub materialization_type: Seq<char>,
    pub schema: Seq<char>,
    pub name: Seq<char>,
    pub database: Option<Seq<char>>,
    pub comment: Option<Seq<char>>,
    pub owner: Option<Seq<char>>,
}

impl View for TableMetadata {
    type V = TableMetadataView;

    open spec fn view(&self) -> TableMetadataView {
        TableMetadataView {
            materialization_type: self.materialization_type@,
            schema: self.schema@,
            name: self.name@,
            database: self.database.deep_view(),
            comment: self.comment.deep_view(),
            owner: self.owner.deep_view(),
        }
    }
}

/// A statistic of a table, with a value that is true or false.
#[derive(Debug)]
pub struct CatalogNodeStats {
    pub id: String,
    pub label: String,
    pub value: bool,
    pub description: Option<String>,
    pub included: bool,
}

pub struct CatalogNodeStatsView {
    pub id: Seq<char>,
    pub label: Seq<char>,
    pub value: bool,
    pub description: Option<Seq<char>>,
    pub included: bool,
}

impl DeepView for CatalogNodeStats {
    type V = CatalogNodeStatsView;

    open spec fn deep_view(&self) -> CatalogNodeStatsView {
        CatalogNodeStatsView {
            id: self.id@,
            label: self.label@,
            value: self.value,
            description: self.description.deep_view(),
            included: self.included,
        }
    }
}

#[derive(Debug)]
pub struct ColumnMetadata {
    pub name: String,
    pub index: i128,
    pub data_type: String,
    pub comment: Option<String>,
}

pub struct ColumnMetadataView {
    pub name: Seq<char>,
    pub index: int,
    pub data_type: Seq<char>,
    pub comment: Option<Seq<char>>,
}

impl DeepView for ColumnMetadata {
    type V = ColumnMetadataView;

    open spec fn deep_view(&self) -> ColumnMetadataView {
        ColumnMetadataView {
            name: self.name@,
            index: self.index as int,
            data_type: self.data_type@,
            comment: self.comment.deep_view(),
        }
    }
}

/// A table of the catalog; its columns are filled in later.
#[derive(Debug)]
pub struct CatalogTable {
    pub metadata: TableMetadata,
    pub columns: Vec<(String, ColumnMetadata)>,
    pub stats: Vec<(String, CatalogNodeStats)>,
    pub unique_id: Option<String>,
}

pub struct CatalogTableView {
    pub metadata: TableMetadataView,
    pub columns: Seq<(Seq<char>, ColumnMetadataView)>,
    pub stats: Seq<(Seq<char>, CatalogNodeStatsView)>,
    pub unique_id: Option<Seq<char>>,
}

impl DeepView for CatalogTable {
    type V = CatalogTableView;

    open spec fn deep_view(&self) -> CatalogTableView {
        CatalogTableView {
            metadata: self.metadata@,
            columns: keyed(self.columns@),
            stats: keyed(self.stats@),
            unique_id: self.unique_id.deep_view(),
        }
    }
}

/// The columns of one relation, by their names.
#[derive(Debug)]
pub struct RelationColumns {
    pub columns: Vec<(String, ColumnMetadata)>,
}

impl DeepView for RelationColumns {
    type V = Seq<(Seq<char>, ColumnMetadataView)>;

    open spec fn deep_view(&self) -> Seq<(Seq<char>, ColumnMetadataView)> {
        keyed(self.columns@)
    }
}

/// The key of a relation: its dotted name in lower case.
pub open spec fn qualified(
    database: Seq<char>,
    schema: Seq<char>,
    name: Seq<char>,
) -> Seq<char> {
    unicode_lower(database + "."@ + schema + "."@ + name)
}

fn qualified_name(database: &str, schema: &str, name: &str) -> (r: String)
    ensures
        r@ == qualified(database@, schema@, name@),
{
    to_lowercase(
        database.to_owned().concat(".").concat(schema).concat(".").concat(name).as_str(),
    )
}

/// A comment, where there is one.
pub open spec fn remark(comment: Seq<char>) -> Option<Seq<char>> {
    if comment == ""@ {
        None
    } else {
        Some(comment)
    }
}

fn remark_of(comment: &str) -> (r: Option<String>)
    ensures
        r.deep_view() == remark(comment@),
{
    if same(comment, "") {
        None
    } else {
        Some(comment.to_owned())
    }
}

pub open spec fn row_key(row: TableRow) -> Seq<char> {
    qualified(row.table_database@, row.table_schema@, row.table_name@)
}

pub open spec fn no_stats() -> CatalogNodeStatsView {
    CatalogNodeStatsView {
        id: "has_stats"@,
        label: "Has Stats?"@,
        value: false,
        description: Some("Indicates whether there are statistics for this table"@),
        included: false,
    }
}

/// The table that a row tells of.
pub open spec fn row_table(row: TableRow) -> CatalogTableView {
    CatalogTableView {
        metadata: TableMetadataView {
            materialization_type: row.table_type@,
            schema: row.table_schema@,
            name: row.table_name@,
            database: Some(row.table_database@),
            comment: remark(row.table_comment@),
            owner: Some(row.table_owner@),
        },
        columns: Seq::empty(),
        stats: Seq::empty().push(("has_stats"@, no_stats())),
        unique_id: None,
    }
}

/// The tables of a catalog by their keys. The first row of a key tells of its table.
pub open spec fn catalog(rows: Seq<TableRow>) -> Seq<(Seq<char>, CatalogTableView)>
    decreases rows.len(),
{
    if rows.len() == 0 {
        Seq::empty()
    } else {
        let prior = catalog(rows.drop_last());
        let key = row_key(rows.last());
        if found(prior, key) is Some {
            prior
        } else {
            inserted(prior, key, row_table(rows.last()))
        }
    }
}

/// Every key occurs once, in ascending order, with the table of the first row that has it.
pub proof fn catalog_holds_first_rows(rows: Seq<TableRow>, i: int)
    requires
        0 <= i < rows.len(),
        forall|j: int| 0 <= j < i ==> row_key(#[trigger] rows[j]) != row_key(rows[i]),
    ensures
        ascending(catalog(rows)),
        found(catalog(rows), row_key(rows[i])) == Some(row_table(rows[i])),
    decreases rows.len(),
{
    catalog_ascends(rows);
    let rest = rows.drop_last();
    let prior = catalog(rest);
    let key = row_key(rows.last());
    catalog_ascends(rest);
    if i < rest.len() {
        assert(rest[i] == rows[i]);
        assert forall|j: int| 0 <= j < i implies row_key(#[trigger] rest[j]) != row_key(
            rest[i],
        ) by {
            assert(rest[j] == rows[j]);
        }
        catalog_holds_first_rows(rest, i);
        if found(prior, key) is None {
            inserted_is_found(prior, key, row_table(rows.last()), row_key(rows[i]));
        }
    } else {
        assert forall|j: int| 0 <= j < rest.len() implies row_key(#[trigger] rest[j]) != key by {
            assert(rest[j] == rows[j]);
        }
        catalog_lacks(rest, key);
        inserted_is_found(prior, key, row_table(rows.last()), key);
    }
}

proof fn catalog_ascends(rows: Seq<TableRow>)
    ensures
        ascending(catalog(rows)),
    decreases rows.len(),
{
    if rows.len() > 0 {
        let rest = rows.drop_last();
        catalog_ascends(rest);
        inserted_is_found(
            catalog(rest),
            row_key(rows.last()),
            row_table(rows.last()),
            row_key(rows.last()),
        );
    }
}

proof fn catalog_lacks(rows: Seq<TableRow>, key: Seq<char>)
    requires
        forall|j: int| 0 <= j < rows.len() ==> row_key(#[trigger] rows[j]) != key,
    ensures
        found(catalog(rows), key) is None,
    decreases rows.len(),
{
    if rows.len() > 0 {
        let rest = rows.drop_last();
        assert(row_key(rows[rows.len() - 1]) != key);
        assert forall|j: int| 0 <= j < rest.len() implies row_key(#[trigger] rest[j]) != key by {
            assert(rest[j] == rows[j]);
        }
        catalog_lacks(rest, key);
        catalog_ascends(rest);
        inserted_is_found(catalog(rest), row_key(rows.last()), row_table(rows.last()), key);
    }
}

fn table_of(row: &TableRow) -> (r: CatalogTable)
    ensures
        r.deep_view() == row_table(*row),
{
    let stats = CatalogNodeStats {
        id: "has_stats".to_owned(),
        label: "Has Stats?".to_owned(),
        value: false,
        description: Some("Indicates whether there are statistics for this table".to_owned()),
        included: false,
    };
    let mut all: Vec<(String, CatalogNodeStats)> = Vec::new();
    all.push(("has_stats".to_owned(), stats));
    let r = CatalogTable {
        metadata: TableMetadata {
            materialization_type: row.table_type.clone(),
            schema: row.table_schema.clone(),
            name: row.table_name.clone(),
            database: Some(row.table_database.clone()),
            comment: remark_of(row.table_comment.as_str()),
            owner: Some(row.table_owner.clone()),
        },
        columns: Vec::new(),
        stats: all,
        unique_id: None,
    };
    assert(keyed(r.columns@) =~= Seq::empty());
    assert(keyed(r.stats@) =~= Seq::empty().push(("has_stats"@, no_stats())));
    r
}

pub open spec fn column_key(row: ColumnRow) -> Seq<char> {
    qualified(row.table_database@, row.table_schema@, row.table_name@)
}

/// The column that a row tells of.
pub open spec fn row_column(row: ColumnRow) -> ColumnMetadataView {
    ColumnMetadataView {
        name: row.column_name@,
        index: row.column_index as int,
        data_type: row.column_type@,
        comment: remark(row.column_comment@),
    }
}

pub open spec fn or_none(
    columns: Option<Seq<(Seq<char>, ColumnMetadataView)>>,
) -> Seq<(Seq<char>, ColumnMetadataView)> {
    match columns {
        Some(c) => c,
        None => Seq::empty(),
    }
}

/// The columns of a catalog by the keys of their relations. The last row of a column
/// tells of it.
pub open spec fn columns(rows: Seq<ColumnRow>) -> Seq<
    (Seq<char>, Seq<(Seq<char>, ColumnMetadataView)>),
>
    decreases rows.len(),
{
    if rows.len() == 0 {
        Seq::empty()
    } else {
        let prior = columns(rows.drop_last());
        let row = rows.last();
        let key = column_key(row);
        inserted(
            prior,
            key,
            inserted(or_none(found(prior, key)), row.column_name@, row_column(row)),
        )
    }
}

fn column_of(row: &ColumnRow) -> (r: ColumnMetadata)
    ensures
        r.deep_view() == row_column(*row),
{
    ColumnMetadata {
        name: row.column_name.clone(),
        index: row.column_index as i128,
        data_type: row.column_type.clone(),
        comment: remark_of(row.column_comment.as_str()),
    }
}

impl ColumnMetadata {
    pub fn copy(&self) -> (r: ColumnMetadata)
        ensures
            r.deep_view() == self.deep_view(),
    {
        ColumnMetadata {
            name: self.name.clone(),
            index: self.index,
            data_type: self.data_type.clone(),
            comment: match &self.comment {
                Some(c) => Some(c.clone()),
                None => None,
            },
        }
    }
}

impl RelationColumns {
    pub fn copy(&self) -> (r: RelationColumns)
        ensures
            r.deep_view() == self.deep_view(),
    {
        let mut copied: Vec<(String, ColumnMetadata)> = Vec::new();
        let mut i: usize = 0;
        while i < self.columns.len()
            invariant
                i <= self.columns.len(),
                keyed(copied@) =~= keyed(self.columns@).take(i as int),
            decreases self.columns.len() - i,
        {
            let ghost prior = keyed(copied@);
            let column = self.columns[i].1.copy();
            copied.push((self.columns[i].0.clone(), column));
            assert(keyed(copied@) =~= prior.push((self.columns@[i as int].0@, column.deep_view())));
            assert(keyed(self.columns@).take(i + 1) =~= prior.push(keyed(self.columns@)[i as int]));
            i += 1;
        }
        assert(keyed(self.columns@).take(i as int) =~= keyed(self.columns@));
        RelationColumns { columns: copied }
    }
}

// ---------------------------------------------------------------------------
// Queries
// ---------------------------------------------------------------------------

/// The query that lists the relations of a schema. The catalog is left out where none is
/// resolved: `information_schema` is that of the connection's catalog anyway.
pub open spec fn listing_sql(catalog: Seq<char>, schema: Seq<char>) -> Seq<char> {
    "select table_schema, table_name, table_type from information_schema.tables where lower(table_schema) = '"@
        + literal(schema) + "'"@ + (if catalog.len() == 0 {
        ""@
    } else {
        " and lower(table_catalog) = '"@ + literal(catalog) + "'"@
    })
}

pub fn list_relations_sql(catalog: &str, schema: &str) -> (r: String)
    ensures
        r@ == listing_sql(catalog@, schema@),
{
    let filter = if catalog.is_empty() {
        "".to_owned()
    } else {
        " and lower(table_catalog) = '".to_owned().concat(
            athena_string_literal(catalog).as_str(),
        ).concat("'")
    };
    "select table_schema, table_name, table_type from information_schema.tables where lower(table_schema) = '".to_owned().concat(
    athena_string_literal(schema).as_str()).concat("'").concat(filter.as_str())
}

/// The query that fetches no row and so tells of a relation's schema alone.
pub open spec fn probe_sql(sql_name: Seq<char>) -> Seq<char> {
    "select * from "@ + sql_name + " where false limit 0"@
}

pub fn schema_probe_sql(sql_name: &str) -> (r: String)
    ensures
        r@ == probe_sql(sql_name@),
{
    "select * from ".to_owned().concat(sql_name).concat(" where false limit 0")
}

/// The relation that a row of a listing tells of.
pub open spec fn listed(
    row: ListingRow,
    catalog: Seq<char>,
    adapter_type: AdapterType,
    quoting: ResolvedQuoting,
) -> RelationView {
    RelationView {
        adapter_type,
        database: catalog,
        schema: row.table_schema@,
        identifier: row.table_name@,
        relation_type: Some(relation_type(row.table_type@)),
        quoting,
    }
}

/// The relations of a schema by the rows of its listing, in their order.
pub fn list_relations(
    adapter_type: AdapterType,
    quoting: ResolvedQuoting,
    resolved_catalog: &str,
    rows: &Vec<ListingRow>,
) -> (r: Vec<Relation>)
    ensures
        r.len() == rows.len(),
        forall|i: int|
            0 <= i < rows.len() ==> (#[trigger] r[i])@ == listed(
                rows[i],
                resolved_catalog@,
                adapter_type,
                quoting,
            ),
{
    let mut r: Vec<Relation> = Vec::new();
    let mut i: usize = 0;
    while i < rows.len()
        invariant
            i <= rows.len(),
            r.len() == i,
            forall|k: int|
                0 <= k < i ==> (#[trigger] r[k])@ == listed(
                    rows[k],
                    resolved_catalog@,
                    adapter_type,
                    quoting,
                ),
        decreases rows.len() - i,
    {
        r.push(
            Relation::new(
                adapter_type,
                resolved_catalog,
                rows[i].table_schema.as_str(),
                rows[i].table_name.as_str(),
                Some(relation_type_from_table_type(rows[i].table_type.as_str())),
                quoting,
            ),
        );
        i += 1;
    }
    r
}

// ---------------------------------------------------------------------------
// The adapter
// ---------------------------------------------------------------------------

/// Reads metadata of Athena by the settings of its engine.
#[derive(Debug)]
pub struct AthenaMetadataAdapter {
    pub quoting: ResolvedQuoting,
}

impl AthenaMetadataAdapter {
    pub fn new(quoting: ResolvedQuoting) -> (r: AthenaMetadataAdapter)
        ensures
            r.quoting == quoting,
    {
        AthenaMetadataAdapter { quoting }
    }

    pub fn adapter_type(&self) -> (r: AdapterType)
        ensures
            r == AdapterType::Athena,
    {
        AdapterType::Athena
    }

    /// The tables of the catalog that rows tell of.
    pub fn build_schemas_from_stats_sql(&self, rows: &Vec<TableRow>) -> (r: Vec<
        (String, CatalogTable),
    >)
        ensures
            keyed(r@) == catalog(rows@),
    {
        let ghost all = rows@;
        let mut r: Vec<(String, CatalogTable)> = Vec::new();
        let mut i: usize = 0;
        assert(keyed(r@) =~= catalog(all.take(0)));
        while i < rows.len()
            invariant
                i <= rows.len(),
                all == rows@,
                keyed(r@) == catalog(all.take(i as int)),
            decreases rows.len() - i,
        {
            assert(all.take(i + 1).drop_last() =~= all.take(i as int));
            assert(all.take(i + 1).last() == all[i as int]);
            let row = &rows[i];
            let key = qualified_name(
                row.table_database.as_str(),
                row.table_schema.as_str(),
                row.table_name.as_str(),
            );
            if find(&r, key.as_str()).is_none() {
                insert(&mut r, key, table_of(row));
            }
            i += 1;
        }
        assert(all.take(i as int) =~= all);
        r
    }

    /// The columns of the catalog that rows tell of, by the keys of their relations.
    pub fn build_columns_from_get_columns(&self, rows: &Vec<ColumnRow>) -> (r: Vec<
        (String, RelationColumns),
    >)
        ensures
            keyed(r@) == columns(rows@),
    {
        let ghost all = rows@;
        let mut r: Vec<(String, RelationColumns)> = Vec::new();
        let mut i: usize = 0;
        assert(keyed(r@) =~= columns(all.take(0)));
        while i < rows.len()
            invariant
                i <= rows.len(),
                all == rows@,
                keyed(r@) == columns(all.take(i as int)),
            decreases rows.len() - i,
        {
            assert(all.take(i + 1).drop_last() =~= all.take(i as int));
            assert(all.take(i + 1).last() == all[i as int]);
            let row = &rows[i];
            let key = qualified_name(
                row.table_database.as_str(),
                row.table_schema.as_str(),
                row.table_name.as_str(),
            );
            let mut of_relation = match find(&r, key.as_str()) {
                Some(known) => known.copy(),
                None => {
                    let none = RelationColumns { columns: Vec::new() };
                    assert(keyed(none.columns@) =~= Seq::empty());
                    none
                },
            };
            insert(&mut of_relation.columns, row.column_name.clone(), column_of(row));
            insert(&mut r, key, of_relation);
            i += 1;
        }
        assert(all.take(i as int) =~= all);
        r
    }

    /// The relations of a schema by the rows of its listing.
    pub fn list_relations(&self, resolved_catalog: &str, rows: &Vec<ListingRow>) -> (r: Vec<
        Relation,
    >)
        ensures
            r.len() == rows.len(),
            forall|i: int|
                0 <= i < rows.len() ==> (#[trigger] r[i])@ == listed(
                    rows[i],
                    resolved_catalog@,
                    AdapterType::Athena,
                    self.quoting,
                ),
    {
        list_relations(AdapterType::Athena, self.quoting, resolved_catalog, rows)
    }

    /// Schemas are not listed by patterns.
    pub fn list_relations_schemas_by_patterns(&self) -> (r: OpsError)
        ensures
            r.kind == OpsErrorKind::NotSupported,
            r.message@
                == "list_relations_schemas_by_patterns is not yet implemented for the Athena metadata adapter"@,
    {
        OpsError {
            kind: OpsErrorKind::NotSupported,
            message: "list_relations_schemas_by_patterns is not yet implemented for the Athena metadata adapter".to_owned(),
        }
    }

    /// Glue exposes no time of the last change, so there is no freshness to read.
    pub fn freshness(&self) -> (r: OpsError)
        ensures
            r.kind == OpsErrorKind::NotSupported,
            r.message@
                == "metadata-based source freshness is not yet implemented for the Athena adapter"@,
    {
        OpsError {
            kind: OpsErrorKind::NotSupported,
            message: "metadata-based source freshness is not yet implemented for the Athena adapter".to_owned(),
        }
    }

    pub fn supports_relation_progress(&self) -> (r: bool)
        ensures
            !r,
    {
        false
    }
}

} // verus!
