//! Tables in the Glue catalog.

use crate::athena::driver::{
    call, called, fail, failed, replies_view, then_do, within, OpsErrorKind, Progress, ProgressView,
    Reply, ReplyView,
};
use crate::athena::s3::{in_s3_tables, is_s3_tables_database};
use crate::athena::table_type::{glue_type, value_of, TableType};
use crate::json::{fields, lookup, member, opt, text_at, Fields, FieldsView, Json, JsonView};
use crate::text::{ascii_lower, same, same_ignoring_case};
use vstd::prelude::*;

verus! {

/// The relation components that the operations need.
#[derive(Debug)]
pub struct RelationParts {
    pub database: Option<String>,
    pub schema: String,
    pub identifier: String,
    /// The part of the S3 path that stands for the table, where the relation has its own.
    pub s3_path_table_part: Option<String>,
    /// The relation in SQL, for messages.
    pub rendered: String,
}

/// A Glue table as the adapter reads it back.
#[derive(Debug, PartialEq)]
pub struct GlueTable {
    pub table_type: TableType,
    pub location: Option<String>,
}

pub struct GlueTableView {
    pub table_type: TableType,
    pub location: Option<Seq<char>>,
}

impl DeepView for GlueTable {
    type V = GlueTableView;

    open spec fn deep_view(&self) -> GlueTableView {
        GlueTableView { table_type: self.table_type, location: opt(self.location) }
    }
}

/// The operations of the adapter on Glue, S3, Athena and Lake Formation.
pub struct AthenaOps {
    pub work_group: String,
}

pub const DEFAULT_WORK_GROUP: &'static str = "primary";

pub open spec fn opt_ref(s: Option<&String>) -> Option<Seq<char>> {
    match s {
        Some(t) => Some(t@),
        None => None,
    }
}

pub open spec fn text(s: Seq<char>) -> JsonView {
    JsonView::Text(s)
}

pub fn opt_as_str<'a>(s: &'a Option<String>) -> (r: Option<&'a str>)
    ensures
        crate::json::opt_str(r) == opt(*s),
{
    match s {
        Some(t) => Some(t.as_str()),
        None => None,
    }
}

// ---------------------------------------------------------------------------
// Catalogs
// ---------------------------------------------------------------------------

/// The account that the connection's credentials belong to. An engine that knows it
/// answers in the driver's place: see [`crate::athena::facts`].
pub open spec fn account_id(replies: Seq<ReplyView>, at: int) -> ProgressView<Seq<char>> {
    then_do(
        called(replies, at, "sts.get_caller_identity"@, JsonView::Object(seq![])),
        |identity: JsonView, n: int|
            match text_at(identity, "Account"@) {
                Some(account) => ProgressView::Got(account, n),
                None => failed(
                    OpsErrorKind::UnexpectedResult,
                    "[athena] sts.get_caller_identity returned no account id"@,
                    n,
                ),
            },
    )
}

/// The catalog id that a data catalog of Athena stands for: that of a catalog backed by
/// Glue.
pub open spec fn data_catalog_id(response: JsonView) -> Option<Seq<char>> {
    let catalog = member(response, "DataCatalog"@);
    if text_at(catalog, "Type"@) == Some("GLUE"@) {
        text_at(member(catalog, "Parameters"@), "catalog-id"@)
    } else {
        None
    }
}

/// The Glue catalog id of a dbt database: that of the account for the default catalog and
/// for S3 Tables, otherwise that of the Athena data catalog of that name, where Glue backs
/// it. A relation without a database has none.
pub open spec fn catalog_id(database: Option<Seq<char>>, replies: Seq<ReplyView>, at: int) -> ProgressView<
    Option<Seq<char>>,
> {
    match database {
        None => ProgressView::Got(None, at),
        Some(d) => if d.len() == 0 {
            ProgressView::Got(None, at)
        } else if ascii_lower(d) == ascii_lower("awsdatacatalog"@) {
            then_do(
                account_id(replies, at),
                |account: Seq<char>, n: int| ProgressView::Got(Some(account), n),
            )
        } else if in_s3_tables(database) {
            then_do(
                account_id(replies, at),
                |account: Seq<char>, n: int| ProgressView::Got(Some(account + ":"@ + d), n),
            )
        } else {
            then_do(
                called(
                    replies,
                    at,
                    "athena.get_data_catalog"@,
                    JsonView::Object(seq![("Name"@, text(d))]),
                ),
                |response: JsonView, n: int| ProgressView::Got(data_catalog_id(response), n),
            )
        },
    }
}

/// What names the database of a table to Glue.
pub open spec fn scope(catalog: Option<Seq<char>>, schema: Seq<char>) -> FieldsView {
    match catalog {
        Some(id) => seq![("CatalogId"@, text(id)), ("DatabaseName"@, text(schema))],
        None => seq![("DatabaseName"@, text(schema))],
    }
}

/// The Glue table of a relation, where there is one.
pub open spec fn glue_table_json(
    relation: RelationParts,
    replies: Seq<ReplyView>,
    at: int,
) -> ProgressView<Option<JsonView>> {
    then_do(
        catalog_id(opt(relation.database), replies, at),
        |catalog: Option<Seq<char>>, n: int|
            then_do(
                called(
                    replies,
                    n,
                    "glue.get_table"@,
                    JsonView::Object(
                        scope(catalog, relation.schema@).push(
                            ("Name"@, text(relation.identifier@)),
                        ),
                    ),
                ),
                |response: JsonView, m: int|
                    ProgressView::Got(
                        match lookup(response, "Table"@) {
                            Some(table) => if table == JsonView::Null {
                                None
                            } else {
                                Some(table)
                            },
                            None => None,
                        },
                        m,
                    ),
            ),
    )
}

pub open spec fn table_type_of_json(table: JsonView, rendered: Seq<char>) -> Result<
    TableType,
    Seq<char>,
> {
    glue_type(
        text_at(table, "TableType"@),
        text_at(member(table, "Parameters"@), "table_type"@),
        rendered,
    )
}

/// The storage location that a table or a partition names.
pub open spec fn location_of(v: JsonView) -> Option<Seq<char>> {
    text_at(member(v, "StorageDescriptor"@), "Location"@)
}

/// The type and the location of the Glue table of a relation, where there is one.
pub open spec fn glue_table_of(
    relation: RelationParts,
    replies: Seq<ReplyView>,
    at: int,
) -> ProgressView<Option<GlueTableView>> {
    then_do(
        glue_table_json(relation, replies, at),
        |table: Option<JsonView>, n: int|
            match table {
                None => ProgressView::Got(None, n),
                Some(t) => match table_type_of_json(t, relation.rendered@) {
                    Ok(table_type) => ProgressView::Got(
                        Some(GlueTableView { table_type, location: location_of(t) }),
                        n,
                    ),
                    Err(e) => failed(OpsErrorKind::UnexpectedResult, e, n),
                },
            },
    )
}

pub open spec fn no_location(rendered: Seq<char>, table_type: TableType) -> Seq<char> {
    "Relation "@ + rendered + " is of type '"@ + value_of(table_type)
        + "' which requires a location, but no location returned by Glue."@
}

/// The location of the data of a physical table; none of a view or of a table that does
/// not exist. A physical table without a location is an error.
pub open spec fn table_location_of(
    relation: RelationParts,
    replies: Seq<ReplyView>,
    at: int,
) -> ProgressView<Option<Seq<char>>> {
    then_do(
        glue_table_of(relation, replies, at),
        |table: Option<GlueTableView>, n: int|
            match table {
                None => ProgressView::Got(None, n),
                Some(t) => if t.table_type == TableType::Table || t.table_type
                    == TableType::Iceberg {
                    match t.location {
                        Some(location) => if location.len() > 0 {
                            ProgressView::Got(Some(location), n)
                        } else {
                            failed(
                                OpsErrorKind::UnexpectedResult,
                                no_location(relation.rendered@, t.table_type),
                                n,
                            )
                        },
                        None => failed(
                            OpsErrorKind::UnexpectedResult,
                            no_location(relation.rendered@, t.table_type),
                            n,
                        ),
                    }
                } else {
                    ProgressView::Got(None, n)
                },
            },
    )
}

impl AthenaOps {
    pub fn new(work_group: Option<&str>) -> (r: AthenaOps)
        ensures
            r.work_group@ == match work_group {
                Some(name) => name@,
                None => DEFAULT_WORK_GROUP@,
            },
    {
        AthenaOps {
            work_group: match work_group {
                Some(name) => name.to_owned(),
                None => DEFAULT_WORK_GROUP.to_owned(),
            },
        }
    }

    /// The account that the connection's credentials belong to.
    pub fn account_id(replies: &Vec<Reply>, at: usize) -> (r: Progress<String>)
        requires
            at <= replies.len(),
        ensures
            r@ == account_id(replies_view(replies@), at as int),
            within(r, at, replies@),
    {
        match call(replies, at, "sts.get_caller_identity", fields().object()) {
            Progress::Got(identity, n) => match identity.str_at("Account") {
                Some(account) => Progress::Got(account.to_owned(), n),
                None => fail(
                    OpsErrorKind::UnexpectedResult,
                    "[athena] sts.get_caller_identity returned no account id".to_owned(),
                    n,
                ),
            },
            Progress::Ask(r) => Progress::Ask(r),
            Progress::Fail(e, n) => Progress::Fail(e, n),
        }
    }

    /// The Glue catalog id of a dbt database.
    pub fn catalog_id(database: Option<&str>, replies: &Vec<Reply>, at: usize) -> (r: Progress<
        Option<String>,
    >)
        requires
            at <= replies.len(),
        ensures
            r@ == catalog_id(crate::json::opt_str(database), replies_view(replies@), at as int),
            within(r, at, replies@),
    {
        let d = match database {
            Some(d) => d,
            None => {
                return Progress::Got(None, at);
            },
        };
        if d.is_empty() {
            return Progress::Got(None, at);
        }
        if same_ignoring_case(d, "awsdatacatalog") {
            return match Self::account_id(replies, at) {
                Progress::Got(account, n) => Progress::Got(Some(account), n),
                Progress::Ask(r) => Progress::Ask(r),
                Progress::Fail(e, n) => Progress::Fail(e, n),
            };
        }
        if is_s3_tables_database(database) {
            return match Self::account_id(replies, at) {
                Progress::Got(account, n) => Progress::Got(Some(account.concat(":").concat(d)), n),
                Progress::Ask(r) => Progress::Ask(r),
                Progress::Fail(e, n) => Progress::Fail(e, n),
            };
        }
        match call(replies, at, "athena.get_data_catalog", fields().text("Name", d).object()) {
            Progress::Got(response, n) => Progress::Got(catalog_of_response(&response), n),
            Progress::Ask(r) => Progress::Ask(r),
            Progress::Fail(e, n) => Progress::Fail(e, n),
        }
    }

    /// The Glue table of a relation, where there is one.
    pub fn get_glue_table(relation: &RelationParts, replies: &Vec<Reply>, at: usize) -> (r: Progress<
        Option<Json>,
    >)
        requires
            at <= replies.len(),
        ensures
            r@ == glue_table_json(*relation, replies_view(replies@), at as int),
            within(r, at, replies@),
    {
        let (catalog, n) = match Self::catalog_id(opt_as_str(&relation.database), replies, at) {
            Progress::Got(catalog, n) => (catalog, n),
            Progress::Ask(r) => {
                return Progress::Ask(r);
            },
            Progress::Fail(e, n) => {
                return Progress::Fail(e, n);
            },
        };
        let payload = scope_fields(&catalog, relation.schema.as_str()).text(
            "Name",
            relation.identifier.as_str(),
        );
        match call(replies, n, "glue.get_table", payload.object()) {
            Progress::Got(response, m) => match response.get("Table") {
                Some(table) => if table.is_null() {
                    Progress::Got(None, m)
                } else {
                    Progress::Got(Some(table.copy()), m)
                },
                None => Progress::Got(None, m),
            },
            Progress::Ask(r) => Progress::Ask(r),
            Progress::Fail(e, m) => Progress::Fail(e, m),
        }
    }

    /// The type of a Glue table.
    pub fn table_type_of(table: &Json, relation: &RelationParts) -> (r: Result<TableType, String>)
        ensures
            crate::athena::table_type::outcome(r) == table_type_of_json(
                table@,
                relation.rendered@,
            ),
    {
        let parameter = match table.get("Parameters") {
            Some(parameters) => parameters.str_at("table_type"),
            None => None,
        };
        TableType::from_glue(table.str_at("TableType"), parameter, relation.rendered.as_str())
    }

    /// The type and the location of the Glue table of a relation.
    pub fn glue_table(relation: &RelationParts, replies: &Vec<Reply>, at: usize) -> (r: Progress<
        Option<GlueTable>,
    >)
        requires
            at <= replies.len(),
        ensures
            r@ == glue_table_of(*relation, replies_view(replies@), at as int),
            within(r, at, replies@),
    {
        match Self::get_glue_table(relation, replies, at) {
            Progress::Got(table, n) => match table {
                None => Progress::Got(None, n),
                Some(t) => match Self::table_type_of(&t, relation) {
                    Ok(table_type) => Progress::Got(
                        Some(GlueTable { table_type, location: location_at(&t) }),
                        n,
                    ),
                    Err(e) => fail(OpsErrorKind::UnexpectedResult, e, n),
                },
            },
            Progress::Ask(r) => Progress::Ask(r),
            Progress::Fail(e, n) => Progress::Fail(e, n),
        }
    }

    /// The location of the data of a physical table.
    pub fn glue_table_location(relation: &RelationParts, replies: &Vec<Reply>, at: usize) -> (r:
        Progress<Option<String>>)
        requires
            at <= replies.len(),
        ensures
            r@ == table_location_of(*relation, replies_view(replies@), at as int),
            within(r, at, replies@),
    {
        let (table, n) = match Self::glue_table(relation, replies, at) {
            Progress::Got(Some(table), n) => (table, n),
            Progress::Got(None, n) => {
                return Progress::Got(None, n);
            },
            Progress::Ask(r) => {
                return Progress::Ask(r);
            },
            Progress::Fail(e, n) => {
                return Progress::Fail(e, n);
            },
        };
        if !table.table_type.is_physical() {
            return Progress::Got(None, n);
        }
        if let Some(location) = table.location {
            if !location.as_str().is_empty() {
                return Progress::Got(Some(location), n);
            }
        }
        let message = "Relation ".to_owned().concat(relation.rendered.as_str()).concat(
            " is of type '",
        ).concat(table.table_type.value()).concat(
            "' which requires a location, but no location returned by Glue.",
        );
        fail(OpsErrorKind::UnexpectedResult, message, n)
    }
}

fn catalog_of_response(response: &Json) -> (r: Option<String>)
    ensures
        opt(r) == data_catalog_id(response@),
{
    let catalog = match response.get("DataCatalog") {
        Some(catalog) => catalog,
        None => {
            return None;
        },
    };
    let glue = match catalog.str_at("Type") {
        Some(t) => same(t, "GLUE"),
        None => false,
    };
    if !glue {
        return None;
    }
    match catalog.get("Parameters") {
        Some(parameters) => crate::json::owned(parameters.str_at("catalog-id")),
        None => None,
    }
}

/// What names the database of a table to Glue.
pub fn scope_fields(catalog: &Option<String>, schema: &str) -> (r: Fields)
    ensures
        r@ == scope(opt(*catalog), schema@),
{
    match catalog {
        Some(id) => fields().text("CatalogId", id.as_str()).text("DatabaseName", schema),
        None => fields().text("DatabaseName", schema),
    }
}

/// The storage location that a table or a partition names.
pub fn location_at(v: &Json) -> (r: Option<String>)
    ensures
        opt(r) == location_of(v@),
{
    match v.get("StorageDescriptor") {
        Some(sd) => crate::json::owned(sd.str_at("Location")),
        None => None,
    }
}

} // verus!
