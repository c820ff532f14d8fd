//! Partitions of Glue tables, and swapping a table with another one's content.

use crate::athena::driver::{
    call, called, fail, failed, replies_view, then_do, within, OpsErrorKind, Progress, ProgressView,
    Reply, ReplyView,
};
use crate::athena::glue::{
    catalog_id, glue_table_json, opt_as_str, scope, scope_fields, text, AthenaOps, RelationParts,
};
use crate::json::{
    field, fields, items_of, items_view, list, lookup, member, nil, opt, put, put_then_field,
    Fields, FieldsView, Json, JsonView,
};
use vstd::prelude::*;

verus! {

// ---------------------------------------------------------------------------
// Single calls
// ---------------------------------------------------------------------------

/// Deleting the table of a relation from the catalog; a table that is not there is no
/// error.
pub open spec fn deleted_table(
    relation: RelationParts,
    replies: Seq<ReplyView>,
    at: int,
) -> ProgressView<()> {
    then_do(
        catalog_id(opt(relation.database), replies, at),
        |catalog: Option<Seq<char>>, n: int|
            then_do(
                called(
                    replies,
                    n,
                    "glue.delete_table"@,
                    JsonView::Object(
                        scope(catalog, relation.schema@).push(
                            ("Name"@, text(relation.identifier@)),
                        ),
                    ),
                ),
                |response: JsonView, m: int| ProgressView::Got((), m),
            ),
    )
}

pub open spec fn database_fields(catalog: Option<Seq<char>>, name: Seq<char>) -> FieldsView {
    match catalog {
        Some(id) => nil().push(("CatalogId"@, text(id))).push(("Name"@, text(name))),
        None => nil().push(("Name"@, text(name))),
    }
}

/// Dropping a database of a catalog.
pub open spec fn dropped_database(
    database_name: Seq<char>,
    catalog_name: Seq<char>,
    replies: Seq<ReplyView>,
    at: int,
) -> ProgressView<()> {
    then_do(
        catalog_id(Some(catalog_name), replies, at),
        |catalog: Option<Seq<char>>, n: int|
            then_do(
                called(
                    replies,
                    n,
                    "glue.delete_database"@,
                    JsonView::Object(database_fields(catalog, database_name)),
                ),
                |response: JsonView, m: int| ProgressView::Got((), m),
            ),
    )
}

// ---------------------------------------------------------------------------
// Partitions
// ---------------------------------------------------------------------------

pub open spec fn partitions_fields(
    scope: FieldsView,
    table: Seq<char>,
    expression: Option<Seq<char>>,
    exclude_column_schema: bool,
) -> FieldsView {
    let named = scope.push(("TableName"@, text(table)));
    let filtered = match expression {
        Some(e) => named.push(("Expression"@, text(e))),
        None => named,
    };
    filtered.push(("ExcludeColumnSchema"@, JsonView::Bool(exclude_column_schema)))
}

/// The partitions of a table that satisfy an expression.
pub open spec fn partitions(
    scope: FieldsView,
    table: Seq<char>,
    expression: Option<Seq<char>>,
    exclude_column_schema: bool,
    replies: Seq<ReplyView>,
    at: int,
) -> ProgressView<Seq<JsonView>> {
    then_do(
        called(
            replies,
            at,
            "glue.get_partitions"@,
            JsonView::Object(partitions_fields(scope, table, expression, exclude_column_schema)),
        ),
        |response: JsonView, n: int|
            ProgressView::Got(items_of(member(response, "Partitions"@)), n),
    )
}

/// A field of a value, or something else where the value has no such field.
pub open spec fn lookup_or(v: JsonView, key: Seq<char>, other: JsonView) -> JsonView {
    match lookup(v, key) {
        Some(found) => found,
        None => other,
    }
}

/// What names a partition: its values.
pub open spec fn partition_values(p: JsonView) -> JsonView {
    JsonView::Object(
        nil().push(("Values"@, lookup_or(p, "Values"@, JsonView::List(Seq::empty())))),
    )
}

pub open spec fn delete_partitions_fields(
    scope: FieldsView,
    table: Seq<char>,
    found: Seq<JsonView>,
) -> FieldsView {
    scope.push(("TableName"@, text(table))).push(
        (
            "PartitionsToDelete"@,
            JsonView::List(found.map_values(|p: JsonView| partition_values(p))),
        ),
    )
}

/// Deleting partitions; the result is the errors that Glue reports.
pub open spec fn deleted_partitions(
    scope: FieldsView,
    table: Seq<char>,
    found: Seq<JsonView>,
    replies: Seq<ReplyView>,
    at: int,
) -> ProgressView<Seq<JsonView>> {
    then_do(
        called(
            replies,
            at,
            "glue.batch_delete_partition"@,
            JsonView::Object(delete_partitions_fields(scope, table, found)),
        ),
        |response: JsonView, n: int| ProgressView::Got(items_of(member(response, "Errors"@)), n),
    )
}

// ---------------------------------------------------------------------------
// Swapping
// ---------------------------------------------------------------------------

pub open spec fn push_found(fields: FieldsView, table: JsonView, key: Seq<char>) -> FieldsView {
    match lookup(table, key) {
        Some(value) => fields.push((key, value)),
        None => fields,
    }
}

/// The table that the target becomes: its own name, with the storage, the partition keys,
/// the type, the parameters and the description of the source.
pub open spec fn swapped_input(name: Seq<char>, src_table: JsonView) -> FieldsView {
    let a = nil().push(("Name"@, text(name)));
    let b = push_found(a, src_table, "StorageDescriptor"@);
    let c = push_found(b, src_table, "PartitionKeys"@);
    let d = push_found(c, src_table, "TableType"@);
    let e = push_found(d, src_table, "Parameters"@);
    e.push(("Description"@, lookup_or(src_table, "Description"@, text(""@))))
}

/// The partition that a partition of the source becomes in the target.
pub open spec fn partition_input(p: JsonView) -> JsonView {
    JsonView::Object(
        nil().push(
            ("Values"@, lookup_or(p, "Values"@, JsonView::List(Seq::empty()))),
        ).push(
            ("StorageDescriptor"@, lookup_or(p, "StorageDescriptor"@, JsonView::Null)),
        ).push(("Parameters"@, lookup_or(p, "Parameters"@, JsonView::Null))),
    )
}

pub open spec fn create_partitions_fields(
    scope: FieldsView,
    table: Seq<char>,
    found: Seq<JsonView>,
) -> FieldsView {
    scope.push(("TableName"@, text(table))).push(
        (
            "PartitionInputList"@,
            JsonView::List(found.map_values(|p: JsonView| partition_input(p))),
        ),
    )
}

pub open spec fn no_table(rendered: Seq<char>) -> Seq<char> {
    "[athena] glue.get_table returned no table for "@ + rendered
}

/// The last steps of a swap: the partitions that the target had go, those of the source
/// come.
pub open spec fn replaced_partitions(
    target_scope: FieldsView,
    target: Seq<char>,
    src_partitions: Seq<JsonView>,
    target_partitions: Seq<JsonView>,
    replies: Seq<ReplyView>,
    at: int,
) -> ProgressView<()> {
    let gone = if target_partitions.len() == 0 {
        ProgressView::Got(Seq::empty(), at)
    } else {
        deleted_partitions(target_scope, target, target_partitions, replies, at)
    };
    then_do(
        gone,
        |errors: Seq<JsonView>, n: int|
            if src_partitions.len() == 0 {
                ProgressView::Got((), n)
            } else {
                then_do(
                    called(
                        replies,
                        n,
                        "glue.batch_create_partition"@,
                        JsonView::Object(
                            create_partitions_fields(target_scope, target, src_partitions),
                        ),
                    ),
                    |response: JsonView, m: int| ProgressView::Got((), m),
                )
            },
    )
}

/// A swap from the point where the tables and their partitions are known.
pub open spec fn swapped_known(
    target_scope: FieldsView,
    target: Seq<char>,
    src_table: JsonView,
    src_partitions: Seq<JsonView>,
    target_partitions: Seq<JsonView>,
    replies: Seq<ReplyView>,
    at: int,
) -> ProgressView<()> {
    then_do(
        called(
            replies,
            at,
            "glue.update_table"@,
            JsonView::Object(
                target_scope.push(
                    ("TableInput"@, JsonView::Object(swapped_input(target, src_table))),
                ),
            ),
        ),
        |response: JsonView, n: int|
            replaced_partitions(
                target_scope,
                target,
                src_partitions,
                target_partitions,
                replies,
                n,
            ),
    )
}

/// What names the target's database: the source's catalog, the target's schema.
pub open spec fn target_scope(catalog: Option<Seq<char>>, src: RelationParts, target: RelationParts) -> FieldsView {
    put(scope(catalog, src.schema@), "DatabaseName"@, text(target.schema@))
}

/// A swap from the point where the source table is known.
pub open spec fn swapped_from(
    src: RelationParts,
    target: RelationParts,
    catalog: Option<Seq<char>>,
    src_table: JsonView,
    replies: Seq<ReplyView>,
    at: int,
) -> ProgressView<()> {
    let src_scope = scope(catalog, src.schema@);
    let dst_scope = target_scope(catalog, src, target);
    then_do(
        partitions(src_scope, src.identifier@, None, false, replies, at),
        |src_partitions: Seq<JsonView>, n: int|
            then_do(
                partitions(dst_scope, target.identifier@, None, false, replies, n),
                |target_partitions: Seq<JsonView>, m: int|
                    swapped_known(
                        dst_scope,
                        target.identifier@,
                        src_table,
                        src_partitions,
                        target_partitions,
                        replies,
                        m,
                    ),
            ),
    )
}

/// Pointing the target at the content of the source.
pub open spec fn swapped(
    src: RelationParts,
    target: RelationParts,
    replies: Seq<ReplyView>,
    at: int,
) -> ProgressView<()> {
    then_do(
        catalog_id(opt(src.database), replies, at),
        |catalog: Option<Seq<char>>, n: int|
            then_do(
                glue_table_json(src, replies, n),
                |table: Option<JsonView>, m: int|
                    match table {
                        Some(src_table) => swapped_from(
                            src,
                            target,
                            catalog,
                            src_table,
                            replies,
                            m,
                        ),
                        None => failed(OpsErrorKind::NotFound, no_table(src.rendered@), m),
                    },
            ),
    )
}

/// An operation that changes the catalog.
pub open spec fn changes_catalog(operation: Seq<char>) -> bool {
    operation == "glue.update_table"@ || operation == "glue.batch_delete_partition"@ || operation
        == "glue.batch_create_partition"@
}

pub open spec fn distinct_operations() -> bool {
    &&& "sts.get_caller_identity"@ != "glue.update_table"@
    &&& "sts.get_caller_identity"@ != "glue.batch_delete_partition"@
    &&& "sts.get_caller_identity"@ != "glue.batch_create_partition"@
    &&& "athena.get_data_catalog"@ != "glue.update_table"@
    &&& "athena.get_data_catalog"@ != "glue.batch_delete_partition"@
    &&& "athena.get_data_catalog"@ != "glue.batch_create_partition"@
    &&& "glue.get_table"@ != "glue.update_table"@
    &&& "glue.get_table"@ != "glue.batch_delete_partition"@
    &&& "glue.get_table"@ != "glue.batch_create_partition"@
    &&& "glue.get_partitions"@ != "glue.update_table"@
    &&& "glue.get_partitions"@ != "glue.batch_delete_partition"@
    &&& "glue.get_partitions"@ != "glue.batch_create_partition"@
}

pub proof fn operations_are_distinct()
    ensures
        distinct_operations(),
{
    reveal_strlit("sts.get_caller_identity");
    reveal_strlit("athena.get_data_catalog");
    reveal_strlit("glue.get_table");
    reveal_strlit("glue.get_partitions");
    reveal_strlit("glue.update_table");
    reveal_strlit("glue.batch_delete_partition");
    reveal_strlit("glue.batch_create_partition");
    assert("sts.get_caller_identity"@.len() == 23);
    assert("athena.get_data_catalog"@.len() == 23);
    assert("glue.get_table"@.len() == 14);
    assert("glue.get_partitions"@.len() == 19);
    assert("glue.update_table"@.len() == 17);
    assert("glue.batch_delete_partition"@.len() == 27);
    assert("glue.batch_create_partition"@.len() == 27);
}

/// Whatever the driver answers, a swap changes nothing in the catalog but in the schema of
/// the target.
pub proof fn swap_changes_only_the_target(
    src: RelationParts,
    target: RelationParts,
    replies: Seq<ReplyView>,
)
    ensures
        swapped(src, target, replies, 0) matches ProgressView::Ask(request) ==> (changes_catalog(
            request.operation,
        ) ==> lookup(request.payload, "DatabaseName"@) == Some(text(target.schema@))),
{
    operations_are_distinct();
    match catalog_id(opt(src.database), replies, 0) {
        ProgressView::Got(catalog, n) => {
            let s = target_scope(catalog, src, target);
            target_scope_names_target(catalog, src, target);
            reveal_strlit("DatabaseName");
            reveal_strlit("TableName");
            reveal_strlit("TableInput");
            reveal_strlit("PartitionsToDelete");
            reveal_strlit("PartitionInputList");
            assert forall|key: Seq<char>, value: JsonView| key != "DatabaseName"@ implies field(
                #[trigger] s.push((key, value)),
                "DatabaseName"@,
            ) == Some(text(target.schema@)) by {
                pushed_keeps(s, key, value, "DatabaseName"@);
            }
            assert forall|k1: Seq<char>, v1: JsonView, k2: Seq<char>, v2: JsonView|
                k1 != "DatabaseName"@ && k2 != "DatabaseName"@ implies field(
                #[trigger] s.push((k1, v1)).push((k2, v2)),
                "DatabaseName"@,
            ) == Some(text(target.schema@)) by {
                pushed_keeps(s, k1, v1, "DatabaseName"@);
                pushed_keeps(s.push((k1, v1)), k2, v2, "DatabaseName"@);
            }
            assert("DatabaseName"@.len() == 12);
            assert("TableName"@.len() == 9);
            assert("TableInput"@.len() == 10);
            assert("PartitionsToDelete"@.len() == 18);
            assert("PartitionInputList"@.len() == 18);
        },
        _ => {},
    }
}

/// A field at the end does not hide one that is there.
pub proof fn pushed_keeps(fields: FieldsView, key: Seq<char>, value: JsonView, other: Seq<char>)
    requires
        field(fields, other) is Some,
    ensures
        field(fields.push((key, value)), other) == field(fields, other),
{
    crate::json::place_is_first(fields, other);
    let p = crate::json::place(fields, other);
    let after = fields.push((key, value));
    assert forall|i: int| 0 <= i < p implies (#[trigger] after[i]).0 != other by {
        assert(fields[i].0 != other);
    }
    crate::json::place_is_unique(after, other, p);
}

proof fn target_scope_names_target(
    catalog: Option<Seq<char>>,
    src: RelationParts,
    target: RelationParts,
)
    ensures
        field(target_scope(catalog, src, target), "DatabaseName"@) == Some(text(target.schema@)),
{
    put_then_field(
        scope(catalog, src.schema@),
        "DatabaseName"@,
        text(target.schema@),
        "DatabaseName"@,
    );
}

fn found_or(v: &Json, key: &str, other: Json) -> (r: Json)
    ensures
        r@ == lookup_or(v@, key@, other@),
{
    match v.get(key) {
        Some(found) => found.copy(),
        None => other,
    }
}

fn with_found(input: Fields, table: &Json, key: &str) -> (r: Fields)
    ensures
        r@ == push_found(input@, table@, key@),
{
    match table.get(key) {
        Some(value) => input.with(key, value.copy()),
        None => input,
    }
}

/// The table that the target of a swap becomes.
pub fn swapped_table_input(name: &str, src_table: &Json) -> (r: Fields)
    ensures
        r@ == swapped_input(name@, src_table@),
{
    let a = fields().text("Name", name);
    let b = with_found(a, src_table, "StorageDescriptor");
    let c = with_found(b, src_table, "PartitionKeys");
    let d = with_found(c, src_table, "TableType");
    let e = with_found(d, src_table, "Parameters");
    e.with("Description", found_or(src_table, "Description", Json::Text("".to_owned())))
}

/// A list without items.
pub fn empty_list() -> (r: Json)
    ensures
        r@ == JsonView::List(Seq::empty()),
{
    let none: Vec<Json> = Vec::new();
    assert(items_view(none@) =~= Seq::empty());
    list(none)
}

/// The partitions that those of the source become.
pub fn partition_inputs(found: &Vec<Json>) -> (r: Json)
    ensures
        r@ == JsonView::List(items_view(found@).map_values(|p: JsonView| partition_input(p))),
{
    let mut out: Vec<Json> = Vec::new();
    let mut i: usize = 0;
    while i < found.len()
        invariant
            i <= found.len(),
            out.len() == i,
            forall|j: int| 0 <= j < i ==> (#[trigger] out@[j])@ == partition_input(found@[j]@),
        decreases found.len() - i,
    {
        let p = &found[i];
        let values = found_or(p, "Values", empty_list());
        let storage = found_or(p, "StorageDescriptor", Json::Null);
        let parameters = found_or(p, "Parameters", Json::Null);
        out.push(
            fields().with("Values", values).with("StorageDescriptor", storage).with(
                "Parameters",
                parameters,
            ).object(),
        );
        i += 1;
    }
    assert(items_view(out@) =~= items_view(found@).map_values(|p: JsonView| partition_input(p)));
    list(out)
}

/// What names each partition.
pub fn partition_names(found: &Vec<Json>) -> (r: Json)
    ensures
        r@ == JsonView::List(items_view(found@).map_values(|p: JsonView| partition_values(p))),
{
    let mut out: Vec<Json> = Vec::new();
    let mut i: usize = 0;
    while i < found.len()
        invariant
            i <= found.len(),
            out.len() == i,
            forall|j: int| 0 <= j < i ==> (#[trigger] out@[j])@ == partition_values(found@[j]@),
        decreases found.len() - i,
    {
        out.push(
            fields().with("Values", found_or(&found[i], "Values", empty_list())).object(),
        );
        i += 1;
    }
    assert(items_view(out@) =~= items_view(found@).map_values(|p: JsonView| partition_values(p)));
    list(out)
}

/// The items of the list that a field holds.
pub fn items_at(response: &Json, key: &str) -> (r: Vec<Json>)
    ensures
        items_view(r@) == items_of(member(response@, key@)),
        r.deep_view() == items_view(r@),
{
    let r = match response.get(key) {
        Some(found) => found.items(),
        None => Vec::new(),
    };
    assert(items_view(r@) =~= items_of(member(response@, key@)));
    assert(r.deep_view() =~= items_view(r@));
    r
}

impl AthenaOps {
    /// Deletes the table of a relation from the catalog.
    pub fn delete_from_glue_catalog(relation: &RelationParts, replies: &Vec<Reply>, at: usize) -> (r:
        Progress<()>)
        requires
            at <= replies.len(),
        ensures
            r@ == deleted_table(*relation, replies_view(replies@), at as int),
            within(r, at, replies@),
    {
        match Self::catalog_id(opt_as_str(&relation.database), replies, at) {
            Progress::Got(catalog, n) => {
                let payload = scope_fields(&catalog, relation.schema.as_str()).text(
                    "Name",
                    relation.identifier.as_str(),
                );
                match call(replies, n, "glue.delete_table", payload.object()) {
                    Progress::Got(_, m) => Progress::Got((), m),
                    Progress::Ask(r) => Progress::Ask(r),
                    Progress::Fail(e, m) => Progress::Fail(e, m),
                }
            },
            Progress::Ask(r) => Progress::Ask(r),
            Progress::Fail(e, n) => Progress::Fail(e, n),
        }
    }

    /// Drops a database of a catalog.
    pub fn drop_glue_database(
        database_name: &str,
        catalog_name: &str,
        replies: &Vec<Reply>,
        at: usize,
    ) -> (r: Progress<()>)
        requires
            at <= replies.len(),
        ensures
            r@ == dropped_database(
                database_name@,
                catalog_name@,
                replies_view(replies@),
                at as int,
            ),
            within(r, at, replies@),
    {
        match Self::catalog_id(Some(catalog_name), replies, at) {
            Progress::Got(catalog, n) => {
                let payload = match &catalog {
                    Some(id) => fields().text("CatalogId", id.as_str()).text(
                        "Name",
                        database_name,
                    ),
                    None => fields().text("Name", database_name),
                };
                match call(replies, n, "glue.delete_database", payload.object()) {
                    Progress::Got(_, m) => Progress::Got((), m),
                    Progress::Ask(r) => Progress::Ask(r),
                    Progress::Fail(e, m) => Progress::Fail(e, m),
                }
            },
            Progress::Ask(r) => Progress::Ask(r),
            Progress::Fail(e, n) => Progress::Fail(e, n),
        }
    }

    /// The partitions of a table that satisfy an expression.
    pub fn list_partitions(
        scope: &Fields,
        table: &str,
        expression: Option<&str>,
        exclude_column_schema: bool,
        replies: &Vec<Reply>,
        at: usize,
    ) -> (r: Progress<Vec<Json>>)
        requires
            at <= replies.len(),
        ensures
            r@ == partitions(
                scope@,
                table@,
                crate::json::opt_str(expression),
                exclude_column_schema,
                replies_view(replies@),
                at as int,
            ),
            within(r, at, replies@),
            r matches Progress::Got(found, _) ==> found.deep_view() == items_view(found@),
    {
        let named = scope.copy().text("TableName", table);
        let filtered = match expression {
            Some(e) => named.text("Expression", e),
            None => named,
        };
        let payload = filtered.with("ExcludeColumnSchema", Json::Bool(exclude_column_schema));
        match call(replies, at, "glue.get_partitions", payload.object()) {
            Progress::Got(response, n) => Progress::Got(items_at(&response, "Partitions"), n),
            Progress::Ask(r) => Progress::Ask(r),
            Progress::Fail(e, n) => Progress::Fail(e, n),
        }
    }

    /// Deletes partitions and hands back the errors that Glue reports.
    pub fn batch_delete_partitions(
        scope: &Fields,
        table: &str,
        found: &Vec<Json>,
        replies: &Vec<Reply>,
        at: usize,
    ) -> (r: Progress<Vec<Json>>)
        requires
            at <= replies.len(),
        ensures
            r@ == deleted_partitions(
                scope@,
                table@,
                items_view(found@),
                replies_view(replies@),
                at as int,
            ),
            within(r, at, replies@),
            r matches Progress::Got(errors, _) ==> errors.deep_view() == items_view(errors@),
    {
        let payload = scope.copy().text("TableName", table).with(
            "PartitionsToDelete",
            partition_names(found),
        );
        match call(replies, at, "glue.batch_delete_partition", payload.object()) {
            Progress::Got(response, n) => Progress::Got(items_at(&response, "Errors"), n),
            Progress::Ask(r) => Progress::Ask(r),
            Progress::Fail(e, n) => Progress::Fail(e, n),
        }
    }

    /// Replaces the partitions of the target by those of the source.
    fn replace_partitions(
        scope: &Fields,
        target: &str,
        src_partitions: &Vec<Json>,
        target_partitions: &Vec<Json>,
        replies: &Vec<Reply>,
        at: usize,
    ) -> (r: Progress<()>)
        requires
            at <= replies.len(),
        ensures
            r@ == replaced_partitions(
                scope@,
                target@,
                items_view(src_partitions@),
                items_view(target_partitions@),
                replies_view(replies@),
                at as int,
            ),
            within(r, at, replies@),
    {
        assert(items_view(src_partitions@).len() == src_partitions.len());
        assert(items_view(target_partitions@).len() == target_partitions.len());
        let mut n: usize = at;
        if target_partitions.len() > 0 {
            match Self::batch_delete_partitions(scope, target, target_partitions, replies, at) {
                Progress::Got(_, m) => {
                    n = m;
                },
                Progress::Ask(r) => {
                    return Progress::Ask(r);
                },
                Progress::Fail(e, m) => {
                    return Progress::Fail(e, m);
                },
            }
        }
        if src_partitions.len() == 0 {
            return Progress::Got((), n);
        }
        let payload = scope.copy().text("TableName", target).with(
            "PartitionInputList",
            partition_inputs(src_partitions),
        );
        match call(replies, n, "glue.batch_create_partition", payload.object()) {
            Progress::Got(_, m) => Progress::Got((), m),
            Progress::Ask(r) => Progress::Ask(r),
            Progress::Fail(e, m) => Progress::Fail(e, m),
        }
    }

    /// Points the target at the storage, partition keys, type, parameters and description
    /// of the source, then replaces its partitions by those of the source.
    pub fn swap_table(
        src: &RelationParts,
        target: &RelationParts,
        replies: &Vec<Reply>,
        at: usize,
    ) -> (r: Progress<()>)
        requires
            at <= replies.len(),
        ensures
            r@ == swapped(*src, *target, replies_view(replies@), at as int),
            within(r, at, replies@),
    {
        let (catalog, n) = match Self::catalog_id(opt_as_str(&src.database), replies, at) {
            Progress::Got(catalog, n) => (catalog, n),
            Progress::Ask(r) => {
                return Progress::Ask(r);
            },
            Progress::Fail(e, n) => {
                return Progress::Fail(e, n);
            },
        };
        let (src_table, n) = match Self::get_glue_table(src, replies, n) {
            Progress::Got(Some(table), n) => (table, n),
            Progress::Got(None, n) => {
                return fail(
                    OpsErrorKind::NotFound,
                    "[athena] glue.get_table returned no table for ".to_owned().concat(
                        src.rendered.as_str(),
                    ),
                    n,
                );
            },
            Progress::Ask(r) => {
                return Progress::Ask(r);
            },
            Progress::Fail(e, n) => {
                return Progress::Fail(e, n);
            },
        };
        let src_scope = scope_fields(&catalog, src.schema.as_str());
        let (src_partitions, n) = match Self::list_partitions(
            &src_scope,
            src.identifier.as_str(),
            None,
            false,
            replies,
            n,
        ) {
            Progress::Got(found, n) => (found, n),
            Progress::Ask(r) => {
                return Progress::Ask(r);
            },
            Progress::Fail(e, n) => {
                return Progress::Fail(e, n);
            },
        };
        let dst_scope = src_scope.set("DatabaseName", Json::Text(target.schema.clone()));
        let name = target.identifier.as_str();
        let (target_partitions, n) = match Self::list_partitions(
            &dst_scope,
            name,
            None,
            false,
            replies,
            n,
        ) {
            Progress::Got(found, n) => (found, n),
            Progress::Ask(r) => {
                return Progress::Ask(r);
            },
            Progress::Fail(e, n) => {
                return Progress::Fail(e, n);
            },
        };
        let input = swapped_table_input(name, &src_table).object();
        let update = dst_scope.copy().with("TableInput", input);
        match call(replies, n, "glue.update_table", update.object()) {
            Progress::Got(_, n) => Self::replace_partitions(
                &dst_scope,
                name,
                &src_partitions,
                &target_partitions,
                replies,
                n,
            ),
            Progress::Ask(r) => Progress::Ask(r),
            Progress::Fail(e, n) => Progress::Fail(e, n),
        }
    }
}

} // verus!
