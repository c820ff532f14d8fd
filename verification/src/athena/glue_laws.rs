//! What is asked of Glue, and what is made of the answers.

use crate::athena::cleanup::{
    any_of, bracketed, chunk_end, cleaned, expressions, first_too_long, fits, groups, locations,
    not_deleted, selected, too_long,
};
use crate::athena::driver::{ProgressView, ReplyView};
use crate::athena::glue::{
    catalog_id, glue_table_json, glue_table_of, no_location, scope, table_location_of, text,
    GlueTableView, RelationParts,
};
use crate::athena::s3::in_s3_tables;
use crate::athena::storage::{deleted_path, deleted_paths};
use crate::athena::swap::{
    database_fields, deleted_table, dropped_database, partition_input, partition_values, partitions,
    swapped_from, swapped_input, swapped_known, target_scope,
};
use crate::athena::table_type::{value_of, TableType};
use crate::athena::versions::{
    delete_fields, expired, expired_versions, newest_first, version_of, VersionView,
};
use crate::json::{
    field, items_of, lookup, member, opt, place, place_is_first, place_is_unique, put_then_field,
    text_at, FieldsView, JsonView,
};
use crate::number::{decimal, signed};
use crate::text::{ascii_lower, head};
use vstd::prelude::*;
use vstd::utf8::encode_utf8;

verus! {

/// A field that is pushed is found where no earlier one has its name.
pub proof fn pushed_is_found(fields: FieldsView, key: Seq<char>, value: JsonView, other: Seq<char>)
    ensures
        field(fields, key) is None ==> field(fields.push((key, value)), key) == Some(value),
        key != other ==> field(fields.push((key, value)), other) == field(fields, other),
        field(fields, key) is Some ==> field(fields.push((key, value)), key) == field(fields, key),
{
    let more = fields.push((key, value));
    let p = place(fields, key);
    place_is_first(fields, key);
    assert forall|i: int| 0 <= i < p implies (#[trigger] more[i]).0 != key by {
        assert(more[i] == fields[i]);
    }
    place_is_unique(more, key, p);
    if key != other {
        let q = place(fields, other);
        place_is_first(fields, other);
        assert forall|i: int| 0 <= i < q implies (#[trigger] more[i]).0 != other by {
            assert(more[i] == fields[i]);
        }
        if q < fields.len() {
            place_is_unique(more, other, q);
        } else {
            place_is_unique(more, other, q + 1);
        }
    }
}

proof fn keys_of_glue_differ()
    ensures
        "CatalogId"@.len() == 9 && "CatalogId"@[0] == 'C',
        "DatabaseName"@.len() == 12,
        "Name"@.len() == 4,
        "TableName"@.len() == 9 && "TableName"@[0] == 'T',
        "TableInput"@.len() == 10 && "TableInput"@[0] == 'T',
        "Expression"@.len() == 10 && "Expression"@[0] == 'E',
        "Parameters"@.len() == 10 && "Parameters"@[0] == 'P',
        "ExcludeColumnSchema"@.len() == 19,
        "PartitionsToDelete"@.len() == 18 && "PartitionsToDelete"@[11] == 'o',
        "PartitionInputList"@.len() == 18 && "PartitionInputList"@[11] == 'p',
        "StorageDescriptor"@.len() == 17,
        "PartitionKeys"@.len() == 13,
        "TableType"@.len() == 9 && "TableType"@[0] == 'T',
        "Description"@.len() == 11,
        "Values"@.len() == 6,
        "VersionId"@.len() == 9 && "VersionId"@[0] == 'V',
        "TableVersions"@.len() == 13,
{
    reveal_strlit("CatalogId");
    reveal_strlit("DatabaseName");
    reveal_strlit("Name");
    reveal_strlit("TableName");
    reveal_strlit("TableInput");
    reveal_strlit("Expression");
    reveal_strlit("Parameters");
    reveal_strlit("ExcludeColumnSchema");
    reveal_strlit("PartitionsToDelete");
    reveal_strlit("PartitionInputList");
    reveal_strlit("StorageDescriptor");
    reveal_strlit("PartitionKeys");
    reveal_strlit("TableType");
    reveal_strlit("Description");
    reveal_strlit("Values");
    reveal_strlit("VersionId");
    reveal_strlit("TableVersions");
}

// ---------------------------------------------------------------------------
// Catalogs and tables
// ---------------------------------------------------------------------------

/// The catalog of a database: none without a name, the account for the default catalog and
/// for S3 tables, and for another what Athena says of it.
pub proof fn catalogs_are_looked_up(database: Seq<char>, replies: Seq<ReplyView>, at: int)
    requires
        0 <= at <= replies.len(),
    ensures
        catalog_id(None, replies, at) == ProgressView::Got(None::<Seq<char>>, at),
        database.len() == 0 ==> catalog_id(Some(database), replies, at) == ProgressView::Got(
            None::<Seq<char>>,
            at,
        ),
        database.len() > 0 && (ascii_lower(database) == "awsdatacatalog"@ || in_s3_tables(
            Some(database),
        )) ==> {
            &&& at == replies.len() ==> (catalog_id(Some(database), replies, at)
                matches ProgressView::Ask(r) && r.operation == "sts.get_caller_identity"@)
            &&& at < replies.len() && (replies[at] matches Ok(response) && text_at(
                response,
                "Account"@,
            ) is None) ==> catalog_id(Some(database), replies, at) is Fail
            &&& at < replies.len() && (replies[at] matches Ok(response) && text_at(
                response,
                "Account"@,
            ) is Some) ==> catalog_id(Some(database), replies, at) == ProgressView::Got(
                Some(
                    if ascii_lower(database) == "awsdatacatalog"@ {
                        text_at(replies[at]->Ok_0, "Account"@)->0
                    } else {
                        text_at(replies[at]->Ok_0, "Account"@)->0 + seq![':'] + database
                    },
                ),
                at + 1,
            )
        },
        database.len() > 0 && ascii_lower(database) != "awsdatacatalog"@ && !in_s3_tables(
            Some(database),
        ) ==> {
            &&& at == replies.len() ==> (catalog_id(Some(database), replies, at)
                matches ProgressView::Ask(r) && r.operation == "athena.get_data_catalog"@
                && text_at(r.payload, "Name"@) == Some(database))
            &&& at < replies.len() && replies[at] is Ok ==> {
                let catalog = member(replies[at]->Ok_0, "DataCatalog"@);
                catalog_id(Some(database), replies, at) == ProgressView::Got(
                    if text_at(catalog, "Type"@) == Some("GLUE"@) {
                        text_at(member(catalog, "Parameters"@), "catalog-id"@)
                    } else {
                        None
                    },
                    at + 1,
                )
            }
        },
{
    reveal_strlit("awsdatacatalog");
    reveal_strlit(":");
    assert(ascii_lower("awsdatacatalog"@) =~= "awsdatacatalog"@);
    assert(":"@ =~= seq![':']);
    place_is_unique(seq![("Name"@, text(database))], "Name"@, 0);
}

/// The scope of a request: its catalog, where there is one, and its database.
pub proof fn requests_name_their_scope(catalog: Option<Seq<char>>, schema: Seq<char>)
    ensures
        field(scope(catalog, schema), "DatabaseName"@) == Some(JsonView::Text(schema)),
        catalog matches Some(id) ==> field(scope(catalog, schema), "CatalogId"@) == Some(
            JsonView::Text(id),
        ),
        catalog is None ==> field(scope(catalog, schema), "CatalogId"@) is None,
        field(scope(catalog, schema), "Name"@) is None,
        field(scope(catalog, schema), "TableName"@) is None,
        field(scope(catalog, schema), "TableInput"@) is None,
{
    keys_of_glue_differ();
    let s = scope(catalog, schema);
    if catalog is Some {
        place_is_unique(s, "CatalogId"@, 0);
        place_is_unique(s, "DatabaseName"@, 1);
        place_is_unique(s, "Name"@, 2);
        place_is_unique(s, "TableName"@, 2);
        place_is_unique(s, "TableInput"@, 2);
    } else {
        place_is_unique(s, "DatabaseName"@, 0);
        place_is_unique(s, "CatalogId"@, 1);
        place_is_unique(s, "Name"@, 1);
        place_is_unique(s, "TableName"@, 1);
        place_is_unique(s, "TableInput"@, 1);
    }
}

/// A table is asked for, and dropped, by its catalog, its database and its name.
pub proof fn tables_are_asked_for_by_name(
    relation: RelationParts,
    catalog: Option<Seq<char>>,
    replies: Seq<ReplyView>,
    at: int,
    n: int,
)
    requires
        catalog_id(opt(relation.database), replies, at) == ProgressView::Got(catalog, n),
        0 <= n <= replies.len(),
    ensures
        n == replies.len() ==> (glue_table_json(relation, replies, at) matches ProgressView::Ask(r)
            && {
            &&& r.operation == "glue.get_table"@
            &&& text_at(r.payload, "DatabaseName"@) == Some(relation.schema@)
            &&& text_at(r.payload, "Name"@) == Some(relation.identifier@)
            &&& text_at(r.payload, "CatalogId"@) == catalog
        }),
        n == replies.len() ==> (deleted_table(relation, replies, at) matches ProgressView::Ask(r)
            && {
            &&& r.operation == "glue.delete_table"@
            &&& text_at(r.payload, "DatabaseName"@) == Some(relation.schema@)
            &&& text_at(r.payload, "Name"@) == Some(relation.identifier@)
            &&& text_at(r.payload, "CatalogId"@) == catalog
        }),
        n < replies.len() && replies[n] is Ok ==> deleted_table(relation, replies, at)
            == ProgressView::Got((), n + 1),
        n < replies.len() && replies[n] is Ok ==> glue_table_json(relation, replies, at)
            == ProgressView::Got(
            if lookup(replies[n]->Ok_0, "Table"@) == Some(JsonView::Null) {
                None
            } else {
                lookup(replies[n]->Ok_0, "Table"@)
            },
            n + 1,
        ),
{
    keys_of_glue_differ();
    let s = scope(catalog, relation.schema@);
    requests_name_their_scope(catalog, relation.schema@);
    pushed_is_found(s, "Name"@, text(relation.identifier@), "DatabaseName"@);
    pushed_is_found(s, "Name"@, text(relation.identifier@), "CatalogId"@);
}

/// Tables that hold data have a location; nothing else is asked for one.
pub proof fn what_has_a_location(
    relation: RelationParts,
    table: Option<GlueTableView>,
    replies: Seq<ReplyView>,
    at: int,
    n: int,
)
    requires
        glue_table_of(relation, replies, at) == ProgressView::Got(table, n),
    ensures
        table is None ==> table_location_of(relation, replies, at) == ProgressView::Got(
            None::<Seq<char>>,
            n,
        ),
        table matches Some(t) ==> {
            &&& t.table_type != TableType::Table && t.table_type != TableType::Iceberg
                ==> table_location_of(relation, replies, at) == ProgressView::Got(
                None::<Seq<char>>,
                n,
            )
            &&& t.table_type == TableType::Table || t.table_type == TableType::Iceberg ==> {
                &&& t.location is None ==> table_location_of(relation, replies, at) is Fail
                &&& t.location matches Some(l) ==> {
                    &&& l.len() == 0 ==> table_location_of(relation, replies, at) is Fail
                    &&& l.len() > 0 ==> table_location_of(relation, replies, at)
                        == ProgressView::Got(Some(l), n)
                }
            }
        },
{
}

/// A database is dropped by its name in its catalog.
pub proof fn databases_are_dropped_by_name(
    database: Seq<char>,
    catalog_name: Seq<char>,
    catalog: Option<Seq<char>>,
    replies: Seq<ReplyView>,
    at: int,
    n: int,
)
    requires
        catalog_id(Some(catalog_name), replies, at) == ProgressView::Got(catalog, n),
        0 <= n <= replies.len(),
    ensures
        n == replies.len() ==> (dropped_database(database, catalog_name, replies, at)
            matches ProgressView::Ask(r) && {
            &&& r.operation == "glue.delete_database"@
            &&& text_at(r.payload, "Name"@) == Some(database)
            &&& text_at(r.payload, "CatalogId"@) == catalog
        }),
{
    keys_of_glue_differ();
    let f = database_fields(catalog, database);
    if catalog is Some {
        place_is_unique(f, "CatalogId"@, 0);
        place_is_unique(f, "Name"@, 1);
    } else {
        place_is_unique(f, "Name"@, 0);
        place_is_unique(f, "CatalogId"@, 1);
    }
}

// ---------------------------------------------------------------------------
// Swapping tables
// ---------------------------------------------------------------------------

proof fn found_is_pushed(
    fields: FieldsView,
    table: JsonView,
    key: Seq<char>,
    other: Seq<char>,
)
    requires
        field(fields, key) is None,
    ensures
        field(crate::athena::swap::push_found(fields, table, key), key) == lookup(table, key),
        key != other ==> field(crate::athena::swap::push_found(fields, table, key), other)
            == field(fields, other),
{
    if let Some(value) = lookup(table, key) {
        pushed_is_found(fields, key, value, other);
    }
}

/// The target of a swap keeps its name and takes over what its source stores, its keys,
/// its type and its parameters; its description is that of the source, or empty.
pub proof fn the_target_becomes_the_source(name: Seq<char>, source: JsonView)
    ensures
        field(swapped_input(name, source), "Name"@) == Some(JsonView::Text(name)),
        field(swapped_input(name, source), "StorageDescriptor"@) == lookup(
            source,
            "StorageDescriptor"@,
        ),
        field(swapped_input(name, source), "PartitionKeys"@) == lookup(source, "PartitionKeys"@),
        field(swapped_input(name, source), "TableType"@) == lookup(source, "TableType"@),
        field(swapped_input(name, source), "Parameters"@) == lookup(source, "Parameters"@),
        field(swapped_input(name, source), "Description"@) == (if lookup(
            source,
            "Description"@,
        ) is Some {
            lookup(source, "Description"@)
        } else {
            Some(JsonView::Text(Seq::empty()))
        }),
{
    keys_of_glue_differ();
    reveal_strlit("");
    assert(""@ =~= Seq::empty());
    let n = "Name"@;
    let s = "StorageDescriptor"@;
    let p = "PartitionKeys"@;
    let t = "TableType"@;
    let q = "Parameters"@;
    let d = "Description"@;
    let f0 = Seq::<(Seq<char>, JsonView)>::empty().push((n, text(name)));
    place_is_unique(f0, n, 0);
    place_is_unique(f0, s, 1);
    place_is_unique(f0, p, 1);
    place_is_unique(f0, t, 1);
    place_is_unique(f0, q, 1);
    place_is_unique(f0, d, 1);
    let f1 = crate::athena::swap::push_found(f0, source, s);
    found_is_pushed(f0, source, s, n);
    found_is_pushed(f0, source, s, p);
    found_is_pushed(f0, source, s, t);
    found_is_pushed(f0, source, s, q);
    found_is_pushed(f0, source, s, d);
    let f2 = crate::athena::swap::push_found(f1, source, p);
    found_is_pushed(f1, source, p, n);
    found_is_pushed(f1, source, p, s);
    found_is_pushed(f1, source, p, t);
    found_is_pushed(f1, source, p, q);
    found_is_pushed(f1, source, p, d);
    let f3 = crate::athena::swap::push_found(f2, source, t);
    found_is_pushed(f2, source, t, n);
    found_is_pushed(f2, source, t, s);
    found_is_pushed(f2, source, t, p);
    found_is_pushed(f2, source, t, q);
    found_is_pushed(f2, source, t, d);
    let f4 = crate::athena::swap::push_found(f3, source, q);
    found_is_pushed(f3, source, q, n);
    found_is_pushed(f3, source, q, s);
    found_is_pushed(f3, source, q, p);
    found_is_pushed(f3, source, q, t);
    found_is_pushed(f3, source, q, d);
    let v = crate::athena::swap::lookup_or(source, d, text(""@));
    pushed_is_found(f4, d, v, n);
    pushed_is_found(f4, d, v, s);
    pushed_is_found(f4, d, v, p);
    pushed_is_found(f4, d, v, t);
    pushed_is_found(f4, d, v, q);
}

/// A partition is created as it is read, and deleted by its values.
pub proof fn partitions_are_carried_over(p: JsonView)
    ensures
        lookup(p, "Values"@) matches Some(v) ==> member(partition_input(p), "Values"@) == v
            && member(partition_values(p), "Values"@) == v,
        member(partition_input(p), "StorageDescriptor"@) == member(p, "StorageDescriptor"@),
        member(partition_input(p), "Parameters"@) == member(p, "Parameters"@),
{
    keys_of_glue_differ();
    let f = partition_input(p)->Object_0;
    place_is_unique(f, "Values"@, 0);
    place_is_unique(f, "StorageDescriptor"@, 1);
    place_is_unique(f, "Parameters"@, 2);
    place_is_unique(partition_values(p)->Object_0, "Values"@, 0);
}

/// Partitions are asked for by their table, by the expression where there is one, and with
/// or without their columns.
pub proof fn partitions_are_asked_for(
    scope: FieldsView,
    table: Seq<char>,
    expression: Option<Seq<char>>,
    without_columns: bool,
    replies: Seq<ReplyView>,
    at: int,
)
    requires
        0 <= at <= replies.len(),
        field(scope, "TableName"@) is None,
        field(scope, "Expression"@) is None,
        field(scope, "ExcludeColumnSchema"@) is None,
    ensures
        at == replies.len() ==> (partitions(
            scope,
            table,
            expression,
            without_columns,
            replies,
            at,
        ) matches ProgressView::Ask(r) && {
            &&& r.operation == "glue.get_partitions"@
            &&& text_at(r.payload, "TableName"@) == Some(table)
            &&& text_at(r.payload, "Expression"@) == expression
            &&& member(r.payload, "ExcludeColumnSchema"@) == JsonView::Bool(without_columns)
            &&& lookup(r.payload, "DatabaseName"@) == field(scope, "DatabaseName"@)
            &&& lookup(r.payload, "CatalogId"@) == field(scope, "CatalogId"@)
        }),
        at < replies.len() && replies[at] is Ok ==> partitions(
            scope,
            table,
            expression,
            without_columns,
            replies,
            at,
        ) == ProgressView::Got(items_of(member(replies[at]->Ok_0, "Partitions"@)), at + 1),
{
    keys_of_glue_differ();
    let t = "TableName"@;
    let e = "Expression"@;
    let x = "ExcludeColumnSchema"@;
    let d = "DatabaseName"@;
    let c = "CatalogId"@;
    pushed_is_found(scope, t, text(table), e);
    pushed_is_found(scope, t, text(table), x);
    pushed_is_found(scope, t, text(table), d);
    pushed_is_found(scope, t, text(table), c);
    let named = scope.push((t, text(table)));
    let filtered = match expression {
        Some(text_of_it) => named.push((e, text(text_of_it))),
        None => named,
    };
    if let Some(text_of_it) = expression {
        pushed_is_found(named, e, text(text_of_it), t);
        pushed_is_found(named, e, text(text_of_it), x);
        pushed_is_found(named, e, text(text_of_it), d);
        pushed_is_found(named, e, text(text_of_it), c);
    }
    let v = JsonView::Bool(without_columns);
    pushed_is_found(filtered, x, v, t);
    pushed_is_found(filtered, x, v, e);
    pushed_is_found(filtered, x, v, d);
    pushed_is_found(filtered, x, v, c);
}

/// The target of a swap is addressed in the catalog of the source and in its own database.
pub proof fn the_target_is_addressed(
    catalog: Option<Seq<char>>,
    src: RelationParts,
    target: RelationParts,
)
    ensures
        field(target_scope(catalog, src, target), "DatabaseName"@) == Some(
            JsonView::Text(target.schema@),
        ),
        catalog matches Some(id) ==> field(target_scope(catalog, src, target), "CatalogId"@)
            == Some(JsonView::Text(id)),
        catalog is None ==> field(target_scope(catalog, src, target), "CatalogId"@) is None,
{
    keys_of_glue_differ();
    requests_name_their_scope(catalog, src.schema@);
    put_then_field(
        scope(catalog, src.schema@),
        "DatabaseName"@,
        text(target.schema@),
        "CatalogId"@,
    );
}

/// The steps of a swap, each behind the success of the one before: the table is updated,
/// its partitions are deleted, those of the source are created, and what would be empty is
/// passed over.
pub proof fn a_swap_takes_its_steps(
    scope: FieldsView,
    target: Seq<char>,
    source: JsonView,
    from: Seq<JsonView>,
    into: Seq<JsonView>,
    replies: Seq<ReplyView>,
    at: int,
)
    requires
        0 <= at <= replies.len(),
        forall|i: int| at <= i < replies.len() ==> (#[trigger] replies[i]) is Ok,
        field(scope, "TableInput"@) is None,
        field(scope, "TableName"@) is None,
        field(scope, "PartitionsToDelete"@) is None,
        field(scope, "PartitionInputList"@) is None,
    ensures
        ({
            let step = swapped_known(scope, target, source, from, into, replies, at);
            let deletes: int = if into.len() > 0 {
                1
            } else {
                0
            };
            let creates: int = if from.len() > 0 {
                1
            } else {
                0
            };
            &&& replies.len() == at ==> (step matches ProgressView::Ask(r) && r.operation
                == "glue.update_table"@ && member(r.payload, "TableInput"@) == JsonView::Object(
                swapped_input(target, source),
            ))
            &&& into.len() > 0 && replies.len() == at + 1 ==> (step matches ProgressView::Ask(r)
                && {
                &&& r.operation == "glue.batch_delete_partition"@
                &&& text_at(r.payload, "TableName"@) == Some(target)
                &&& items_of(member(r.payload, "PartitionsToDelete"@)).len() == into.len()
                &&& forall|k: int|
                    0 <= k < into.len() ==> (#[trigger] items_of(
                        member(r.payload, "PartitionsToDelete"@),
                    )[k]) == partition_values(into[k])
            })
            &&& from.len() > 0 && replies.len() == at + 1 + deletes ==> (
            step matches ProgressView::Ask(r) && {
                &&& r.operation == "glue.batch_create_partition"@
                &&& text_at(r.payload, "TableName"@) == Some(target)
                &&& items_of(member(r.payload, "PartitionInputList"@)).len() == from.len()
                &&& forall|k: int|
                    0 <= k < from.len() ==> (#[trigger] items_of(
                        member(r.payload, "PartitionInputList"@),
                    )[k]) == partition_input(from[k])
            })
            &&& replies.len() >= at + 1 + deletes + creates ==> step == ProgressView::Got(
                (),
                at + 1 + deletes + creates,
            )
        }),
{
    keys_of_glue_differ();
    let input = JsonView::Object(swapped_input(target, source));
    pushed_is_found(scope, "TableInput"@, input, target);
    let t = "TableName"@;
    let d = "PartitionsToDelete"@;
    let c = "PartitionInputList"@;
    pushed_is_found(scope, t, text(target), d);
    pushed_is_found(scope, t, text(target), c);
    let named = scope.push((t, text(target)));
    let gone = JsonView::List(into.map_values(|p: JsonView| partition_values(p)));
    let new = JsonView::List(from.map_values(|p: JsonView| partition_input(p)));
    pushed_is_found(named, d, gone, t);
    pushed_is_found(named, c, new, t);
    if at < replies.len() {
        assert(replies[at] is Ok);
    }
    if at + 1 < replies.len() {
        assert(replies[at + 1] is Ok);
    }
    if at + 2 < replies.len() {
        assert(replies[at + 2] is Ok);
    }
}

/// A swap reads the partitions of the source, then those of the target, before it changes
/// anything.
pub proof fn a_swap_reads_both_tables_first(
    src: RelationParts,
    target: RelationParts,
    catalog: Option<Seq<char>>,
    source: JsonView,
    replies: Seq<ReplyView>,
    at: int,
)
    requires
        0 <= at <= replies.len(),
        forall|i: int| at <= i < replies.len() ==> (#[trigger] replies[i]) is Ok,
    ensures
        ({
            let step = swapped_from(src, target, catalog, source, replies, at);
            &&& replies.len() == at ==> step == ProgressView::<()>::Ask(
                partitions(
                    scope(catalog, src.schema@),
                    src.identifier@,
                    None,
                    false,
                    replies,
                    at,
                )->Ask_0,
            )
            &&& replies.len() == at + 1 ==> step == ProgressView::<()>::Ask(
                partitions(
                    target_scope(catalog, src, target),
                    target.identifier@,
                    None,
                    false,
                    replies,
                    at + 1,
                )->Ask_0,
            )
            &&& replies.len() >= at + 2 ==> step == swapped_known(
                target_scope(catalog, src, target),
                target.identifier@,
                source,
                items_of(member(replies[at]->Ok_0, "Partitions"@)),
                items_of(member(replies[at + 1]->Ok_0, "Partitions"@)),
                replies,
                at + 2,
            )
        }),
{
    if at < replies.len() {
        assert(replies[at] is Ok);
    }
    if at + 1 < replies.len() {
        assert(replies[at + 1] is Ok);
    }
}

// ---------------------------------------------------------------------------
// Versions of tables
// ---------------------------------------------------------------------------

/// A version is read from its table: its number, its id and its location. What has no
/// number is no version.
pub proof fn versions_are_read(entry: JsonView)
    ensures
        version_of(entry) matches Some(v) ==> {
            let table = member(entry, "Table"@);
            &&& text_at(table, "VersionId"@) == Some(v.id)
            &&& signed(v.id) == Some(v.ordinal)
            &&& v.location == text_at(member(table, "StorageDescriptor"@), "Location"@)
        },
        (text_at(member(entry, "Table"@), "VersionId"@) matches Some(id) && (signed(
            id,
        ) matches Some(n) && -0x8000_0000_0000_0000 <= n <= 0x7FFF_FFFF_FFFF_FFFF)) ==> version_of(
            entry,
        ) is Some,
{
}

/// Versions expire one after another, from the first that is not kept: each is deleted by
/// its id, then what it stored where that is asked for. What Glue does not delete is
/// passed over, with what it stores.
pub proof fn versions_expire_in_turn(
    catalog: Option<Seq<char>>,
    relation: RelationParts,
    versions: Seq<VersionView>,
    i: int,
    delete_s3: bool,
    deleted: Seq<Seq<char>>,
    replies: Seq<ReplyView>,
    at: int,
)
    requires
        0 <= i <= versions.len(),
        0 <= at <= replies.len(),
    ensures
        ({
            let step = expired(
                catalog,
                relation,
                versions,
                i,
                delete_s3,
                deleted,
                replies,
                at,
            );
            &&& i == versions.len() ==> step == ProgressView::Got(deleted, at)
            &&& i < versions.len() && at == replies.len() ==> (step matches ProgressView::Ask(r)
                && {
                &&& r.operation == "glue.delete_table_version"@
                &&& text_at(r.payload, "VersionId"@) == Some(versions[i].id)
                &&& text_at(r.payload, "TableName"@) == Some(relation.identifier@)
                &&& text_at(r.payload, "DatabaseName"@) == Some(relation.schema@)
                &&& text_at(r.payload, "CatalogId"@) == catalog
            })
            &&& i < versions.len() && at < replies.len() && replies[at] is Err ==> step == expired(
                catalog,
                relation,
                versions,
                i + 1,
                delete_s3,
                deleted,
                replies,
                at + 1,
            )
            &&& i < versions.len() && at < replies.len() && replies[at] is Ok && (!delete_s3
                || versions[i].location is None) ==> step == expired(
                catalog,
                relation,
                versions,
                i + 1,
                delete_s3,
                deleted.push(versions[i].id),
                replies,
                at + 1,
            )
            &&& i < versions.len() && at < replies.len() && replies[at] is Ok && delete_s3
                && versions[i].location is Some ==> (match deleted_path(
                versions[i].location->0,
                replies,
                at + 1,
            ) {
                ProgressView::Ask(r) => step == ProgressView::<Seq<Seq<char>>>::Ask(r),
                ProgressView::Got(_, n) => step == expired(
                    catalog,
                    relation,
                    versions,
                    i + 1,
                    delete_s3,
                    deleted.push(versions[i].id),
                    replies,
                    n,
                ),
                ProgressView::Fail(_, n) => step == expired(
                    catalog,
                    relation,
                    versions,
                    i + 1,
                    delete_s3,
                    deleted.push(versions[i].id),
                    replies,
                    n,
                ),
            })
        }),
{
    keys_of_glue_differ();
    if i < versions.len() {
        let f = delete_fields(catalog, relation, versions[i].id);
        if catalog is Some {
            place_is_unique(f, "CatalogId"@, 0);
            place_is_unique(f, "DatabaseName"@, 1);
            place_is_unique(f, "TableName"@, 2);
            place_is_unique(f, "VersionId"@, 3);
        } else {
            place_is_unique(f, "DatabaseName"@, 0);
            place_is_unique(f, "TableName"@, 1);
            place_is_unique(f, "VersionId"@, 2);
            place_is_unique(f, "CatalogId"@, 3);
        }
    }
}

/// Of the versions that Glue lists, the newest are kept, as many as asked for: the first
/// to be deleted is the one behind them.
pub proof fn the_newest_are_kept(
    relation: RelationParts,
    catalog: Option<Seq<char>>,
    to_keep: int,
    delete_s3: bool,
    replies: Seq<ReplyView>,
    at: int,
    n: int,
)
    requires
        catalog_id(opt(relation.database), replies, at) == ProgressView::Got(catalog, n),
        0 <= n <= replies.len(),
        0 <= to_keep,
    ensures
        n == replies.len() ==> (expired_versions(relation, to_keep, delete_s3, replies, at)
            matches ProgressView::Ask(r) && {
            &&& r.operation == "glue.get_table_versions"@
            &&& text_at(r.payload, "DatabaseName"@) == Some(relation.schema@)
            &&& text_at(r.payload, "TableName"@) == Some(relation.identifier@)
        }),
        n + 1 == replies.len() && replies[n] is Ok ==> {
            let versions = newest_first(items_of(member(replies[n]->Ok_0, "TableVersions"@)));
            &&& versions.len() <= to_keep ==> expired_versions(
                relation,
                to_keep,
                delete_s3,
                replies,
                at,
            ) == ProgressView::Got(Seq::<Seq<char>>::empty(), n + 1)
            &&& versions.len() > to_keep ==> (expired_versions(
                relation,
                to_keep,
                delete_s3,
                replies,
                at,
            ) matches ProgressView::Ask(r) && r.operation == "glue.delete_table_version"@
                && text_at(r.payload, "VersionId"@) == Some(versions[to_keep].id))
        },
{
    keys_of_glue_differ();
    let f = Seq::<(Seq<char>, JsonView)>::empty().push(
        ("DatabaseName"@, text(relation.schema@)),
    ).push(("TableName"@, text(relation.identifier@)));
    place_is_unique(f, "DatabaseName"@, 0);
    place_is_unique(f, "TableName"@, 1);
    if n + 1 == replies.len() && replies[n] is Ok {
        let versions = newest_first(items_of(member(replies[n]->Ok_0, "TableVersions"@)));
        if to_keep < versions.len() {
            versions_expire_in_turn(
                catalog,
                relation,
                versions,
                to_keep,
                delete_s3,
                Seq::empty(),
                replies,
                n + 1,
            );
        }
    }
}

// ---------------------------------------------------------------------------
// Cleaning up partitions
// ---------------------------------------------------------------------------

/// Conditions are bracketed and joined by `or`; an expression has at most 2048 bytes.
pub proof fn conditions_are_joined(
    condition: Seq<char>,
    conditions: Seq<Seq<char>>,
    last: Seq<char>,
)
    ensures
        bracketed(condition) == seq!['('] + condition + seq![')'],
        any_of(seq![last]) == last,
        conditions.len() > 0 ==> any_of(conditions.push(last)) == any_of(conditions) + " or "@
            + last,
        fits(condition) <==> encode_utf8(condition).len() <= 2048,
{
    reveal_strlit("(");
    reveal_strlit(")");
    assert("("@ =~= seq!['(']);
    assert(")"@ =~= seq![')']);
    assert(conditions.push(last).drop_last() =~= conditions);
}

proof fn first_too_long_is_there(conditions: Seq<Seq<char>>)
    ensures
        first_too_long(conditions) is Some <==> exists|i: int|
            0 <= i < conditions.len() && encode_utf8(bracketed(#[trigger] conditions[i])).len()
                > 2048,
    decreases conditions.len(),
{
    if conditions.len() > 0 {
        let rest = conditions.drop_first();
        first_too_long_is_there(rest);
        if first_too_long(rest) is Some {
            let i = choose|i: int|
                0 <= i < rest.len() && encode_utf8(bracketed(#[trigger] rest[i])).len() > 2048;
            assert(conditions[i + 1] == rest[i]);
        }
        if exists|i: int|
            0 <= i < conditions.len() && encode_utf8(bracketed(#[trigger] conditions[i])).len()
                > 2048 {
            let i = choose|i: int|
                0 <= i < conditions.len() && encode_utf8(bracketed(#[trigger] conditions[i])).len()
                    > 2048;
            if i > 0 {
                assert(rest[i - 1] == conditions[i]);
            }
        }
    }
}

/// There are expressions for all conditions unless one of them is too long by itself.
pub proof fn only_long_conditions_are_refused(conditions: Seq<Seq<char>>)
    ensures
        expressions(conditions) is Err <==> exists|i: int|
            0 <= i < conditions.len() && encode_utf8(bracketed(#[trigger] conditions[i])).len()
                > 2048,
{
    first_too_long_is_there(conditions);
}

/// A condition joins the last expression while that stays within 2048 bytes, and begins a
/// new one otherwise.
pub proof fn expressions_are_filled(conditions: Seq<Seq<char>>, last: Seq<char>)
    ensures
        groups(Seq::empty()).len() == 0,
        ({
            let before = groups(conditions);
            let after = groups(conditions.push(last));
            let one = seq!['('] + last + seq![')'];
            if before.len() > 0 && encode_utf8(any_of(before.last().push(one))).len() <= 2048 {
                &&& after.len() == before.len()
                &&& after.drop_last() == before.drop_last()
                &&& after.last() == before.last().push(one)
            } else {
                after == before.push(seq![one])
            }
        }),
{
    conditions_are_joined(last, conditions, last);
    assert(conditions.push(last).drop_last() =~= conditions);
    let before = groups(conditions);
    let one = bracketed(last);
    if before.len() > 0 {
        assert(before.update(before.len() - 1, before.last().push(one)).drop_last()
            =~= before.drop_last());
    }
}

/// The locations of partitions, in their order; a partition without one is passed over.
pub proof fn partitions_have_locations(found: Seq<JsonView>, one: JsonView)
    ensures
        locations(Seq::empty()) == Seq::<Seq<char>>::empty(),
        text_at(member(one, "StorageDescriptor"@), "Location"@) is None ==> locations(
            found.push(one),
        ) == locations(found),
        text_at(member(one, "StorageDescriptor"@), "Location"@) matches Some(l) ==> locations(
            found.push(one),
        ) == locations(found).push(l),
{
    assert(found.push(one).drop_last() =~= found);
}

/// Partitions go in chunks of a thousand, the last of what is left, so that none is left
/// out and none goes twice.
pub proof fn chunks_follow_each_other(len: int, from: int)
    requires
        0 <= from < len,
    ensures
        from < chunk_end(len, from) <= len,
        chunk_end(len, from) - from <= 1000,
        chunk_end(len, from) < len ==> chunk_end(len, from) == from + 1000,
{
}

/// Of each chunk the files are deleted first, then the partitions; where Glue reports an
/// error the rest stays.
pub proof fn files_go_before_their_partitions(
    scope: FieldsView,
    relation: RelationParts,
    found: Seq<JsonView>,
    from: int,
    replies: Seq<ReplyView>,
    at: int,
    n: int,
)
    requires
        0 <= from < found.len(),
        field(scope, "TableName"@) is None,
        field(scope, "PartitionsToDelete"@) is None,
    ensures
        ({
            let end = chunk_end(found.len() as int, from);
            let chunk = found.subrange(from, end);
            let step = cleaned(scope, relation, found, from, replies, at);
            let files = deleted_paths(locations(chunk), replies, at);
            &&& files matches ProgressView::Ask(r) ==> step == ProgressView::<()>::Ask(r)
            &&& files matches ProgressView::Fail(e, m) ==> step == ProgressView::<()>::Fail(e, m)
            &&& files == ProgressView::Got((), n) && n == replies.len() ==> (
            step matches ProgressView::Ask(r) && {
                &&& r.operation == "glue.batch_delete_partition"@
                &&& text_at(r.payload, "TableName"@) == Some(relation.identifier@)
                &&& items_of(member(r.payload, "PartitionsToDelete"@)).len() == end - from
                &&& forall|k: int|
                    0 <= k < end - from ==> (#[trigger] items_of(
                        member(r.payload, "PartitionsToDelete"@),
                    )[k]) == partition_values(found[from + k])
            })
            &&& files == ProgressView::Got((), n) && 0 <= n < replies.len() && (
            replies[n] matches Ok(response) && items_of(member(response, "Errors"@)).len() == 0)
                ==> step == cleaned(scope, relation, found, end, replies, n + 1)
            &&& files == ProgressView::Got((), n) && 0 <= n < replies.len() && (
            replies[n] matches Ok(response) && items_of(member(response, "Errors"@)).len() > 0)
                ==> step is Fail
        }),
{
    keys_of_glue_differ();
    let end = chunk_end(found.len() as int, from);
    let chunk = found.subrange(from, end);
    let t = "TableName"@;
    let d = "PartitionsToDelete"@;
    pushed_is_found(scope, t, text(relation.identifier@), d);
    let named = scope.push((t, text(relation.identifier@)));
    pushed_is_found(
        named,
        d,
        JsonView::List(chunk.map_values(|p: JsonView| partition_values(p))),
        t,
    );
}

/// Every expression is asked for, in turn, and what it finds is added to what was found.
pub proof fn every_expression_is_asked_for(
    scope: FieldsView,
    table: Seq<char>,
    selecting: Seq<Seq<char>>,
    i: int,
    found: Seq<JsonView>,
    replies: Seq<ReplyView>,
    at: int,
)
    requires
        0 <= i <= selecting.len(),
        0 <= at <= replies.len(),
    ensures
        ({
            let step = selected(scope, table, selecting, i, found, replies, at);
            &&& i == selecting.len() ==> step == ProgressView::Got(found, at)
            &&& i < selecting.len() && at == replies.len() ==> step == ProgressView::<
                Seq<JsonView>,
            >::Ask(partitions(scope, table, Some(selecting[i]), true, replies, at)->Ask_0)
            &&& i < selecting.len() && at < replies.len() && replies[at] is Ok ==> step
                == selected(
                scope,
                table,
                selecting,
                i + 1,
                found + items_of(member(replies[at]->Ok_0, "Partitions"@)),
                replies,
                at + 1,
            )
        }),
{
}

/// What is said where something is missing, too long or left over.
pub proof fn glue_failures_are_told(
    count: int,
    relation: RelationParts,
    shown: Seq<char>,
    t: TableType,
)
    ensures
        not_deleted(count, relation) == "Failed to delete "@ + decimal(count)
            + " partition(s) from Glue table '"@ + relation.schema@ + "."@ + relation.identifier@
            + "'"@,
        no_location(shown, t) == "Relation "@ + shown + " is of type '"@ + value_of(t)
            + "' which requires a location, but no location returned by Glue."@,
        too_long(shown) == "Partition condition exceeds the Glue API expression limit of "@
            + decimal(2048) + " characters: '"@ + head(bracketed(shown), 100) + "...'"@,
{
}

} // verus!
