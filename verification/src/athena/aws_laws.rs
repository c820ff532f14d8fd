//! What is asked of AWS without a driver, batch by batch.

use crate::athena::aws::{
    batches, chunks_cleaned, completed, config_of, created_partition_batches, credentials_of,
    deleted_key_batches, deleted_partition_batches, docs_persisted, full_name, keys_deleted,
    listing_deleted, location_found, object_uploaded, partitions_deleted, partitions_replaced,
    path_deleted, paths_deleted, put_argument, put_fields, swap_from, swap_input, table_found,
    table_of, table_required, type_of_table, versions_expired, versions_expired_from, with_default,
    ClientCredentialsView, ClientSettings,
};
use crate::athena::cleanup::{chunk_end, locations};
use crate::athena::docs::DocsView;
use crate::athena::driver::{OpsErrorKind, OpsErrorView, ProgressView, ReplyView, RequestView};
use crate::athena::glue::{catalog_id, scope, text, GlueTableView, RelationParts};
use crate::athena::glue_laws::{pushed_is_found, requests_name_their_scope};
use crate::athena::persist::documented;
use crate::athena::s3::{bucket_of, prefix_of};
use crate::athena::storage::{texts_among, Listing};
use crate::athena::swap::{partition_input, partition_values, partitions, swapped_input};
use crate::athena::table_type::{glue_type, TableType};
use crate::athena::versions::{newest_first, VersionView};
use crate::json::{
    field, items_of, lookup, member, opt, or_empty, place_is_unique, put_then_field, text_at,
    texts_view, FieldsView, JsonView,
};
use vstd::prelude::*;

verus! {

proof fn pair_of_fields(a: Seq<char>, b: Seq<char>, x: JsonView, y: JsonView)
    requires
        a != b,
    ensures
        field(Seq::<(Seq<char>, JsonView)>::empty().push((a, x)).push((b, y)), a) == Some(x),
        field(Seq::<(Seq<char>, JsonView)>::empty().push((a, x)).push((b, y)), b) == Some(y),
{
    let f = Seq::<(Seq<char>, JsonView)>::empty().push((a, x)).push((b, y));
    place_is_unique(f, a, 0);
    place_is_unique(f, b, 1);
}

// ---------------------------------------------------------------------------
// Objects
// ---------------------------------------------------------------------------

/// Objects are deleted a thousand at a time: each batch is asked for with its bucket and
/// its keys, an error in one does not keep the next from being asked for, and is told at
/// the end.
pub proof fn objects_go_batch_by_batch(
    bucket: Seq<char>,
    split: Seq<Seq<Seq<char>>>,
    i: int,
    failed_before: bool,
    replies: Seq<ReplyView>,
    at: int,
)
    requires
        0 <= i <= split.len(),
        0 <= at <= replies.len(),
    ensures
        ({
            let step = deleted_key_batches(bucket, split, i, failed_before, replies, at);
            &&& i == split.len() && !failed_before ==> step == ProgressView::Got((), at)
            &&& i == split.len() && failed_before ==> (step matches ProgressView::Fail(e, n)
                && e.kind == OpsErrorKind::UnexpectedResult && e.message
                == "Failed to delete files from S3."@)
            &&& i < split.len() && at == replies.len() ==> (step matches ProgressView::Ask(r) && {
                &&& r.operation == "s3.delete_objects"@
                &&& text_at(r.payload, "Bucket"@) == Some(bucket)
                &&& member(r.payload, "Keys"@) == texts_view(split[i])
            })
            &&& i < split.len() && at < replies.len() && replies[at] is Err ==> step is Fail
            &&& i < split.len() && at < replies.len() && replies[at] is Ok ==> step
                == deleted_key_batches(
                bucket,
                split,
                i + 1,
                failed_before || items_of(member(replies[at]->Ok_0, "Errors"@)).len() > 0,
                replies,
                at + 1,
            )
        }),
{
    reveal_strlit("Bucket");
    reveal_strlit("Keys");
    assert("Bucket"@.len() == 6 && "Keys"@.len() == 4);
    if i < split.len() {
        pair_of_fields("Bucket"@, "Keys"@, text(bucket), texts_view(split[i]));
    }
}

/// A path is listed, then all that was listed is deleted in batches of at most a thousand.
pub proof fn a_path_is_deleted_in_batches(
    s3_path: Seq<char>,
    bucket: Seq<char>,
    keys: Seq<Seq<char>>,
    replies: Seq<ReplyView>,
    at: int,
)
    requires
        0 <= at <= replies.len(),
    ensures
        keys_deleted(bucket, keys, replies, at) == deleted_key_batches(
            bucket,
            batches(keys, 0, 1000),
            0,
            false,
            replies,
            at,
        ),
        at == replies.len() ==> (path_deleted(s3_path, replies, at) matches ProgressView::Ask(r)
            && r.operation == "s3.list_objects"@ && text_at(r.payload, "Bucket"@) == Some(
            bucket_of(s3_path),
        ) && text_at(r.payload, "Prefix"@) == Some(prefix_of(s3_path))),
        at < replies.len() && replies[at] is Ok ==> {
            let listed = texts_among(items_of(member(replies[at]->Ok_0, "Keys"@)));
            &&& listed.len() == 0 ==> path_deleted(s3_path, replies, at) == ProgressView::Got(
                (),
                at + 1,
            )
            &&& listed.len() > 0 ==> path_deleted(s3_path, replies, at) == keys_deleted(
                bucket_of(s3_path),
                listed,
                replies,
                at + 1,
            )
        },
{
    reveal_strlit("Bucket");
    reveal_strlit("Prefix");
    assert("Bucket"@.len() == 6 && "Prefix"@.len() == 6);
    assert("Bucket"@[0] == 'B' && "Prefix"@[0] == 'P');
    pair_of_fields("Bucket"@, "Prefix"@, text(bucket_of(s3_path)), text(prefix_of(s3_path)));
}

/// Of several paths every bucket that has keys is emptied, one after another.
pub proof fn every_bucket_is_emptied(
    listing: Listing,
    i: int,
    replies: Seq<ReplyView>,
    at: int,
)
    requires
        0 <= i <= listing.len(),
    ensures
        i == listing.len() ==> listing_deleted(listing, i, replies, at) == ProgressView::Got(
            (),
            at,
        ),
        i < listing.len() && listing[i].1.len() == 0 ==> listing_deleted(listing, i, replies, at)
            == listing_deleted(listing, i + 1, replies, at),
        i < listing.len() && listing[i].1.len() > 0 ==> (match keys_deleted(
            listing[i].0,
            listing[i].1,
            replies,
            at,
        ) {
            ProgressView::Ask(r) => listing_deleted(listing, i, replies, at) == ProgressView::<
                (),
            >::Ask(r),
            ProgressView::Fail(e, n) => listing_deleted(listing, i, replies, at)
                == ProgressView::<()>::Fail(e, n),
            ProgressView::Got(_, n) => listing_deleted(listing, i, replies, at)
                == listing_deleted(listing, i + 1, replies, n),
        }),
{
}

/// The arguments of an upload that are known, and what they become.
pub proof fn put_arguments_are_known(name: Seq<char>, value: Seq<char>)
    ensures
        put_argument(name, value) is Ok <==> name == "ServerSideEncryption"@ || name
            == "SSEKMSKeyId"@ || name == "ACL"@ || name == "StorageClass"@ || name
            == "ContentType"@ || name == "BucketKeyEnabled"@,
        put_argument(name, value) matches Ok(v) ==> {
            &&& name != "BucketKeyEnabled"@ ==> v == JsonView::Text(value)
            &&& name == "BucketKeyEnabled"@ ==> v == JsonView::Bool(value == "true"@)
        },
{
    reveal_strlit("ServerSideEncryption");
    reveal_strlit("SSEKMSKeyId");
    reveal_strlit("ACL");
    reveal_strlit("StorageClass");
    reveal_strlit("ContentType");
    reveal_strlit("BucketKeyEnabled");
    assert("BucketKeyEnabled"@.len() == 16 && "ServerSideEncryption"@.len() == 20
        && "SSEKMSKeyId"@.len() == 11 && "ACL"@.len() == 3 && "StorageClass"@.len() == 12
        && "ContentType"@.len() == 11);
}

/// An upload names its bucket and its key, and of each argument what was said last.
pub proof fn a_put_says(
    bucket: Seq<char>,
    key: Seq<char>,
    arguments: Seq<(Seq<char>, Seq<char>)>,
    name: Seq<char>,
    value: Seq<char>,
    other: Seq<char>,
)
    ensures
        put_fields(bucket, key, Seq::empty()) matches Ok(f) && field(f, "Bucket"@) == Some(
            JsonView::Text(bucket),
        ) && field(f, "Key"@) == Some(JsonView::Text(key)),
        put_fields(bucket, key, arguments.push((name, value))) is Ok <==> put_fields(
            bucket,
            key,
            arguments,
        ) is Ok && put_argument(name, value) is Ok,
        put_fields(bucket, key, arguments.push((name, value))) matches Ok(f) ==> {
            &&& field(f, name) == Some(put_argument(name, value)->Ok_0)
            &&& other != name ==> field(f, other) == field(
                put_fields(bucket, key, arguments)->Ok_0,
                other,
            )
        },
{
    reveal_strlit("Bucket");
    reveal_strlit("Key");
    assert("Bucket"@.len() == 6 && "Key"@.len() == 3);
    pair_of_fields("Bucket"@, "Key"@, text(bucket), text(key));
    assert(arguments.push((name, value)).drop_last() =~= arguments);
    if put_fields(bucket, key, arguments) is Ok && put_argument(name, value) is Ok {
        put_then_field(
            put_fields(bucket, key, arguments)->Ok_0,
            name,
            put_argument(name, value)->Ok_0,
            other,
        );
    }
}

/// An upload is one request; with an argument that is not known there is none.
pub proof fn a_put_is_one_request(
    bucket: Seq<char>,
    key: Seq<char>,
    arguments: Seq<(Seq<char>, Seq<char>)>,
    replies: Seq<ReplyView>,
    at: int,
)
    requires
        0 <= at <= replies.len(),
    ensures
        match put_fields(bucket, key, arguments) {
            Ok(f) => {
                &&& at == replies.len() ==> object_uploaded(bucket, key, arguments, replies, at)
                    == ProgressView::<()>::Ask(
                    RequestView { operation: "s3.put_object"@, payload: JsonView::Object(f) },
                )
                &&& at < replies.len() && replies[at] is Ok ==> object_uploaded(
                    bucket,
                    key,
                    arguments,
                    replies,
                    at,
                ) == ProgressView::Got((), at + 1)
            },
            Err(e) => object_uploaded(bucket, key, arguments, replies, at) == ProgressView::<
                (),
            >::Fail(OpsErrorView { kind: OpsErrorKind::NotSupported, message: e }, at),
        },
{
}

// ---------------------------------------------------------------------------
// Tables
// ---------------------------------------------------------------------------

/// A table is asked for by its catalog, database and name. One that is not there is none
/// where it is looked for, and an error where it is required.
pub proof fn tables_are_looked_for(
    relation: RelationParts,
    catalog: Option<Seq<char>>,
    replies: Seq<ReplyView>,
    at: int,
    n: int,
)
    requires
        catalog_id(opt(relation.database), replies, at) == ProgressView::Got(catalog, n),
        0 <= n <= replies.len(),
    ensures
        n == replies.len() ==> (table_found(relation, replies, at) matches ProgressView::Ask(r)
            && r.operation == "glue.get_table"@ && text_at(r.payload, "DatabaseName"@) == Some(
            relation.schema@,
        ) && text_at(r.payload, "Name"@) == Some(relation.identifier@) && text_at(
            r.payload,
            "CatalogId"@,
        ) == catalog),
        n < replies.len() && replies[n] is Ok ==> {
            let response = replies[n]->Ok_0;
            let table = if lookup(response, "Table"@) == Some(JsonView::Null) {
                None
            } else {
                lookup(response, "Table"@)
            };
            &&& text_at(response, "EntityNotFound"@) is Some ==> table_found(relation, replies, at)
                == ProgressView::Got(None::<JsonView>, n + 1)
            &&& text_at(response, "EntityNotFound"@) is None ==> table_found(relation, replies, at)
                == ProgressView::Got(table, n + 1)
            &&& text_at(response, "EntityNotFound"@) is Some ==> (table_required(
                catalog,
                relation,
                replies,
                n,
            ) matches ProgressView::Fail(e, _) && e.kind == OpsErrorKind::Driver && Some(e.message)
                == text_at(response, "EntityNotFound"@))
            &&& text_at(response, "EntityNotFound"@) is None && table is None ==> (table_required(
                catalog,
                relation,
                replies,
                n,
            ) matches ProgressView::Fail(e, _) && e.kind == OpsErrorKind::NotFound)
            &&& text_at(response, "EntityNotFound"@) is None ==> (table matches Some(t)
                ==> table_required(catalog, relation, replies, n) == ProgressView::Got(t, n + 1))
        },
{
    reveal_strlit("Name");
    reveal_strlit("DatabaseName");
    reveal_strlit("CatalogId");
    assert("Name"@.len() == 4 && "DatabaseName"@.len() == 12 && "CatalogId"@.len() == 9);
    let s = scope(catalog, relation.schema@);
    requests_name_their_scope(catalog, relation.schema@);
    pushed_is_found(s, "Name"@, text(relation.identifier@), "DatabaseName"@);
    pushed_is_found(s, "Name"@, text(relation.identifier@), "CatalogId"@);
}

/// What is read of a table: its type by its own fields, under its full name, and its
/// location.
pub proof fn tables_are_read(
    relation: RelationParts,
    table: JsonView,
    replies: Seq<ReplyView>,
    at: int,
    n: int,
)
    requires
        table_found(relation, replies, at) == ProgressView::Got(Some(table), n),
    ensures
        type_of_table(table) == glue_type(
            text_at(table, "TableType"@),
            text_at(member(table, "Parameters"@), "table_type"@),
            full_name(table),
        ),
        type_of_table(table) matches Ok(t) ==> table_of(relation, replies, at) == ProgressView::Got(
            Some(
                GlueTableView {
                    table_type: t,
                    location: text_at(member(table, "StorageDescriptor"@), "Location"@),
                },
            ),
            n,
        ),
        type_of_table(table) is Err ==> table_of(relation, replies, at) is Fail,
        full_name(table) == (match text_at(table, "CatalogId"@) {
            Some(c) => c + seq!['.'],
            None => Seq::empty(),
        }) + (match text_at(table, "DatabaseName"@) {
            Some(d) => d + seq!['.'],
            None => Seq::empty(),
        }) + or_empty(text_at(table, "Name"@)),
{
    reveal_strlit(".");
    assert("."@ =~= seq!['.']);
}

/// Tables that hold data have a location; nothing else is asked for one.
pub proof fn locations_of_tables(
    relation: RelationParts,
    table: Option<GlueTableView>,
    replies: Seq<ReplyView>,
    at: int,
    n: int,
)
    requires
        table_of(relation, replies, at) == ProgressView::Got(table, n),
    ensures
        table is None ==> location_found(relation, replies, at) == ProgressView::Got(
            None::<Seq<char>>,
            n,
        ),
        table matches Some(t) ==> {
            let physical = t.table_type == TableType::Table || t.table_type == TableType::Iceberg;
            &&& !physical ==> location_found(relation, replies, at) == ProgressView::Got(
                None::<Seq<char>>,
                n,
            )
            &&& physical && t.location is None ==> location_found(relation, replies, at) is Fail
            &&& physical ==> (t.location matches Some(l) ==> if l.len() > 0 {
                location_found(relation, replies, at) == ProgressView::Got(Some(l), n)
            } else {
                location_found(relation, replies, at) is Fail
            })
        },
{
}

proof fn default_is_found(input: FieldsView, key: Seq<char>, value: JsonView, other: Seq<char>)
    ensures
        field(with_default(input, key, value), key) == (if field(input, key) is Some {
            field(input, key)
        } else {
            Some(value)
        }),
        other != key ==> field(with_default(input, key, value), other) == field(input, other),
{
    pushed_is_found(input, key, value, other);
}

/// A table is written with every field that it was given; keys, parameters and retention
/// that it was not given are empty.
pub proof fn inputs_are_completed(input: FieldsView, key: Seq<char>)
    ensures
        field(input, key) is Some ==> field(completed(input), key) == field(input, key),
        field(input, "PartitionKeys"@) is None ==> field(completed(input), "PartitionKeys"@)
            == Some(JsonView::List(Seq::empty())),
        field(input, "Parameters"@) is None ==> field(completed(input), "Parameters"@) == Some(
            JsonView::Object(Seq::empty()),
        ),
        field(input, "Retention"@) is None ==> field(completed(input), "Retention"@) == Some(
            JsonView::Int(0),
        ),
        field(input, key) is None && key != "PartitionKeys"@ && key != "Parameters"@ && key
            != "Retention"@ ==> field(completed(input), key) is None,
{
    reveal_strlit("PartitionKeys");
    reveal_strlit("Parameters");
    reveal_strlit("Retention");
    assert("PartitionKeys"@.len() == 13 && "Parameters"@.len() == 10 && "Retention"@.len() == 9);
    let none = JsonView::List(Seq::empty());
    let empty = JsonView::Object(Seq::empty());
    let a = with_default(input, "PartitionKeys"@, none);
    let b = with_default(a, "Parameters"@, empty);
    default_is_found(input, "PartitionKeys"@, none, key);
    default_is_found(input, "PartitionKeys"@, none, "Parameters"@);
    default_is_found(input, "PartitionKeys"@, none, "Retention"@);
    default_is_found(a, "Parameters"@, empty, key);
    default_is_found(a, "Parameters"@, empty, "PartitionKeys"@);
    default_is_found(a, "Parameters"@, empty, "Retention"@);
    default_is_found(b, "Retention"@, JsonView::Int(0), key);
    default_is_found(b, "Retention"@, JsonView::Int(0), "PartitionKeys"@);
    default_is_found(b, "Retention"@, JsonView::Int(0), "Parameters"@);
}

/// A swap writes what the source holds; where that has no keys the target has none.
pub proof fn a_swap_writes_the_source(name: Seq<char>, source: JsonView, key: Seq<char>)
    ensures
        key != "PartitionKeys"@ ==> field(swap_input(name, source), key) == field(
            swapped_input(name, source),
            key,
        ),
        field(swapped_input(name, source), "PartitionKeys"@) is Some ==> field(
            swap_input(name, source),
            "PartitionKeys"@,
        ) == field(swapped_input(name, source), "PartitionKeys"@),
        field(swapped_input(name, source), "PartitionKeys"@) is None ==> field(
            swap_input(name, source),
            "PartitionKeys"@,
        ) == Some(JsonView::List(Seq::empty())),
{
    default_is_found(
        swapped_input(name, source),
        "PartitionKeys"@,
        JsonView::List(Seq::empty()),
        key,
    );
}

/// Glue is asked to update a table just where its documentation changes, with the table as
/// documented and completed.
pub proof fn only_changes_reach_glue(
    relation: RelationParts,
    docs: DocsView,
    catalog: Option<Seq<char>>,
    table: JsonView,
    replies: Seq<ReplyView>,
    at: int,
    n: int,
    m: int,
)
    requires
        catalog_id(opt(relation.database), replies, at) == ProgressView::Got(catalog, n),
        table_required(catalog, relation, replies, n) == ProgressView::Got(table, m),
        0 <= m <= replies.len(),
    ensures
        documented(table, docs) is Err ==> docs_persisted(relation, docs, replies, at) is Fail,
        documented(table, docs) matches Ok((input, changed)) ==> {
            &&& !changed ==> docs_persisted(relation, docs, replies, at) == ProgressView::Got((), m)
            &&& changed && m == replies.len() ==> (docs_persisted(relation, docs, replies, at)
                matches ProgressView::Ask(r) && {
                &&& r.operation == "glue.update_table"@
                &&& text_at(r.payload, "DatabaseName"@) == Some(relation.schema@)
                &&& text_at(r.payload, "CatalogId"@) == catalog
                &&& member(r.payload, "TableInput"@) == JsonView::Object(completed(input))
                &&& member(r.payload, "SkipArchive"@) == JsonView::Bool(
                    docs.skip_archive_table_version,
                )
            })
            &&& changed && m < replies.len() && replies[m] is Ok ==> docs_persisted(
                relation,
                docs,
                replies,
                at,
            ) == ProgressView::Got((), m + 1)
        },
{
    reveal_strlit("DatabaseName");
    reveal_strlit("CatalogId");
    reveal_strlit("TableInput");
    reveal_strlit("SkipArchive");
    assert("DatabaseName"@.len() == 12 && "CatalogId"@.len() == 9 && "TableInput"@.len() == 10
        && "SkipArchive"@.len() == 11);
    let s = scope(catalog, relation.schema@);
    requests_name_their_scope(catalog, relation.schema@);
    if catalog is Some {
        place_is_unique(s, "SkipArchive"@, 2);
    } else {
        place_is_unique(s, "SkipArchive"@, 1);
    }
    if let Ok((input, changed)) = documented(table, docs) {
        let v = JsonView::Object(completed(input));
        let f = s.push(("TableInput"@, v));
        pushed_is_found(s, "TableInput"@, v, "DatabaseName"@);
        pushed_is_found(s, "TableInput"@, v, "CatalogId"@);
        pushed_is_found(s, "TableInput"@, v, "SkipArchive"@);
        let w = JsonView::Bool(docs.skip_archive_table_version);
        pushed_is_found(f, "SkipArchive"@, w, "DatabaseName"@);
        pushed_is_found(f, "SkipArchive"@, w, "CatalogId"@);
        pushed_is_found(f, "SkipArchive"@, w, "TableInput"@);
    }
}

// ---------------------------------------------------------------------------
// Partitions
// ---------------------------------------------------------------------------

/// Partitions are deleted 25 at a time and created a hundred at a time, each batch behind
/// the one before; what Glue could not delete is gathered.
pub proof fn partitions_go_batch_by_batch(
    scope: FieldsView,
    table: Seq<char>,
    split: Seq<Seq<JsonView>>,
    i: int,
    errors: Seq<JsonView>,
    found: Seq<JsonView>,
    replies: Seq<ReplyView>,
    at: int,
)
    requires
        0 <= i <= split.len(),
        0 <= at <= replies.len(),
        field(scope, "TableName"@) is None,
        field(scope, "PartitionsToDelete"@) is None,
        field(scope, "PartitionInputList"@) is None,
    ensures
        partitions_deleted(scope, table, found, replies, at) == deleted_partition_batches(
            scope,
            table,
            batches(found, 0, 25),
            0,
            Seq::empty(),
            replies,
            at,
        ),
        ({
            let gone = deleted_partition_batches(scope, table, split, i, errors, replies, at);
            let new = created_partition_batches(scope, table, split, i, replies, at);
            &&& i == split.len() ==> gone == ProgressView::Got(errors, at) && new
                == ProgressView::Got((), at)
            &&& i < split.len() && at == replies.len() ==> (gone matches ProgressView::Ask(r) && {
                &&& r.operation == "glue.batch_delete_partition"@
                &&& text_at(r.payload, "TableName"@) == Some(table)
                &&& items_of(member(r.payload, "PartitionsToDelete"@)).len() == split[i].len()
                &&& forall|k: int|
                    0 <= k < split[i].len() ==> (#[trigger] items_of(
                        member(r.payload, "PartitionsToDelete"@),
                    )[k]) == partition_values(split[i][k])
            })
            &&& i < split.len() && at == replies.len() ==> (new matches ProgressView::Ask(r) && {
                &&& r.operation == "glue.batch_create_partition"@
                &&& text_at(r.payload, "TableName"@) == Some(table)
                &&& items_of(member(r.payload, "PartitionInputList"@)).len() == split[i].len()
                &&& forall|k: int|
                    0 <= k < split[i].len() ==> (#[trigger] items_of(
                        member(r.payload, "PartitionInputList"@),
                    )[k]) == partition_input(split[i][k])
            })
            &&& i < split.len() && at < replies.len() && replies[at] is Ok ==> gone
                == deleted_partition_batches(
                scope,
                table,
                split,
                i + 1,
                errors + items_of(member(replies[at]->Ok_0, "Errors"@)),
                replies,
                at + 1,
            ) && new == created_partition_batches(scope, table, split, i + 1, replies, at + 1)
            &&& i < split.len() && at < replies.len() && replies[at] is Err ==> gone is Fail
                && new is Fail
        }),
{
    reveal_strlit("TableName");
    reveal_strlit("PartitionsToDelete");
    reveal_strlit("PartitionInputList");
    assert("TableName"@.len() == 9 && "PartitionsToDelete"@.len() == 18
        && "PartitionInputList"@.len() == 18);
    pushed_is_found(scope, "TableName"@, text(table), "PartitionsToDelete"@);
    pushed_is_found(scope, "TableName"@, text(table), "PartitionInputList"@);
    if i < split.len() {
        let named = scope.push(("TableName"@, text(table)));
        pushed_is_found(
            named,
            "PartitionsToDelete"@,
            JsonView::List(split[i].map_values(|p: JsonView| partition_values(p))),
            "TableName"@,
        );
        pushed_is_found(
            named,
            "PartitionInputList"@,
            JsonView::List(split[i].map_values(|p: JsonView| partition_input(p))),
            "TableName"@,
        );
    }
}

/// The partitions of the target are all deleted before those of the source are created.
pub proof fn old_partitions_go_first(
    scope: FieldsView,
    target: Seq<char>,
    from: Seq<JsonView>,
    into: Seq<JsonView>,
    replies: Seq<ReplyView>,
    at: int,
)
    ensures
        match partitions_deleted(scope, target, into, replies, at) {
            ProgressView::Ask(r) => partitions_replaced(scope, target, from, into, replies, at)
                == ProgressView::<()>::Ask(r),
            ProgressView::Fail(e, n) => partitions_replaced(scope, target, from, into, replies, at)
                == ProgressView::<()>::Fail(e, n),
            ProgressView::Got(_, n) => partitions_replaced(scope, target, from, into, replies, at)
                == created_partition_batches(
                scope,
                target,
                batches(from, 0, 100),
                0,
                replies,
                n,
            ),
        },
{
}

/// A swap reads the partitions of both tables, then updates the target, then replaces its
/// partitions.
pub proof fn a_swap_goes_step_by_step(
    src: RelationParts,
    target: RelationParts,
    catalog: Option<Seq<char>>,
    source: JsonView,
    replies: Seq<ReplyView>,
    at: int,
)
    requires
        0 <= at <= replies.len(),
        forall|i: int| at <= i < replies.len() ==> (#[trigger] replies[i]) is Ok,
    ensures
        ({
            let step = swap_from(src, target, catalog, source, replies, at);
            let own = scope(catalog, target.schema@);
            &&& replies.len() == at ==> step == ProgressView::<()>::Ask(
                partitions(
                    scope(catalog, src.schema@),
                    src.identifier@,
                    None,
                    false,
                    replies,
                    at,
                )->Ask_0,
            )
            &&& replies.len() == at + 1 ==> step == ProgressView::<()>::Ask(
                partitions(own, target.identifier@, None, false, replies, at + 1)->Ask_0,
            )
            &&& replies.len() == at + 2 ==> (step matches ProgressView::Ask(r) && r.operation
                == "glue.update_table"@ && text_at(r.payload, "DatabaseName"@) == Some(
                target.schema@,
            ) && member(r.payload, "TableInput"@) == JsonView::Object(
                swap_input(target.identifier@, source),
            ))
            &&& replies.len() >= at + 3 ==> step == partitions_replaced(
                own,
                target.identifier@,
                items_of(member(replies[at]->Ok_0, "Partitions"@)),
                items_of(member(replies[at + 1]->Ok_0, "Partitions"@)),
                replies,
                at + 3,
            )
        }),
{
    reveal_strlit("DatabaseName");
    reveal_strlit("TableInput");
    assert("DatabaseName"@.len() == 12 && "TableInput"@.len() == 10);
    if at < replies.len() {
        assert(replies[at] is Ok);
    }
    if at + 1 < replies.len() {
        assert(replies[at + 1] is Ok);
    }
    if at + 2 < replies.len() {
        assert(replies[at + 2] is Ok);
    }
    requests_name_their_scope(catalog, target.schema@);
    pushed_is_found(
        scope(catalog, target.schema@),
        "TableInput"@,
        JsonView::Object(swap_input(target.identifier@, source)),
        "DatabaseName"@,
    );
}

/// Of each chunk the files are deleted first, then the partitions; where Glue reports an
/// error the rest stays.
pub proof fn chunks_lose_their_files_first(
    scope: FieldsView,
    relation: RelationParts,
    found: Seq<JsonView>,
    from: int,
    replies: Seq<ReplyView>,
    at: int,
)
    requires
        0 <= from < found.len(),
    ensures
        ({
            let end = chunk_end(found.len() as int, from);
            let chunk = found.subrange(from, end);
            let step = chunks_cleaned(scope, relation, found, from, replies, at);
            match paths_deleted(locations(chunk), replies, at) {
                ProgressView::Ask(r) => step == ProgressView::<()>::Ask(r),
                ProgressView::Fail(e, n) => step == ProgressView::<()>::Fail(e, n),
                ProgressView::Got(_, n) => match partitions_deleted(
                    scope,
                    relation.identifier@,
                    chunk,
                    replies,
                    n,
                ) {
                    ProgressView::Ask(r) => step == ProgressView::<()>::Ask(r),
                    ProgressView::Fail(e, m) => step == ProgressView::<()>::Fail(e, m),
                    ProgressView::Got(errors, m) => if errors.len() > 0 {
                        step is Fail
                    } else {
                        step == chunks_cleaned(scope, relation, found, end, replies, m)
                    },
                },
            }
        }),
{
}

// ---------------------------------------------------------------------------
// Versions
// ---------------------------------------------------------------------------

/// The newest versions are kept, as many as asked for: the first to be deleted is the one
/// behind them, and each is deleted by its id.
pub proof fn kept_versions_stay(
    relation: RelationParts,
    catalog: Option<Seq<char>>,
    to_keep: int,
    delete_s3: bool,
    replies: Seq<ReplyView>,
    at: int,
    n: int,
)
    requires
        catalog_id(opt(relation.database), replies, at) == ProgressView::Got(catalog, n),
        0 <= n <= replies.len(),
        0 <= to_keep,
    ensures
        n == replies.len() ==> (versions_expired(relation, to_keep, delete_s3, replies, at)
            matches ProgressView::Ask(r) && r.operation == "glue.get_table_versions"@ && text_at(
            r.payload,
            "DatabaseName"@,
        ) == Some(relation.schema@) && text_at(r.payload, "TableName"@) == Some(
            relation.identifier@,
        )),
        n + 1 == replies.len() && replies[n] is Ok ==> {
            let versions = newest_first(items_of(member(replies[n]->Ok_0, "TableVersions"@)));
            &&& versions.len() <= to_keep ==> versions_expired(
                relation,
                to_keep,
                delete_s3,
                replies,
                at,
            ) == ProgressView::Got(Seq::<Seq<char>>::empty(), n + 1)
            &&& versions.len() > to_keep ==> (versions_expired(
                relation,
                to_keep,
                delete_s3,
                replies,
                at,
            ) matches ProgressView::Ask(r) && r.operation == "glue.delete_table_version"@
                && text_at(r.payload, "VersionId"@) == Some(versions[to_keep].id) && text_at(
                r.payload,
                "TableName"@,
            ) == Some(relation.identifier@) && text_at(r.payload, "DatabaseName"@) == Some(
                relation.schema@,
            ) && text_at(r.payload, "CatalogId"@) == catalog)
        },
{
    reveal_strlit("DatabaseName");
    reveal_strlit("TableName");
    reveal_strlit("VersionId");
    reveal_strlit("CatalogId");
    assert("DatabaseName"@.len() == 12 && "TableName"@.len() == 9 && "VersionId"@.len() == 9
        && "CatalogId"@.len() == 9);
    assert("TableName"@[0] == 'T' && "VersionId"@[0] == 'V' && "CatalogId"@[0] == 'C');
    pair_of_fields(
        "DatabaseName"@,
        "TableName"@,
        text(relation.schema@),
        text(relation.identifier@),
    );
    if n + 1 == replies.len() && replies[n] is Ok {
        let versions = newest_first(items_of(member(replies[n]->Ok_0, "TableVersions"@)));
        if to_keep < versions.len() {
            let f = crate::athena::versions::delete_fields(
                catalog,
                relation,
                versions[to_keep].id,
            );
            if catalog is Some {
                place_is_unique(f, "CatalogId"@, 0);
                place_is_unique(f, "DatabaseName"@, 1);
                place_is_unique(f, "TableName"@, 2);
                place_is_unique(f, "VersionId"@, 3);
            } else {
                place_is_unique(f, "DatabaseName"@, 0);
                place_is_unique(f, "TableName"@, 1);
                place_is_unique(f, "VersionId"@, 2);
                place_is_unique(f, "CatalogId"@, 3);
            }
        }
    }
}

/// A version that could not be deleted is passed over; what a deleted one stored goes with
/// it where that is asked for.
pub proof fn expired_versions_are_told(
    catalog: Option<Seq<char>>,
    relation: RelationParts,
    versions: Seq<VersionView>,
    i: int,
    delete_s3: bool,
    deleted: Seq<Seq<char>>,
    replies: Seq<ReplyView>,
    at: int,
)
    requires
        0 <= i < versions.len(),
        0 <= at < replies.len(),
    ensures
        ({
            let step = versions_expired_from(
                catalog,
                relation,
                versions,
                i,
                delete_s3,
                deleted,
                replies,
                at,
            );
            let more = deleted.push(versions[i].id);
            &&& replies[at] is Err ==> step == versions_expired_from(
                catalog,
                relation,
                versions,
                i + 1,
                delete_s3,
                deleted,
                replies,
                at + 1,
            )
            &&& replies[at] is Ok && (!delete_s3 || versions[i].location is None) ==> step
                == versions_expired_from(
                catalog,
                relation,
                versions,
                i + 1,
                delete_s3,
                more,
                replies,
                at + 1,
            )
            &&& replies[at] is Ok && delete_s3 ==> (versions[i].location matches Some(l) ==> (
            match path_deleted(l, replies, at + 1) {
                ProgressView::Ask(r) => step == ProgressView::<Seq<Seq<char>>>::Ask(r),
                ProgressView::Got(_, m) => step == versions_expired_from(
                    catalog,
                    relation,
                    versions,
                    i + 1,
                    delete_s3,
                    more,
                    replies,
                    m,
                ),
                ProgressView::Fail(_, m) => step == versions_expired_from(
                    catalog,
                    relation,
                    versions,
                    i + 1,
                    delete_s3,
                    more,
                    replies,
                    m,
                ),
            }))
        }),
{
}

// ---------------------------------------------------------------------------
// Clients
// ---------------------------------------------------------------------------

/// A client needs a region; keys come before a profile, and a profile before the default
/// chain. A token that is empty is none, and the work group has a default.
pub proof fn clients_are_configured(settings: ClientSettings)
    ensures
        settings.region_name is None ==> config_of(settings) is Err,
        settings.aws_access_key_id is Some && settings.aws_secret_access_key is None
            ==> credentials_of(settings) is Err,
        (settings.aws_access_key_id is Some && settings.aws_secret_access_key is Some) ==> (
        credentials_of(settings) matches Ok(
            ClientCredentialsView::Keys { access_key_id, secret_access_key, session_token },
        ) && access_key_id == settings.aws_access_key_id->0@ && secret_access_key
            == settings.aws_secret_access_key->0@ && session_token == (if opt(
            settings.aws_session_token,
        ) is Some && opt(settings.aws_session_token)->0.len() > 0 {
            opt(settings.aws_session_token)
        } else {
            None
        })),
        settings.aws_access_key_id is None ==> (opt(
            settings.aws_profile_name,
        ) matches Some(name) ==> credentials_of(settings) == Ok::<
            ClientCredentialsView,
            Seq<char>,
        >(ClientCredentialsView::Profile(name))),
        settings.aws_access_key_id is None && settings.aws_profile_name is None ==> credentials_of(
            settings,
        ) == Ok::<ClientCredentialsView, Seq<char>>(ClientCredentialsView::DefaultChain),
        config_of(settings) matches Ok(c) ==> {
            &&& opt(settings.region_name) == Some(c.region)
            &&& credentials_of(settings) == Ok::<ClientCredentialsView, Seq<char>>(c.credentials)
            &&& settings.work_group is Some ==> opt(settings.work_group) == Some(c.work_group)
            &&& settings.work_group is None ==> c.work_group == "primary"@
        },
        settings.region_name is Some && credentials_of(settings) is Ok ==> config_of(
            settings,
        ) is Ok,
{
}

/// An argument that is not known is refused by its name.
pub proof fn unknown_arguments_are_told(name: Seq<char>, value: Seq<char>)
    ensures
        put_argument(name, value) matches Err(e) ==> e == "seed_s3_upload_args key '"@ + name
            + "' is not supported by the dbt Athena backend"@,
{
}

} // verus!
