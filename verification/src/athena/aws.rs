//! The adapter's operations against the AWS services themselves.
//!
//! A service limits how many items one call may name, so long lists go out in batches.
//! Where Glue does not know a table, the answer to the lookup holds Glue's message in the
//! field `EntityNotFound`. A field of a call that is null is left out of it.

use crate::athena::cleanup::{
    chunk_end, chunk_of, expressions, locations, locations_at, not_deleted, partition_expressions,
    selected, PARTITION_PROCESSING_CHUNK_SIZE,
};
use crate::athena::docs::{pairs, Docs, DocsView};
use crate::athena::driver::{
    call, called, fail, failed, replies_view, then_do, within, OpsErrorKind, Progress, ProgressView,
    Reply, ReplyView, RequestView,
};
use crate::athena::glue::{
    catalog_id, location_at, location_of, no_location, opt_as_str, scope, scope_fields, text,
    AthenaOps, GlueTable, GlueTableView, RelationParts, DEFAULT_WORK_GROUP,
};
use crate::athena::methods::location_enforced;
use crate::athena::persist::{document_table, documented};
use crate::athena::s3::{bucket_of, parse_s3_path, prefix_of};
use crate::athena::storage::{
    add_keys, listed_paths, listing_view, object_keys, text_argument, Listing,
};
use crate::athena::swap::{
    changes_catalog, create_partitions_fields, delete_partitions_fields, deleted_partitions,
    deleted_table, dropped_database, empty_list, items_at, no_table, operations_are_distinct,
    partition_input, partition_inputs, partition_values, partitions, pushed_keeps, swapped_input,
    swapped_table_input,
};
use crate::athena::table_type::{glue_type, outcome, TableType};
use crate::athena::versions::{
    delete_fields, newest_first, sorted_versions, versions_view, VersionView,
};
use crate::json::{
    field, fields, items_of, items_view, lookup, member, nil, opt, opt_str, or_empty,
    place_is_unique, put, text_at, text_or_empty, texts, texts_view, Fields, FieldsView, Json,
    JsonView,
};
use crate::number::decimal_of;
use crate::text::{same, views};
use vstd::prelude::*;

verus! {

/// How many partitions one call may create.
pub const BATCH_CREATE_PARTITION_API_LIMIT: usize = 100;

/// How many partitions one call may delete.
pub const BATCH_DELETE_PARTITION_API_LIMIT: usize = 25;

/// How many objects one call may delete.
pub const BATCH_DELETE_S3_OBJECTS_API_LIMIT: usize = 1000;

/// The operations against the services, for one work group.
pub struct AthenaAws {
    pub work_group: String,
}

// ---------------------------------------------------------------------------
// Batches
// ---------------------------------------------------------------------------

/// Where the batch that starts at an index ends.
pub open spec fn batch_end(len: int, from: int, limit: int) -> int {
    if len - from <= limit {
        len
    } else {
        from + limit
    }
}

/// The items from an index on, in batches of at most `limit`.
pub open spec fn batches<T>(items: Seq<T>, from: int, limit: int) -> Seq<Seq<T>>
    decreases items.len() - from,
{
    if from < 0 || from >= items.len() || limit <= 0 {
        Seq::empty()
    } else {
        let end = batch_end(items.len() as int, from, limit);
        seq![items.subrange(from, end)] + batches(items, end, limit)
    }
}

proof fn batches_hold_rest<T>(items: Seq<T>, from: int, limit: int)
    requires
        0 <= from <= items.len(),
        0 < limit,
    ensures
        batches(items, from, limit).flatten() == items.skip(from),
        forall|i: int|
            0 <= i < batches(items, from, limit).len() ==> 0 < (#[trigger] batches(
                items,
                from,
                limit,
            )[i]).len() <= limit,
        forall|i: int|
            0 <= i < batches(items, from, limit).len() - 1 ==> (#[trigger] batches(
                items,
                from,
                limit,
            )[i]).len() == limit,
    decreases items.len() - from,
{
    let all = batches(items, from, limit);
    if from < items.len() {
        let end = batch_end(items.len() as int, from, limit);
        let rest = batches(items, end, limit);
        batches_hold_rest(items, end, limit);
        assert(all.drop_first() =~= rest);
        assert(all.first() == items.subrange(from, end));
        assert(items.subrange(from, end) + items.skip(end) =~= items.skip(from));
        assert forall|i: int| 0 <= i < all.len() implies 0 < (#[trigger] all[i]).len()
            <= limit by {
            if i > 0 {
                assert(all[i] == rest[i - 1]);
            }
        }
        assert forall|i: int| 0 <= i < all.len() - 1 implies (#[trigger] all[i]).len()
            == limit by {
            if i > 0 {
                assert(all[i] == rest[i - 1]);
            } else if end == items.len() {
                assert(rest.len() == 0);
            }
        }
    } else {
        assert(items.skip(from) =~= Seq::empty());
    }
}

/// The batches hold every item once, in their order. None is empty, none holds more than
/// the limit, and only the last holds less.
pub proof fn batches_hold_all<T>(items: Seq<T>, limit: int)
    requires
        0 < limit,
    ensures
        batches(items, 0, limit).flatten() == items,
        forall|i: int|
            0 <= i < batches(items, 0, limit).len() ==> 0 < (#[trigger] batches(
                items,
                0,
                limit,
            )[i]).len() <= limit,
        forall|i: int|
            0 <= i < batches(items, 0, limit).len() - 1 ==> (#[trigger] batches(
                items,
                0,
                limit,
            )[i]).len() == limit,
{
    batches_hold_rest(items, 0, limit);
    assert(items.skip(0) =~= items);
}

pub open spec fn item_batches(split: Seq<Vec<Json>>) -> Seq<Seq<JsonView>> {
    split.map_values(|b: Vec<Json>| items_view(b@))
}

pub open spec fn text_batches(split: Seq<Vec<String>>) -> Seq<Seq<Seq<char>>> {
    split.map_values(|b: Vec<String>| views(b@))
}

/// Splits items into batches.
pub fn split_items(items: &Vec<Json>, limit: usize) -> (r: Vec<Vec<Json>>)
    requires
        0 < limit,
    ensures
        item_batches(r@) == batches(items_view(items@), 0, limit as int),
{
    let ghost all = items_view(items@);
    let mut r: Vec<Vec<Json>> = Vec::new();
    let mut from: usize = 0;
    assert(item_batches(r@) + batches(all, 0, limit as int) =~= batches(all, 0, limit as int));
    while from < items.len()
        invariant
            from <= items.len(),
            0 < limit,
            all == items_view(items@),
            batches(all, 0, limit as int) == item_batches(r@) + batches(
                all,
                from as int,
                limit as int,
            ),
        decreases items.len() - from,
    {
        let end: usize = if items.len() - from <= limit {
            items.len()
        } else {
            from + limit
        };
        let ghost before = item_batches(r@);
        r.push(chunk_of(items, from, end));
        assert(item_batches(r@) =~= before.push(all.subrange(from as int, end as int)));
        assert(item_batches(r@) + batches(all, end as int, limit as int) =~= before + batches(
            all,
            from as int,
            limit as int,
        ));
        from = end;
    }
    assert(item_batches(r@) + batches(all, from as int, limit as int) =~= item_batches(r@));
    r
}

fn texts_between(items: &Vec<String>, from: usize, end: usize) -> (r: Vec<String>)
    requires
        from <= end <= items.len(),
    ensures
        views(r@) == views(items@).subrange(from as int, end as int),
{
    let mut r: Vec<String> = Vec::new();
    let mut i: usize = from;
    while i < end
        invariant
            from <= i <= end <= items.len(),
            r.len() == i - from,
            forall|j: int| 0 <= j < r.len() ==> (#[trigger] r@[j])@ == items@[from + j]@,
        decreases end - i,
    {
        r.push(items[i].clone());
        i += 1;
    }
    assert(views(r@) =~= views(items@).subrange(from as int, end as int));
    r
}

/// Splits texts into batches.
pub fn split_texts(items: &Vec<String>, limit: usize) -> (r: Vec<Vec<String>>)
    requires
        0 < limit,
    ensures
        text_batches(r@) == batches(views(items@), 0, limit as int),
{
    let ghost all = views(items@);
    let mut r: Vec<Vec<String>> = Vec::new();
    let mut from: usize = 0;
    assert(text_batches(r@) + batches(all, 0, limit as int) =~= batches(all, 0, limit as int));
    while from < items.len()
        invariant
            from <= items.len(),
            0 < limit,
            all == views(items@),
            batches(all, 0, limit as int) == text_batches(r@) + batches(
                all,
                from as int,
                limit as int,
            ),
        decreases items.len() - from,
    {
        let end: usize = if items.len() - from <= limit {
            items.len()
        } else {
            from + limit
        };
        let ghost before = text_batches(r@);
        r.push(texts_between(items, from, end));
        assert(text_batches(r@) =~= before.push(all.subrange(from as int, end as int)));
        assert(text_batches(r@) + batches(all, end as int, limit as int) =~= before + batches(
            all,
            from as int,
            limit as int,
        ));
        from = end;
    }
    assert(text_batches(r@) + batches(all, from as int, limit as int) =~= text_batches(r@));
    r
}

// ---------------------------------------------------------------------------
// Objects
// ---------------------------------------------------------------------------

pub open spec fn delete_payload(bucket: Seq<char>, keys: Seq<Seq<char>>) -> JsonView {
    JsonView::Object(nil().push(("Bucket"@, text(bucket))).push(("Keys"@, texts_view(keys))))
}

/// Deleting batches of objects from batch `i` on. All batches are asked for before an
/// error that S3 reported for an object becomes one of the whole.
pub open spec fn deleted_key_batches(
    bucket: Seq<char>,
    split: Seq<Seq<Seq<char>>>,
    i: int,
    any_error: bool,
    replies: Seq<ReplyView>,
    at: int,
) -> ProgressView<()>
    decreases split.len() - i,
{
    if i < 0 || i >= split.len() {
        if any_error {
            failed(OpsErrorKind::UnexpectedResult, "Failed to delete files from S3."@, at)
        } else {
            ProgressView::Got((), at)
        }
    } else {
        match called(replies, at, "s3.delete_objects"@, delete_payload(bucket, split[i])) {
            ProgressView::Ask(r) => ProgressView::Ask(r),
            ProgressView::Fail(e, n) => ProgressView::Fail(e, n),
            ProgressView::Got(response, n) => deleted_key_batches(
                bucket,
                split,
                i + 1,
                any_error || items_of(member(response, "Errors"@)).len() > 0,
                replies,
                n,
            ),
        }
    }
}

/// Deleting objects.
pub open spec fn keys_deleted(
    bucket: Seq<char>,
    keys: Seq<Seq<char>>,
    replies: Seq<ReplyView>,
    at: int,
) -> ProgressView<()> {
    deleted_key_batches(
        bucket,
        batches(keys, 0, BATCH_DELETE_S3_OBJECTS_API_LIMIT as int),
        0,
        false,
        replies,
        at,
    )
}

/// Deleting the objects under an S3 path; where there are none, nothing is deleted.
pub open spec fn path_deleted(s3_path: Seq<char>, replies: Seq<ReplyView>, at: int) -> ProgressView<
    (),
> {
    then_do(
        object_keys(bucket_of(s3_path), prefix_of(s3_path), replies, at),
        |keys: Seq<Seq<char>>, n: int|
            if keys.len() == 0 {
                ProgressView::Got((), n)
            } else {
                keys_deleted(bucket_of(s3_path), keys, replies, n)
            },
    )
}

/// Deleting what a listing holds from bucket `i` on; a bucket without keys is passed over.
pub open spec fn listing_deleted(listing: Listing, i: int, replies: Seq<ReplyView>, at: int) -> ProgressView<
    (),
>
    decreases listing.len() - i,
{
    if i < 0 || i >= listing.len() {
        ProgressView::Got((), at)
    } else if listing[i].1.len() == 0 {
        listing_deleted(listing, i + 1, replies, at)
    } else {
        match keys_deleted(listing[i].0, listing[i].1, replies, at) {
            ProgressView::Ask(r) => ProgressView::Ask(r),
            ProgressView::Fail(e, n) => ProgressView::Fail(e, n),
            ProgressView::Got(_, n) => listing_deleted(listing, i + 1, replies, n),
        }
    }
}

/// Deleting the objects under all paths: all are listed before any is deleted.
pub open spec fn paths_deleted(paths: Seq<Seq<char>>, replies: Seq<ReplyView>, at: int) -> ProgressView<
    (),
> {
    then_do(
        listed_paths(paths, 0, Seq::empty(), replies, at),
        |listing: Listing, n: int| listing_deleted(listing, 0, replies, n),
    )
}

proof fn key_batches_are_asked_for(
    bucket: Seq<char>,
    split: Seq<Seq<Seq<char>>>,
    i: int,
    any_error: bool,
    replies: Seq<ReplyView>,
    at: int,
)
    requires
        0 <= i <= split.len(),
        0 <= at <= replies.len(),
    ensures
        deleted_key_batches(bucket, split, i, any_error, replies, at) matches ProgressView::Ask(
            request,
        ) ==> i <= i + (replies.len() - at) < split.len() && request == (RequestView {
            operation: "s3.delete_objects"@,
            payload: delete_payload(bucket, split[i + (replies.len() - at)]),
        }),
        deleted_key_batches(bucket, split, i, any_error, replies, at) matches ProgressView::Got(
            _,
            n,
        ) ==> n == at + (split.len() - i),
    decreases split.len() - i,
{
    if i < split.len() && at < replies.len() {
        match replies[at] {
            Ok(response) => key_batches_are_asked_for(
                bucket,
                split,
                i + 1,
                any_error || items_of(member(response, "Errors"@)).len() > 0,
                replies,
                at + 1,
            ),
            Err(_) => {},
        }
    }
}

/// Whatever S3 answers, a call deletes one batch: the batches are asked for in their
/// order, none of them beyond the limit, and objects are deleted only once all were asked
/// for.
pub proof fn objects_are_deleted_batch_by_batch(
    bucket: Seq<char>,
    keys: Seq<Seq<char>>,
    replies: Seq<ReplyView>,
)
    ensures
        keys_deleted(bucket, keys, replies, 0) matches ProgressView::Ask(request) ==> {
            let split = batches(keys, 0, BATCH_DELETE_S3_OBJECTS_API_LIMIT as int);
            &&& replies.len() < split.len()
            &&& request == (RequestView {
                operation: "s3.delete_objects"@,
                payload: delete_payload(bucket, split[replies.len() as int]),
            })
            &&& split[replies.len() as int].len() <= BATCH_DELETE_S3_OBJECTS_API_LIMIT
        },
        keys_deleted(bucket, keys, replies, 0) matches ProgressView::Got(_, n) ==> n == batches(
            keys,
            0,
            BATCH_DELETE_S3_OBJECTS_API_LIMIT as int,
        ).len(),
{
    let limit = BATCH_DELETE_S3_OBJECTS_API_LIMIT as int;
    batches_hold_all(keys, limit);
    key_batches_are_asked_for(bucket, batches(keys, 0, limit), 0, false, replies, 0);
}

impl AthenaAws {
    /// Deletes objects, batch by batch.
    pub fn delete_object_keys(
        bucket: &str,
        keys: &Vec<String>,
        replies: &Vec<Reply>,
        at: usize,
    ) -> (r: Progress<()>)
        requires
            at <= replies.len(),
        ensures
            r@ == keys_deleted(bucket@, views(keys@), replies_view(replies@), at as int),
            within(r, at, replies@),
    {
        let ghost answers = replies_view(replies@);
        let split = split_texts(keys, BATCH_DELETE_S3_OBJECTS_API_LIMIT);
        let ghost all = text_batches(split@);
        let mut any_error = false;
        let mut n: usize = at;
        let mut i: usize = 0;
        while i < split.len()
            invariant
                i <= split.len(),
                at <= n <= replies.len(),
                all == text_batches(split@),
                answers == replies_view(replies@),
                keys_deleted(bucket@, views(keys@), answers, at as int) == deleted_key_batches(
                    bucket@,
                    all,
                    i as int,
                    any_error,
                    answers,
                    n as int,
                ),
            decreases split.len() - i,
        {
            assert(all[i as int] == views(split@[i as int]@));
            let payload = fields().text("Bucket", bucket).with("Keys", texts(&split[i]));
            match call(replies, n, "s3.delete_objects", payload.object()) {
                Progress::Got(response, m) => {
                    let errors = items_at(&response, "Errors");
                    assert(errors.len() == items_view(errors@).len());
                    any_error = any_error || errors.len() > 0;
                    n = m;
                },
                Progress::Ask(r) => {
                    return Progress::Ask(r);
                },
                Progress::Fail(e, m) => {
                    return Progress::Fail(e, m);
                },
            }
            i += 1;
        }
        if any_error {
            fail(
                OpsErrorKind::UnexpectedResult,
                "Failed to delete files from S3.".to_owned(),
                n,
            )
        } else {
            Progress::Got((), n)
        }
    }

    /// Deletes the objects under an S3 path.
    pub fn delete_from_s3(s3_path: &str, replies: &Vec<Reply>, at: usize) -> (r: Progress<()>)
        requires
            at <= replies.len(),
        ensures
            r@ == path_deleted(s3_path@, replies_view(replies@), at as int),
            within(r, at, replies@),
    {
        let (bucket, prefix) = parse_s3_path(s3_path);
        match AthenaOps::list_object_keys(bucket.as_str(), prefix.as_str(), replies, at) {
            Progress::Got(keys, n) => {
                assert(keys.len() == views(keys@).len());
                if keys.len() == 0 {
                    Progress::Got((), n)
                } else {
                    Self::delete_object_keys(bucket.as_str(), &keys, replies, n)
                }
            },
            Progress::Ask(r) => Progress::Ask(r),
            Progress::Fail(e, n) => Progress::Fail(e, n),
        }
    }

    /// Deletes the objects under all paths.
    pub fn bulk_delete_prefixes(s3_paths: &Vec<String>, replies: &Vec<Reply>, at: usize) -> (r:
        Progress<()>)
        requires
            at <= replies.len(),
        ensures
            r@ == paths_deleted(views(s3_paths@), replies_view(replies@), at as int),
            within(r, at, replies@),
    {
        let ghost paths = views(s3_paths@);
        let ghost answers = replies_view(replies@);
        let mut listing: Vec<(String, Vec<String>)> = Vec::new();
        let mut n: usize = at;
        let mut i: usize = 0;
        assert(listing_view(listing@) =~= Seq::empty());
        while i < s3_paths.len()
            invariant
                i <= s3_paths.len(),
                at <= n <= replies.len(),
                paths == views(s3_paths@),
                answers == replies_view(replies@),
                listed_paths(paths, 0, Seq::empty(), answers, at as int) == listed_paths(
                    paths,
                    i as int,
                    listing_view(listing@),
                    answers,
                    n as int,
                ),
            decreases s3_paths.len() - i,
        {
            let (bucket, prefix) = parse_s3_path(s3_paths[i].as_str());
            match AthenaOps::list_object_keys(bucket.as_str(), prefix.as_str(), replies, n) {
                Progress::Got(keys, m) => {
                    add_keys(&mut listing, bucket, keys);
                    n = m;
                },
                Progress::Ask(r) => {
                    return Progress::Ask(r);
                },
                Progress::Fail(e, m) => {
                    return Progress::Fail(e, m);
                },
            }
            i += 1;
        }
        let ghost listed = listing_view(listing@);
        let mut b: usize = 0;
        while b < listing.len()
            invariant
                b <= listing.len(),
                at <= n <= replies.len(),
                listed == listing_view(listing@),
                answers == replies_view(replies@),
                paths_deleted(paths, answers, at as int) == listing_deleted(
                    listed,
                    b as int,
                    answers,
                    n as int,
                ),
                paths == views(s3_paths@),
            decreases listing.len() - b,
        {
            let bucket = &listing[b].0;
            let keys = &listing[b].1;
            assert(listed[b as int] == (bucket@, views(keys@)));
            assert(keys.len() == views(keys@).len());
            if keys.len() > 0 {
                match Self::delete_object_keys(bucket.as_str(), keys, replies, n) {
                    Progress::Got(_, m) => {
                        n = m;
                    },
                    Progress::Ask(r) => {
                        return Progress::Ask(r);
                    },
                    Progress::Fail(e, m) => {
                        return Progress::Fail(e, m);
                    },
                }
            }
            b += 1;
        }
        Progress::Got((), n)
    }
}

// ---------------------------------------------------------------------------
// Tables
// ---------------------------------------------------------------------------

/// The lookup of the table of a relation in a catalog.
pub open spec fn table_call(
    catalog: Option<Seq<char>>,
    relation: RelationParts,
    replies: Seq<ReplyView>,
    at: int,
) -> ProgressView<JsonView> {
    called(
        replies,
        at,
        "glue.get_table"@,
        JsonView::Object(
            scope(catalog, relation.schema@).push(("Name"@, text(relation.identifier@))),
        ),
    )
}

/// The table that an answer holds.
pub open spec fn answered_table(response: JsonView) -> Option<JsonView> {
    match lookup(response, "Table"@) {
        Some(table) => if table == JsonView::Null {
            None
        } else {
            Some(table)
        },
        None => None,
    }
}

/// The Glue table of a relation; none where Glue does not know it.
pub open spec fn table_found(relation: RelationParts, replies: Seq<ReplyView>, at: int) -> ProgressView<
    Option<JsonView>,
> {
    then_do(
        catalog_id(opt(relation.database), replies, at),
        |catalog: Option<Seq<char>>, n: int|
            then_do(
                table_call(catalog, relation, replies, n),
                |response: JsonView, m: int|
                    match text_at(response, "EntityNotFound"@) {
                        Some(_) => ProgressView::Got(None, m),
                        None => ProgressView::Got(answered_table(response), m),
                    },
            ),
    )
}

/// The Glue table of a relation that has to be there.
pub open spec fn table_required(
    catalog: Option<Seq<char>>,
    relation: RelationParts,
    replies: Seq<ReplyView>,
    at: int,
) -> ProgressView<JsonView> {
    then_do(
        table_call(catalog, relation, replies, at),
        |response: JsonView, n: int|
            match text_at(response, "EntityNotFound"@) {
                Some(message) => failed(OpsErrorKind::Driver, message, n),
                None => match answered_table(response) {
                    Some(table) => ProgressView::Got(table, n),
                    None => failed(OpsErrorKind::NotFound, no_table(relation.rendered@), n),
                },
            },
    )
}

pub open spec fn with_dot(part: Option<Seq<char>>) -> Seq<char> {
    match part {
        Some(p) => p + "."@,
        None => Seq::empty(),
    }
}

/// The name of a table with its catalog and its database, as far as it names them.
pub open spec fn full_name(table: JsonView) -> Seq<char> {
    with_dot(text_at(table, "CatalogId"@)) + with_dot(text_at(table, "DatabaseName"@)) + or_empty(
        text_at(table, "Name"@),
    )
}

/// The type of a Glue table.
pub open spec fn type_of_table(table: JsonView) -> Result<TableType, Seq<char>> {
    glue_type(
        text_at(table, "TableType"@),
        text_at(member(table, "Parameters"@), "table_type"@),
        full_name(table),
    )
}

/// The type and the location of the Glue table of a relation, where there is one.
pub open spec fn table_of(relation: RelationParts, replies: Seq<ReplyView>, at: int) -> ProgressView<
    Option<GlueTableView>,
> {
    then_do(
        table_found(relation, replies, at),
        |table: Option<JsonView>, n: int|
            match table {
                None => ProgressView::Got(None, n),
                Some(t) => match type_of_table(t) {
                    Ok(table_type) => ProgressView::Got(
                        Some(GlueTableView { table_type, location: location_of(t) }),
                        n,
                    ),
                    Err(e) => failed(OpsErrorKind::UnexpectedResult, e, n),
                },
            },
    )
}

/// The location of the data of a physical table; none of a view or of a table that does
/// not exist. A physical table without a location is an error.
pub open spec fn location_found(relation: RelationParts, replies: Seq<ReplyView>, at: int) -> ProgressView<
    Option<Seq<char>>,
> {
    then_do(
        table_of(relation, replies, at),
        |table: Option<GlueTableView>, n: int|
            match table {
                None => ProgressView::Got(None, n),
                Some(t) => if t.table_type != TableType::Table && t.table_type
                    != TableType::Iceberg {
                    ProgressView::Got(None, n)
                } else if or_empty(t.location).len() > 0 {
                    ProgressView::Got(t.location, n)
                } else {
                    failed(
                        OpsErrorKind::UnexpectedResult,
                        no_location(relation.rendered@, t.table_type),
                        n,
                    )
                },
            },
    )
}

fn table_in(response: &Json) -> (r: Option<Json>)
    ensures
        match (r, answered_table(response@)) {
            (Some(t), Some(u)) => t@ == u,
            (None, None) => true,
            _ => false,
        },
{
    match response.get("Table") {
        Some(table) => if table.is_null() {
            None
        } else {
            Some(table.copy())
        },
        None => None,
    }
}

fn dotted(part: Option<&str>) -> (r: String)
    ensures
        r@ == with_dot(opt_str(part)),
{
    match part {
        Some(p) => p.to_owned().concat("."),
        None => {
            let r = "".to_owned();
            proof {
                reveal_strlit("");
            }
            assert(r@ =~= Seq::empty());
            r
        },
    }
}

impl AthenaAws {
    /// Asks Glue for the table of a relation in a catalog.
    fn ask_for_table(
        catalog: &Option<String>,
        relation: &RelationParts,
        replies: &Vec<Reply>,
        at: usize,
    ) -> (r: Progress<Json>)
        requires
            at <= replies.len(),
        ensures
            r@ == table_call(opt(*catalog), *relation, replies_view(replies@), at as int),
            within(r, at, replies@),
    {
        let payload = scope_fields(catalog, relation.schema.as_str()).text(
            "Name",
            relation.identifier.as_str(),
        );
        call(replies, at, "glue.get_table", payload.object())
    }

    /// The Glue table of a relation, where there is one.
    pub fn get_glue_table(relation: &RelationParts, replies: &Vec<Reply>, at: usize) -> (r: Progress<
        Option<Json>,
    >)
        requires
            at <= replies.len(),
        ensures
            r@ == table_found(*relation, replies_view(replies@), at as int),
            within(r, at, replies@),
    {
        match AthenaOps::catalog_id(opt_as_str(&relation.database), replies, at) {
            Progress::Got(catalog, n) => match Self::ask_for_table(
                &catalog,
                relation,
                replies,
                n,
            ) {
                Progress::Got(response, m) => match response.str_at("EntityNotFound") {
                    Some(_) => Progress::Got(None, m),
                    None => Progress::Got(table_in(&response), m),
                },
                Progress::Ask(r) => Progress::Ask(r),
                Progress::Fail(e, m) => Progress::Fail(e, m),
            },
            Progress::Ask(r) => Progress::Ask(r),
            Progress::Fail(e, n) => Progress::Fail(e, n),
        }
    }

    /// The Glue table of a relation that has to be there.
    fn require_table(
        catalog: &Option<String>,
        relation: &RelationParts,
        replies: &Vec<Reply>,
        at: usize,
    ) -> (r: Progress<Json>)
        requires
            at <= replies.len(),
        ensures
            r@ == table_required(opt(*catalog), *relation, replies_view(replies@), at as int),
            within(r, at, replies@),
    {
        let (response, n) = match Self::ask_for_table(catalog, relation, replies, at) {
            Progress::Got(response, n) => (response, n),
            Progress::Ask(r) => {
                return Progress::Ask(r);
            },
            Progress::Fail(e, n) => {
                return Progress::Fail(e, n);
            },
        };
        if let Some(message) = response.str_at("EntityNotFound") {
            return fail(OpsErrorKind::Driver, message.to_owned(), n);
        }
        match table_in(&response) {
            Some(table) => Progress::Got(table, n),
            None => fail(
                OpsErrorKind::NotFound,
                "[athena] glue.get_table returned no table for ".to_owned().concat(
                    relation.rendered.as_str(),
                ),
                n,
            ),
        }
    }

    /// The type of a Glue table.
    pub fn table_type_of(table: &Json) -> (r: Result<TableType, String>)
        ensures
            outcome(r) == type_of_table(table@),
    {
        let name = dotted(table.str_at("CatalogId")).concat(
            dotted(table.str_at("DatabaseName")).as_str(),
        ).concat(text_or_empty(table.str_at("Name")).as_str());
        let parameter = match table.get("Parameters") {
            Some(parameters) => parameters.str_at("table_type"),
            None => None,
        };
        TableType::from_glue(table.str_at("TableType"), parameter, name.as_str())
    }

    /// The type and the location of the Glue table of a relation.
    pub fn glue_table(relation: &RelationParts, replies: &Vec<Reply>, at: usize) -> (r: Progress<
        Option<GlueTable>,
    >)
        requires
            at <= replies.len(),
        ensures
            r@ == table_of(*relation, replies_view(replies@), at as int),
            within(r, at, replies@),
    {
        match Self::get_glue_table(relation, replies, at) {
            Progress::Got(table, n) => match table {
                None => Progress::Got(None, n),
                Some(t) => match Self::table_type_of(&t) {
                    Ok(table_type) => Progress::Got(
                        Some(GlueTable { table_type, location: location_at(&t) }),
                        n,
                    ),
                    Err(e) => fail(OpsErrorKind::UnexpectedResult, e, n),
                },
            },
            Progress::Ask(r) => Progress::Ask(r),
            Progress::Fail(e, n) => Progress::Fail(e, n),
        }
    }

    /// The location of the data of a physical table.
    pub fn glue_table_location(relation: &RelationParts, replies: &Vec<Reply>, at: usize) -> (r:
        Progress<Option<String>>)
        requires
            at <= replies.len(),
        ensures
            r@ == location_found(*relation, replies_view(replies@), at as int),
            within(r, at, replies@),
    {
        let (table, n) = match Self::glue_table(relation, replies, at) {
            Progress::Got(Some(table), n) => (table, n),
            Progress::Got(None, n) => {
                return Progress::Got(None, n);
            },
            Progress::Ask(r) => {
                return Progress::Ask(r);
            },
            Progress::Fail(e, n) => {
                return Progress::Fail(e, n);
            },
        };
        if !table.table_type.is_physical() {
            return Progress::Got(None, n);
        }
        if let Some(location) = table.location {
            if !location.as_str().is_empty() {
                return Progress::Got(Some(location), n);
            }
        }
        let message = "Relation ".to_owned().concat(relation.rendered.as_str()).concat(
            " is of type '",
        ).concat(table.table_type.value()).concat(
            "' which requires a location, but no location returned by Glue.",
        );
        fail(OpsErrorKind::UnexpectedResult, message, n)
    }

    /// Deletes the table of a relation from the catalog; a table that is not there is no
    /// error.
    pub fn delete_from_glue_catalog(relation: &RelationParts, replies: &Vec<Reply>, at: usize) -> (r:
        Progress<()>)
        requires
            at <= replies.len(),
        ensures
            r@ == deleted_table(*relation, replies_view(replies@), at as int),
            within(r, at, replies@),
    {
        AthenaOps::delete_from_glue_catalog(relation, replies, at)
    }

    /// Drops a database of a catalog.
    pub fn drop_glue_database(
        database_name: &str,
        catalog_name: &str,
        replies: &Vec<Reply>,
        at: usize,
    ) -> (r: Progress<()>)
        requires
            at <= replies.len(),
        ensures
            r@ == dropped_database(
                database_name@,
                catalog_name@,
                replies_view(replies@),
                at as int,
            ),
            within(r, at, replies@),
    {
        AthenaOps::drop_glue_database(database_name, catalog_name, replies, at)
    }
}

// ---------------------------------------------------------------------------
// Documentation
// ---------------------------------------------------------------------------

/// The fields, and one more where it is missing.
pub open spec fn with_default(input: FieldsView, key: Seq<char>, value: JsonView) -> FieldsView {
    match field(input, key) {
        Some(_) => input,
        None => input.push((key, value)),
    }
}

/// The table that a documented one is updated to: its partition keys, its parameters and
/// its retention are always named.
pub open spec fn completed(input: FieldsView) -> FieldsView {
    with_default(
        with_default(
            with_default(input, "PartitionKeys"@, JsonView::List(Seq::empty())),
            "Parameters"@,
            JsonView::Object(nil()),
        ),
        "Retention"@,
        JsonView::Int(0),
    )
}

/// The table that the target of a swap becomes: its partition keys are always named.
pub open spec fn swap_input(name: Seq<char>, src_table: JsonView) -> FieldsView {
    with_default(
        swapped_input(name, src_table),
        "PartitionKeys"@,
        JsonView::List(Seq::empty()),
    )
}

fn or_default(input: Fields, key: &str, value: Json) -> (r: Fields)
    ensures
        r@ == with_default(input@, key@, value@),
{
    if input.get(key).is_some() {
        input
    } else {
        input.with(key, value)
    }
}

fn complete(input: Fields) -> (r: Fields)
    ensures
        r@ == completed(input@),
{
    let a = or_default(input, "PartitionKeys", empty_list());
    let b = or_default(a, "Parameters", fields().object());
    or_default(b, "Retention", Json::Int(0))
}

/// Writing the documentation of a model: the table is updated only where something
/// changed.
pub open spec fn docs_persisted(
    relation: RelationParts,
    docs: DocsView,
    replies: Seq<ReplyView>,
    at: int,
) -> ProgressView<()> {
    then_do(
        catalog_id(opt(relation.database), replies, at),
        |catalog: Option<Seq<char>>, n: int|
            then_do(
                table_required(catalog, relation, replies, n),
                |table: JsonView, m: int|
                    match documented(table, docs) {
                        Err(e) => failed(OpsErrorKind::UnexpectedResult, e, m),
                        Ok((input, changed)) => if changed {
                            then_do(
                                called(
                                    replies,
                                    m,
                                    "glue.update_table"@,
                                    JsonView::Object(
                                        scope(catalog, relation.schema@).push(
                                            (
                                                "TableInput"@,
                                                JsonView::Object(completed(input)),
                                            ),
                                        ).push(
                                            (
                                                "SkipArchive"@,
                                                JsonView::Bool(docs.skip_archive_table_version),
                                            ),
                                        ),
                                    ),
                                ),
                                |response: JsonView, k: int| ProgressView::Got((), k),
                            )
                        } else {
                            ProgressView::Got((), m)
                        },
                    },
            ),
    )
}

impl AthenaAws {
    /// Writes the documentation of a model to its Glue table, where that changes it.
    pub fn persist_docs_to_glue(
        relation: &RelationParts,
        docs: &Docs,
        replies: &Vec<Reply>,
        at: usize,
    ) -> (r: Progress<()>)
        requires
            at <= replies.len(),
        ensures
            r@ == docs_persisted(*relation, docs@, replies_view(replies@), at as int),
            within(r, at, replies@),
    {
        let (catalog, n) = match AthenaOps::catalog_id(
            opt_as_str(&relation.database),
            replies,
            at,
        ) {
            Progress::Got(catalog, n) => (catalog, n),
            Progress::Ask(r) => {
                return Progress::Ask(r);
            },
            Progress::Fail(e, n) => {
                return Progress::Fail(e, n);
            },
        };
        let (table, n) = match Self::require_table(&catalog, relation, replies, n) {
            Progress::Got(table, n) => (table, n),
            Progress::Ask(r) => {
                return Progress::Ask(r);
            },
            Progress::Fail(e, n) => {
                return Progress::Fail(e, n);
            },
        };
        let (input, changed) = match document_table(&table, docs) {
            Ok(documented) => documented,
            Err(e) => {
                return fail(OpsErrorKind::UnexpectedResult, e, n);
            },
        };
        if !changed {
            return Progress::Got((), n);
        }
        let update = scope_fields(&catalog, relation.schema.as_str()).with(
            "TableInput",
            complete(input).object(),
        ).with("SkipArchive", Json::Bool(docs.skip_archive_table_version));
        match call(replies, n, "glue.update_table", update.object()) {
            Progress::Got(_, m) => Progress::Got((), m),
            Progress::Ask(r) => Progress::Ask(r),
            Progress::Fail(e, m) => Progress::Fail(e, m),
        }
    }
}

// ---------------------------------------------------------------------------
// Partitions
// ---------------------------------------------------------------------------

/// Deleting batches of partitions from batch `i` on; the result is the errors that Glue
/// reports, added to those before.
pub open spec fn deleted_partition_batches(
    scope: FieldsView,
    table: Seq<char>,
    split: Seq<Seq<JsonView>>,
    i: int,
    errors: Seq<JsonView>,
    replies: Seq<ReplyView>,
    at: int,
) -> ProgressView<Seq<JsonView>>
    decreases split.len() - i,
{
    if i < 0 || i >= split.len() {
        ProgressView::Got(errors, at)
    } else {
        match deleted_partitions(scope, table, split[i], replies, at) {
            ProgressView::Ask(r) => ProgressView::Ask(r),
            ProgressView::Fail(e, n) => ProgressView::Fail(e, n),
            ProgressView::Got(more, n) => deleted_partition_batches(
                scope,
                table,
                split,
                i + 1,
                errors + more,
                replies,
                n,
            ),
        }
    }
}

/// Deleting partitions; the result is the errors that Glue reports.
pub open spec fn partitions_deleted(
    scope: FieldsView,
    table: Seq<char>,
    found: Seq<JsonView>,
    replies: Seq<ReplyView>,
    at: int,
) -> ProgressView<Seq<JsonView>> {
    deleted_partition_batches(
        scope,
        table,
        batches(found, 0, BATCH_DELETE_PARTITION_API_LIMIT as int),
        0,
        Seq::empty(),
        replies,
        at,
    )
}

/// Creating batches of partitions from batch `i` on.
pub open spec fn created_partition_batches(
    scope: FieldsView,
    table: Seq<char>,
    split: Seq<Seq<JsonView>>,
    i: int,
    replies: Seq<ReplyView>,
    at: int,
) -> ProgressView<()>
    decreases split.len() - i,
{
    if i < 0 || i >= split.len() {
        ProgressView::Got((), at)
    } else {
        match called(
            replies,
            at,
            "glue.batch_create_partition"@,
            JsonView::Object(create_partitions_fields(scope, table, split[i])),
        ) {
            ProgressView::Ask(r) => ProgressView::Ask(r),
            ProgressView::Fail(e, n) => ProgressView::Fail(e, n),
            ProgressView::Got(_, n) => created_partition_batches(
                scope,
                table,
                split,
                i + 1,
                replies,
                n,
            ),
        }
    }
}

/// The last steps of a swap: the partitions that the target had go, those of the source
/// come.
pub open spec fn partitions_replaced(
    scope: FieldsView,
    target: Seq<char>,
    src_partitions: Seq<JsonView>,
    target_partitions: Seq<JsonView>,
    replies: Seq<ReplyView>,
    at: int,
) -> ProgressView<()> {
    then_do(
        partitions_deleted(scope, target, target_partitions, replies, at),
        |errors: Seq<JsonView>, n: int|
            created_partition_batches(
                scope,
                target,
                batches(src_partitions, 0, BATCH_CREATE_PARTITION_API_LIMIT as int),
                0,
                replies,
                n,
            ),
    )
}

/// A swap from the point where the source table is known.
pub open spec fn swap_from(
    src: RelationParts,
    target: RelationParts,
    catalog: Option<Seq<char>>,
    src_table: JsonView,
    replies: Seq<ReplyView>,
    at: int,
) -> ProgressView<()> {
    let dst_scope = scope(catalog, target.schema@);
    then_do(
        partitions(scope(catalog, src.schema@), src.identifier@, None, false, replies, at),
        |src_partitions: Seq<JsonView>, n: int|
            then_do(
                partitions(dst_scope, target.identifier@, None, false, replies, n),
                |target_partitions: Seq<JsonView>, m: int|
                    then_do(
                        called(
                            replies,
                            m,
                            "glue.update_table"@,
                            JsonView::Object(
                                dst_scope.push(
                                    (
                                        "TableInput"@,
                                        JsonView::Object(
                                            swap_input(target.identifier@, src_table),
                                        ),
                                    ),
                                ),
                            ),
                        ),
                        |response: JsonView, k: int|
                            partitions_replaced(
                                dst_scope,
                                target.identifier@,
                                src_partitions,
                                target_partitions,
                                replies,
                                k,
                            ),
                    ),
            ),
    )
}

/// Pointing the target at the content of the source. The catalog of the source is that of
/// the target too.
pub open spec fn table_swapped(
    src: RelationParts,
    target: RelationParts,
    replies: Seq<ReplyView>,
    at: int,
) -> ProgressView<()> {
    then_do(
        catalog_id(opt(src.database), replies, at),
        |catalog: Option<Seq<char>>, n: int|
            then_do(
                table_required(catalog, src, replies, n),
                |src_table: JsonView, m: int|
                    swap_from(src, target, catalog, src_table, replies, m),
            ),
    )
}

/// Deleting partitions from an index on, chunk by chunk: first the data of a chunk, then
/// its entries in Glue. What cannot be deleted ends it.
pub open spec fn chunks_cleaned(
    scope: FieldsView,
    relation: RelationParts,
    found: Seq<JsonView>,
    from: int,
    replies: Seq<ReplyView>,
    at: int,
) -> ProgressView<()>
    decreases found.len() - from,
{
    if from < 0 || from >= found.len() {
        ProgressView::Got((), at)
    } else {
        let end = chunk_end(found.len() as int, from);
        let chunk = found.subrange(from, end);
        match paths_deleted(locations(chunk), replies, at) {
            ProgressView::Ask(r) => ProgressView::Ask(r),
            ProgressView::Fail(e, n) => ProgressView::Fail(e, n),
            ProgressView::Got(_, n) => match partitions_deleted(
                scope,
                relation.identifier@,
                chunk,
                replies,
                n,
            ) {
                ProgressView::Ask(r) => ProgressView::Ask(r),
                ProgressView::Fail(e, m) => ProgressView::Fail(e, m),
                ProgressView::Got(errors, m) => if errors.len() > 0 {
                    failed(
                        OpsErrorKind::UnexpectedResult,
                        not_deleted(errors.len() as int, relation),
                        m,
                    )
                } else {
                    chunks_cleaned(scope, relation, found, end, replies, m)
                },
            },
        }
    }
}

/// Deleting the data and the partitions of a table that satisfy any of the conditions.
pub open spec fn partitions_cleaned(
    relation: RelationParts,
    conditions: Seq<Seq<char>>,
    replies: Seq<ReplyView>,
    at: int,
) -> ProgressView<()> {
    match expressions(conditions) {
        Err(e) => failed(OpsErrorKind::Configuration, e, at),
        Ok(selecting) => then_do(
            catalog_id(opt(relation.database), replies, at),
            |catalog: Option<Seq<char>>, n: int|
                {
                    let s = scope(catalog, relation.schema@);
                    then_do(
                        selected(
                            s,
                            relation.identifier@,
                            selecting,
                            0,
                            Seq::empty(),
                            replies,
                            n,
                        ),
                        |found: Seq<JsonView>, m: int|
                            chunks_cleaned(s, relation, found, 0, replies, m),
                    )
                },
        ),
    }
}

proof fn partition_batches_are_asked_for(
    scope: FieldsView,
    table: Seq<char>,
    split: Seq<Seq<JsonView>>,
    i: int,
    errors: Seq<JsonView>,
    replies: Seq<ReplyView>,
    at: int,
)
    requires
        0 <= i <= split.len(),
        0 <= at <= replies.len(),
    ensures
        deleted_partition_batches(scope, table, split, i, errors, replies, at) matches
            ProgressView::Ask(request) ==> i <= i + (replies.len() - at) < split.len() && request
            == (RequestView {
            operation: "glue.batch_delete_partition"@,
            payload: JsonView::Object(
                delete_partitions_fields(scope, table, split[i + (replies.len() - at)]),
            ),
        }),
        deleted_partition_batches(scope, table, split, i, errors, replies, at) matches
            ProgressView::Got(_, n) ==> n == at + (split.len() - i) && n <= replies.len(),
    decreases split.len() - i,
{
    if i < split.len() && at < replies.len() {
        match replies[at] {
            Ok(response) => partition_batches_are_asked_for(
                scope,
                table,
                split,
                i + 1,
                errors + items_of(member(response, "Errors"@)),
                replies,
                at + 1,
            ),
            Err(_) => {},
        }
    }
}

proof fn new_partition_batches_are_asked_for(
    scope: FieldsView,
    table: Seq<char>,
    split: Seq<Seq<JsonView>>,
    i: int,
    replies: Seq<ReplyView>,
    at: int,
)
    requires
        0 <= i <= split.len(),
        0 <= at <= replies.len(),
    ensures
        created_partition_batches(scope, table, split, i, replies, at) matches ProgressView::Ask(
            request,
        ) ==> i <= i + (replies.len() - at) < split.len() && request == (RequestView {
            operation: "glue.batch_create_partition"@,
            payload: JsonView::Object(
                create_partitions_fields(scope, table, split[i + (replies.len() - at)]),
            ),
        }),
        created_partition_batches(scope, table, split, i, replies, at) matches ProgressView::Got(
            _,
            n,
        ) ==> n == at + (split.len() - i),
    decreases split.len() - i,
{
    if i < split.len() && at < replies.len() {
        match replies[at] {
            Ok(_) => new_partition_batches_are_asked_for(
                scope,
                table,
                split,
                i + 1,
                replies,
                at + 1,
            ),
            Err(_) => {},
        }
    }
}

/// Whatever Glue answers, a call deletes or creates one batch of partitions: the batches
/// are asked for in their order, none of them beyond the limit, and partitions are deleted
/// or created only once all were asked for.
pub proof fn partitions_are_replaced_batch_by_batch(
    scope: FieldsView,
    table: Seq<char>,
    found: Seq<JsonView>,
    replies: Seq<ReplyView>,
)
    ensures
        partitions_deleted(scope, table, found, replies, 0) matches ProgressView::Ask(request)
            ==> {
            let split = batches(found, 0, BATCH_DELETE_PARTITION_API_LIMIT as int);
            &&& replies.len() < split.len()
            &&& request == (RequestView {
                operation: "glue.batch_delete_partition"@,
                payload: JsonView::Object(
                    delete_partitions_fields(scope, table, split[replies.len() as int]),
                ),
            })
            &&& split[replies.len() as int].len() <= BATCH_DELETE_PARTITION_API_LIMIT
        },
        partitions_deleted(scope, table, found, replies, 0) matches ProgressView::Got(_, n)
            ==> n == batches(found, 0, BATCH_DELETE_PARTITION_API_LIMIT as int).len(),
        created_partition_batches(
            scope,
            table,
            batches(found, 0, BATCH_CREATE_PARTITION_API_LIMIT as int),
            0,
            replies,
            0,
        ) matches ProgressView::Ask(request) ==> {
            let split = batches(found, 0, BATCH_CREATE_PARTITION_API_LIMIT as int);
            &&& replies.len() < split.len()
            &&& request == (RequestView {
                operation: "glue.batch_create_partition"@,
                payload: JsonView::Object(
                    create_partitions_fields(scope, table, split[replies.len() as int]),
                ),
            })
            &&& split[replies.len() as int].len() <= BATCH_CREATE_PARTITION_API_LIMIT
        },
        created_partition_batches(
            scope,
            table,
            batches(found, 0, BATCH_CREATE_PARTITION_API_LIMIT as int),
            0,
            replies,
            0,
        ) matches ProgressView::Got(_, n) ==> n == batches(
            found,
            0,
            BATCH_CREATE_PARTITION_API_LIMIT as int,
        ).len(),
{
    let deleted = BATCH_DELETE_PARTITION_API_LIMIT as int;
    let created = BATCH_CREATE_PARTITION_API_LIMIT as int;
    batches_hold_all(found, deleted);
    batches_hold_all(found, created);
    partition_batches_are_asked_for(
        scope,
        table,
        batches(found, 0, deleted),
        0,
        Seq::empty(),
        replies,
        0,
    );
    new_partition_batches_are_asked_for(scope, table, batches(found, 0, created), 0, replies, 0);
}

proof fn scope_names_its_schema(
    catalog: Option<Seq<char>>,
    schema: Seq<char>,
    key: Seq<char>,
    value: JsonView,
    other: Seq<char>,
    more: JsonView,
)
    requires
        key != "DatabaseName"@,
        other != "DatabaseName"@,
    ensures
        field(scope(catalog, schema).push((key, value)), "DatabaseName"@) == Some(text(schema)),
        field(scope(catalog, schema).push((key, value)).push((other, more)), "DatabaseName"@)
            == Some(text(schema)),
{
    let s = scope(catalog, schema);
    reveal_strlit("CatalogId");
    reveal_strlit("DatabaseName");
    assert("CatalogId"@.len() == 9);
    assert("DatabaseName"@.len() == 12);
    let p: int = match catalog {
        Some(_) => 1,
        None => 0,
    };
    place_is_unique(s, "DatabaseName"@, p);
    pushed_keeps(s, key, value, "DatabaseName"@);
    pushed_keeps(s.push((key, value)), other, more, "DatabaseName"@);
}

proof fn replacing_stays_in_the_schema(
    catalog: Option<Seq<char>>,
    schema: Seq<char>,
    table: Seq<char>,
    src_partitions: Seq<JsonView>,
    target_partitions: Seq<JsonView>,
    replies: Seq<ReplyView>,
    at: int,
)
    requires
        0 <= at <= replies.len(),
    ensures
        partitions_replaced(
            scope(catalog, schema),
            table,
            src_partitions,
            target_partitions,
            replies,
            at,
        ) matches ProgressView::Ask(request) ==> lookup(request.payload, "DatabaseName"@) == Some(
            text(schema),
        ),
{
    reveal_strlit("DatabaseName");
    reveal_strlit("TableName");
    reveal_strlit("PartitionsToDelete");
    reveal_strlit("PartitionInputList");
    assert("DatabaseName"@.len() == 12);
    assert("TableName"@.len() == 9);
    assert("PartitionsToDelete"@.len() == 18);
    assert("PartitionInputList"@.len() == 18);
    let s = scope(catalog, schema);
    let old_split = batches(target_partitions, 0, BATCH_DELETE_PARTITION_API_LIMIT as int);
    let new_split = batches(src_partitions, 0, BATCH_CREATE_PARTITION_API_LIMIT as int);
    partition_batches_are_asked_for(s, table, old_split, 0, Seq::empty(), replies, at);
    match partitions_deleted(s, table, target_partitions, replies, at) {
        ProgressView::Ask(_) => {
            let asked = old_split[replies.len() - at];
            scope_names_its_schema(
                catalog,
                schema,
                "TableName"@,
                text(table),
                "PartitionsToDelete"@,
                JsonView::List(asked.map_values(|p: JsonView| partition_values(p))),
            );
        },
        ProgressView::Got(_, n) => {
            new_partition_batches_are_asked_for(s, table, new_split, 0, replies, n);
            let asked = new_split[replies.len() - n];
            scope_names_its_schema(
                catalog,
                schema,
                "TableName"@,
                text(table),
                "PartitionInputList"@,
                JsonView::List(asked.map_values(|p: JsonView| partition_input(p))),
            );
        },
        ProgressView::Fail(_, _) => {},
    }
}

/// Whatever Glue answers, a swap changes nothing in the catalog but in the schema of the
/// target.
pub proof fn a_swap_changes_only_the_target(
    src: RelationParts,
    target: RelationParts,
    replies: Seq<ReplyView>,
)
    ensures
        table_swapped(src, target, replies, 0) matches ProgressView::Ask(request) ==> (
        changes_catalog(request.operation) ==> lookup(request.payload, "DatabaseName"@) == Some(
            text(target.schema@),
        )),
{
    operations_are_distinct();
    reveal_strlit("DatabaseName");
    reveal_strlit("TableInput");
    assert("DatabaseName"@.len() == 12);
    assert("TableInput"@.len() == 10);
    if let ProgressView::Got(catalog, a) = catalog_id(opt(src.database), replies, 0) {
        let s = scope(catalog, target.schema@);
        let name = target.identifier@;
        if let ProgressView::Got(src_table, b) = table_required(catalog, src, replies, a) {
            let input = JsonView::Object(swap_input(name, src_table));
            scope_names_its_schema(
                catalog,
                target.schema@,
                "TableInput"@,
                input,
                "TableInput"@,
                input,
            );
            if let ProgressView::Got(src_partitions, c) = partitions(
                scope(catalog, src.schema@),
                src.identifier@,
                None,
                false,
                replies,
                b,
            ) {
                if let ProgressView::Got(target_partitions, d) = partitions(
                    s,
                    name,
                    None,
                    false,
                    replies,
                    c,
                ) {
                    if d < replies.len() {
                        replacing_stays_in_the_schema(
                            catalog,
                            target.schema@,
                            name,
                            src_partitions,
                            target_partitions,
                            replies,
                            d + 1,
                        );
                    }
                }
            }
        }
    }
}

impl AthenaAws {
    /// Deletes partitions, batch by batch, and hands back the errors that Glue reports.
    pub fn batch_delete_partitions(
        scope: &Fields,
        table: &str,
        found: &Vec<Json>,
        replies: &Vec<Reply>,
        at: usize,
    ) -> (r: Progress<Vec<Json>>)
        requires
            at <= replies.len(),
        ensures
            r@ == partitions_deleted(
                scope@,
                table@,
                items_view(found@),
                replies_view(replies@),
                at as int,
            ),
            within(r, at, replies@),
            r matches Progress::Got(errors, _) ==> errors.deep_view() == items_view(errors@),
    {
        let ghost answers = replies_view(replies@);
        let split = split_items(found, BATCH_DELETE_PARTITION_API_LIMIT);
        let ghost all = item_batches(split@);
        let mut errors: Vec<Json> = Vec::new();
        let mut n: usize = at;
        let mut i: usize = 0;
        assert(items_view(errors@) =~= Seq::empty());
        while i < split.len()
            invariant
                i <= split.len(),
                at <= n <= replies.len(),
                all == item_batches(split@),
                answers == replies_view(replies@),
                partitions_deleted(scope@, table@, items_view(found@), answers, at as int)
                    == deleted_partition_batches(
                    scope@,
                    table@,
                    all,
                    i as int,
                    items_view(errors@),
                    answers,
                    n as int,
                ),
            decreases split.len() - i,
        {
            assert(all[i as int] == items_view(split@[i as int]@));
            match AthenaOps::batch_delete_partitions(scope, table, &split[i], replies, n) {
                Progress::Got(more, m) => {
                    let ghost before = items_view(errors@);
                    let ghost added = items_view(more@);
                    let mut more = more;
                    errors.append(&mut more);
                    assert(items_view(errors@) =~= before + added);
                    n = m;
                },
                Progress::Ask(r) => {
                    return Progress::Ask(r);
                },
                Progress::Fail(e, m) => {
                    return Progress::Fail(e, m);
                },
            }
            i += 1;
        }
        assert(errors.deep_view() =~= items_view(errors@));
        Progress::Got(errors, n)
    }

    /// Creates partitions, batch by batch.
    fn batch_create_partitions(
        scope: &Fields,
        table: &str,
        found: &Vec<Json>,
        replies: &Vec<Reply>,
        at: usize,
    ) -> (r: Progress<()>)
        requires
            at <= replies.len(),
        ensures
            r@ == created_partition_batches(
                scope@,
                table@,
                batches(items_view(found@), 0, BATCH_CREATE_PARTITION_API_LIMIT as int),
                0,
                replies_view(replies@),
                at as int,
            ),
            within(r, at, replies@),
    {
        let ghost answers = replies_view(replies@);
        let split = split_items(found, BATCH_CREATE_PARTITION_API_LIMIT);
        let ghost all = item_batches(split@);
        let mut n: usize = at;
        let mut i: usize = 0;
        while i < split.len()
            invariant
                i <= split.len(),
                at <= n <= replies.len(),
                all == item_batches(split@),
                all == batches(items_view(found@), 0, BATCH_CREATE_PARTITION_API_LIMIT as int),
                answers == replies_view(replies@),
                created_partition_batches(scope@, table@, all, 0, answers, at as int)
                    == created_partition_batches(
                    scope@,
                    table@,
                    all,
                    i as int,
                    answers,
                    n as int,
                ),
            decreases split.len() - i,
        {
            assert(all[i as int] == items_view(split@[i as int]@));
            let payload = scope.copy().text("TableName", table).with(
                "PartitionInputList",
                partition_inputs(&split[i]),
            );
            match call(replies, n, "glue.batch_create_partition", payload.object()) {
                Progress::Got(_, m) => {
                    n = m;
                },
                Progress::Ask(r) => {
                    return Progress::Ask(r);
                },
                Progress::Fail(e, m) => {
                    return Progress::Fail(e, m);
                },
            }
            i += 1;
        }
        Progress::Got((), n)
    }

    /// A swap from the point where the source table is known.
    fn swap_known(
        src: &RelationParts,
        target: &RelationParts,
        catalog: &Option<String>,
        src_table: &Json,
        replies: &Vec<Reply>,
        at: usize,
    ) -> (r: Progress<()>)
        requires
            at <= replies.len(),
        ensures
            r@ == swap_from(
                *src,
                *target,
                opt(*catalog),
                src_table@,
                replies_view(replies@),
                at as int,
            ),
            within(r, at, replies@),
    {
        let src_scope = scope_fields(catalog, src.schema.as_str());
        let (src_partitions, n) = match AthenaOps::list_partitions(
            &src_scope,
            src.identifier.as_str(),
            None,
            false,
            replies,
            at,
        ) {
            Progress::Got(found, n) => (found, n),
            Progress::Ask(r) => {
                return Progress::Ask(r);
            },
            Progress::Fail(e, n) => {
                return Progress::Fail(e, n);
            },
        };
        let dst_scope = scope_fields(catalog, target.schema.as_str());
        let name = target.identifier.as_str();
        let (target_partitions, n) = match AthenaOps::list_partitions(
            &dst_scope,
            name,
            None,
            false,
            replies,
            n,
        ) {
            Progress::Got(found, n) => (found, n),
            Progress::Ask(r) => {
                return Progress::Ask(r);
            },
            Progress::Fail(e, n) => {
                return Progress::Fail(e, n);
            },
        };
        let input = or_default(
            swapped_table_input(name, src_table),
            "PartitionKeys",
            empty_list(),
        ).object();
        let update = dst_scope.copy().with("TableInput", input);
        let n = match call(replies, n, "glue.update_table", update.object()) {
            Progress::Got(_, n) => n,
            Progress::Ask(r) => {
                return Progress::Ask(r);
            },
            Progress::Fail(e, n) => {
                return Progress::Fail(e, n);
            },
        };
        match Self::batch_delete_partitions(&dst_scope, name, &target_partitions, replies, n) {
            Progress::Got(_, m) => Self::batch_create_partitions(
                &dst_scope,
                name,
                &src_partitions,
                replies,
                m,
            ),
            Progress::Ask(r) => Progress::Ask(r),
            Progress::Fail(e, m) => Progress::Fail(e, m),
        }
    }

    /// Points the target at the storage, partition keys, type, parameters and description
    /// of the source, then replaces its partitions by those of the source.
    pub fn swap_table(
        src: &RelationParts,
        target: &RelationParts,
        replies: &Vec<Reply>,
        at: usize,
    ) -> (r: Progress<()>)
        requires
            at <= replies.len(),
        ensures
            r@ == table_swapped(*src, *target, replies_view(replies@), at as int),
            within(r, at, replies@),
    {
        let (catalog, n) = match AthenaOps::catalog_id(opt_as_str(&src.database), replies, at) {
            Progress::Got(catalog, n) => (catalog, n),
            Progress::Ask(r) => {
                return Progress::Ask(r);
            },
            Progress::Fail(e, n) => {
                return Progress::Fail(e, n);
            },
        };
        match Self::require_table(&catalog, src, replies, n) {
            Progress::Got(table, m) => Self::swap_known(src, target, &catalog, &table, replies, m),
            Progress::Ask(r) => Progress::Ask(r),
            Progress::Fail(e, m) => Progress::Fail(e, m),
        }
    }

    /// Deletes the data and the partitions of a table that satisfy any of the conditions.
    pub fn clean_up_partitions(
        relation: &RelationParts,
        where_conditions: &Vec<String>,
        replies: &Vec<Reply>,
        at: usize,
    ) -> (r: Progress<()>)
        requires
            at <= replies.len(),
        ensures
            r@ == partitions_cleaned(
                *relation,
                views(where_conditions@),
                replies_view(replies@),
                at as int,
            ),
            within(r, at, replies@),
    {
        let ghost answers = replies_view(replies@);
        let ghost conditions = views(where_conditions@);
        let selecting = match partition_expressions(where_conditions) {
            Ok(selecting) => selecting,
            Err(e) => {
                return fail(OpsErrorKind::Configuration, e, at);
            },
        };
        let (catalog, n) = match AthenaOps::catalog_id(
            opt_as_str(&relation.database),
            replies,
            at,
        ) {
            Progress::Got(catalog, n) => (catalog, n),
            Progress::Ask(r) => {
                return Progress::Ask(r);
            },
            Progress::Fail(e, n) => {
                return Progress::Fail(e, n);
            },
        };
        let scope = scope_fields(&catalog, relation.schema.as_str());
        let table = relation.identifier.as_str();
        let (found, n) = match AthenaOps::select_partitions(
            &scope,
            table,
            &selecting,
            replies,
            n,
        ) {
            Progress::Got(found, n) => (found, n),
            Progress::Ask(r) => {
                return Progress::Ask(r);
            },
            Progress::Fail(e, n) => {
                return Progress::Fail(e, n);
            },
        };
        let ghost all = items_view(found@);
        let mut n: usize = n;
        let mut from: usize = 0;
        assert(all.len() == found.len());
        while from < found.len()
            invariant
                from <= found.len(),
                at <= n <= replies.len(),
                answers == replies_view(replies@),
                all == items_view(found@),
                all.len() == found.len(),
                table@ == relation.identifier@,
                partitions_cleaned(*relation, conditions, answers, at as int) == chunks_cleaned(
                    scope@,
                    *relation,
                    all,
                    from as int,
                    answers,
                    n as int,
                ),
                conditions == views(where_conditions@),
            decreases found.len() - from,
        {
            let end: usize = if found.len() - from <= PARTITION_PROCESSING_CHUNK_SIZE {
                found.len()
            } else {
                from + PARTITION_PROCESSING_CHUNK_SIZE
            };
            let chunk = chunk_of(&found, from, end);
            match Self::bulk_delete_prefixes(&locations_at(&chunk), replies, n) {
                Progress::Got(_, m) => {
                    n = m;
                },
                Progress::Ask(r) => {
                    return Progress::Ask(r);
                },
                Progress::Fail(e, m) => {
                    return Progress::Fail(e, m);
                },
            }
            match Self::batch_delete_partitions(&scope, table, &chunk, replies, n) {
                Progress::Got(errors, m) => {
                    assert(items_view(errors@).len() == errors.len());
                    if errors.len() > 0 {
                        let message = "Failed to delete ".to_owned().concat(
                            decimal_of(errors.len() as i128).as_str(),
                        ).concat(" partition(s) from Glue table '").concat(
                            relation.schema.as_str(),
                        ).concat(".").concat(table).concat("'");
                        return fail(OpsErrorKind::UnexpectedResult, message, m);
                    }
                    n = m;
                },
                Progress::Ask(r) => {
                    return Progress::Ask(r);
                },
                Progress::Fail(e, m) => {
                    return Progress::Fail(e, m);
                },
            }
            from = end;
        }
        Progress::Got((), n)
    }
}

// ---------------------------------------------------------------------------
// Versions
// ---------------------------------------------------------------------------

/// Deleting the versions from `i` on. A version that cannot be deleted is passed over, and
/// so is data that cannot; the result is the ids of the versions that were deleted.
pub open spec fn versions_expired_from(
    catalog: Option<Seq<char>>,
    relation: RelationParts,
    versions: Seq<VersionView>,
    i: int,
    delete_s3: bool,
    deleted: Seq<Seq<char>>,
    replies: Seq<ReplyView>,
    at: int,
) -> ProgressView<Seq<Seq<char>>>
    decreases versions.len() - i,
{
    if i < 0 || i >= versions.len() {
        ProgressView::Got(deleted, at)
    } else {
        match called(
            replies,
            at,
            "glue.delete_table_version"@,
            JsonView::Object(delete_fields(catalog, relation, versions[i].id)),
        ) {
            ProgressView::Ask(r) => ProgressView::Ask(r),
            ProgressView::Fail(_, n) => versions_expired_from(
                catalog,
                relation,
                versions,
                i + 1,
                delete_s3,
                deleted,
                replies,
                n,
            ),
            ProgressView::Got(_, n) => {
                let more = deleted.push(versions[i].id);
                match versions[i].location {
                    Some(location) if delete_s3 => match path_deleted(location, replies, n) {
                        ProgressView::Ask(r) => ProgressView::Ask(r),
                        ProgressView::Got(_, m) => versions_expired_from(
                            catalog,
                            relation,
                            versions,
                            i + 1,
                            delete_s3,
                            more,
                            replies,
                            m,
                        ),
                        ProgressView::Fail(_, m) => versions_expired_from(
                            catalog,
                            relation,
                            versions,
                            i + 1,
                            delete_s3,
                            more,
                            replies,
                            m,
                        ),
                    },
                    _ => versions_expired_from(
                        catalog,
                        relation,
                        versions,
                        i + 1,
                        delete_s3,
                        more,
                        replies,
                        n,
                    ),
                }
            },
        }
    }
}

/// Keeping the `to_keep` newest versions of a table and deleting the others.
pub open spec fn versions_expired(
    relation: RelationParts,
    to_keep: int,
    delete_s3: bool,
    replies: Seq<ReplyView>,
    at: int,
) -> ProgressView<Seq<Seq<char>>> {
    then_do(
        catalog_id(opt(relation.database), replies, at),
        |catalog: Option<Seq<char>>, n: int|
            then_do(
                called(
                    replies,
                    n,
                    "glue.get_table_versions"@,
                    JsonView::Object(
                        nil().push(("DatabaseName"@, text(relation.schema@))).push(
                            ("TableName"@, text(relation.identifier@)),
                        ),
                    ),
                ),
                |response: JsonView, m: int|
                    versions_expired_from(
                        catalog,
                        relation,
                        newest_first(items_of(member(response, "TableVersions"@))),
                        to_keep,
                        delete_s3,
                        Seq::empty(),
                        replies,
                        m,
                    ),
            ),
    )
}

impl AthenaAws {
    /// Keeps the `to_keep` newest versions of a table and deletes the others, with their
    /// data where that is asked for. Hands back the ids of the deleted versions.
    pub fn expire_glue_table_versions(
        relation: &RelationParts,
        to_keep: usize,
        delete_s3: bool,
        replies: &Vec<Reply>,
        at: usize,
    ) -> (r: Progress<Vec<String>>)
        requires
            at <= replies.len(),
        ensures
            r@ == versions_expired(
                *relation,
                to_keep as int,
                delete_s3,
                replies_view(replies@),
                at as int,
            ),
            within(r, at, replies@),
    {
        let ghost answers = replies_view(replies@);
        let (catalog, n) = match AthenaOps::catalog_id(
            opt_as_str(&relation.database),
            replies,
            at,
        ) {
            Progress::Got(catalog, n) => (catalog, n),
            Progress::Ask(r) => {
                return Progress::Ask(r);
            },
            Progress::Fail(e, n) => {
                return Progress::Fail(e, n);
            },
        };
        let payload = fields().text("DatabaseName", relation.schema.as_str()).text(
            "TableName",
            relation.identifier.as_str(),
        );
        let (response, n) = match call(
            replies,
            n,
            "glue.get_table_versions",
            payload.object(),
        ) {
            Progress::Got(response, n) => (response, n),
            Progress::Ask(r) => {
                return Progress::Ask(r);
            },
            Progress::Fail(e, n) => {
                return Progress::Fail(e, n);
            },
        };
        let versions = sorted_versions(&items_at(&response, "TableVersions"));
        let ghost listed = versions_view(versions@);
        let mut deleted: Vec<String> = Vec::new();
        let mut n: usize = n;
        let mut i: usize = to_keep;
        assert(views(deleted@) =~= Seq::empty());
        while i < versions.len()
            invariant
                to_keep <= i,
                at <= n <= replies.len(),
                listed == versions_view(versions@),
                answers == replies_view(replies@),
                versions_expired(*relation, to_keep as int, delete_s3, answers, at as int)
                    == versions_expired_from(
                    opt(catalog),
                    *relation,
                    listed,
                    i as int,
                    delete_s3,
                    views(deleted@),
                    answers,
                    n as int,
                ),
            decreases versions.len() - i,
        {
            let version = &versions[i];
            assert(listed[i as int] == version@);
            let start = match &catalog {
                Some(c) => fields().text("CatalogId", c.as_str()),
                None => fields(),
            };
            let payload = start.text("DatabaseName", relation.schema.as_str()).text(
                "TableName",
                relation.identifier.as_str(),
            ).text("VersionId", version.id.as_str());
            match call(replies, n, "glue.delete_table_version", payload.object()) {
                Progress::Ask(r) => {
                    return Progress::Ask(r);
                },
                Progress::Fail(_, m) => {
                    n = m;
                },
                Progress::Got(_, m) => {
                    let ghost before = views(deleted@);
                    deleted.push(version.id.clone());
                    assert(views(deleted@) =~= before.push(version.id@));
                    n = m;
                    if delete_s3 {
                        if let Some(location) = &version.location {
                            match Self::delete_from_s3(location.as_str(), replies, n) {
                                Progress::Ask(r) => {
                                    return Progress::Ask(r);
                                },
                                Progress::Got(_, m) => {
                                    n = m;
                                },
                                Progress::Fail(_, m) => {
                                    n = m;
                                },
                            }
                        }
                    }
                },
            }
            i += 1;
        }
        assert(deleted.deep_view() =~= views(deleted@));
        Progress::Got(deleted, n)
    }
}

// ---------------------------------------------------------------------------
// Uploads
// ---------------------------------------------------------------------------

/// The value of an upload argument in the call.
pub open spec fn put_argument(name: Seq<char>, value: Seq<char>) -> Result<JsonView, Seq<char>> {
    if text_argument(name) {
        Ok(text(value))
    } else if name == "BucketKeyEnabled"@ {
        Ok(JsonView::Bool(value == "true"@))
    } else {
        Err(
            "seed_s3_upload_args key '"@ + name
                + "' is not supported by the dbt Athena backend"@,
        )
    }
}

/// What the call that uploads an object says beside its body; the last of several
/// arguments with one name counts.
pub open spec fn put_fields(
    bucket: Seq<char>,
    key: Seq<char>,
    arguments: Seq<(Seq<char>, Seq<char>)>,
) -> Result<FieldsView, Seq<char>>
    decreases arguments.len(),
{
    if arguments.len() == 0 {
        Ok(nil().push(("Bucket"@, text(bucket))).push(("Key"@, text(key))))
    } else {
        match put_fields(bucket, key, arguments.drop_last()) {
            Ok(before) => match put_argument(arguments.last().0, arguments.last().1) {
                Ok(value) => Ok(put(before, arguments.last().0, value)),
                Err(e) => Err(e),
            },
            Err(e) => Err(e),
        }
    }
}

/// Uploading an object: an argument that is not supported is refused before anything is
/// sent.
pub open spec fn object_uploaded(
    bucket: Seq<char>,
    key: Seq<char>,
    arguments: Seq<(Seq<char>, Seq<char>)>,
    replies: Seq<ReplyView>,
    at: int,
) -> ProgressView<()> {
    match put_fields(bucket, key, arguments) {
        Ok(payload) => then_do(
            called(replies, at, "s3.put_object"@, JsonView::Object(payload)),
            |response: JsonView, n: int| ProgressView::Got((), n),
        ),
        Err(e) => failed(OpsErrorKind::NotSupported, e, at),
    }
}

proof fn a_refusal_stays(
    bucket: Seq<char>,
    key: Seq<char>,
    arguments: Seq<(Seq<char>, Seq<char>)>,
    n: int,
)
    requires
        0 <= n <= arguments.len(),
        put_fields(bucket, key, arguments.take(n)) is Err,
    ensures
        put_fields(bucket, key, arguments) == put_fields(bucket, key, arguments.take(n)),
    decreases arguments.len() - n,
{
    if n < arguments.len() {
        assert(arguments.take(n + 1).drop_last() =~= arguments.take(n));
        a_refusal_stays(bucket, key, arguments, n + 1);
    } else {
        assert(arguments.take(n) =~= arguments);
    }
}

impl AthenaAws {
    /// Uploads an object with the arguments that the model gives for it. The body is with
    /// whoever makes the call.
    pub fn upload_object(
        bucket: &str,
        key: &str,
        upload_args: &Vec<(String, String)>,
        replies: &Vec<Reply>,
        at: usize,
    ) -> (r: Progress<()>)
        requires
            at <= replies.len(),
        ensures
            r@ == object_uploaded(
                bucket@,
                key@,
                pairs(upload_args@),
                replies_view(replies@),
                at as int,
            ),
            within(r, at, replies@),
    {
        let ghost all = pairs(upload_args@);
        let mut payload = fields().text("Bucket", bucket).text("Key", key);
        let mut i: usize = 0;
        while i < upload_args.len()
            invariant
                i <= upload_args.len(),
                at <= replies.len(),
                all == pairs(upload_args@),
                put_fields(bucket@, key@, all.take(i as int)) == Ok::<FieldsView, Seq<char>>(
                    payload@,
                ),
            decreases upload_args.len() - i,
        {
            assert(all.take(i + 1).drop_last() =~= all.take(i as int));
            let name = upload_args[i].0.as_str();
            let value = upload_args[i].1.as_str();
            assert(all.take(i + 1).last() == (name@, value@));
            if same(name, "ServerSideEncryption") || same(name, "SSEKMSKeyId") || same(name, "ACL")
                || same(name, "StorageClass") || same(name, "ContentType") {
                payload = payload.set(name, Json::Text(value.to_owned()));
            } else if same(name, "BucketKeyEnabled") {
                payload = payload.set(name, Json::Bool(same(value, "true")));
            } else {
                proof {
                    a_refusal_stays(bucket@, key@, all, i + 1);
                }
                return fail(
                    OpsErrorKind::NotSupported,
                    "seed_s3_upload_args key '".to_owned().concat(name).concat(
                        "' is not supported by the dbt Athena backend",
                    ),
                    at,
                );
            }
            i += 1;
        }
        assert(all.take(i as int) =~= all);
        match call(replies, at, "s3.put_object", payload.object()) {
            Progress::Got(_, n) => Progress::Got((), n),
            Progress::Ask(r) => Progress::Ask(r),
            Progress::Fail(e, n) => Progress::Fail(e, n),
        }
    }

    /// Whether the work group prescribes where results go.
    pub fn is_work_group_output_location_enforced(&self, replies: &Vec<Reply>, at: usize) -> (r:
        Progress<bool>)
        requires
            at <= replies.len(),
        ensures
            r@ == location_enforced(self.work_group@, replies_view(replies@), at as int),
            within(r, at, replies@),
    {
        AthenaOps::new(Some(self.work_group.as_str())).is_work_group_output_location_enforced(
            replies,
            at,
        )
    }
}

// ---------------------------------------------------------------------------
// Clients
// ---------------------------------------------------------------------------

/// What a profile says about the connection to the services.
pub struct ClientSettings {
    pub region_name: Option<String>,
    pub aws_access_key_id: Option<String>,
    pub aws_secret_access_key: Option<String>,
    pub aws_session_token: Option<String>,
    pub aws_profile_name: Option<String>,
    pub work_group: Option<String>,
}

/// Where the clients have their credentials from.
#[derive(Debug, PartialEq)]
pub enum ClientCredentials {
    Keys {
        access_key_id: String,
        secret_access_key: String,
        session_token: Option<String>,
    },
    Profile(String),
    DefaultChain,
}

pub enum ClientCredentialsView {
    Keys {
        access_key_id: Seq<char>,
        secret_access_key: Seq<char>,
        session_token: Option<Seq<char>>,
    },
    Profile(Seq<char>),
    DefaultChain,
}

impl View for ClientCredentials {
    type V = ClientCredentialsView;

    open spec fn view(&self) -> ClientCredentialsView {
        match self {
            ClientCredentials::Keys { access_key_id, secret_access_key, session_token } => {
                ClientCredentialsView::Keys {
                    access_key_id: access_key_id@,
                    secret_access_key: secret_access_key@,
                    session_token: opt(*session_token),
                }
            },
            ClientCredentials::Profile(name) => ClientCredentialsView::Profile(name@),
            ClientCredentials::DefaultChain => ClientCredentialsView::DefaultChain,
        }
    }
}

/// How to build the clients.
#[derive(Debug, PartialEq)]
pub struct ClientConfig {
    pub region: String,
    pub credentials: ClientCredentials,
    pub work_group: String,
}

pub struct ClientConfigView {
    pub region: Seq<char>,
    pub credentials: ClientCredentialsView,
    pub work_group: Seq<char>,
}

impl View for ClientConfig {
    type V = ClientConfigView;

    open spec fn view(&self) -> ClientConfigView {
        ClientConfigView {
            region: self.region@,
            credentials: self.credentials@,
            work_group: self.work_group@,
        }
    }
}

/// A text that is not empty.
pub open spec fn filled(s: Option<Seq<char>>) -> Option<Seq<char>> {
    match s {
        Some(t) => if t.len() > 0 {
            Some(t)
        } else {
            None
        },
        None => None,
    }
}

/// The credentials of a profile: its keys, otherwise the AWS profile that it names,
/// otherwise whatever the environment offers.
pub open spec fn credentials_of(settings: ClientSettings) -> Result<
    ClientCredentialsView,
    Seq<char>,
> {
    match opt(settings.aws_access_key_id) {
        Some(access_key_id) => match opt(settings.aws_secret_access_key) {
            Some(secret_access_key) => Ok(
                ClientCredentialsView::Keys {
                    access_key_id,
                    secret_access_key,
                    session_token: filled(opt(settings.aws_session_token)),
                },
            ),
            None => Err(
                "Athena auth requires 'aws_secret_access_key' when 'aws_access_key_id' is set"@,
            ),
        },
        None => match opt(settings.aws_profile_name) {
            Some(name) => Ok(ClientCredentialsView::Profile(name)),
            None => Ok(ClientCredentialsView::DefaultChain),
        },
    }
}

/// How to build the clients of a profile.
pub open spec fn config_of(settings: ClientSettings) -> Result<ClientConfigView, Seq<char>> {
    match opt(settings.region_name) {
        None => Err("Athena requires 'region_name' in profile configuration"@),
        Some(region) => match credentials_of(settings) {
            Err(e) => Err(e),
            Ok(credentials) => Ok(
                ClientConfigView {
                    region,
                    credentials,
                    work_group: match opt(settings.work_group) {
                        Some(name) => name,
                        None => DEFAULT_WORK_GROUP@,
                    },
                },
            ),
        },
    }
}

fn credentials_from(settings: &ClientSettings) -> (r: Result<ClientCredentials, String>)
    ensures
        match (r, credentials_of(*settings)) {
            (Ok(c), Ok(d)) => c@ == d,
            (Err(e), Err(f)) => e@ == f,
            _ => false,
        },
{
    let access_key_id = match &settings.aws_access_key_id {
        Some(id) => id.clone(),
        None => {
            return match &settings.aws_profile_name {
                Some(name) => Ok(ClientCredentials::Profile(name.clone())),
                None => Ok(ClientCredentials::DefaultChain),
            };
        },
    };
    let secret_access_key = match &settings.aws_secret_access_key {
        Some(key) => key.clone(),
        None => {
            return Err(
                "Athena auth requires 'aws_secret_access_key' when 'aws_access_key_id' is set".to_owned(),
            );
        },
    };
    let session_token = match &settings.aws_session_token {
        Some(token) => if token.as_str().is_empty() {
            None
        } else {
            Some(token.clone())
        },
        None => None,
    };
    Ok(ClientCredentials::Keys { access_key_id, secret_access_key, session_token })
}

impl AthenaAws {
    /// How to build the clients of a profile.
    pub fn from_config(settings: &ClientSettings) -> (r: Result<ClientConfig, String>)
        ensures
            match (r, config_of(*settings)) {
                (Ok(c), Ok(d)) => c@ == d,
                (Err(e), Err(f)) => e@ == f,
                _ => false,
            },
    {
        let region = match &settings.region_name {
            Some(region) => region.clone(),
            None => {
                return Err("Athena requires 'region_name' in profile configuration".to_owned());
            },
        };
        match credentials_from(settings) {
            Err(e) => Err(e),
            Ok(credentials) => Ok(
                ClientConfig {
                    region,
                    credentials,
                    work_group: match &settings.work_group {
                        Some(name) => name.clone(),
                        None => DEFAULT_WORK_GROUP.to_owned(),
                    },
                },
            ),
        }
    }
}

} // verus!
