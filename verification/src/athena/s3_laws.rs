//! Where tables stand in S3, what is deleted there and what is uploaded.

use crate::athena::driver::{OpsErrorKind, OpsErrorView, ProgressView, ReplyView, RequestView};
use crate::athena::glue::{text, RelationParts};
use crate::athena::methods::{
    chosen_naming, location_with, table_part, LocationErrorView, S3Profile,
};
use crate::athena::s3::{
    bucket_of, in_s3_tables, naming_of, prefix_of, s3_join, table_location, table_prefix,
    without_scheme, S3DataNaming,
};
use crate::athena::storage::{
    bucket_place, deleted_listing, deleted_path, listed_paths, object_keys, texts_among,
    upload_argument, upload_fields, uploaded, with_keys, Listing,
};
use crate::athena::table_type::{glue_type, TableType};
use crate::json::{
    field, items_of, member, opt, place_is_unique, put_then_field, text_at, texts_view, JsonView,
};
use crate::text::{
    ascii_lower, contains, first_at, first_place_is_unique, split_once, stands_at, trim_end_char,
    trim_start_char,
};
use vstd::prelude::*;

verus! {

// ---------------------------------------------------------------------------
// Locations
// ---------------------------------------------------------------------------

/// The five ways to name a location, by their names.
pub proof fn ways_to_name(value: Seq<char>)
    ensures
        naming_of(value) == Some(S3DataNaming::Unique) <==> value == "unique"@,
        naming_of(value) == Some(S3DataNaming::Table) <==> value == "table"@,
        naming_of(value) == Some(S3DataNaming::TableUnique) <==> value == "table_unique"@,
        naming_of(value) == Some(S3DataNaming::SchemaTable) <==> value == "schema_table"@,
        naming_of(value) == Some(S3DataNaming::SchemaTableUnique) <==> value
            == "schema_table_unique"@,
{
    reveal_strlit("unique");
    reveal_strlit("table");
    reveal_strlit("table_unique");
    reveal_strlit("schema_table");
    reveal_strlit("schema_table_unique");
    assert("unique"@.len() == 6 && "table"@.len() == 5 && "table_unique"@.len() == 12
        && "schema_table"@.len() == 12 && "schema_table_unique"@.len() == 19);
    assert("table_unique"@[0] == 't' && "schema_table"@[0] == 's');
}

/// A model names its location its own way, then the profile's, then by table and unique
/// part.
pub proof fn the_nearest_naming_counts(own: Option<Seq<char>>, profile: Option<Seq<char>>)
    ensures
        own is None && profile is None ==> chosen_naming(own, profile) == Ok::<
            S3DataNaming,
            Seq<char>,
        >(S3DataNaming::TableUnique),
        own matches Some(n) ==> (match naming_of(n) {
            Some(naming) => chosen_naming(own, profile) == Ok::<S3DataNaming, Seq<char>>(naming),
            None => chosen_naming(own, profile) is Err,
        }),
        own is None ==> (profile matches Some(n) ==> (match naming_of(n) {
            Some(naming) => chosen_naming(own, profile) == Ok::<S3DataNaming, Seq<char>>(naming),
            None => chosen_naming(own, profile) is Err,
        })),
{
}

/// No slash stands at the end.
pub open spec fn open_ended(s: Seq<char>) -> bool {
    s.len() > 0 && s.last() != '/'
}

proof fn open_ended_joins(base: Seq<char>, part: Seq<char>)
    requires
        open_ended(base),
    ensures
        s3_join(base, part) == base + seq!['/'] + part,
        open_ended(part) ==> open_ended(s3_join(base, part)),
{
    reveal_strlit("/");
    assert("/"@ =~= seq!['/']);
    let all = s3_join(base, part);
    assert(all =~= base + seq!['/'] + part);
    if part.len() > 0 {
        assert(all.last() == part.last());
    }
}

/// A location is the prefix and the parts that its naming asks for, with slashes between.
pub proof fn locations_hold_their_parts(
    schema: Seq<char>,
    identifier: Seq<char>,
    prefix: Seq<char>,
    is_temporary_table: bool,
    unique: Seq<char>,
)
    requires
        open_ended(prefix),
        open_ended(schema),
        open_ended(identifier),
    ensures
        table_location(
            schema,
            identifier,
            prefix,
            S3DataNaming::Unique,
            None,
            is_temporary_table,
            unique,
        ) == prefix + seq!['/'] + unique,
        table_location(
            schema,
            identifier,
            prefix,
            S3DataNaming::Table,
            None,
            is_temporary_table,
            unique,
        ) == prefix + seq!['/'] + identifier,
        table_location(
            schema,
            identifier,
            prefix,
            S3DataNaming::TableUnique,
            None,
            is_temporary_table,
            unique,
        ) == prefix + seq!['/'] + identifier + seq!['/'] + unique,
        table_location(
            schema,
            identifier,
            prefix,
            S3DataNaming::SchemaTable,
            None,
            is_temporary_table,
            unique,
        ) == prefix + seq!['/'] + schema + seq!['/'] + identifier,
        table_location(
            schema,
            identifier,
            prefix,
            S3DataNaming::SchemaTableUnique,
            None,
            is_temporary_table,
            unique,
        ) == prefix + seq!['/'] + schema + seq!['/'] + identifier + seq!['/'] + unique,
{
    open_ended_joins(prefix, unique);
    open_ended_joins(prefix, identifier);
    open_ended_joins(prefix, schema);
    open_ended_joins(prefix + seq!['/'] + identifier, unique);
    open_ended_joins(prefix + seq!['/'] + schema, identifier);
    open_ended_joins(prefix + seq!['/'] + schema + seq!['/'] + identifier, unique);
}

proof fn a_slash_is_trimmed(s: Seq<char>)
    ensures
        trim_end_char(s.push('/'), '/') == trim_end_char(s, '/'),
{
    assert(s.push('/').drop_last() =~= s);
}

/// A slash at the end of the prefix changes no location.
pub proof fn a_slash_behind_the_prefix_changes_nothing(
    schema: Seq<char>,
    identifier: Seq<char>,
    prefix: Seq<char>,
    naming: S3DataNaming,
    external_location: Option<Seq<char>>,
    is_temporary_table: bool,
    unique: Seq<char>,
)
    ensures
        table_location(
            schema,
            identifier,
            prefix.push('/'),
            naming,
            external_location,
            is_temporary_table,
            unique,
        ) == table_location(
            schema,
            identifier,
            prefix,
            naming,
            external_location,
            is_temporary_table,
            unique,
        ),
{
    a_slash_is_trimmed(prefix);
}

/// A location that is given is used without a slash at its end, but never for a temporary
/// table.
pub proof fn given_locations_are_used(
    schema: Seq<char>,
    identifier: Seq<char>,
    prefix: Seq<char>,
    naming: S3DataNaming,
    external: Seq<char>,
    unique: Seq<char>,
)
    requires
        open_ended(external),
    ensures
        table_location(schema, identifier, prefix, naming, Some(external), false, unique)
            == external,
        table_location(schema, identifier, prefix, naming, Some(external.push('/')), false, unique)
            == external,
        table_location(schema, identifier, prefix, naming, Some(external), true, unique)
            == table_location(schema, identifier, prefix, naming, None, true, unique),
        table_location(schema, identifier, prefix, naming, Some(Seq::empty()), false, unique)
            == table_location(schema, identifier, prefix, naming, None, false, unique),
{
    a_slash_is_trimmed(external);
}

/// Temporary tables stand in the nearest directory for them, others in the directory for
/// data, and without one below the staging directory.
pub proof fn prefixes_go_by_what_is_configured(
    staging: Seq<char>,
    profile_tmp: Option<Seq<char>>,
    data: Option<Seq<char>>,
    tmp: Option<Seq<char>>,
    dir: Seq<char>,
    is_temporary_table: bool,
)
    ensures
        table_prefix(staging, profile_tmp, Some(dir), tmp, false) == dir,
        open_ended(staging) ==> table_prefix(staging, profile_tmp, None, tmp, false) == staging
            + "/tables"@,
        dir.len() > 0 ==> table_prefix(staging, profile_tmp, data, Some(dir), true) == dir,
        dir.len() > 0 ==> table_prefix(staging, Some(dir), data, None, true) == dir,
        table_prefix(staging, None, data, None, is_temporary_table) == table_prefix(
            staging,
            None,
            data,
            None,
            false,
        ),
{
    if open_ended(staging) {
        open_ended_joins(staging, "tables"@);
        reveal_strlit("tables");
        reveal_strlit("/tables");
        assert("/tables"@ =~= seq!['/'] + "tables"@);
        assert(staging + seq!['/'] + "tables"@ =~= staging + "/tables"@);
    }
}

/// The location of a model needs the staging directory of the profile, and is that of its
/// schema and of its own part of the path, or else of its name.
pub proof fn models_are_located(
    profile: S3Profile,
    relation: RelationParts,
    data: Option<Seq<char>>,
    naming: Option<Seq<char>>,
    tmp: Option<Seq<char>>,
    external: Option<Seq<char>>,
    temporary: bool,
    unique: Seq<char>,
)
    ensures
        profile.s3_staging_dir is None ==> (location_with(
            profile,
            relation,
            data,
            naming,
            tmp,
            external,
            temporary,
            unique,
        ) matches Err(LocationErrorView::Configuration(_))),
        table_part(relation) == (if relation.s3_path_table_part is Some {
            relation.s3_path_table_part->0@
        } else {
            relation.identifier@
        }),
        profile.s3_staging_dir matches Some(staging) ==> {
            match chosen_naming(naming, opt(profile.s3_data_naming)) {
                Ok(way) => location_with(
                    profile,
                    relation,
                    data,
                    naming,
                    tmp,
                    external,
                    temporary,
                    unique,
                ) == Ok::<Seq<char>, LocationErrorView>(
                    table_location(
                        relation.schema@,
                        table_part(relation),
                        table_prefix(
                            staging@,
                            opt(profile.s3_tmp_table_dir),
                            data,
                            tmp,
                            temporary,
                        ),
                        way,
                        external,
                        temporary,
                        unique,
                    ),
                ),
                Err(e) => location_with(
                    profile,
                    relation,
                    data,
                    naming,
                    tmp,
                    external,
                    temporary,
                    unique,
                ) == Err::<Seq<char>, LocationErrorView>(LocationErrorView::Invalid(e)),
            }
        },
{
}

/// A database stands in the catalog of S3 tables where its name begins with that of the
/// catalog and a slash, in whatever case.
pub proof fn what_stands_in_s3_tables(database: Seq<char>)
    ensures
        !in_s3_tables(None),
        in_s3_tables(Some(database)) <==> database.len() >= 16 && ascii_lower(database).take(16)
            == "s3tablescatalog/"@,
{
    reveal_strlit("s3tablescatalog");
    reveal_strlit("/");
    reveal_strlit("s3tablescatalog/");
    assert("s3tablescatalog"@ + "/"@ =~= "s3tablescatalog/"@);
    assert("s3tablescatalog/"@.len() == 16);
    if database.len() >= 16 {
        assert(ascii_lower(database).take(16) =~= ascii_lower(database).subrange(0, 16));
    }
}

// ---------------------------------------------------------------------------
// Paths
// ---------------------------------------------------------------------------

proof fn split_at(front: Seq<char>, sep: char, back: Seq<char>, pat: Seq<char>)
    requires
        pat == seq![sep],
        !front.contains(sep),
    ensures
        split_once(front + pat + back, pat) == Some((front, back)),
{
    let s = front + pat + back;
    let n = front.len() as int;
    assert(s.subrange(n, n + 1) =~= pat);
    assert(stands_at(s, pat, n));
    assert forall|j: int| 0 <= j < n implies !stands_at(s, pat, j) by {
        if stands_at(s, pat, j) {
            assert(s.subrange(j, j + 1)[0] == sep);
            assert(front[j] == s[j]);
            assert(front.contains(sep));
        }
    }
    assert(first_at(s, pat, n));
    first_place_is_unique(s, pat, n);
    assert(s.take(n) =~= front);
    assert(s.skip(n + 1) =~= back);
}

/// The bucket and the prefix of a path in S3 are read back as they were written.
pub proof fn paths_are_read_back(bucket: Seq<char>, path: Seq<char>)
    requires
        !bucket.contains('/'),
        path.len() > 0,
        path[0] != '/',
        path.last() != '/',
    ensures
        bucket_of("s3://"@ + bucket + seq!['/'] + path) == bucket,
        prefix_of("s3://"@ + bucket + seq!['/'] + path) == path + seq!['/'],
        bucket_of("s3://"@ + bucket + seq!['/'] + path + seq!['/']) == bucket,
        prefix_of("s3://"@ + bucket + seq!['/'] + path + seq!['/']) == path + seq!['/'],
{
    reveal_strlit("s3://");
    reveal_strlit("://");
    reveal_strlit("/");
    assert("/"@ =~= seq!['/']);
    let whole = "s3://"@ + bucket + seq!['/'] + path;
    scheme_is_dropped(bucket + seq!['/'] + path);
    assert("s3://"@ + (bucket + seq!['/'] + path) =~= whole);
    split_at(bucket, '/', path, "/"@);
    assert(trim_start_char(path, '/') == path);
    assert(trim_end_char(path, '/') == path);
    let more = path.push('/');
    scheme_is_dropped(bucket + seq!['/'] + more);
    assert("s3://"@ + (bucket + seq!['/'] + more) =~= whole + seq!['/']);
    split_at(bucket, '/', more, "/"@);
    assert(more[0] == path[0]);
    assert(trim_start_char(more, '/') == more);
    a_slash_is_trimmed(path);
}

proof fn scheme_is_dropped(rest: Seq<char>)
    ensures
        without_scheme("s3://"@ + rest) == rest,
{
    reveal_strlit("s3://");
    reveal_strlit("://");
    let s = "s3://"@ + rest;
    assert(s.subrange(2, 5) =~= "://"@);
    assert(stands_at(s, "://"@, 2));
    assert forall|j: int| 0 <= j < 2 implies !stands_at(s, "://"@, j) by {
        if stands_at(s, "://"@, j) {
            assert(s.subrange(j, j + 3)[0] == ':');
            assert(s[j] == "s3://"@[j]);
        }
    }
    assert(first_at(s, "://"@, 2));
    first_place_is_unique(s, "://"@, 2);
    assert(s.skip(5) =~= rest);
}

// ---------------------------------------------------------------------------
// Objects
// ---------------------------------------------------------------------------

proof fn two_fields(a: Seq<char>, b: Seq<char>, x: JsonView, y: JsonView)
    requires
        a != b,
    ensures
        member(
            JsonView::Object(Seq::<(Seq<char>, JsonView)>::empty().push((a, x)).push((b, y))),
            a,
        ) == x,
        member(
            JsonView::Object(Seq::<(Seq<char>, JsonView)>::empty().push((a, x)).push((b, y))),
            b,
        ) == y,
{
    let f = Seq::<(Seq<char>, JsonView)>::empty().push((a, x)).push((b, y));
    place_is_unique(f, a, 0);
    place_is_unique(f, b, 1);
}

/// Deleting a path lists the objects below it, then deletes all that were listed, and asks
/// nothing more where there were none.
pub proof fn a_path_is_emptied(s3_path: Seq<char>, replies: Seq<ReplyView>, at: int)
    requires
        0 <= at <= replies.len(),
    ensures
        at == replies.len() ==> (deleted_path(s3_path, replies, at) matches ProgressView::Ask(r) && {
            &&& r.operation == "s3.list_objects"@
            &&& text_at(r.payload, "Bucket"@) == Some(bucket_of(s3_path))
            &&& text_at(r.payload, "Prefix"@) == Some(prefix_of(s3_path))
        }),
        at < replies.len() && replies[at] is Err ==> deleted_path(s3_path, replies, at)
            == ProgressView::<()>::Fail(replies[at]->Err_0, at + 1),
        at < replies.len() && replies[at] is Ok ==> {
            let keys = texts_among(items_of(member(replies[at]->Ok_0, "Keys"@)));
            &&& keys.len() == 0 ==> deleted_path(s3_path, replies, at) == ProgressView::Got(
                (),
                at + 1,
            )
            &&& keys.len() > 0 && at + 1 == replies.len() ==> (deleted_path(s3_path, replies, at)
                matches ProgressView::Ask(r) && {
                &&& r.operation == "s3.delete_objects"@
                &&& text_at(r.payload, "Bucket"@) == Some(bucket_of(s3_path))
                &&& member(r.payload, "Keys"@) == texts_view(keys)
            })
            &&& keys.len() > 0 && at + 1 < replies.len() && replies[at + 1] is Ok ==> {
                if items_of(member(replies[at + 1]->Ok_0, "Errors"@)).len() == 0 {
                    deleted_path(s3_path, replies, at) == ProgressView::Got((), at + 2)
                } else {
                    deleted_path(s3_path, replies, at) is Fail
                }
            }
        },
{
    reveal_strlit("Bucket");
    reveal_strlit("Prefix");
    reveal_strlit("Keys");
    assert("Bucket"@.len() == 6 && "Prefix"@.len() == 6 && "Keys"@.len() == 4);
    assert("Bucket"@[0] == 'B' && "Prefix"@[0] == 'P');
    two_fields("Bucket"@, "Prefix"@, text(bucket_of(s3_path)), text(prefix_of(s3_path)));
    if at < replies.len() && replies[at] is Ok {
        let keys = texts_among(items_of(member(replies[at]->Ok_0, "Keys"@)));
        two_fields("Bucket"@, "Keys"@, text(bucket_of(s3_path)), texts_view(keys));
    }
}

/// A key stands in a listing under its bucket.
pub open spec fn in_listing(listing: Listing, bucket: Seq<char>, key: Seq<char>) -> bool {
    exists|p: int|
        0 <= p < listing.len() && (#[trigger] listing[p]).0 == bucket && listing[p].1.contains(key)
}

proof fn bucket_place_is_first(listing: Listing, bucket: Seq<char>)
    ensures
        0 <= bucket_place(listing, bucket) <= listing.len(),
        bucket_place(listing, bucket) < listing.len() ==> listing[bucket_place(
            listing,
            bucket,
        )].0 == bucket,
    decreases listing.len(),
{
    if listing.len() > 0 && listing[0].0 != bucket {
        bucket_place_is_first(listing.drop_first(), bucket);
    }
}

/// Listing a path adds its keys to its bucket and takes none away.
pub proof fn keys_are_gathered(
    listing: Listing,
    own: Seq<char>,
    keys: Seq<Seq<char>>,
    bucket: Seq<char>,
    key: Seq<char>,
)
    ensures
        in_listing(with_keys(listing, own, keys), bucket, key) <==> in_listing(
            listing,
            bucket,
            key,
        ) || (bucket == own && keys.contains(key)),
{
    let all = with_keys(listing, own, keys);
    let p = bucket_place(listing, own);
    bucket_place_is_first(listing, own);
    assert(all[p].0 == own);
    if p < listing.len() {
        let both = listing[p].1 + keys;
        assert(all[p].1 == both);
        if both.contains(key) {
            let k = both.index_of(key);
            if k < listing[p].1.len() {
                assert(listing[p].1[k] == key);
            } else {
                assert(keys[k - listing[p].1.len()] == key);
            }
        }
        if listing[p].1.contains(key) {
            assert(both[listing[p].1.index_of(key)] == key);
        }
        if keys.contains(key) {
            assert(both[listing[p].1.len() + keys.index_of(key)] == key);
        }
    }
    if in_listing(listing, bucket, key) {
        let q = choose|q: int|
            0 <= q < listing.len() && (#[trigger] listing[q]).0 == bucket
                && listing[q].1.contains(key);
        assert(all[q].0 == bucket);
    }
    if in_listing(all, bucket, key) {
        let q = choose|q: int|
            0 <= q < all.len() && (#[trigger] all[q]).0 == bucket && all[q].1.contains(key);
        if q < listing.len() {
            assert(listing[q].0 == all[q].0);
        }
    }
}

/// The key is among those that the reply lists.
pub open spec fn reply_lists(reply: ReplyView, key: Seq<char>) -> bool {
    reply matches Ok(response) && texts_among(items_of(member(response, "Keys"@))).contains(key)
}

/// Deleting several paths gathers every key of every path under the bucket of that path.
pub proof fn every_listed_key_is_gathered(
    paths: Seq<Seq<char>>,
    i: int,
    listing: Listing,
    replies: Seq<ReplyView>,
    at: int,
    bucket: Seq<char>,
    key: Seq<char>,
)
    requires
        0 <= i <= paths.len(),
    ensures
        listed_paths(paths, i, listing, replies, at) matches ProgressView::Got(all, n) ==> {
            &&& n == at + (paths.len() - i)
            &&& in_listing(all, bucket, key) <==> in_listing(listing, bucket, key) || exists|j: int|
                i <= j < paths.len() && bucket_of(#[trigger] paths[j]) == bucket && reply_lists(
                    replies[at + (j - i)],
                    key,
                )
        },
    decreases paths.len() - i,
{
    if i < paths.len() {
        if let ProgressView::Got(keys, n) = object_keys(
            bucket_of(paths[i]),
            prefix_of(paths[i]),
            replies,
            at,
        ) {
            let more = with_keys(listing, bucket_of(paths[i]), keys);
            keys_are_gathered(listing, bucket_of(paths[i]), keys, bucket, key);
            every_listed_key_is_gathered(paths, i + 1, more, replies, n, bucket, key);
            assert(reply_lists(replies[at], key) <==> keys.contains(key));
            if let ProgressView::Got(all, m) = listed_paths(paths, i + 1, more, replies, n) {
                if in_listing(all, bucket, key) && !in_listing(listing, bucket, key) {
                    if bucket == bucket_of(paths[i]) && keys.contains(key) {
                        assert(bucket_of(paths[i]) == bucket && reply_lists(
                            replies[at + (i - i)],
                            key,
                        ));
                    } else {
                        let j = choose|j: int|
                            i + 1 <= j < paths.len() && bucket_of(#[trigger] paths[j]) == bucket
                                && reply_lists(replies[n + (j - (i + 1))], key);
                        assert(reply_lists(replies[at + (j - i)], key));
                    }
                }
                if exists|j: int|
                    i <= j < paths.len() && bucket_of(#[trigger] paths[j]) == bucket && reply_lists(
                        replies[at + (j - i)],
                        key,
                    ) {
                    let j = choose|j: int|
                        i <= j < paths.len() && bucket_of(#[trigger] paths[j]) == bucket
                            && reply_lists(replies[at + (j - i)], key);
                    if j > i {
                        assert(bucket_of(paths[j]) == bucket && reply_lists(
                            replies[n + (j - (i + 1))],
                            key,
                        ));
                    }
                }
            }
        }
    }
}

/// What was gathered is deleted bucket by bucket, and a bucket without keys is passed over.
pub proof fn every_gathered_key_is_deleted(
    listing: Listing,
    i: int,
    replies: Seq<ReplyView>,
    at: int,
)
    requires
        0 <= i < listing.len(),
        0 <= at <= replies.len(),
    ensures
        listing[i].1.len() == 0 ==> deleted_listing(listing, i, replies, at) == deleted_listing(
            listing,
            i + 1,
            replies,
            at,
        ),
        listing[i].1.len() > 0 && at == replies.len() ==> (deleted_listing(listing, i, replies, at)
            matches ProgressView::Ask(r) && {
            &&& r.operation == "s3.delete_objects"@
            &&& text_at(r.payload, "Bucket"@) == Some(listing[i].0)
            &&& member(r.payload, "Keys"@) == texts_view(listing[i].1)
        }),
        listing[i].1.len() > 0 && at < replies.len() && (replies[at] matches Ok(response)
            && items_of(member(response, "Errors"@)).len() == 0) ==> deleted_listing(
            listing,
            i,
            replies,
            at,
        ) == deleted_listing(listing, i + 1, replies, at + 1),
        listing[i].1.len() > 0 && at < replies.len() && (replies[at] matches Ok(response)
            && items_of(member(response, "Errors"@)).len() > 0) ==> deleted_listing(
            listing,
            i,
            replies,
            at,
        ) == ProgressView::<()>::Fail(
            OpsErrorView {
                kind: OpsErrorKind::UnexpectedResult,
                message: "Failed to delete files from S3."@,
            },
            at + 1,
        ),
{
    reveal_strlit("Bucket");
    reveal_strlit("Keys");
    assert("Bucket"@.len() == 6 && "Keys"@.len() == 4);
    two_fields("Bucket"@, "Keys"@, text(listing[i].0), texts_view(listing[i].1));
}

// ---------------------------------------------------------------------------
// Uploads
// ---------------------------------------------------------------------------

/// The arguments of an upload that are known, and what they become.
pub proof fn upload_arguments_are_known(name: Seq<char>, value: Seq<char>)
    ensures
        upload_argument(name, value) is Ok <==> name == "ServerSideEncryption"@ || name
            == "SSEKMSKeyId"@ || name == "ACL"@ || name == "StorageClass"@ || name
            == "ContentType"@ || name == "BucketKeyEnabled"@,
        upload_argument(name, value) matches Ok(v) ==> {
            &&& name != "BucketKeyEnabled"@ ==> v == JsonView::Text(value)
            &&& name == "BucketKeyEnabled"@ ==> v == JsonView::Bool(ascii_lower(value) == "true"@)
        },
{
    reveal_strlit("ServerSideEncryption");
    reveal_strlit("SSEKMSKeyId");
    reveal_strlit("ACL");
    reveal_strlit("StorageClass");
    reveal_strlit("ContentType");
    reveal_strlit("BucketKeyEnabled");
    reveal_strlit("true");
    assert("BucketKeyEnabled"@.len() == 16 && "ServerSideEncryption"@.len() == 20
        && "SSEKMSKeyId"@.len() == 11 && "ACL"@.len() == 3 && "StorageClass"@.len() == 12
        && "ContentType"@.len() == 11);
    assert(ascii_lower("true"@) =~= "true"@);
}

/// An upload holds its bucket, its key and its body, and of each argument what was said
/// last.
pub proof fn an_upload_says(
    bucket: Seq<char>,
    key: Seq<char>,
    encoded: Seq<char>,
    arguments: Seq<(Seq<char>, Seq<char>)>,
    name: Seq<char>,
    value: Seq<char>,
    other: Seq<char>,
)
    ensures
        upload_fields(bucket, key, encoded, Seq::empty()) matches Ok(f) && {
            &&& field(f, "Bucket"@) == Some(JsonView::Text(bucket))
            &&& field(f, "Key"@) == Some(JsonView::Text(key))
            &&& field(f, "Body"@) == Some(JsonView::Text(encoded))
        },
        upload_fields(bucket, key, encoded, arguments.push((name, value))) is Ok
            <==> upload_fields(bucket, key, encoded, arguments) is Ok && upload_argument(
            name,
            value,
        ) is Ok,
        upload_fields(bucket, key, encoded, arguments.push((name, value))) matches Ok(f) ==> {
            &&& field(f, name) == Some(upload_argument(name, value)->Ok_0)
            &&& other != name ==> field(f, other) == field(
                upload_fields(bucket, key, encoded, arguments)->Ok_0,
                other,
            )
        },
{
    reveal_strlit("Bucket");
    reveal_strlit("Key");
    reveal_strlit("Body");
    assert("Bucket"@.len() == 6 && "Key"@.len() == 3 && "Body"@.len() == 4);
    let f = upload_fields(bucket, key, encoded, Seq::empty())->Ok_0;
    place_is_unique(f, "Bucket"@, 0);
    place_is_unique(f, "Key"@, 1);
    place_is_unique(f, "Body"@, 2);
    assert(arguments.push((name, value)).drop_last() =~= arguments);
    if upload_fields(bucket, key, encoded, arguments) is Ok && upload_argument(name, value) is Ok {
        put_then_field(
            upload_fields(bucket, key, encoded, arguments)->Ok_0,
            name,
            upload_argument(name, value)->Ok_0,
            other,
        );
    }
}

/// An upload is one request to put the object; with an argument that is not known there is
/// none.
pub proof fn an_upload_is_one_request(
    bucket: Seq<char>,
    key: Seq<char>,
    encoded: Seq<char>,
    arguments: Seq<(Seq<char>, Seq<char>)>,
    replies: Seq<ReplyView>,
    at: int,
)
    requires
        0 <= at <= replies.len(),
    ensures
        match upload_fields(bucket, key, encoded, arguments) {
            Ok(f) => {
                &&& at == replies.len() ==> uploaded(bucket, key, encoded, arguments, replies, at)
                    == ProgressView::<()>::Ask(
                    RequestView { operation: "s3.put_object"@, payload: JsonView::Object(f) },
                )
                &&& at < replies.len() && replies[at] is Ok ==> uploaded(
                    bucket,
                    key,
                    encoded,
                    arguments,
                    replies,
                    at,
                ) == ProgressView::Got((), at + 1)
            },
            Err(e) => uploaded(bucket, key, encoded, arguments, replies, at) == ProgressView::<
                (),
            >::Fail(OpsErrorView { kind: OpsErrorKind::NotSupported, message: e }, at),
        },
{
}

// ---------------------------------------------------------------------------
// Types of tables
// ---------------------------------------------------------------------------

/// The type of a table in Glue by its name, whatever else is said of it; the parameter
/// that marks Iceberg comes first.
pub proof fn tables_have_types(
    name: Seq<char>,
    parameter: Option<Seq<char>>,
    table: Seq<char>,
)
    ensures
        (parameter matches Some(p) && ascii_lower(p) == "iceberg"@) ==> glue_type(
            Some(name),
            parameter,
            table,
        ) == Ok::<TableType, Seq<char>>(TableType::Iceberg),
        !(parameter matches Some(p) && ascii_lower(p) == "iceberg"@) ==> {
            &&& glue_type(Some(name), parameter, table) == Ok::<TableType, Seq<char>>(
                TableType::Table,
            ) <==> name == "EXTERNAL_TABLE"@ || name == "EXTERNAL"@ || name == "GOVERNED"@ || name
                == "MANAGED_TABLE"@ || name == "table"@
            &&& glue_type(Some(name), parameter, table) == Ok::<TableType, Seq<char>>(
                TableType::View,
            ) <==> name == "VIRTUAL_VIEW"@ || name == "view"@
            &&& glue_type(Some(name), parameter, table) == Ok::<TableType, Seq<char>>(
                TableType::Cte,
            ) <==> name == "cte"@
            &&& glue_type(Some(name), parameter, table) == Ok::<TableType, Seq<char>>(
                TableType::MaterializedView,
            ) <==> name == "materializedview"@
            &&& glue_type(Some(name), parameter, table) != Ok::<TableType, Seq<char>>(
                TableType::Iceberg,
            )
            &&& glue_type(None, parameter, table) is Err
        },
{
    reveal_strlit("iceberg");
    assert(ascii_lower("iceberg"@) =~= "iceberg"@);
    reveal_strlit("EXTERNAL_TABLE");
    reveal_strlit("EXTERNAL");
    reveal_strlit("GOVERNED");
    reveal_strlit("MANAGED_TABLE");
    reveal_strlit("table");
    reveal_strlit("VIRTUAL_VIEW");
    reveal_strlit("view");
    reveal_strlit("cte");
    reveal_strlit("materializedview");
    assert("EXTERNAL_TABLE"@.len() == 14 && "EXTERNAL"@.len() == 8 && "GOVERNED"@.len() == 8
        && "MANAGED_TABLE"@.len() == 13 && "table"@.len() == 5 && "VIRTUAL_VIEW"@.len() == 12
        && "view"@.len() == 4 && "cte"@.len() == 3 && "materializedview"@.len() == 16);
}

/// What is not known is refused by its name.
pub proof fn unknown_names_are_told(name: Seq<char>, value: Seq<char>)
    ensures
        upload_argument(name, value) matches Err(e) ==> e == "seed_s3_upload_args key '"@ + name
            + "' is not supported by the dbt Athena backend"@,
        naming_of(name) is None ==> chosen_naming(Some(name), None) == Err::<
            S3DataNaming,
            Seq<char>,
        >("'"@ + name + "' is not a valid s3_data_naming"@),
{
}

} // verus!
