//! Objects in S3.

use crate::athena::driver::{
    call, called, fail, failed, replies_view, then_do, within, OpsErrorKind, Progress, ProgressView,
    Reply, ReplyView,
};
use crate::athena::glue::{text, AthenaOps};
use crate::athena::s3::{bucket_of, parse_s3_path, prefix_of};
use crate::json::{
    fields, items_of, items_view, member, nil, text_of, texts, texts_view, Fields, Json, JsonView,
};
use crate::text::{same, same_ignoring_case, views};
use vstd::prelude::*;

verus! {

/// The texts among the items of a list, in their order.
pub open spec fn texts_among(items: Seq<JsonView>) -> Seq<Seq<char>>
    decreases items.len(),
{
    if items.len() == 0 {
        Seq::empty()
    } else {
        let rest = texts_among(items.drop_last());
        match text_of(items.last()) {
            Some(t) => rest.push(t),
            None => rest,
        }
    }
}

/// The texts among the items of a list.
pub fn texts_of(v: &Json) -> (r: Vec<String>)
    ensures
        views(r@) == texts_among(items_of(v@)),
{
    let items = v.items();
    let mut r: Vec<String> = Vec::new();
    let mut i: usize = 0;
    let ghost all = items_view(items@);
    while i < items.len()
        invariant
            i <= items.len(),
            all == items_view(items@),
            views(r@) == texts_among(all.take(i as int)),
        decreases items.len() - i,
    {
        assert(all.take(i + 1).drop_last() =~= all.take(i as int));
        assert(all.take(i + 1).last() == items@[i as int]@);
        if let Some(t) = items[i].as_str() {
            let ghost before = views(r@);
            r.push(t.to_owned());
            assert(views(r@) =~= before.push(t@));
        }
        i += 1;
    }
    assert(all.take(i as int) =~= all);
    r
}

/// The keys of the objects under a prefix.
pub open spec fn object_keys(
    bucket: Seq<char>,
    prefix: Seq<char>,
    replies: Seq<ReplyView>,
    at: int,
) -> ProgressView<Seq<Seq<char>>> {
    then_do(
        called(
            replies,
            at,
            "s3.list_objects"@,
            JsonView::Object(nil().push(("Bucket"@, text(bucket))).push(("Prefix"@, text(prefix)))),
        ),
        |response: JsonView, n: int|
            ProgressView::Got(texts_among(items_of(member(response, "Keys"@))), n),
    )
}

/// Deleting objects; an error that S3 reports for any of them is an error of the whole.
pub open spec fn deleted_keys(
    bucket: Seq<char>,
    keys: Seq<Seq<char>>,
    replies: Seq<ReplyView>,
    at: int,
) -> ProgressView<()> {
    then_do(
        called(
            replies,
            at,
            "s3.delete_objects"@,
            JsonView::Object(nil().push(("Bucket"@, text(bucket))).push(("Keys"@, texts_view(keys)))),
        ),
        |response: JsonView, n: int|
            if items_of(member(response, "Errors"@)).len() == 0 {
                ProgressView::Got((), n)
            } else {
                failed(OpsErrorKind::UnexpectedResult, "Failed to delete files from S3."@, n)
            },
    )
}

/// Deleting the objects under an S3 path; where there are none, nothing is deleted.
pub open spec fn deleted_path(s3_path: Seq<char>, replies: Seq<ReplyView>, at: int) -> ProgressView<
    (),
> {
    then_do(
        object_keys(bucket_of(s3_path), prefix_of(s3_path), replies, at),
        |keys: Seq<Seq<char>>, n: int|
            if keys.len() == 0 {
                ProgressView::Got((), n)
            } else {
                deleted_keys(bucket_of(s3_path), keys, replies, n)
            },
    )
}

/// The keys to delete, by bucket: a bucket stands where it was first seen.
pub type Listing = Seq<(Seq<char>, Seq<Seq<char>>)>;

pub open spec fn bucket_place(listing: Listing, bucket: Seq<char>) -> int
    decreases listing.len(),
{
    if listing.len() == 0 {
        0
    } else if listing[0].0 == bucket {
        0
    } else {
        1 + bucket_place(listing.drop_first(), bucket)
    }
}

/// The listing with keys added to a bucket.
pub open spec fn with_keys(listing: Listing, bucket: Seq<char>, keys: Seq<Seq<char>>) -> Listing {
    let p = bucket_place(listing, bucket);
    if 0 <= p < listing.len() {
        listing.update(p, (bucket, listing[p].1 + keys))
    } else {
        listing.push((bucket, keys))
    }
}

/// The listing of all paths from `i` on, added to one.
pub open spec fn listed_paths(
    paths: Seq<Seq<char>>,
    i: int,
    listing: Listing,
    replies: Seq<ReplyView>,
    at: int,
) -> ProgressView<Listing>
    decreases paths.len() - i,
{
    if i < 0 || i >= paths.len() {
        ProgressView::Got(listing, at)
    } else {
        match object_keys(bucket_of(paths[i]), prefix_of(paths[i]), replies, at) {
            ProgressView::Ask(r) => ProgressView::Ask(r),
            ProgressView::Fail(e, n) => ProgressView::Fail(e, n),
            ProgressView::Got(keys, n) => listed_paths(
                paths,
                i + 1,
                with_keys(listing, bucket_of(paths[i]), keys),
                replies,
                n,
            ),
        }
    }
}

/// Deleting what a listing holds from bucket `i` on; a bucket without keys is passed over.
pub open spec fn deleted_listing(listing: Listing, i: int, replies: Seq<ReplyView>, at: int) -> ProgressView<
    (),
>
    decreases listing.len() - i,
{
    if i < 0 || i >= listing.len() {
        ProgressView::Got((), at)
    } else if listing[i].1.len() == 0 {
        deleted_listing(listing, i + 1, replies, at)
    } else {
        match deleted_keys(listing[i].0, listing[i].1, replies, at) {
            ProgressView::Ask(r) => ProgressView::Ask(r),
            ProgressView::Fail(e, n) => ProgressView::Fail(e, n),
            ProgressView::Got(_, n) => deleted_listing(listing, i + 1, replies, n),
        }
    }
}

/// Deleting the objects under all paths: all are listed before any is deleted.
pub open spec fn deleted_paths(paths: Seq<Seq<char>>, replies: Seq<ReplyView>, at: int) -> ProgressView<
    (),
> {
    then_do(
        listed_paths(paths, 0, Seq::empty(), replies, at),
        |listing: Listing, n: int| deleted_listing(listing, 0, replies, n),
    )
}

pub open spec fn listing_view(v: Seq<(String, Vec<String>)>) -> Listing {
    v.map_values(|e: (String, Vec<String>)| (e.0@, views(e.1@)))
}

pub proof fn bucket_place_is(listing: Listing, bucket: Seq<char>, p: int)
    requires
        0 <= p <= listing.len(),
        p < listing.len() ==> listing[p].0 == bucket,
        forall|i: int| 0 <= i < p ==> (#[trigger] listing[i]).0 != bucket,
    ensures
        p == bucket_place(listing, bucket),
    decreases listing.len(),
{
    if p > 0 {
        assert(listing[0].0 != bucket);
        let rest = listing.drop_first();
        assert forall|i: int| 0 <= i < p - 1 implies (#[trigger] rest[i]).0 != bucket by {
            assert(rest[i] == listing[i + 1]);
        }
        bucket_place_is(rest, bucket, p - 1);
    }
}

/// Adds keys to a bucket of a listing.
pub fn add_keys(listing: &mut Vec<(String, Vec<String>)>, bucket: String, keys: Vec<String>)
    ensures
        listing_view(final(listing)@) == with_keys(
            listing_view(old(listing)@),
            bucket@,
            views(keys@),
        ),
{
    let ghost before = listing_view(listing@);
    let mut i: usize = 0;
    while i < listing.len() && !same(listing[i].0.as_str(), bucket.as_str())
        invariant
            i <= listing.len(),
            listing_view(listing@) == before,
            forall|j: int| 0 <= j < i ==> (#[trigger] before[j]).0 != bucket@,
        decreases listing.len() - i,
    {
        i += 1;
    }
    proof {
        bucket_place_is(before, bucket@, i as int);
    }
    if i < listing.len() {
        let mut all: Vec<String> = listing[i].1.clone();
        assert(views(all@) =~= before[i as int].1) by {
            assert forall|j: int| 0 <= j < all.len() implies all@[j]@ == listing@[i as int].1@[j]@ by {
                assert(cloned(listing@[i as int].1@[j], all@[j]));
            }
        }
        let ghost old_keys = views(all@);
        let mut k: usize = 0;
        while k < keys.len()
            invariant
                k <= keys.len(),
                views(all@) == old_keys + views(keys@).take(k as int),
            decreases keys.len() - k,
        {
            let ghost prior = views(all@);
            all.push(keys[k].clone());
            assert(views(all@) =~= prior.push(keys@[k as int]@));
            assert(views(all@) =~= old_keys + views(keys@).take(k + 1));
            k += 1;
        }
        assert(views(keys@).take(k as int) =~= views(keys@));
        listing.set(i, (bucket, all));
        assert(listing_view(listing@) =~= with_keys(before, bucket@, views(keys@)));
    } else {
        listing.push((bucket, keys));
        assert(listing_view(listing@) =~= with_keys(before, bucket@, views(keys@)));
    }
}

// ---------------------------------------------------------------------------
// Uploads
// ---------------------------------------------------------------------------

/// The text that encoding bytes in standard Base64 gives.
pub uninterp spec fn base64_text(bytes: Seq<u8>) -> Seq<char>;

/// `base64::engine::general_purpose::STANDARD.encode`: the bytes in Base64 with the
/// standard alphabet and padding. The encoding is left to the name.
#[verifier::external_body]
fn encode_base64(bytes: &[u8]) -> (r: String)
    ensures
        r@ == base64_text(bytes@),
{
    base64::Engine::encode(&base64::engine::general_purpose::STANDARD, bytes)
}

/// An upload argument that is handed on as it is.
pub open spec fn text_argument(name: Seq<char>) -> bool {
    name == "ServerSideEncryption"@ || name == "SSEKMSKeyId"@ || name == "ACL"@ || name
        == "StorageClass"@ || name == "ContentType"@
}

pub open spec fn upload_argument(name: Seq<char>, value: Seq<char>) -> Result<JsonView, Seq<char>> {
    if text_argument(name) {
        Ok(text(value))
    } else if name == "BucketKeyEnabled"@ {
        Ok(JsonView::Bool(ascii_lower_is_true(value)))
    } else {
        Err(
            "seed_s3_upload_args key '"@ + name
                + "' is not supported by the dbt Athena backend"@,
        )
    }
}

pub open spec fn ascii_lower_is_true(value: Seq<char>) -> bool {
    crate::text::ascii_lower(value) == crate::text::ascii_lower("true"@)
}

/// The payload of an upload with the first `n` arguments.
pub open spec fn upload_fields(
    bucket: Seq<char>,
    key: Seq<char>,
    encoded: Seq<char>,
    arguments: Seq<(Seq<char>, Seq<char>)>,
) -> Result<crate::json::FieldsView, Seq<char>>
    decreases arguments.len(),
{
    if arguments.len() == 0 {
        Ok(
            nil().push(("Bucket"@, text(bucket))).push(("Key"@, text(key))).push(
                ("Body"@, text(encoded)),
            ),
        )
    } else {
        match upload_fields(bucket, key, encoded, arguments.drop_last()) {
            Ok(before) => match upload_argument(arguments.last().0, arguments.last().1) {
                Ok(value) => Ok(crate::json::put(before, arguments.last().0, value)),
                Err(e) => Err(e),
            },
            Err(e) => Err(e),
        }
    }
}

/// Uploading an object: an argument that is not supported is refused before anything is
/// sent.
pub open spec fn uploaded(
    bucket: Seq<char>,
    key: Seq<char>,
    encoded: Seq<char>,
    arguments: Seq<(Seq<char>, Seq<char>)>,
    replies: Seq<ReplyView>,
    at: int,
) -> ProgressView<()> {
    match upload_fields(bucket, key, encoded, arguments) {
        Ok(payload) => then_do(
            called(replies, at, "s3.put_object"@, JsonView::Object(payload)),
            |response: JsonView, n: int| ProgressView::Got((), n),
        ),
        Err(e) => failed(OpsErrorKind::NotSupported, e, at),
    }
}

proof fn refused_stays(
    bucket: Seq<char>,
    key: Seq<char>,
    encoded: Seq<char>,
    arguments: Seq<(Seq<char>, Seq<char>)>,
    n: int,
)
    requires
        0 <= n <= arguments.len(),
        upload_fields(bucket, key, encoded, arguments.take(n)) is Err,
    ensures
        upload_fields(bucket, key, encoded, arguments) == upload_fields(
            bucket,
            key,
            encoded,
            arguments.take(n),
        ),
    decreases arguments.len() - n,
{
    if n < arguments.len() {
        assert(arguments.take(n + 1).drop_last() =~= arguments.take(n));
        refused_stays(bucket, key, encoded, arguments, n + 1);
    } else {
        assert(arguments.take(n) =~= arguments);
    }
}

fn upload_payload(
    bucket: &str,
    key: &str,
    encoded: &str,
    upload_args: &Vec<(String, String)>,
) -> (r: Result<Fields, String>)
    ensures
        match (
            r,
            upload_fields(bucket@, key@, encoded@, crate::athena::docs::pairs(upload_args@)),
        ) {
            (Ok(f), Ok(g)) => f@ == g,
            (Err(e), Err(f)) => e@ == f,
            _ => false,
        },
{
    let ghost all = crate::athena::docs::pairs(upload_args@);
    let mut payload = fields().text("Bucket", bucket).text("Key", key).text("Body", encoded);
    let mut i: usize = 0;
    while i < upload_args.len()
        invariant
            i <= upload_args.len(),
            all == crate::athena::docs::pairs(upload_args@),
            upload_fields(bucket@, key@, encoded@, all.take(i as int)) == Ok::<
                crate::json::FieldsView,
                Seq<char>,
            >(payload@),
        decreases upload_args.len() - i,
    {
        assert(all.take(i + 1).drop_last() =~= all.take(i as int));
        let name = upload_args[i].0.as_str();
        let value = upload_args[i].1.as_str();
        assert(all.take(i + 1).last() == (name@, value@));
        if same(name, "ServerSideEncryption") || same(name, "SSEKMSKeyId") || same(name, "ACL")
            || same(name, "StorageClass") || same(name, "ContentType") {
            payload = payload.set(name, Json::Text(value.to_owned()));
        } else if same(name, "BucketKeyEnabled") {
            payload = payload.set(name, Json::Bool(same_ignoring_case(value, "true")));
        } else {
            proof {
                refused_stays(bucket@, key@, encoded@, all, i + 1);
            }
            return Err(
                "seed_s3_upload_args key '".to_owned().concat(name).concat(
                    "' is not supported by the dbt Athena backend",
                ),
            );
        }
        i += 1;
    }
    assert(all.take(i as int) =~= all);
    Ok(payload)
}

impl AthenaOps {
    /// The keys of the objects under a prefix.
    pub fn list_object_keys(bucket: &str, prefix: &str, replies: &Vec<Reply>, at: usize) -> (r:
        Progress<Vec<String>>)
        requires
            at <= replies.len(),
        ensures
            r@ == object_keys(bucket@, prefix@, replies_view(replies@), at as int),
            within(r, at, replies@),
            r matches Progress::Got(keys, _) ==> keys.deep_view() == views(keys@),
    {
        let payload = fields().text("Bucket", bucket).text("Prefix", prefix);
        match call(replies, at, "s3.list_objects", payload.object()) {
            Progress::Got(response, n) => {
                let keys = match response.get("Keys") {
                    Some(keys) => texts_of(keys),
                    None => Vec::new(),
                };
                assert(views(keys@) =~= texts_among(items_of(member(response@, "Keys"@))));
                assert(keys.deep_view() =~= views(keys@));
                Progress::Got(keys, n)
            },
            Progress::Ask(r) => Progress::Ask(r),
            Progress::Fail(e, n) => Progress::Fail(e, n),
        }
    }

    /// Deletes objects.
    pub fn delete_object_keys(
        bucket: &str,
        keys: &Vec<String>,
        replies: &Vec<Reply>,
        at: usize,
    ) -> (r: Progress<()>)
        requires
            at <= replies.len(),
        ensures
            r@ == deleted_keys(bucket@, views(keys@), replies_view(replies@), at as int),
            within(r, at, replies@),
    {
        let payload = fields().text("Bucket", bucket).with("Keys", texts(keys));
        match call(replies, at, "s3.delete_objects", payload.object()) {
            Progress::Got(response, n) => {
                let errors = match response.get("Errors") {
                    Some(errors) => errors.items(),
                    None => Vec::new(),
                };
                assert(items_view(errors@) =~= items_of(member(response@, "Errors"@)));
                assert(errors.len() == items_view(errors@).len());
                if errors.len() == 0 {
                    Progress::Got((), n)
                } else {
                    fail(
                        OpsErrorKind::UnexpectedResult,
                        "Failed to delete files from S3.".to_owned(),
                        n,
                    )
                }
            },
            Progress::Ask(r) => Progress::Ask(r),
            Progress::Fail(e, n) => Progress::Fail(e, n),
        }
    }

    /// Deletes the objects under an S3 path.
    pub fn delete_from_s3(s3_path: &str, replies: &Vec<Reply>, at: usize) -> (r: Progress<()>)
        requires
            at <= replies.len(),
        ensures
            r@ == deleted_path(s3_path@, replies_view(replies@), at as int),
            within(r, at, replies@),
    {
        let (bucket, prefix) = parse_s3_path(s3_path);
        match Self::list_object_keys(bucket.as_str(), prefix.as_str(), replies, at) {
            Progress::Got(keys, n) => {
                assert(keys.len() == views(keys@).len());
                if keys.len() == 0 {
                    Progress::Got((), n)
                } else {
                    Self::delete_object_keys(bucket.as_str(), &keys, replies, n)
                }
            },
            Progress::Ask(r) => Progress::Ask(r),
            Progress::Fail(e, n) => Progress::Fail(e, n),
        }
    }

    /// Deletes the objects under all paths: lists all of them, then deletes bucket by
    /// bucket.
    pub fn bulk_delete_from_s3(s3_paths: &Vec<String>, replies: &Vec<Reply>, at: usize) -> (r:
        Progress<()>)
        requires
            at <= replies.len(),
        ensures
            r@ == deleted_paths(views(s3_paths@), replies_view(replies@), at as int),
            within(r, at, replies@),
    {
        let ghost paths = views(s3_paths@);
        let ghost answers = replies_view(replies@);
        let mut listing: Vec<(String, Vec<String>)> = Vec::new();
        let mut n: usize = at;
        let mut i: usize = 0;
        assert(listing_view(listing@) =~= Seq::empty());
        while i < s3_paths.len()
            invariant
                i <= s3_paths.len(),
                at <= n <= replies.len(),
                paths == views(s3_paths@),
                answers == replies_view(replies@),
                listed_paths(paths, 0, Seq::empty(), answers, at as int) == listed_paths(
                    paths,
                    i as int,
                    listing_view(listing@),
                    answers,
                    n as int,
                ),
            decreases s3_paths.len() - i,
        {
            let (bucket, prefix) = parse_s3_path(s3_paths[i].as_str());
            match Self::list_object_keys(bucket.as_str(), prefix.as_str(), replies, n) {
                Progress::Got(keys, m) => {
                    add_keys(&mut listing, bucket, keys);
                    n = m;
                },
                Progress::Ask(r) => {
                    return Progress::Ask(r);
                },
                Progress::Fail(e, m) => {
                    return Progress::Fail(e, m);
                },
            }
            i += 1;
        }
        let ghost listed = listing_view(listing@);
        let ghost start = n as int;
        let mut b: usize = 0;
        while b < listing.len()
            invariant
                b <= listing.len(),
                at <= n <= replies.len(),
                listed == listing_view(listing@),
                answers == replies_view(replies@),
                deleted_listing(listed, 0, answers, start) == deleted_listing(
                    listed,
                    b as int,
                    answers,
                    n as int,
                ),
                deleted_paths(paths, answers, at as int) == deleted_listing(
                    listed,
                    0,
                    answers,
                    start,
                ),
                paths == views(s3_paths@),
            decreases listing.len() - b,
        {
            let bucket = &listing[b].0;
            let keys = &listing[b].1;
            assert(listed[b as int] == (bucket@, views(keys@)));
            assert(keys.len() == views(keys@).len());
            if keys.len() > 0 {
                match Self::delete_object_keys(bucket.as_str(), keys, replies, n) {
                    Progress::Got(_, m) => {
                        n = m;
                    },
                    Progress::Ask(r) => {
                        return Progress::Ask(r);
                    },
                    Progress::Fail(e, m) => {
                        return Progress::Fail(e, m);
                    },
                }
            }
            b += 1;
        }
        Progress::Got((), n)
    }

    /// Uploads an object with the arguments that the model gives for it.
    pub fn upload_object(
        bucket: &str,
        key: &str,
        body: &[u8],
        upload_args: &Vec<(String, String)>,
        replies: &Vec<Reply>,
        at: usize,
    ) -> (r: Progress<()>)
        requires
            at <= replies.len(),
        ensures
            r@ == uploaded(
                bucket@,
                key@,
                base64_text(body@),
                crate::athena::docs::pairs(upload_args@),
                replies_view(replies@),
                at as int,
            ),
            within(r, at, replies@),
    {
        Self::upload_encoded(bucket, key, encode_base64(body).as_str(), upload_args, replies, at)
    }

    /// Uploads an object whose body is already encoded.
    pub fn upload_encoded(
        bucket: &str,
        key: &str,
        encoded: &str,
        upload_args: &Vec<(String, String)>,
        replies: &Vec<Reply>,
        at: usize,
    ) -> (r: Progress<()>)
        requires
            at <= replies.len(),
        ensures
            r@ == uploaded(
                bucket@,
                key@,
                encoded@,
                crate::athena::docs::pairs(upload_args@),
                replies_view(replies@),
                at as int,
            ),
            within(r, at, replies@),
    {
        let payload = match upload_payload(bucket, key, encoded, upload_args) {
            Ok(payload) => payload,
            Err(e) => {
                return fail(OpsErrorKind::NotSupported, e, at);
            },
        };
        match call(replies, at, "s3.put_object", payload.object()) {
            Progress::Got(_, n) => Progress::Got((), n),
            Progress::Ask(r) => Progress::Ask(r),
            Progress::Fail(e, n) => Progress::Fail(e, n),
        }
    }
}

} // verus!
