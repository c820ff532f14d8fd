//! Expiring the old versions of a Glue table.

use crate::athena::driver::{
    ask, call, called, replies_view, then_do, within, Progress, ProgressView, Reply, ReplyView,
};
use crate::athena::glue::{
    catalog_id, location_at, location_of, opt_as_str, text, AthenaOps, RelationParts,
};
use crate::athena::storage::deleted_path;
use crate::json::{
    fields, items_of, items_view, lookup, member, nil, opt, text_at, FieldsView, Json, JsonView,
};
use crate::number::{parse_i64, signed};
use crate::text::views;
use vstd::prelude::*;

verus! {

/// A version of a table: its number, its id and where its data lies.
pub struct Version {
    pub ordinal: i64,
    pub id: String,
    pub location: Option<String>,
}

pub struct VersionView {
    pub ordinal: int,
    pub id: Seq<char>,
    pub location: Option<Seq<char>>,
}

impl View for Version {
    type V = VersionView;

    open spec fn view(&self) -> VersionView {
        VersionView { ordinal: self.ordinal as int, id: self.id@, location: opt(self.location) }
    }
}

pub open spec fn versions_view(versions: Seq<Version>) -> Seq<VersionView> {
    versions.map_values(|v: Version| v@)
}

/// The version that an entry of Glue's list describes, where its id is a number.
pub open spec fn version_of(entry: JsonView) -> Option<VersionView> {
    match lookup(entry, "Table"@) {
        None => None,
        Some(table) => match text_at(table, "VersionId"@) {
            None => None,
            Some(id) => match signed(id) {
                Some(n) => if i64::MIN <= n <= i64::MAX {
                    Some(VersionView { ordinal: n, id, location: location_of(table) })
                } else {
                    None
                },
                None => None,
            },
        },
    }
}

/// The versions of a list with one more: before it stand all that are not older.
pub open spec fn placed(versions: Seq<VersionView>, v: VersionView) -> Seq<VersionView>
    decreases versions.len(),
{
    if versions.len() == 0 {
        seq![v]
    } else if versions.last().ordinal >= v.ordinal {
        versions.push(v)
    } else {
        placed(versions.drop_last(), v).push(versions.last())
    }
}

/// The versions that Glue lists, the newest first; those with one number keep their order.
pub open spec fn newest_first(entries: Seq<JsonView>) -> Seq<VersionView>
    decreases entries.len(),
{
    if entries.len() == 0 {
        Seq::empty()
    } else {
        let before = newest_first(entries.drop_last());
        match version_of(entries.last()) {
            Some(v) => placed(before, v),
            None => before,
        }
    }
}

pub open spec fn delete_fields(
    catalog: Option<Seq<char>>,
    relation: RelationParts,
    version_id: Seq<char>,
) -> FieldsView {
    let start = match catalog {
        Some(id) => nil().push(("CatalogId"@, text(id))),
        None => nil(),
    };
    start.push(("DatabaseName"@, text(relation.schema@))).push(
        ("TableName"@, text(relation.identifier@)),
    ).push(("VersionId"@, text(version_id)))
}

/// Deleting the versions from `i` on. A version that cannot be deleted is passed over, and
/// so is data that cannot; the result is the ids of the versions that were deleted.
pub open spec fn expired(
    catalog: Option<Seq<char>>,
    relation: RelationParts,
    versions: Seq<VersionView>,
    i: int,
    delete_s3: bool,
    deleted: Seq<Seq<char>>,
    replies: Seq<ReplyView>,
    at: int,
) -> ProgressView<Seq<Seq<char>>>
    decreases versions.len() - i,
{
    if i < 0 || i >= versions.len() {
        ProgressView::Got(deleted, at)
    } else if at < 0 || at >= replies.len() {
        ask(
            "glue.delete_table_version"@,
            JsonView::Object(delete_fields(catalog, relation, versions[i].id)),
        )
    } else if replies[at] is Err {
        expired(catalog, relation, versions, i + 1, delete_s3, deleted, replies, at + 1)
    } else {
        let more = deleted.push(versions[i].id);
        match versions[i].location {
            Some(location) => if delete_s3 {
                match deleted_path(location, replies, at + 1) {
                    ProgressView::Ask(r) => ProgressView::Ask(r),
                    ProgressView::Got(_, n) => expired(
                        catalog,
                        relation,
                        versions,
                        i + 1,
                        delete_s3,
                        more,
                        replies,
                        n,
                    ),
                    ProgressView::Fail(_, n) => expired(
                        catalog,
                        relation,
                        versions,
                        i + 1,
                        delete_s3,
                        more,
                        replies,
                        n,
                    ),
                }
            } else {
                expired(catalog, relation, versions, i + 1, delete_s3, more, replies, at + 1)
            },
            None => expired(catalog, relation, versions, i + 1, delete_s3, more, replies, at + 1),
        }
    }
}

/// Keeping the `to_keep` newest versions of a table and deleting the others.
pub open spec fn expired_versions(
    relation: RelationParts,
    to_keep: int,
    delete_s3: bool,
    replies: Seq<ReplyView>,
    at: int,
) -> ProgressView<Seq<Seq<char>>> {
    then_do(
        catalog_id(opt(relation.database), replies, at),
        |catalog: Option<Seq<char>>, n: int|
            then_do(
                called(
                    replies,
                    n,
                    "glue.get_table_versions"@,
                    JsonView::Object(
                        nil().push(("DatabaseName"@, text(relation.schema@))).push(
                            ("TableName"@, text(relation.identifier@)),
                        ),
                    ),
                ),
                |response: JsonView, m: int|
                    expired(
                        catalog,
                        relation,
                        newest_first(items_of(member(response, "TableVersions"@))),
                        to_keep,
                        delete_s3,
                        Seq::empty(),
                        replies,
                        m,
                    ),
            ),
    )
}

// ---------------------------------------------------------------------------
// What the order is
// ---------------------------------------------------------------------------

pub open spec fn descending(versions: Seq<VersionView>) -> bool {
    forall|i: int, j: int|
        0 <= i < j < versions.len() ==> (#[trigger] versions[i]).ordinal >= (
        #[trigger] versions[j]).ordinal
}

proof fn placed_is_descending(versions: Seq<VersionView>, v: VersionView)
    requires
        descending(versions),
    ensures
        descending(placed(versions, v)),
        placed(versions, v).len() == versions.len() + 1,
        placed(versions, v).to_multiset() == versions.to_multiset().insert(v),
        forall|i: int|
            0 <= i < placed(versions, v).len() ==> (#[trigger] placed(versions, v)[i] == v
                || versions.contains(placed(versions, v)[i])),
    decreases versions.len(),
{
    broadcast use vstd::seq_lib::group_to_multiset_ensures;

    if versions.len() == 0 {
        assert(placed(versions, v) =~= versions.push(v));
    } else if versions.last().ordinal >= v.ordinal {
        let after = versions.push(v);
        assert forall|i: int| 0 <= i < after.len() implies (#[trigger] after[i] == v
            || versions.contains(after[i])) by {
            if i < versions.len() {
                assert(versions[i] == after[i]);
            }
        }
    } else {
        let rest = versions.drop_last();
        placed_is_descending(rest, v);
        let front = placed(rest, v);
        let after = placed(versions, v);
        assert(after == front.push(versions.last()));
        assert forall|i: int| 0 <= i < after.len() implies (#[trigger] after[i] == v
            || versions.contains(after[i])) by {
            if i < front.len() {
                assert(after[i] == front[i]);
                if front[i] != v {
                    let k = choose|k: int| 0 <= k < rest.len() && rest[k] == front[i];
                    assert(versions[k] == front[i]);
                }
            } else {
                assert(after[i] == versions[versions.len() - 1]);
            }
        }
        assert forall|i: int, j: int| 0 <= i < j < after.len() implies (
        #[trigger] after[i]).ordinal >= (#[trigger] after[j]).ordinal by {
            if j == front.len() {
                assert(after[i] == front[i]);
                if front[i] != v {
                    let k = choose|k: int| 0 <= k < rest.len() && rest[k] == front[i];
                    assert(versions[k].ordinal >= versions[versions.len() - 1].ordinal);
                }
            } else {
                assert(after[i] == front[i] && after[j] == front[j]);
            }
        }
        assert(versions =~= rest.push(versions.last()));
        assert(after.to_multiset() =~= versions.to_multiset().insert(v));
    }
}

/// The versions with a number among the entries, as a multiset.
pub open spec fn numbered(entries: Seq<JsonView>) -> vstd::multiset::Multiset<VersionView>
    decreases entries.len(),
{
    if entries.len() == 0 {
        vstd::multiset::Multiset::empty()
    } else {
        match version_of(entries.last()) {
            Some(v) => numbered(entries.drop_last()).insert(v),
            None => numbered(entries.drop_last()),
        }
    }
}

/// The order holds each version that has a number once, and no version stands before a
/// newer one.
pub proof fn newest_stand_first(entries: Seq<JsonView>)
    ensures
        descending(newest_first(entries)),
        newest_first(entries).to_multiset() == numbered(entries),
    decreases entries.len(),
{
    broadcast use vstd::seq_lib::group_to_multiset_ensures;

    if entries.len() > 0 {
        newest_stand_first(entries.drop_last());
        match version_of(entries.last()) {
            Some(v) => placed_is_descending(newest_first(entries.drop_last()), v),
            None => {},
        }
    } else {
        assert(newest_first(entries).to_multiset() =~= vstd::multiset::Multiset::empty());
    }
}

/// A version whose deletion is asked for is none of the `to_keep` newest: that many stand
/// before it, none of them older.
pub proof fn kept_are_not_older(entries: Seq<JsonView>, to_keep: int, i: int)
    requires
        0 <= to_keep <= i < newest_first(entries).len(),
    ensures
        forall|k: int|
            0 <= k < to_keep ==> (#[trigger] newest_first(entries)[k]).ordinal
                >= newest_first(entries)[i].ordinal,
{
    newest_stand_first(entries);
}

fn version_at(entry: &Json) -> (r: Option<Version>)
    ensures
        match (r, version_of(entry@)) {
            (Some(v), Some(w)) => v@ == w,
            (None, None) => true,
            _ => false,
        },
{
    let table = match entry.get("Table") {
        Some(table) => table,
        None => {
            return None;
        },
    };
    let id = match table.str_at("VersionId") {
        Some(id) => id,
        None => {
            return None;
        },
    };
    match parse_i64(id) {
        Some(ordinal) => Some(
            Version { ordinal, id: id.to_owned(), location: location_at(table) },
        ),
        None => None,
    }
}

fn place(versions: &mut Vec<Version>, v: Version)
    ensures
        versions_view(final(versions)@) == placed(versions_view(old(versions)@), v@),
{
    let ghost before = versions_view(versions@);
    let ghost old_versions = versions@;
    let mut i: usize = versions.len();
    assert(before.take(i as int) =~= before);
    assert(placed(before, v@) =~= placed(before.take(i as int), v@) + before.skip(i as int));
    while i > 0 && versions[i - 1].ordinal < v.ordinal
        invariant
            i <= versions.len(),
            versions@ == old_versions,
            before == versions_view(old_versions),
            placed(before, v@) == placed(before.take(i as int), v@) + before.skip(i as int),
        decreases i,
    {
        let ghost front = before.take(i as int);
        assert(front.drop_last() =~= before.take(i - 1));
        assert(front.last() == before[i - 1]);
        assert(placed(front, v@) == placed(before.take(i - 1), v@).push(before[i - 1]));
        assert(placed(before, v@) =~= placed(before.take(i - 1), v@) + before.skip(i - 1));
        i -= 1;
    }
    let ghost front = before.take(i as int);
    assert(placed(front, v@) =~= front.push(v@)) by {
        if i > 0 {
            assert(front.last() == before[i - 1]);
        }
    }
    versions.insert(i, v);
    assert(versions_view(versions@) =~= front.push(v@) + before.skip(i as int));
}

/// The versions that Glue lists, the newest first.
pub fn sorted_versions(entries: &Vec<Json>) -> (r: Vec<Version>)
    ensures
        versions_view(r@) == newest_first(items_view(entries@)),
{
    let ghost all = items_view(entries@);
    let mut r: Vec<Version> = Vec::new();
    let mut i: usize = 0;
    assert(versions_view(r@) =~= newest_first(all.take(0)));
    while i < entries.len()
        invariant
            i <= entries.len(),
            all == items_view(entries@),
            versions_view(r@) == newest_first(all.take(i as int)),
        decreases entries.len() - i,
    {
        assert(all.take(i + 1).drop_last() =~= all.take(i as int));
        assert(all.take(i + 1).last() == entries@[i as int]@);
        if let Some(v) = version_at(&entries[i]) {
            place(&mut r, v);
        }
        i += 1;
    }
    assert(all.take(i as int) =~= all);
    r
}

impl AthenaOps {
    /// Keeps the `to_keep` newest versions of a table and deletes the others, with their
    /// data where that is asked for. Hands back the ids of the deleted versions.
    pub fn expire_glue_table_versions(
        relation: &RelationParts,
        to_keep: usize,
        delete_s3: bool,
        replies: &Vec<Reply>,
        at: usize,
    ) -> (r: Progress<Vec<String>>)
        requires
            at <= replies.len(),
        ensures
            r@ == expired_versions(
                *relation,
                to_keep as int,
                delete_s3,
                replies_view(replies@),
                at as int,
            ),
            within(r, at, replies@),
    {
        let ghost answers = replies_view(replies@);
        let (catalog, n) = match Self::catalog_id(opt_as_str(&relation.database), replies, at) {
            Progress::Got(catalog, n) => (catalog, n),
            Progress::Ask(r) => {
                return Progress::Ask(r);
            },
            Progress::Fail(e, n) => {
                return Progress::Fail(e, n);
            },
        };
        let payload = fields().text("DatabaseName", relation.schema.as_str()).text(
            "TableName",
            relation.identifier.as_str(),
        );
        let (response, n) = match call(
            replies,
            n,
            "glue.get_table_versions",
            payload.object(),
        ) {
            Progress::Got(response, n) => (response, n),
            Progress::Ask(r) => {
                return Progress::Ask(r);
            },
            Progress::Fail(e, n) => {
                return Progress::Fail(e, n);
            },
        };
        let entries = match response.get("TableVersions") {
            Some(found) => found.items(),
            None => Vec::new(),
        };
        assert(items_view(entries@) =~= items_of(member(response@, "TableVersions"@)));
        let versions = sorted_versions(&entries);
        let ghost listed = versions_view(versions@);
        let ghost id = opt(catalog);
        let ghost start = n as int;
        let mut deleted: Vec<String> = Vec::new();
        let mut n: usize = n;
        let mut i: usize = to_keep;
        assert(views(deleted@) =~= Seq::empty());
        while i < versions.len()
            invariant
                to_keep <= i,
                at <= n <= replies.len(),
                listed == versions_view(versions@),
                answers == replies_view(replies@),
                id == opt(catalog),
                expired_versions(*relation, to_keep as int, delete_s3, answers, at as int)
                    == expired(
                    id,
                    *relation,
                    listed,
                    i as int,
                    delete_s3,
                    views(deleted@),
                    answers,
                    n as int,
                ),
            decreases versions.len() - i,
        {
            let version = &versions[i];
            assert(listed[i as int] == version@);
            let start_fields = match &catalog {
                Some(c) => fields().text("CatalogId", c.as_str()),
                None => fields(),
            };
            let payload = start_fields.text("DatabaseName", relation.schema.as_str()).text(
                "TableName",
                relation.identifier.as_str(),
            ).text("VersionId", version.id.as_str());
            match call(replies, n, "glue.delete_table_version", payload.object()) {
                Progress::Ask(r) => {
                    return Progress::Ask(r);
                },
                Progress::Fail(_, m) => {
                    n = m;
                },
                Progress::Got(_, m) => {
                    let ghost before = views(deleted@);
                    deleted.push(version.id.clone());
                    assert(views(deleted@) =~= before.push(version.id@));
                    n = m;
                    if delete_s3 {
                        if let Some(location) = &version.location {
                            match Self::delete_from_s3(location.as_str(), replies, n) {
                                Progress::Ask(r) => {
                                    return Progress::Ask(r);
                                },
                                Progress::Got(_, m) => {
                                    n = m;
                                },
                                Progress::Fail(_, m) => {
                                    n = m;
                                },
                            }
                        }
                    }
                },
            }
            i += 1;
        }
        assert(deleted.deep_view() =~= views(deleted@));
        Progress::Got(deleted, n)
    }
}

} // verus!
