//! Lake Formation tags and data cell filters.

use crate::athena::docs::{pairs, Pairs};
use crate::athena::driver::{
    call, called, fail, failed, replies_view, then_do, within, OpsErrorKind, Progress, ProgressView,
    Reply, ReplyView,
};
use crate::athena::glue::{text, AthenaOps, RelationParts};
use crate::json::{
    fields, fields_view, items_of, items_view, list, list_view_is, lookup, member, nil,
    object_view_is, opt, or_empty, single, text_at, text_of, text_or_empty, texts, texts_view, Json,
    JsonView,
};
use crate::ordered::{before, found, has_key, insert, less};
use crate::text::{debug_list, debug_strings, join, joined, same, trim, trimmed, views};
use vstd::prelude::*;

verus! {

// ---------------------------------------------------------------------------
// Configuration
// ---------------------------------------------------------------------------

/// A tag and the columns that carry it.
#[derive(Debug, PartialEq)]
pub struct TagColumns {
    pub key: String,
    pub value: String,
    pub columns: Vec<String>,
}

/// The configured tags of a model: those of its table and those of its columns, each in
/// the order of their keys and values, and the keys of the tags that the table inherits
/// from its database, which are left alone.
#[derive(Debug)]
pub struct LfTagsConfig {
    pub enabled: bool,
    pub tags: Option<Vec<(String, String)>>,
    pub tags_columns: Option<Vec<TagColumns>>,
    pub inherited_tags: Option<Vec<String>>,
}

/// The configured grants of a model.
#[derive(Debug)]
pub struct LfGrantsConfig {
    pub data_cell_filters: DataCellFiltersConfig,
}

/// The configured data cell filters of a model, in the order of their names.
#[derive(Debug)]
pub struct DataCellFiltersConfig {
    pub enabled: bool,
    pub filters: Vec<(String, FilterConfig)>,
}

#[derive(Debug)]
pub struct FilterConfig {
    pub row_filter: String,
    pub column_names: Vec<String>,
    pub principals: Vec<String>,
}

pub struct FilterView {
    pub row_filter: Seq<char>,
    pub column_names: Seq<Seq<char>>,
    pub principals: Seq<Seq<char>>,
}

impl DeepView for FilterConfig {
    type V = FilterView;

    open spec fn deep_view(&self) -> FilterView {
        FilterView {
            row_filter: self.row_filter@,
            column_names: views(self.column_names@),
            principals: views(self.principals@),
        }
    }
}

pub struct TagColumnsView {
    pub key: Seq<char>,
    pub value: Seq<char>,
    pub columns: Seq<Seq<char>>,
}

impl View for TagColumns {
    type V = TagColumnsView;

    open spec fn view(&self) -> TagColumnsView {
        TagColumnsView { key: self.key@, value: self.value@, columns: views(self.columns@) }
    }
}

pub open spec fn groups_view(groups: Seq<TagColumns>) -> Seq<TagColumnsView> {
    groups.map_values(|g: TagColumns| g@)
}

// ---------------------------------------------------------------------------
// Calls
// ---------------------------------------------------------------------------

/// A call to make: the operation, its payload, and what it is meant to do where its
/// response lists failures.
pub struct LfCall {
    pub operation: &'static str,
    pub payload: Json,
    pub what: Option<String>,
}

pub struct LfCallView {
    pub operation: Seq<char>,
    pub payload: JsonView,
    pub what: Option<Seq<char>>,
}

impl View for LfCall {
    type V = LfCallView;

    open spec fn view(&self) -> LfCallView {
        LfCallView {
            operation: self.operation@,
            payload: self.payload@,
            what: opt(self.what),
        }
    }
}

pub open spec fn calls_view(calls: Seq<LfCall>) -> Seq<LfCallView> {
    calls.map_values(|c: LfCall| c@)
}

/// What a failure in a response says.
pub open spec fn failure(f: JsonView) -> Seq<char> {
    trim(
        or_empty(text_at(member(f, "LFTag"@), "TagKey"@)) + " "@ + or_empty(
            text_at(member(f, "Error"@), "ErrorMessage"@),
        ),
    )
}

pub open spec fn failures(response: JsonView) -> Seq<JsonView> {
    items_of(member(response, "Failures"@))
}

/// One call. Where it says what it is meant to do, a failure that the response lists is an
/// error of the call.
pub open spec fn lf_called(c: LfCallView, replies: Seq<ReplyView>, at: int) -> ProgressView<
    JsonView,
> {
    then_do(
        called(replies, at, c.operation, c.payload),
        |response: JsonView, n: int|
            if c.what is None || failures(response).len() == 0 {
                ProgressView::Got(response, n)
            } else {
                failed(
                    OpsErrorKind::UnexpectedResult,
                    "Failed to "@ + c.what->0 + ": "@ + join(
                        failures(response).map_values(|f: JsonView| failure(f)),
                        "; "@,
                    ),
                    n,
                )
            },
    )
}

/// The calls from `i` on, one after another; the first that fails ends it.
pub open spec fn all_called(
    calls: Seq<LfCallView>,
    i: int,
    replies: Seq<ReplyView>,
    at: int,
) -> ProgressView<()>
    decreases calls.len() - i,
{
    if i < 0 || i >= calls.len() {
        ProgressView::Got((), at)
    } else {
        match lf_called(calls[i], replies, at) {
            ProgressView::Ask(r) => ProgressView::Ask(r),
            ProgressView::Fail(e, n) => ProgressView::Fail(e, n),
            ProgressView::Got(_, n) => all_called(calls, i + 1, replies, n),
        }
    }
}

fn failure_text(f: &Json) -> (r: String)
    ensures
        r@ == failure(f@),
{
    let tag = match f.get("LFTag") {
        Some(tag) => text_or_empty(tag.str_at("TagKey")),
        None => String::new(),
    };
    let error = match f.get("Error") {
        Some(error) => text_or_empty(error.str_at("ErrorMessage")),
        None => String::new(),
    };
    trimmed(tag.concat(" ").concat(error.as_str()).as_str())
}

impl AthenaOps {
    /// Makes one call; a failure that its response lists is an error.
    pub fn lf_call(
        operation: &str,
        payload: Json,
        what: &Option<String>,
        replies: &Vec<Reply>,
        at: usize,
    ) -> (r: Progress<Json>)
        requires
            at <= replies.len(),
        ensures
            r@ == lf_called(
                LfCallView { operation: operation@, payload: payload@, what: opt(*what) },
                replies_view(replies@),
                at as int,
            ),
            within(r, at, replies@),
    {
        let (response, n) = match call(replies, at, operation, payload) {
            Progress::Got(response, n) => (response, n),
            Progress::Ask(r) => {
                return Progress::Ask(r);
            },
            Progress::Fail(e, n) => {
                return Progress::Fail(e, n);
            },
        };
        let what = match what {
            Some(what) => what,
            None => {
                return Progress::Got(response, n);
            },
        };
        let failed = match response.get("Failures") {
            Some(found) => found.items(),
            None => Vec::new(),
        };
        assert(items_view(failed@) =~= failures(response@));
        assert(items_view(failed@).len() == failed.len());
        if failed.len() == 0 {
            return Progress::Got(response, n);
        }
        let mut details: Vec<String> = Vec::new();
        let mut i: usize = 0;
        while i < failed.len()
            invariant
                i <= failed.len(),
                details.len() == i,
                forall|j: int| 0 <= j < i ==> (#[trigger] details@[j])@ == failure(failed@[j]@),
            decreases failed.len() - i,
        {
            details.push(failure_text(&failed[i]));
            i += 1;
        }
        assert(views(details@) =~= items_view(failed@).map_values(|f: JsonView| failure(f)));
        let message = "Failed to ".to_owned().concat(what.as_str()).concat(": ").concat(
            joined(&details, "; ").as_str(),
        );
        fail(OpsErrorKind::UnexpectedResult, message, n)
    }

    /// Makes the calls one after another.
    pub(crate) fn lf_calls(calls: &Vec<LfCall>, replies: &Vec<Reply>, at: usize) -> (r: Progress<()>)
        requires
            at <= replies.len(),
        ensures
            r@ == all_called(calls_view(calls@), 0, replies_view(replies@), at as int),
            within(r, at, replies@),
    {
        let ghost all = calls_view(calls@);
        let ghost answers = replies_view(replies@);
        let mut n: usize = at;
        let mut i: usize = 0;
        while i < calls.len()
            invariant
                i <= calls.len(),
                at <= n <= replies.len(),
                all == calls_view(calls@),
                answers == replies_view(replies@),
                all_called(all, 0, answers, at as int) == all_called(
                    all,
                    i as int,
                    answers,
                    n as int,
                ),
            decreases calls.len() - i,
        {
            let c = &calls[i];
            assert(all[i as int] == c@);
            match Self::lf_call(c.operation, c.payload.copy(), &c.what, replies, n) {
                Progress::Got(_, m) => {
                    n = m;
                },
                Progress::Ask(r) => {
                    return Progress::Ask(r);
                },
                Progress::Fail(e, m) => {
                    return Progress::Fail(e, m);
                },
            }
            i += 1;
        }
        Progress::Got((), n)
    }
}

// ---------------------------------------------------------------------------
// Tags
// ---------------------------------------------------------------------------

pub open spec fn tag(key: Seq<char>, value: Seq<char>) -> JsonView {
    JsonView::Object(
        nil().push(("TagKey"@, text(key))).push(("TagValues"@, JsonView::List(seq![text(value)]))),
    )
}

pub open spec fn tags_json(tags: Pairs) -> JsonView {
    JsonView::List(tags.map_values(|t: (Seq<char>, Seq<char>)| tag(t.0, t.1)))
}

fn tag_json(key: &str, value: &str) -> (r: Json)
    ensures
        r@ == tag(key@, value@),
{
    fields().text("TagKey", key).with(
        "TagValues",
        single(Json::Text(value.to_owned())),
    ).object()
}

/// Tags as Lake Formation takes them.
pub fn tag_pairs(tags: &Vec<(String, String)>) -> (r: Json)
    ensures
        r@ == tags_json(pairs(tags@)),
{
    let mut out: Vec<Json> = Vec::new();
    let mut i: usize = 0;
    while i < tags.len()
        invariant
            i <= tags.len(),
            out.len() == i,
            forall|j: int|
                0 <= j < i ==> (#[trigger] out@[j])@ == tag(tags@[j].0@, tags@[j].1@),
        decreases tags.len() - i,
    {
        out.push(tag_json(tags[i].0.as_str(), tags[i].1.as_str()));
        i += 1;
    }
    assert(items_view(out@) =~= pairs(tags@).map_values(
        |t: (Seq<char>, Seq<char>)| tag(t.0, t.1),
    ));
    list(out)
}

/// The first value of a tag.
pub open spec fn tag_value(t: JsonView) -> Seq<char> {
    let values = items_of(member(t, "TagValues"@));
    if values.len() > 0 {
        or_empty(text_of(values[0]))
    } else {
        Seq::empty()
    }
}

/// The order of tags: by key, then by value.
pub open spec fn tag_less(a: (Seq<char>, Seq<char>), b: (Seq<char>, Seq<char>)) -> bool {
    less(a.0, b.0) || (a.0 == b.0 && less(a.1, b.1))
}

/// The groups with a column added to the group of a tag; a tag without a group gets one in
/// its place.
pub open spec fn grouped(
    groups: Seq<TagColumnsView>,
    key: Seq<char>,
    value: Seq<char>,
    column: Seq<char>,
) -> Seq<TagColumnsView>
    decreases groups.len(),
{
    if groups.len() == 0 {
        seq![TagColumnsView { key, value, columns: seq![column] }]
    } else {
        let last = groups.last();
        if last.key == key && last.value == value {
            groups.update(
                groups.len() - 1,
                TagColumnsView { key, value, columns: last.columns.push(column) },
            )
        } else if tag_less((last.key, last.value), (key, value)) {
            groups.push(TagColumnsView { key, value, columns: seq![column] })
        } else {
            grouped(groups.drop_last(), key, value, column).push(last)
        }
    }
}

/// The groups with the tags of one column added, but for the inherited ones.
pub open spec fn column_grouped(
    groups: Seq<TagColumnsView>,
    column: Seq<char>,
    tags: Seq<JsonView>,
    inherited: Seq<Seq<char>>,
) -> Seq<TagColumnsView>
    decreases tags.len(),
{
    if tags.len() == 0 {
        groups
    } else {
        let before = column_grouped(groups, column, tags.drop_last(), inherited);
        let key = or_empty(text_at(tags.last(), "TagKey"@));
        if inherited.contains(key) {
            before
        } else {
            grouped(before, key, tag_value(tags.last()), column)
        }
    }
}

/// The tags on columns that are not inherited, with the columns that carry each.
pub open spec fn column_tags(columns: Seq<JsonView>, inherited: Seq<Seq<char>>) -> Seq<
    TagColumnsView,
>
    decreases columns.len(),
{
    if columns.len() == 0 {
        Seq::empty()
    } else {
        column_grouped(
            column_tags(columns.drop_last(), inherited),
            or_empty(text_at(columns.last(), "Name"@)),
            items_of(member(columns.last(), "LFTags"@)),
            inherited,
        )
    }
}

/// The table tags that are neither configured nor inherited.
pub open spec fn stale_tags(
    table_tags: Seq<JsonView>,
    configured: Pairs,
    inherited: Seq<Seq<char>>,
) -> Seq<JsonView>
    decreases table_tags.len(),
{
    if table_tags.len() == 0 {
        Seq::empty()
    } else {
        let rest = stale_tags(table_tags.drop_last(), configured, inherited);
        let t = table_tags.last();
        let key = or_empty(text_at(t, "TagKey"@));
        if has_key(configured, key) || inherited.contains(key) {
            rest
        } else {
            rest.push(
                JsonView::Object(
                    nil().push(("TagKey"@, member(t, "TagKey"@))).push(
                        ("TagValues"@, member(t, "TagValues"@)),
                    ),
                ),
            )
        }
    }
}

fn listed(items: &Vec<String>, t: &str) -> (r: bool)
    ensures
        r == views(items@).contains(t@),
{
    let ghost all = views(items@);
    let mut i: usize = 0;
    while i < items.len()
        invariant
            i <= items.len(),
            all == views(items@),
            forall|j: int| 0 <= j < i ==> #[trigger] all[j] != t@,
        decreases items.len() - i,
    {
        if same(items[i].as_str(), t) {
            assert(all[i as int] == t@);
            return true;
        }
        i += 1;
    }
    false
}

fn add_to_group(groups: &mut Vec<TagColumns>, key: &str, value: &str, column: &str)
    ensures
        groups_view(final(groups)@) == grouped(
            groups_view(old(groups)@),
            key@,
            value@,
            column@,
        ),
{
    let ghost all = groups_view(groups@);
    let mut i: usize = groups.len();
    assert(all.take(i as int) =~= all);
    assert(grouped(all, key@, value@, column@) =~= grouped(
        all.take(i as int),
        key@,
        value@,
        column@,
    ) + all.skip(i as int));
    while i > 0 && !(same(groups[i - 1].key.as_str(), key) && same(
        groups[i - 1].value.as_str(),
        value,
    )) && !(before(groups[i - 1].key.as_str(), key) || (same(groups[i - 1].key.as_str(), key)
        && before(groups[i - 1].value.as_str(), value)))
        invariant
            i <= groups.len(),
            all == groups_view(groups@),
            grouped(all, key@, value@, column@) == grouped(
                all.take(i as int),
                key@,
                value@,
                column@,
            ) + all.skip(i as int),
        decreases i,
    {
        let ghost front = all.take(i as int);
        assert(front.drop_last() =~= all.take(i - 1));
        assert(front.last() == all[i - 1]);
        assert(all[i - 1] == groups@[i - 1]@);
        assert(grouped(front, key@, value@, column@) == grouped(
            all.take(i - 1),
            key@,
            value@,
            column@,
        ).push(all[i - 1]));
        assert(grouped(all, key@, value@, column@) =~= grouped(
            all.take(i - 1),
            key@,
            value@,
            column@,
        ) + all.skip(i - 1));
        i -= 1;
    }
    let ghost front = all.take(i as int);
    if i > 0 && same(groups[i - 1].key.as_str(), key) && same(
        groups[i - 1].value.as_str(),
        value,
    ) {
        assert(front.last() == groups@[i - 1]@);
        let mut columns: Vec<String> = Vec::new();
        let mut k: usize = 0;
        while k < groups[i - 1].columns.len()
            invariant
                0 < i <= groups.len(),
                k <= groups@[i - 1].columns.len(),
                views(columns@) == views(groups@[i - 1].columns@).take(k as int),
                all == groups_view(groups@),
            decreases groups@[i - 1].columns.len() - k,
        {
            let ghost prior = views(columns@);
            columns.push(groups[i - 1].columns[k].clone());
            assert(views(columns@) =~= prior.push(groups@[i - 1].columns@[k as int]@));
            assert(views(columns@) =~= views(groups@[i - 1].columns@).take(k + 1));
            k += 1;
        }
        let ghost had = views(groups@[i - 1].columns@);
        assert(views(columns@) =~= had);
        columns.push(column.to_owned());
        assert(views(columns@) =~= had.push(column@));
        groups.set(i - 1, TagColumns { key: key.to_owned(), value: value.to_owned(), columns });
        assert(groups_view(groups@) =~= grouped(front, key@, value@, column@) + all.skip(
            i as int,
        ));
    } else {
        let mut columns: Vec<String> = Vec::new();
        columns.push(column.to_owned());
        assert(views(columns@) =~= seq![column@]);
        let group = TagColumns { key: key.to_owned(), value: value.to_owned(), columns };
        assert(grouped(front, key@, value@, column@) =~= front.push(group@)) by {
            if i > 0 {
                assert(front.last() == all[i - 1]);
            }
        }
        groups.insert(i, group);
        assert(groups_view(groups@) =~= front.push(group@) + all.skip(i as int));
    }
}

fn first_value(t: &Json) -> (r: String)
    ensures
        r@ == tag_value(t@),
{
    let values = match t.get("TagValues") {
        Some(found) => found.items(),
        None => Vec::new(),
    };
    assert(items_view(values@) =~= items_of(member(t@, "TagValues"@)));
    assert(items_view(values@).len() == values.len());
    if values.len() > 0 {
        assert(items_view(values@)[0] == values@[0]@);
        text_or_empty(values[0].as_str())
    } else {
        String::new()
    }
}

/// The tags on columns that are not inherited, with the columns that carry each.
pub fn column_tags_to_remove(columns: &Vec<Json>, inherited: &Vec<String>) -> (r: Vec<TagColumns>)
    ensures
        groups_view(r@) == column_tags(items_view(columns@), views(inherited@)),
{
    let ghost all = items_view(columns@);
    let ghost kept = views(inherited@);
    let mut r: Vec<TagColumns> = Vec::new();
    let mut i: usize = 0;
    assert(groups_view(r@) =~= column_tags(all.take(0), kept));
    while i < columns.len()
        invariant
            i <= columns.len(),
            all == items_view(columns@),
            kept == views(inherited@),
            groups_view(r@) == column_tags(all.take(i as int), kept),
        decreases columns.len() - i,
    {
        assert(all.take(i + 1).drop_last() =~= all.take(i as int));
        assert(all.take(i + 1).last() == columns@[i as int]@);
        let name = text_or_empty(columns[i].str_at("Name"));
        let tags = match columns[i].get("LFTags") {
            Some(found) => found.items(),
            None => Vec::new(),
        };
        let ghost carried = items_of(member(columns@[i as int]@, "LFTags"@));
        assert(items_view(tags@) =~= carried);
        let ghost start = groups_view(r@);
        let mut k: usize = 0;
        assert(carried.take(0) =~= Seq::empty());
        while k < tags.len()
            invariant
                k <= tags.len(),
                kept == views(inherited@),
                carried == items_view(tags@),
                groups_view(r@) == column_grouped(start, name@, carried.take(k as int), kept),
            decreases tags.len() - k,
        {
            assert(carried.take(k + 1).drop_last() =~= carried.take(k as int));
            assert(carried.take(k + 1).last() == tags@[k as int]@);
            let key = text_or_empty(tags[k].str_at("TagKey"));
            if !listed(inherited, key.as_str()) {
                let value = first_value(&tags[k]);
                add_to_group(&mut r, key.as_str(), value.as_str(), name.as_str());
            }
            k += 1;
        }
        assert(carried.take(k as int) =~= carried);
        i += 1;
    }
    assert(all.take(i as int) =~= all);
    r
}

fn has_tag(tags: &Vec<(String, String)>, key: &str) -> (r: bool)
    ensures
        r == has_key(pairs(tags@), key@),
{
    let ghost all = pairs(tags@);
    let mut i: usize = 0;
    while i < tags.len()
        invariant
            i <= tags.len(),
            all == pairs(tags@),
            forall|j: int| 0 <= j < i ==> (#[trigger] all[j]).0 != key@,
        decreases tags.len() - i,
    {
        if same(tags[i].0.as_str(), key) {
            assert(all[i as int].0 == key@);
            return true;
        }
        i += 1;
    }
    false
}

fn member_of(v: &Json, key: &str) -> (r: Json)
    ensures
        r@ == member(v@, key@),
{
    match v.get(key) {
        Some(found) => found.copy(),
        None => Json::Null,
    }
}

/// The table tags that are neither configured nor inherited, with all their values.
pub fn table_tags_to_remove(
    table_tags: &Vec<Json>,
    configured: &Vec<(String, String)>,
    inherited: &Vec<String>,
) -> (r: Vec<Json>)
    ensures
        items_view(r@) == stale_tags(
            items_view(table_tags@),
            pairs(configured@),
            views(inherited@),
        ),
{
    let ghost all = items_view(table_tags@);
    let mut r: Vec<Json> = Vec::new();
    let mut i: usize = 0;
    assert(items_view(r@) =~= stale_tags(all.take(0), pairs(configured@), views(inherited@)));
    while i < table_tags.len()
        invariant
            i <= table_tags.len(),
            all == items_view(table_tags@),
            items_view(r@) == stale_tags(
                all.take(i as int),
                pairs(configured@),
                views(inherited@),
            ),
        decreases table_tags.len() - i,
    {
        assert(all.take(i + 1).drop_last() =~= all.take(i as int));
        assert(all.take(i + 1).last() == table_tags@[i as int]@);
        let t = &table_tags[i];
        let key = text_or_empty(t.str_at("TagKey"));
        if !has_tag(configured, key.as_str()) && !listed(inherited, key.as_str()) {
            let ghost prior = items_view(r@);
            let stale = fields().with("TagKey", member_of(t, "TagKey")).with(
                "TagValues",
                member_of(t, "TagValues"),
            ).object();
            r.push(stale);
            assert(items_view(r@) =~= prior.push(stale@));
        }
        i += 1;
    }
    assert(all.take(i as int) =~= all);
    r
}

pub open spec fn table_resource(relation: RelationParts) -> JsonView {
    JsonView::Object(
        nil().push(
            (
                "Table"@,
                JsonView::Object(
                    nil().push(("DatabaseName"@, text(relation.schema@))).push(
                        ("Name"@, text(relation.identifier@)),
                    ),
                ),
            ),
        ),
    )
}

pub open spec fn columns_resource(relation: RelationParts, columns: Seq<Seq<char>>) -> JsonView {
    JsonView::Object(
        nil().push(
            (
                "TableWithColumns"@,
                JsonView::Object(
                    nil().push(("DatabaseName"@, text(relation.schema@))).push(
                        ("Name"@, text(relation.identifier@)),
                    ).push(("ColumnNames"@, texts_view(columns))),
                ),
            ),
        ),
    )
}

pub open spec fn tagging(resource: JsonView, tags: JsonView) -> JsonView {
    JsonView::Object(nil().push(("Resource"@, resource)).push(("LFTags"@, tags)))
}

pub open spec fn full_name(relation: RelationParts) -> Seq<char> {
    relation.schema@ + "."@ + relation.identifier@
}

pub open spec fn remove_call(relation: RelationParts, group: TagColumnsView) -> LfCallView {
    LfCallView {
        operation: "lakeformation.remove_lf_tags_from_resource"@,
        payload: tagging(
            columns_resource(relation, group.columns),
            JsonView::List(seq![tag(group.key, group.value)]),
        ),
        what: Some(
            "remove LF tag "@ + group.key + "="@ + group.value + " from "@ + full_name(relation)
                + " columns "@ + debug_list(group.columns),
        ),
    }
}

pub open spec fn add_call(relation: RelationParts, group: TagColumnsView) -> LfCallView {
    LfCallView {
        operation: "lakeformation.add_lf_tags_to_resource"@,
        payload: tagging(
            columns_resource(relation, group.columns),
            JsonView::List(seq![tag(group.key, group.value)]),
        ),
        what: Some(
            "add LF tag "@ + group.key + "="@ + group.value + " to "@ + full_name(relation)
                + " columns "@ + debug_list(group.columns),
        ),
    }
}

pub open spec fn remove_table_calls(relation: RelationParts, stale: Seq<JsonView>) -> Seq<
    LfCallView,
> {
    if stale.len() == 0 {
        Seq::empty()
    } else {
        seq![
            LfCallView {
                operation: "lakeformation.remove_lf_tags_from_resource"@,
                payload: tagging(table_resource(relation), JsonView::List(stale)),
                what: Some("remove LF tags from "@ + full_name(relation)),
            },
        ]
    }
}

pub open spec fn add_table_calls(relation: RelationParts, configured: Pairs) -> Seq<LfCallView> {
    if configured.len() == 0 {
        Seq::empty()
    } else {
        seq![
            LfCallView {
                operation: "lakeformation.add_lf_tags_to_resource"@,
                payload: tagging(table_resource(relation), tags_json(configured)),
                what: Some("add LF tags to "@ + full_name(relation)),
            },
        ]
    }
}

pub open spec fn opt_pairs(tags: Option<Vec<(String, String)>>) -> Pairs {
    match tags {
        Some(t) => pairs(t@),
        None => Seq::empty(),
    }
}

pub open spec fn opt_groups(tags: Option<Vec<TagColumns>>) -> Seq<TagColumnsView> {
    match tags {
        Some(t) => groups_view(t@),
        None => Seq::empty(),
    }
}

pub open spec fn opt_texts(texts: Option<Vec<String>>) -> Seq<Seq<char>> {
    match texts {
        Some(t) => views(t@),
        None => Seq::empty(),
    }
}

/// The calls that bring the tags of a table to what is configured, from what is there: the
/// tags on columns and the stale tags of the table go, inherited ones stay, then the
/// configured ones come.
pub open spec fn tag_calls(relation: RelationParts, config: LfTagsConfig, existing: JsonView) -> Seq<
    LfCallView,
> {
    let inherited = opt_texts(config.inherited_tags);
    let configured = opt_pairs(config.tags);
    column_tags(items_of(member(existing, "LFTagsOnColumns"@)), inherited).map_values(
        |g: TagColumnsView| remove_call(relation, g),
    ) + remove_table_calls(
        relation,
        stale_tags(items_of(member(existing, "LFTagsOnTable"@)), configured, inherited),
    ) + add_table_calls(relation, configured) + opt_groups(config.tags_columns).map_values(
        |g: TagColumnsView| add_call(relation, g),
    )
}

/// Bringing the tags of a table and its columns to what is configured.
pub open spec fn tagged(
    relation: RelationParts,
    config: LfTagsConfig,
    replies: Seq<ReplyView>,
    at: int,
) -> ProgressView<()> {
    then_do(
        called(
            replies,
            at,
            "lakeformation.get_resource_lf_tags"@,
            JsonView::Object(nil().push(("Resource"@, table_resource(relation)))),
        ),
        |existing: JsonView, n: int|
            all_called(tag_calls(relation, config, existing), 0, replies, n),
    )
}

/// Tagging a database; without tags there is nothing to do.
pub open spec fn tagged_database(
    schema: Seq<char>,
    tags: Pairs,
    replies: Seq<ReplyView>,
    at: int,
) -> ProgressView<()> {
    if tags.len() == 0 {
        ProgressView::Got((), at)
    } else {
        then_do(
            lf_called(
                LfCallView {
                    operation: "lakeformation.add_lf_tags_to_resource"@,
                    payload: tagging(
                        JsonView::Object(
                            nil().push(
                                (
                                    "Database"@,
                                    JsonView::Object(nil().push(("Name"@, text(schema)))),
                                ),
                            ),
                        ),
                        tags_json(tags),
                    ),
                    what: Some("add LF tags to "@ + schema),
                },
                replies,
                at,
            ),
            |response: JsonView, n: int| ProgressView::Got((), n),
        )
    }
}

fn resource_of_table(relation: &RelationParts) -> (r: Json)
    ensures
        r@ == table_resource(*relation),
{
    let table = fields().text("DatabaseName", relation.schema.as_str()).text(
        "Name",
        relation.identifier.as_str(),
    );
    fields().with("Table", table.object()).object()
}

fn resource_of_columns(relation: &RelationParts, columns: &Vec<String>) -> (r: Json)
    ensures
        r@ == columns_resource(*relation, views(columns@)),
{
    let table = fields().text("DatabaseName", relation.schema.as_str()).text(
        "Name",
        relation.identifier.as_str(),
    ).with("ColumnNames", texts(columns));
    fields().with("TableWithColumns", table.object()).object()
}

fn tagging_json(resource: Json, tags: Json) -> (r: Json)
    ensures
        r@ == tagging(resource@, tags@),
{
    fields().with("Resource", resource).with("LFTags", tags).object()
}

fn name_of(relation: &RelationParts) -> (r: String)
    ensures
        r@ == full_name(*relation),
{
    relation.schema.clone().concat(".").concat(relation.identifier.as_str())
}

/// The call that takes a tag off columns, or that puts it on them.
fn columns_call(relation: &RelationParts, group: &TagColumns, adds: bool) -> (r: LfCall)
    ensures
        r@ == (if adds {
            add_call(*relation, group@)
        } else {
            remove_call(*relation, group@)
        }),
{
    let payload = tagging_json(
        resource_of_columns(relation, &group.columns),
        single(tag_json(group.key.as_str(), group.value.as_str())),
    );
    let (operation, verb, preposition) = if adds {
        ("lakeformation.add_lf_tags_to_resource", "add LF tag ", " to ")
    } else {
        ("lakeformation.remove_lf_tags_from_resource", "remove LF tag ", " from ")
    };
    let what = verb.to_owned().concat(group.key.as_str()).concat("=").concat(
        group.value.as_str(),
    ).concat(preposition).concat(name_of(relation).as_str()).concat(" columns ").concat(
        debug_strings(&group.columns).as_str(),
    );
    LfCall { operation, payload, what: Some(what) }
}

fn add_column_calls(
    calls: &mut Vec<LfCall>,
    relation: &RelationParts,
    groups: &Vec<TagColumns>,
    adds: bool,
)
    ensures
        calls_view(final(calls)@) == calls_view(old(calls)@) + groups_view(groups@).map_values(
            |g: TagColumnsView|
                if adds {
                    add_call(*relation, g)
                } else {
                    remove_call(*relation, g)
                },
        ),
{
    let ghost start = calls_view(calls@);
    let ghost all = groups_view(groups@).map_values(
        |g: TagColumnsView|
            if adds {
                add_call(*relation, g)
            } else {
                remove_call(*relation, g)
            },
    );
    let mut i: usize = 0;
    assert(calls_view(calls@) =~= start + all.take(0));
    while i < groups.len()
        invariant
            i <= groups.len(),
            all == groups_view(groups@).map_values(
                |g: TagColumnsView|
                    if adds {
                        add_call(*relation, g)
                    } else {
                        remove_call(*relation, g)
                    },
            ),
            calls_view(calls@) == start + all.take(i as int),
        decreases groups.len() - i,
    {
        let c = columns_call(relation, &groups[i], adds);
        assert(all[i as int] == c@);
        let ghost prior = calls_view(calls@);
        calls.push(c);
        assert(calls_view(calls@) =~= prior.push(c@));
        assert(calls_view(calls@) =~= start + all.take(i + 1));
        i += 1;
    }
    assert(all.take(i as int) =~= all);
}

fn items_at(v: &Json, key: &str) -> (r: Vec<Json>)
    ensures
        items_view(r@) == items_of(member(v@, key@)),
{
    match v.get(key) {
        Some(found) => found.items(),
        None => {
            let none: Vec<Json> = Vec::new();
            assert(items_view(none@) =~= Seq::empty());
            none
        },
    }
}

/// The calls that bring the tags of a table and its columns to what is configured.
pub fn plan_tags(relation: &RelationParts, config: &LfTagsConfig, existing: &Json) -> (r: Vec<
    LfCall,
>)
    ensures
        calls_view(r@) == tag_calls(*relation, *config, existing@),
{
    let none: Vec<String> = Vec::new();
    assert(views(none@) =~= Seq::empty());
    let inherited = match &config.inherited_tags {
        Some(inherited) => inherited,
        None => &none,
    };
    let no_tags: Vec<(String, String)> = Vec::new();
    assert(pairs(no_tags@) =~= Seq::empty());
    let configured = match &config.tags {
        Some(tags) => tags,
        None => &no_tags,
    };
    let mut calls: Vec<LfCall> = Vec::new();
    assert(calls_view(calls@) =~= Seq::empty());
    let on_columns = items_at(existing, "LFTagsOnColumns");
    let groups = column_tags_to_remove(&on_columns, inherited);
    add_column_calls(&mut calls, relation, &groups, false);
    let ghost removed = groups_view(groups@).map_values(
        |g: TagColumnsView| remove_call(*relation, g),
    );
    assert(calls_view(calls@) =~= removed);
    let on_table = items_at(existing, "LFTagsOnTable");
    let stale = table_tags_to_remove(&on_table, configured, inherited);
    let ghost stale_calls = remove_table_calls(*relation, items_view(stale@));
    assert(items_view(stale@).len() == stale.len());
    if stale.len() > 0 {
        let c = LfCall {
            operation: "lakeformation.remove_lf_tags_from_resource",
            payload: tagging_json(resource_of_table(relation), list(stale)),
            what: Some("remove LF tags from ".to_owned().concat(name_of(relation).as_str())),
        };
        let ghost prior = calls_view(calls@);
        calls.push(c);
        assert(calls_view(calls@) =~= prior.push(c@));
        assert(stale_calls =~= seq![c@]);
    }
    assert(calls_view(calls@) =~= removed + stale_calls);
    let ghost add_calls = add_table_calls(*relation, pairs(configured@));
    assert(pairs(configured@).len() == configured.len());
    if configured.len() > 0 {
        let c = LfCall {
            operation: "lakeformation.add_lf_tags_to_resource",
            payload: tagging_json(resource_of_table(relation), tag_pairs(configured)),
            what: Some("add LF tags to ".to_owned().concat(name_of(relation).as_str())),
        };
        let ghost prior = calls_view(calls@);
        calls.push(c);
        assert(calls_view(calls@) =~= prior.push(c@));
        assert(add_calls =~= seq![c@]);
    }
    assert(calls_view(calls@) =~= removed + stale_calls + add_calls);
    let ghost last = opt_groups(config.tags_columns).map_values(
        |g: TagColumnsView| add_call(*relation, g),
    );
    match &config.tags_columns {
        Some(groups) => {
            add_column_calls(&mut calls, relation, groups, true);
            assert(calls_view(calls@) =~= removed + stale_calls + add_calls + last);
        },
        None => {
            assert(calls_view(calls@) =~= removed + stale_calls + add_calls + last);
        },
    }
    calls
}

impl AthenaOps {
    /// Tags a database.
    pub fn add_lf_tags_to_database(
        schema: &str,
        tags: &Vec<(String, String)>,
        replies: &Vec<Reply>,
        at: usize,
    ) -> (r: Progress<()>)
        requires
            at <= replies.len(),
        ensures
            r@ == tagged_database(schema@, pairs(tags@), replies_view(replies@), at as int),
            within(r, at, replies@),
    {
        assert(pairs(tags@).len() == tags.len());
        if tags.len() == 0 {
            return Progress::Got((), at);
        }
        let database = fields().with("Database", fields().text("Name", schema).object()).object();
        let what = Some("add LF tags to ".to_owned().concat(schema));
        match Self::lf_call(
            "lakeformation.add_lf_tags_to_resource",
            tagging_json(database, tag_pairs(tags)),
            &what,
            replies,
            at,
        ) {
            Progress::Got(_, n) => Progress::Got((), n),
            Progress::Ask(r) => Progress::Ask(r),
            Progress::Fail(e, n) => Progress::Fail(e, n),
        }
    }

    /// Brings the tags of a table and its columns to what is configured.
    pub fn add_lf_tags(
        relation: &RelationParts,
        config: &LfTagsConfig,
        replies: &Vec<Reply>,
        at: usize,
    ) -> (r: Progress<()>)
        requires
            at <= replies.len(),
        ensures
            r@ == tagged(*relation, *config, replies_view(replies@), at as int),
            within(r, at, replies@),
    {
        let payload = fields().with("Resource", resource_of_table(relation));
        match call(replies, at, "lakeformation.get_resource_lf_tags", payload.object()) {
            Progress::Got(existing, n) => Self::lf_calls(
                &plan_tags(relation, config, &existing),
                replies,
                n,
            ),
            Progress::Ask(r) => Progress::Ask(r),
            Progress::Fail(e, n) => Progress::Fail(e, n),
        }
    }
}

// ---------------------------------------------------------------------------
// Configurations as models write them
// ---------------------------------------------------------------------------

/// A list of texts.
pub open spec fn is_text_list(v: JsonView) -> bool {
    v matches JsonView::List(items) && forall|i: int|
        0 <= i < items.len() ==> (#[trigger] items[i]) is Text
}

/// An object whose values are texts.
pub open spec fn is_text_map(v: JsonView) -> bool {
    v matches JsonView::Object(fields) && forall|i: int|
        0 <= i < fields.len() ==> (#[trigger] fields[i]).1 is Text
}

/// An object whose values are lists of texts.
pub open spec fn is_list_map(v: JsonView) -> bool {
    v matches JsonView::Object(fields) && forall|i: int|
        0 <= i < fields.len() ==> is_text_list((#[trigger] fields[i]).1)
}

/// An object whose values are objects of lists of texts.
pub open spec fn is_column_map(v: JsonView) -> bool {
    v matches JsonView::Object(fields) && forall|i: int|
        0 <= i < fields.len() ==> is_list_map((#[trigger] fields[i]).1)
}

/// A configuration of tags: `enabled` is a boolean, `tags` maps keys to values,
/// `tags_columns` maps keys to values to columns, `inherited_tags` lists keys. Each may
/// be left out, and all but the first may be null.
pub open spec fn is_tags_config(v: JsonView) -> bool {
    &&& v is Object
    &&& lookup(v, "enabled"@) matches Some(f) ==> f is Bool
    &&& lookup(v, "tags"@) matches Some(f) ==> f is Null || is_text_map(f)
    &&& lookup(v, "tags_columns"@) matches Some(f) ==> f is Null || is_column_map(f)
    &&& lookup(v, "inherited_tags"@) matches Some(f) ==> f is Null || is_text_list(f)
}

fn holds_texts(v: &Json) -> (r: bool)
    ensures
        r == is_text_list(v@),
{
    match v {
        Json::List(items) => {
            proof {
                list_view_is(*items);
            }
            let ghost all = items_view(items@);
            let mut i: usize = 0;
            while i < items.len()
                invariant
                    i <= items.len(),
                    all == items_view(items@),
                    v@ == JsonView::List(all),
                    forall|j: int| 0 <= j < i ==> (#[trigger] all[j]) is Text,
                decreases items.len() - i,
            {
                assert(all[i as int] == items@[i as int]@);
                match &items[i] {
                    Json::Text(_) => {},
                    _ => {
                        return false;
                    },
                }
                i += 1;
            }
            true
        },
        _ => false,
    }
}

fn maps_to_texts(v: &Json) -> (r: bool)
    ensures
        r == is_text_map(v@),
{
    match v {
        Json::Object(fields) => {
            proof {
                object_view_is(*fields);
            }
            let ghost all = fields_view(fields@);
            let mut i: usize = 0;
            while i < fields.len()
                invariant
                    i <= fields.len(),
                    all == fields_view(fields@),
                    v@ == JsonView::Object(all),
                    forall|j: int| 0 <= j < i ==> (#[trigger] all[j]).1 is Text,
                decreases fields.len() - i,
            {
                assert(all[i as int] == (fields@[i as int].0@, fields@[i as int].1@));
                match &fields[i].1 {
                    Json::Text(_) => {},
                    _ => {
                        return false;
                    },
                }
                i += 1;
            }
            true
        },
        _ => false,
    }
}

fn maps_to_lists(v: &Json) -> (r: bool)
    ensures
        r == is_list_map(v@),
{
    match v {
        Json::Object(fields) => {
            proof {
                object_view_is(*fields);
            }
            let ghost all = fields_view(fields@);
            let mut i: usize = 0;
            while i < fields.len()
                invariant
                    i <= fields.len(),
                    all == fields_view(fields@),
                    v@ == JsonView::Object(all),
                    forall|j: int| 0 <= j < i ==> is_text_list((#[trigger] all[j]).1),
                decreases fields.len() - i,
            {
                assert(all[i as int] == (fields@[i as int].0@, fields@[i as int].1@));
                if !holds_texts(&fields[i].1) {
                    assert(!is_text_list(v@->Object_0[i as int].1));
                    return false;
                }
                i += 1;
            }
            true
        },
        _ => false,
    }
}

fn maps_to_columns(v: &Json) -> (r: bool)
    ensures
        r == is_column_map(v@),
{
    match v {
        Json::Object(fields) => {
            proof {
                object_view_is(*fields);
            }
            let ghost all = fields_view(fields@);
            let mut i: usize = 0;
            while i < fields.len()
                invariant
                    i <= fields.len(),
                    all == fields_view(fields@),
                    v@ == JsonView::Object(all),
                    forall|j: int| 0 <= j < i ==> is_list_map((#[trigger] all[j]).1),
                decreases fields.len() - i,
            {
                assert(all[i as int] == (fields@[i as int].0@, fields@[i as int].1@));
                if !maps_to_lists(&fields[i].1) {
                    assert(!is_list_map(v@->Object_0[i as int].1));
                    return false;
                }
                i += 1;
            }
            true
        },
        _ => false,
    }
}

/// The value is a configuration of tags.
pub fn holds_tags_config(v: &Json) -> (r: bool)
    ensures
        r == is_tags_config(v@),
{
    match v {
        Json::Object(_) => {},
        _ => {
            return false;
        },
    }
    let enabled = match v.get("enabled") {
        Some(f) => f.as_bool().is_some(),
        None => true,
    };
    let tags = match v.get("tags") {
        Some(f) => f.is_null() || maps_to_texts(f),
        None => true,
    };
    let columns = match v.get("tags_columns") {
        Some(f) => f.is_null() || maps_to_columns(f),
        None => true,
    };
    let inherited = match v.get("inherited_tags") {
        Some(f) => f.is_null() || holds_texts(f),
        None => true,
    };
    enabled && tags && columns && inherited
}

} // verus!
