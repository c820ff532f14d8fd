//! Writing the documentation of a model to its Glue table.

use crate::athena::docs::{pairs, triples, ColumnParameter, Docs, DocsView, Pairs, Triples};
use crate::athena::driver::{
    call, called, fail, failed, replies_view, then_do, within, OpsErrorKind, Progress, ProgressView,
    Reply, ReplyView,
};
use crate::athena::glue::{
    catalog_id, glue_table_json, opt_as_str, scope, scope_fields, text, AthenaOps, RelationParts,
};
use crate::athena::swap::no_table;
use crate::json::{
    field, fields, fields_view, items_view, list, nil, object_view_is, opt, or_empty, put, text_at,
    text_of, text_or_empty, Fields, FieldsView, Json, JsonView,
};
use crate::text::same;
use vstd::prelude::*;

verus! {

// ---------------------------------------------------------------------------
// The table
// ---------------------------------------------------------------------------

/// A field of a table that can be written back.
pub open spec fn input_key(key: Seq<char>) -> bool {
    ||| key == "Name"@
    ||| key == "Description"@
    ||| key == "Owner"@
    ||| key == "LastAccessTime"@
    ||| key == "LastAnalyzedTime"@
    ||| key == "Retention"@
    ||| key == "StorageDescriptor"@
    ||| key == "PartitionKeys"@
    ||| key == "ViewOriginalText"@
    ||| key == "ViewExpandedText"@
    ||| key == "TableType"@
    ||| key == "Parameters"@
    ||| key == "TargetTable"@
}

/// The fields that can be written back, without those that are null.
pub open spec fn writable(fields: FieldsView) -> FieldsView
    decreases fields.len(),
{
    if fields.len() == 0 {
        nil()
    } else {
        let rest = writable(fields.drop_last());
        let (key, value) = fields.last();
        if input_key(key) && value != JsonView::Null {
            rest.push((key, value))
        } else {
            rest
        }
    }
}

/// The part of a Glue table that can be written back.
pub open spec fn table_input(table: JsonView) -> FieldsView {
    match table {
        JsonView::Object(fields) => writable(fields),
        _ => nil(),
    }
}

/// Fields with texts set in them, and whether that changed any.
pub open spec fn with_texts(fields: FieldsView, entries: Pairs) -> (FieldsView, bool)
    decreases entries.len(),
{
    if entries.len() == 0 {
        (fields, false)
    } else {
        let (before, changed) = with_texts(fields, entries.drop_last());
        let (key, value) = entries.last();
        (put(before, key, text(value)), changed || field(before, key) != Some(text(value)))
    }
}

/// A table with a description and parameters, and whether that changed it. The description
/// stands both in the table and in its parameter `comment`.
pub open spec fn described_table(
    table: JsonView,
    input: FieldsView,
    description: Seq<char>,
    parameters: Pairs,
) -> Result<(FieldsView, bool), Seq<char>> {
    let current = match field(input, "Parameters"@) {
        Some(JsonView::Object(p)) => Ok(p),
        None => Ok(nil()),
        Some(_) => Err("[athena] Glue table Parameters is not an object"@),
    };
    match current {
        Err(e) => Err(e),
        Ok(p) => {
            let comment = match field(p, "comment"@) {
                Some(c) => or_empty(text_of(c)),
                None => Seq::empty(),
            };
            let (q, changed) = with_texts(
                put(p, "comment"@, text(description)),
                parameters,
            );
            Ok(
                (
                    put(
                        put(input, "Parameters"@, JsonView::Object(q)),
                        "Description"@,
                        text(description),
                    ),
                    or_empty(text_at(table, "Description"@)) != description || comment
                        != description || changed,
                ),
            )
        },
    }
}

// ---------------------------------------------------------------------------
// The columns
// ---------------------------------------------------------------------------

/// The comment for a column: the last that was given for it.
pub open spec fn comment_for(comments: Pairs, name: Seq<char>) -> Option<Seq<char>>
    decreases comments.len(),
{
    if comments.len() == 0 {
        None
    } else if comments.last().0 == name {
        Some(comments.last().1)
    } else {
        comment_for(comments.drop_last(), name)
    }
}

/// The parameters for a column, in their order.
pub open spec fn parameters_for(parameters: Triples, name: Seq<char>) -> Pairs
    decreases parameters.len(),
{
    if parameters.len() == 0 {
        Seq::empty()
    } else {
        let rest = parameters_for(parameters.drop_last(), name);
        let (column, key, value) = parameters.last();
        if column == name {
            rest.push((key, value))
        } else {
            rest
        }
    }
}

pub open spec fn commented(column: FieldsView, comment: Option<Seq<char>>) -> (FieldsView, bool) {
    match comment {
        Some(c) => {
            let current = match field(column, "Comment"@) {
                Some(v) => or_empty(text_of(v)),
                None => Seq::empty(),
            };
            (put(column, "Comment"@, text(c)), current != c)
        },
        None => (column, false),
    }
}

pub open spec fn parameterised(column: FieldsView, parameters: Pairs) -> (FieldsView, bool) {
    if parameters.len() == 0 {
        (column, false)
    } else {
        match field(column, "Parameters"@) {
            None => {
                let (p, changed) = with_texts(nil(), parameters);
                (put(column, "Parameters"@, JsonView::Object(p)), changed)
            },
            Some(JsonView::Object(current)) => {
                let (p, changed) = with_texts(current, parameters);
                (put(column, "Parameters"@, JsonView::Object(p)), changed)
            },
            Some(_) => (column, false),
        }
    }
}

/// A column with its comment and parameters, and whether that changed it. What is no
/// column with a name stays as it is.
pub open spec fn documented_column(column: JsonView, comments: Pairs, parameters: Triples) -> (
    JsonView,
    bool,
) {
    match column {
        JsonView::Object(f) => match field(f, "Name"@) {
            Some(JsonView::Text(name)) => {
                let (g, a) = commented(f, comment_for(comments, name));
                let (h, b) = parameterised(g, parameters_for(parameters, name));
                (JsonView::Object(h), a || b)
            },
            _ => (column, false),
        },
        _ => (column, false),
    }
}

pub open spec fn documented_columns(
    columns: Seq<JsonView>,
    comments: Pairs,
    parameters: Triples,
) -> Seq<JsonView> {
    columns.map_values(|c: JsonView| documented_column(c, comments, parameters).0)
}

pub open spec fn any_column_changes(
    columns: Seq<JsonView>,
    comments: Pairs,
    parameters: Triples,
) -> bool {
    exists|i: int|
        0 <= i < columns.len() && (#[trigger] documented_column(
            columns[i],
            comments,
            parameters,
        )).1
}

/// The columns that a table holds.
pub open spec fn columns_of(input: FieldsView) -> Option<(FieldsView, Seq<JsonView>)> {
    match field(input, "StorageDescriptor"@) {
        Some(JsonView::Object(sd)) => match field(sd, "Columns"@) {
            Some(JsonView::List(columns)) => Some((sd, columns)),
            _ => None,
        },
        _ => None,
    }
}

/// A table with its columns documented, and whether that changed it.
pub open spec fn columns_documented(
    input: FieldsView,
    comments: Pairs,
    parameters: Triples,
) -> (FieldsView, bool) {
    if comments.len() == 0 && parameters.len() == 0 {
        (input, false)
    } else {
        match columns_of(input) {
            None => (input, false),
            Some((sd, columns)) => (
                put(
                    input,
                    "StorageDescriptor"@,
                    JsonView::Object(
                        put(
                            sd,
                            "Columns"@,
                            JsonView::List(documented_columns(columns, comments, parameters)),
                        ),
                    ),
                ),
                any_column_changes(columns, comments, parameters),
            ),
        }
    }
}

/// The table with the documentation of its model, and whether that differs from what Glue
/// holds.
pub open spec fn documented(table: JsonView, docs: DocsView) -> Result<
    (FieldsView, bool),
    Seq<char>,
> {
    let input = table_input(table);
    let described = match docs.table_description {
        Some(description) => described_table(table, input, description, docs.table_parameters),
        None => Ok((input, false)),
    };
    match described {
        Err(e) => Err(e),
        Ok((a, changed)) => {
            let (b, more) = columns_documented(
                a,
                docs.column_descriptions,
                docs.column_parameters,
            );
            Ok((b, changed || more))
        },
    }
}

/// Writing the documentation of a model: the table is updated only where something
/// changed.
pub open spec fn persisted(
    relation: RelationParts,
    docs: DocsView,
    replies: Seq<ReplyView>,
    at: int,
) -> ProgressView<()> {
    then_do(
        catalog_id(opt(relation.database), replies, at),
        |catalog: Option<Seq<char>>, n: int|
            then_do(
                glue_table_json(relation, replies, n),
                |table: Option<JsonView>, m: int|
                    match table {
                        None => failed(OpsErrorKind::NotFound, no_table(relation.rendered@), m),
                        Some(t) => match documented(t, docs) {
                            Err(e) => failed(OpsErrorKind::UnexpectedResult, e, m),
                            Ok((input, changed)) => if changed {
                                then_do(
                                    called(
                                        replies,
                                        m,
                                        "glue.update_table"@,
                                        JsonView::Object(
                                            scope(catalog, relation.schema@).push(
                                                ("TableInput"@, JsonView::Object(input)),
                                            ).push(
                                                (
                                                    "SkipArchive"@,
                                                    JsonView::Bool(
                                                        docs.skip_archive_table_version,
                                                    ),
                                                ),
                                            ),
                                        ),
                                    ),
                                    |response: JsonView, k: int| ProgressView::Got((), k),
                                )
                            } else {
                                ProgressView::Got((), m)
                            },
                        },
                    },
            ),
    )
}

// ---------------------------------------------------------------------------
// Writing twice
// ---------------------------------------------------------------------------

/// No key occurs twice.
pub open spec fn distinct_keys(entries: Pairs) -> bool {
    forall|i: int, j: int|
        0 <= i < j < entries.len() ==> (#[trigger] entries[i]).0 != (#[trigger] entries[j]).0
}

pub open spec fn has_key(entries: Pairs, key: Seq<char>) -> bool {
    exists|i: int| 0 <= i < entries.len() && (#[trigger] entries[i]).0 == key
}

/// Documentation that says one thing of each parameter, and does not name the parameter
/// that the description itself is written to.
pub open spec fn unambiguous(docs: DocsView) -> bool {
    &&& distinct_keys(docs.table_parameters)
    &&& !has_key(docs.table_parameters, "comment"@)
    &&& forall|name: Seq<char>|
        distinct_keys(#[trigger] parameters_for(docs.column_parameters, name))
}

/// Writing documentation a second time changes nothing: the table that was written is what
/// would be written again.
pub proof fn writing_again_changes_nothing(table: JsonView, docs: DocsView)
    requires
        documented(table, docs) is Ok,
        unambiguous(docs),
    ensures
        documented(JsonView::Object(documented(table, docs)->Ok_0.0), docs) == Ok::<
            (FieldsView, bool),
            Seq<char>,
        >((documented(table, docs)->Ok_0.0, false)),
{
    let input = table_input(table);
    assert(all_writable(input)) by {
        match table {
            JsonView::Object(f) => writable_is_writable(f),
            _ => {},
        }
    }
    literals_differ();
    let comments = docs.column_descriptions;
    let parameters = docs.column_parameters;
    let a = match docs.table_description {
        Some(d) => described_table(table, input, d, docs.table_parameters)->Ok_0.0,
        None => input,
    };
    assert(all_writable(a)) by {
        match docs.table_description {
            Some(d) => {
                described_is_stable(table, input, d, docs.table_parameters);
            },
            None => {},
        }
    }
    let b = columns_documented(a, comments, parameters).0;
    columns_are_stable(a, comments, parameters);
    writable_keeps_all(b);
    match docs.table_description {
        Some(d) => {
            described_is_stable(table, input, d, docs.table_parameters);
            let q = field(a, "Parameters"@)->0->Object_0;
            assert(field(b, "Parameters"@) == field(a, "Parameters"@));
            assert(field(b, "Description"@) == field(a, "Description"@));
            texts_are_there(put(q, "comment"@, text(d)), docs.table_parameters);
            put_same(q, "comment"@);
            texts_stay(q, docs.table_parameters);
            put_same(b, "Parameters"@);
            put_same(b, "Description"@);
            assert(described_table(JsonView::Object(b), b, d, docs.table_parameters) == Ok::<
                (FieldsView, bool),
                Seq<char>,
            >((b, false)));
        },
        None => {},
    }
}

pub open spec fn all_writable(fields: FieldsView) -> bool {
    forall|i: int|
        0 <= i < fields.len() ==> input_key((#[trigger] fields[i]).0) && fields[i].1
            != JsonView::Null
}

proof fn writable_is_writable(fields: FieldsView)
    ensures
        all_writable(writable(fields)),
    decreases fields.len(),
{
    if fields.len() > 0 {
        writable_is_writable(fields.drop_last());
    }
}

proof fn writable_keeps_all(fields: FieldsView)
    requires
        all_writable(fields),
    ensures
        writable(fields) == fields,
    decreases fields.len(),
{
    if fields.len() > 0 {
        writable_keeps_all(fields.drop_last());
        assert(writable(fields) =~= fields);
    } else {
        assert(writable(fields) =~= fields);
    }
}

proof fn put_keeps_writable(fields: FieldsView, key: Seq<char>, value: JsonView)
    requires
        all_writable(fields),
        input_key(key),
        value != JsonView::Null,
    ensures
        all_writable(put(fields, key, value)),
{
    crate::json::place_is_first(fields, key);
}

/// Putting what is there changes nothing.
proof fn put_same(fields: FieldsView, key: Seq<char>)
    requires
        field(fields, key) is Some,
    ensures
        put(fields, key, field(fields, key)->0) == fields,
{
    crate::json::place_is_first(fields, key);
    assert(put(fields, key, field(fields, key)->0) =~= fields);
}

pub proof fn literals_differ()
    ensures
        "Parameters"@ != "Description"@,
        "Parameters"@ != "StorageDescriptor"@,
        "Description"@ != "StorageDescriptor"@,
        "Name"@ != "Comment"@,
        "Name"@ != "Parameters"@,
        "Comment"@ != "Parameters"@,
{
    reveal_strlit("Parameters");
    reveal_strlit("Description");
    reveal_strlit("StorageDescriptor");
    reveal_strlit("Name");
    reveal_strlit("Comment");
    assert("Parameters"@.len() == 10);
    assert("Description"@.len() == 11);
    assert("StorageDescriptor"@.len() == 17);
    assert("Name"@.len() == 4);
    assert("Comment"@.len() == 7);
}

/// Setting texts leaves the fields that they do not name.
pub proof fn texts_leave_others(fields: FieldsView, entries: Pairs, key: Seq<char>)
    requires
        !has_key(entries, key),
    ensures
        field(with_texts(fields, entries).0, key) == field(fields, key),
    decreases entries.len(),
{
    if entries.len() > 0 {
        let rest = entries.drop_last();
        assert forall|i: int| 0 <= i < rest.len() implies (#[trigger] rest[i]).0 != key by {
            assert(entries[i].0 != key);
        }
        texts_leave_others(fields, rest, key);
        assert(entries[entries.len() - 1].0 != key);
        crate::json::put_then_field(
            with_texts(fields, rest).0,
            entries.last().0,
            text(entries.last().1),
            key,
        );
    }
}

/// Texts that are set are there.
pub proof fn texts_are_there(fields: FieldsView, entries: Pairs)
    requires
        distinct_keys(entries),
    ensures
        forall|i: int|
            0 <= i < entries.len() ==> field(
                with_texts(fields, entries).0,
                (#[trigger] entries[i]).0,
            ) == Some(text(entries[i].1)),
    decreases entries.len(),
{
    if entries.len() > 0 {
        let rest = entries.drop_last();
        assert forall|i: int, j: int| 0 <= i < j < rest.len() implies (#[trigger] rest[i]).0 != (
        #[trigger] rest[j]).0 by {
            assert(entries[i].0 != entries[j].0);
        }
        texts_are_there(fields, rest);
        let before = with_texts(fields, rest).0;
        let (key, value) = entries.last();
        assert forall|i: int| 0 <= i < entries.len() implies field(
            with_texts(fields, entries).0,
            (#[trigger] entries[i]).0,
        ) == Some(text(entries[i].1)) by {
            crate::json::put_then_field(before, key, text(value), entries[i].0);
            if i < rest.len() {
                assert(rest[i] == entries[i]);
                assert(entries[i].0 != entries[entries.len() - 1].0);
            }
        }
    }
}

/// Setting texts that are there changes nothing.
proof fn texts_stay(fields: FieldsView, entries: Pairs)
    requires
        forall|i: int|
            0 <= i < entries.len() ==> field(fields, (#[trigger] entries[i]).0) == Some(
                text(entries[i].1),
            ),
    ensures
        with_texts(fields, entries) == (fields, false),
    decreases entries.len(),
{
    if entries.len() > 0 {
        let rest = entries.drop_last();
        assert forall|i: int| 0 <= i < rest.len() implies field(fields, (#[trigger] rest[i]).0)
            == Some(text(rest[i].1)) by {
            assert(rest[i] == entries[i]);
        }
        texts_stay(fields, rest);
        assert(field(fields, entries[entries.len() - 1].0) == Some(
            text(entries[entries.len() - 1].1),
        ));
        put_same(fields, entries.last().0);
    }
}

/// What a described table holds: the description in both places, and the parameters.
proof fn described_is_stable(
    table: JsonView,
    input: FieldsView,
    description: Seq<char>,
    parameters: Pairs,
)
    requires
        described_table(table, input, description, parameters) is Ok,
        all_writable(input),
        distinct_keys(parameters),
        !has_key(parameters, "comment"@),
    ensures
        ({
            let output = described_table(table, input, description, parameters)->Ok_0.0;
            &&& all_writable(output)
            &&& field(output, "Description"@) == Some(text(description))
            &&& field(output, "Parameters"@) is Some
            &&& field(output, "Parameters"@)->0 is Object
            &&& {
                let q = field(output, "Parameters"@)->0->Object_0;
                &&& field(q, "comment"@) == Some(text(description))
                &&& forall|i: int|
                    0 <= i < parameters.len() ==> field(q, (#[trigger] parameters[i]).0) == Some(
                        text(parameters[i].1),
                    )
            }
        }),
{
    literals_differ();
    let p = match field(input, "Parameters"@) {
        Some(JsonView::Object(p)) => p,
        _ => nil(),
    };
    let start = put(p, "comment"@, text(description));
    let q = with_texts(start, parameters).0;
    crate::json::put_then_field(p, "comment"@, text(description), "comment"@);
    texts_leave_others(start, parameters, "comment"@);
    texts_are_there(start, parameters);
    let one = put(input, "Parameters"@, JsonView::Object(q));
    put_keeps_writable(input, "Parameters"@, JsonView::Object(q));
    put_keeps_writable(one, "Description"@, text(description));
    crate::json::put_then_field(input, "Parameters"@, JsonView::Object(q), "Description"@);
    crate::json::put_then_field(one, "Description"@, text(description), "Parameters"@);
}

proof fn column_is_stable(column: JsonView, comments: Pairs, parameters: Triples)
    requires
        forall|name: Seq<char>| distinct_keys(#[trigger] parameters_for(parameters, name)),
    ensures
        documented_column(documented_column(column, comments, parameters).0, comments, parameters)
            == (documented_column(column, comments, parameters).0, false),
{
    literals_differ();
    match column {
        JsonView::Object(f) => match field(f, "Name"@) {
            Some(JsonView::Text(name)) => {
                let comment = comment_for(comments, name);
                let own = parameters_for(parameters, name);
                let g = commented(f, comment).0;
                let h = parameterised(g, own).0;
                if comment is Some {
                    crate::json::put_then_field(f, "Comment"@, text(comment->0), "Name"@);
                    crate::json::put_then_field(f, "Comment"@, text(comment->0), "Comment"@);
                }
                assert(field(g, "Name"@) == field(f, "Name"@));
                if own.len() > 0 {
                    let current = match field(g, "Parameters"@) {
                        Some(JsonView::Object(c)) => c,
                        _ => nil(),
                    };
                    let p = with_texts(current, own).0;
                    texts_are_there(current, own);
                    texts_stay(p, own);
                    crate::json::put_then_field(g, "Parameters"@, JsonView::Object(p), "Name"@);
                    crate::json::put_then_field(g, "Parameters"@, JsonView::Object(p), "Comment"@);
                    if field(g, "Parameters"@) is None || field(g, "Parameters"@)->0 is Object {
                        put_same(h, "Parameters"@);
                    }
                }
                assert(field(h, "Name"@) == Some(JsonView::Text(name)));
                if comment is Some {
                    assert(field(h, "Comment"@) == Some(text(comment->0)));
                    put_same(h, "Comment"@);
                }
                assert(commented(h, comment) == (h, false));
                assert(parameterised(h, own) == (h, false));
            },
            _ => {},
        },
        _ => {},
    }
}

proof fn columns_are_stable(input: FieldsView, comments: Pairs, parameters: Triples)
    requires
        all_writable(input),
        forall|name: Seq<char>| distinct_keys(#[trigger] parameters_for(parameters, name)),
    ensures
        ({
            let output = columns_documented(input, comments, parameters).0;
            &&& all_writable(output)
            &&& field(output, "Parameters"@) == field(input, "Parameters"@)
            &&& field(output, "Description"@) == field(input, "Description"@)
            &&& columns_documented(output, comments, parameters) == (output, false)
        }),
{
    literals_differ();
    let output = columns_documented(input, comments, parameters).0;
    if (comments.len() > 0 || parameters.len() > 0) && columns_of(input) is Some {
        let (sd, columns) = columns_of(input)->0;
        let after = documented_columns(columns, comments, parameters);
        let sd2 = put(sd, "Columns"@, JsonView::List(after));
        crate::json::put_then_field(sd, "Columns"@, JsonView::List(after), "Columns"@);
        put_keeps_writable(input, "StorageDescriptor"@, JsonView::Object(sd2));
        crate::json::put_then_field(
            input,
            "StorageDescriptor"@,
            JsonView::Object(sd2),
            "Parameters"@,
        );
        crate::json::put_then_field(
            input,
            "StorageDescriptor"@,
            JsonView::Object(sd2),
            "Description"@,
        );
        assert(columns_of(output) == Some((sd2, after)));
        assert forall|i: int| 0 <= i < after.len() implies documented_column(
            #[trigger] after[i],
            comments,
            parameters,
        ) == (after[i], false) by {
            column_is_stable(columns[i], comments, parameters);
        }
        assert(documented_columns(after, comments, parameters) =~= after);
        put_same(sd2, "Columns"@);
        put_same(output, "StorageDescriptor"@);
    }
}

// ---------------------------------------------------------------------------
// Code
// ---------------------------------------------------------------------------

fn is_input_key(key: &str) -> (r: bool)
    ensures
        r == input_key(key@),
{
    same(key, "Name") || same(key, "Description") || same(key, "Owner") || same(
        key,
        "LastAccessTime",
    ) || same(key, "LastAnalyzedTime") || same(key, "Retention") || same(key, "StorageDescriptor")
        || same(key, "PartitionKeys") || same(key, "ViewOriginalText") || same(
        key,
        "ViewExpandedText",
    ) || same(key, "TableType") || same(key, "Parameters") || same(key, "TargetTable")
}

fn writable_fields(table: &Json) -> (r: Fields)
    ensures
        r@ == table_input(table@),
{
    let source = match table {
        Json::Object(source) => source,
        _ => {
            return fields();
        },
    };
    proof {
        object_view_is(*source);
    }
    let ghost all = fields_view(source@);
    let mut r = fields();
    let mut i: usize = 0;
    assert(r@ =~= writable(all.take(0)));
    while i < source.len()
        invariant
            i <= source.len(),
            all == fields_view(source@),
            r@ == writable(all.take(i as int)),
        decreases source.len() - i,
    {
        assert(all.take(i + 1).drop_last() =~= all.take(i as int));
        assert(all.take(i + 1).last() == (source@[i as int].0@, source@[i as int].1@));
        let key = source[i].0.as_str();
        if is_input_key(key) && !source[i].1.is_null() {
            r = r.with(key, source[i].1.copy());
        }
        i += 1;
    }
    assert(all.take(i as int) =~= all);
    r
}

/// The field holds the text.
fn holds(found: Option<&Json>, value: &str) -> (r: bool)
    ensures
        r == (crate::json::opt_json(found) == Some(text(value@))),
{
    match found {
        Some(v) => match v.as_str() {
            Some(t) => same(t, value),
            None => false,
        },
        None => false,
    }
}

fn set_texts(input: Fields, entries: &Vec<(String, String)>) -> (r: (Fields, bool))
    ensures
        (r.0@, r.1) == with_texts(input@, pairs(entries@)),
{
    let ghost all = pairs(entries@);
    let ghost start = input@;
    let mut current = input;
    let mut changed = false;
    let mut i: usize = 0;
    assert(all.take(0) =~= Seq::empty());
    while i < entries.len()
        invariant
            i <= entries.len(),
            all == pairs(entries@),
            (current@, changed) == with_texts(start, all.take(i as int)),
        decreases entries.len() - i,
    {
        assert(all.take(i + 1).drop_last() =~= all.take(i as int));
        let key = entries[i].0.as_str();
        let value = entries[i].1.as_str();
        assert(all.take(i + 1).last() == (key@, value@));
        if !holds(current.get(key), value) {
            changed = true;
        }
        current = current.set(key, Json::Text(value.to_owned()));
        i += 1;
    }
    assert(all.take(i as int) =~= all);
    (current, changed)
}

fn text_field(input: &Fields, key: &str) -> (r: String)
    ensures
        r@ == match field(input@, key@) {
            Some(v) => or_empty(text_of(v)),
            None => Seq::empty(),
        },
{
    match input.get(key) {
        Some(v) => text_or_empty(v.as_str()),
        None => String::new(),
    }
}

/// The fields of an object that a field holds.
enum Inner {
    Missing,
    Other,
    Object(Fields),
}

fn inner(input: &Fields, key: &str) -> (r: Inner)
    ensures
        match r {
            Inner::Missing => field(input@, key@) is None,
            Inner::Other => field(input@, key@) is Some && !(field(input@, key@)->0 is Object),
            Inner::Object(f) => field(input@, key@) == Some(JsonView::Object(f@)),
        },
{
    match input.get(key) {
        None => Inner::Missing,
        Some(v) => match v.copy() {
            Json::Object(found) => {
                proof {
                    object_view_is(found);
                }
                Inner::Object(Fields { pairs: found })
            },
            _ => Inner::Other,
        },
    }
}

fn describe_table(
    table: &Json,
    input: Fields,
    description: &str,
    parameters: &Vec<(String, String)>,
) -> (r: Result<(Fields, bool), String>)
    ensures
        match (r, described_table(table@, input@, description@, pairs(parameters@))) {
            (Ok((f, c)), Ok((g, d))) => f@ == g && c == d,
            (Err(e), Err(f)) => e@ == f,
            _ => false,
        },
{
    let current = match inner(&input, "Parameters") {
        Inner::Missing => fields(),
        Inner::Object(found) => found,
        Inner::Other => {
            return Err("[athena] Glue table Parameters is not an object".to_owned());
        },
    };
    let comment = text_field(&current, "comment");
    let previous = text_or_empty(table.str_at("Description"));
    let differs = !same(previous.as_str(), description) || !same(comment.as_str(), description);
    let (updated, changed) = set_texts(
        current.set("comment", Json::Text(description.to_owned())),
        parameters,
    );
    let output = input.set("Parameters", updated.object()).set(
        "Description",
        Json::Text(description.to_owned()),
    );
    Ok((output, differs || changed))
}

fn find_comment<'a>(comments: &'a Vec<(String, String)>, name: &str) -> (r: Option<&'a str>)
    ensures
        crate::json::opt_str(r) == comment_for(pairs(comments@), name@),
{
    let ghost all = pairs(comments@);
    let mut i: usize = comments.len();
    assert(all.take(i as int) =~= all);
    while i > 0
        invariant
            i <= comments.len(),
            all == pairs(comments@),
            comment_for(all, name@) == comment_for(all.take(i as int), name@),
        decreases i,
    {
        assert(all.take(i as int).drop_last() =~= all.take(i - 1));
        assert(all.take(i as int).last() == (comments@[i - 1].0@, comments@[i - 1].1@));
        i -= 1;
        if same(comments[i].0.as_str(), name) {
            return Some(comments[i].1.as_str());
        }
    }
    None
}

fn find_parameters(parameters: &Vec<ColumnParameter>, name: &str) -> (r: Vec<(String, String)>)
    ensures
        pairs(r@) == parameters_for(triples(parameters@), name@),
{
    let ghost all = triples(parameters@);
    let mut r: Vec<(String, String)> = Vec::new();
    let mut i: usize = 0;
    assert(pairs(r@) =~= parameters_for(all.take(0), name@));
    while i < parameters.len()
        invariant
            i <= parameters.len(),
            all == triples(parameters@),
            pairs(r@) == parameters_for(all.take(i as int), name@),
        decreases parameters.len() - i,
    {
        assert(all.take(i + 1).drop_last() =~= all.take(i as int));
        let p = &parameters[i];
        assert(all.take(i + 1).last() == (p.column@, p.key@, p.value@));
        if same(p.column.as_str(), name) {
            let ghost before = pairs(r@);
            r.push((p.key.clone(), p.value.clone()));
            assert(pairs(r@) =~= before.push((p.key@, p.value@)));
        }
        i += 1;
    }
    assert(all.take(i as int) =~= all);
    r
}

fn set_parameters(column: Fields, parameters: &Vec<(String, String)>) -> (r: (Fields, bool))
    ensures
        (r.0@, r.1) == parameterised(column@, pairs(parameters@)),
{
    assert(pairs(parameters@).len() == parameters.len());
    if parameters.len() == 0 {
        return (column, false);
    }
    let current = match inner(&column, "Parameters") {
        Inner::Missing => fields(),
        Inner::Object(found) => found,
        Inner::Other => {
            return (column, false);
        },
    };
    let (updated, changed) = set_texts(current, parameters);
    (column.set("Parameters", updated.object()), changed)
}

fn document_column(
    column: &Json,
    comments: &Vec<(String, String)>,
    parameters: &Vec<ColumnParameter>,
) -> (r: (Json, bool))
    ensures
        (r.0@, r.1) == documented_column(column@, pairs(comments@), triples(parameters@)),
{
    let found = match column.copy() {
        Json::Object(found) => found,
        other => {
            return (other, false);
        },
    };
    proof {
        object_view_is(found);
    }
    let current = Fields { pairs: found };
    let name = match current.get("Name") {
        Some(v) => match v.as_str() {
            Some(name) => name.to_owned(),
            None => {
                return (current.object(), false);
            },
        },
        None => {
            return (current.object(), false);
        },
    };
    let mut changed = false;
    let mut updated = current;
    if let Some(comment) = find_comment(comments, name.as_str()) {
        let previous = text_field(&updated, "Comment");
        changed = !same(previous.as_str(), comment);
        updated = updated.set("Comment", Json::Text(comment.to_owned()));
    }
    let own = find_parameters(parameters, name.as_str());
    let (output, more) = set_parameters(updated, &own);
    (output.object(), changed || more)
}

fn document_columns(
    input: Fields,
    comments: &Vec<(String, String)>,
    parameters: &Vec<ColumnParameter>,
) -> (r: (Fields, bool))
    ensures
        (r.0@, r.1) == columns_documented(input@, pairs(comments@), triples(parameters@)),
{
    assert(pairs(comments@).len() == comments.len());
    assert(triples(parameters@).len() == parameters.len());
    if comments.len() == 0 && parameters.len() == 0 {
        return (input, false);
    }
    let storage = match inner(&input, "StorageDescriptor") {
        Inner::Object(found) => found,
        _ => {
            return (input, false);
        },
    };
    let columns = match storage.get("Columns") {
        Some(v) => match v.copy() {
            Json::List(columns) => {
                proof {
                    crate::json::list_view_is(columns);
                }
                columns
            },
            _ => {
                return (input, false);
            },
        },
        None => {
            return (input, false);
        },
    };
    let ghost all = items_view(columns@);
    let ghost c = pairs(comments@);
    let ghost p = triples(parameters@);
    let mut output: Vec<Json> = Vec::new();
    let mut changed = false;
    let mut i: usize = 0;
    while i < columns.len()
        invariant
            i <= columns.len(),
            all == items_view(columns@),
            c == pairs(comments@),
            p == triples(parameters@),
            output.len() == i,
            forall|j: int|
                0 <= j < i ==> (#[trigger] output@[j])@ == documented_column(all[j], c, p).0,
            changed == (exists|j: int|
                0 <= j < i && (#[trigger] documented_column(all[j], c, p)).1),
        decreases columns.len() - i,
    {
        let (column, differs) = document_column(&columns[i], comments, parameters);
        assert(documented_column(all[i as int], c, p) == (column@, differs));
        output.push(column);
        changed = changed || differs;
        i += 1;
    }
    assert(items_view(output@) =~= documented_columns(all, c, p));
    (
        input.set("StorageDescriptor", storage.set("Columns", list(output)).object()),
        changed,
    )
}

/// The table with the documentation of its model, and whether that differs from what Glue
/// holds.
pub fn document_table(table: &Json, docs: &Docs) -> (r: Result<(Fields, bool), String>)
    ensures
        match (r, documented(table@, docs@)) {
            (Ok((f, c)), Ok((g, d))) => f@ == g && c == d,
            (Err(e), Err(f)) => e@ == f,
            _ => false,
        },
{
    let input = writable_fields(table);
    let (input, changed) = match &docs.table_description {
        Some(description) => match describe_table(
            table,
            input,
            description.as_str(),
            &docs.table_parameters,
        ) {
            Ok(described) => described,
            Err(e) => {
                return Err(e);
            },
        },
        None => (input, false),
    };
    let (output, more) = document_columns(
        input,
        &docs.column_descriptions,
        &docs.column_parameters,
    );
    Ok((output, changed || more))
}

impl AthenaOps {
    /// Writes the documentation of a model to its Glue table, where that changes it.
    pub fn persist_docs_to_glue(
        relation: &RelationParts,
        docs: &Docs,
        replies: &Vec<Reply>,
        at: usize,
    ) -> (r: Progress<()>)
        requires
            at <= replies.len(),
        ensures
            r@ == persisted(*relation, docs@, replies_view(replies@), at as int),
            within(r, at, replies@),
    {
        let (catalog, n) = match Self::catalog_id(opt_as_str(&relation.database), replies, at) {
            Progress::Got(catalog, n) => (catalog, n),
            Progress::Ask(r) => {
                return Progress::Ask(r);
            },
            Progress::Fail(e, n) => {
                return Progress::Fail(e, n);
            },
        };
        let (table, n) = match Self::get_glue_table(relation, replies, n) {
            Progress::Got(Some(table), n) => (table, n),
            Progress::Got(None, n) => {
                return fail(
                    OpsErrorKind::NotFound,
                    "[athena] glue.get_table returned no table for ".to_owned().concat(
                        relation.rendered.as_str(),
                    ),
                    n,
                );
            },
            Progress::Ask(r) => {
                return Progress::Ask(r);
            },
            Progress::Fail(e, n) => {
                return Progress::Fail(e, n);
            },
        };
        let (input, changed) = match document_table(&table, docs) {
            Ok(documented) => documented,
            Err(e) => {
                return fail(OpsErrorKind::UnexpectedResult, e, n);
            },
        };
        if !changed {
            return Progress::Got((), n);
        }
        let update = scope_fields(&catalog, relation.schema.as_str()).with(
            "TableInput",
            input.object(),
        ).with("SkipArchive", Json::Bool(docs.skip_archive_table_version));
        match call(replies, n, "glue.update_table", update.object()) {
            Progress::Got(_, m) => Progress::Got((), m),
            Progress::Ask(r) => Progress::Ask(r),
            Progress::Fail(e, m) => Progress::Fail(e, m),
        }
    }
}

} // verus!
