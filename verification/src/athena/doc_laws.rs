//! What of a model's documentation reaches Glue.

use crate::athena::docs::{
    attribute_of, clean_comment, column_docs, count_of, cut, description, entries_of, filled_lines,
    flag, key_char, meta_parameters, model_docs, parameter, parameter_value, table_parameters,
    valid_key, with_parameter, DocsView, Pairs, Triples,
};
use crate::athena::driver::{OpsErrorKind, ProgressView, ReplyView};
use crate::athena::glue::{catalog_id, glue_table_json, scope, text, RelationParts};
use crate::athena::glue_laws::{pushed_is_found, requests_name_their_scope};
use crate::athena::persist::{
    comment_for, commented, described_table, distinct_keys, documented, documented_column, has_key,
    literals_differ, parameterised, parameters_for, persisted, texts_are_there, texts_leave_others,
    with_texts, writable,
};
use crate::json::{
    field, member, opt, or_empty, place, place_is_first, place_is_unique, put, put_then_field,
    text_at, FieldsView, JsonView,
};
use crate::number::unsigned;
use crate::text::{head, join, one_piece, split, split_is_not_empty, trim};
use crate::value::{attribute, missing, Value, ValueKind};
use vstd::prelude::*;

verus! {

// ---------------------------------------------------------------------------
// Comments
// ---------------------------------------------------------------------------

proof fn split_in_two(a: Seq<char>, sep: char, b: Seq<char>)
    ensures
        split(a + seq![sep] + b, sep) == split(a, sep) + split(b, sep),
    decreases b.len(),
{
    let s = a + seq![sep] + b;
    split_is_not_empty(a, sep);
    split_is_not_empty(b, sep);
    if b.len() == 0 {
        assert(s =~= a.push(sep));
        assert(a.push(sep).drop_last() =~= a);
        assert(split(s, sep) =~= split(a, sep) + split(b, sep));
    } else {
        let c = b.drop_last();
        split_in_two(a, sep, c);
        split_is_not_empty(c, sep);
        assert(s.drop_last() =~= a + seq![sep] + c);
        assert(s.last() == b.last());
        assert(split(s, sep) =~= split(a, sep) + split(b, sep));
    }
}

proof fn filled_in_two(a: Seq<Seq<char>>, b: Seq<Seq<char>>)
    ensures
        filled_lines(a + b) == filled_lines(a) + filled_lines(b),
    decreases b.len(),
{
    if b.len() == 0 {
        assert(a + b =~= a);
        assert(filled_lines(a) + filled_lines(b) =~= filled_lines(a));
    } else {
        filled_in_two(a, b.drop_last());
        assert((a + b).drop_last() =~= a + b.drop_last());
        assert((a + b).last() == b.last());
        assert(filled_lines(a + b) =~= filled_lines(a) + filled_lines(b));
    }
}

proof fn joined_in_two(a: Seq<Seq<char>>, b: Seq<Seq<char>>, sep: Seq<char>)
    requires
        a.len() > 0,
        b.len() > 0,
    ensures
        join(a + b, sep) == join(a, sep) + sep + join(b, sep),
    decreases b.len(),
{
    assert((a + b).drop_last() =~= a + b.drop_last());
    if b.len() == 1 {
        assert(a + b.drop_last() =~= a);
        assert(join(a + b, sep) =~= join(a, sep) + sep + join(b, sep));
    } else {
        joined_in_two(a, b.drop_last(), sep);
        assert(join(a + b, sep) =~= join(a, sep) + sep + join(b, sep));
    }
}

/// A comment is its lines without the white space round them, one blank between those
/// that are left.
pub proof fn comments_are_their_lines(line: Seq<char>, a: Seq<char>, b: Seq<char>)
    ensures
        !line.contains('\n') ==> clean_comment(line) == trim(line),
        filled_lines(split(a, '\n')).len() > 0 && filled_lines(split(b, '\n')).len() > 0
            ==> clean_comment(a + seq!['\n'] + b) == clean_comment(a) + seq![' '] + clean_comment(
            b,
        ),
        filled_lines(split(a, '\n')).len() == 0 ==> clean_comment(a + seq!['\n'] + b)
            == clean_comment(b),
        filled_lines(split(b, '\n')).len() == 0 ==> clean_comment(a + seq!['\n'] + b)
            == clean_comment(a),
{
    reveal_strlit(" ");
    assert(" "@ =~= seq![' ']);
    if !line.contains('\n') {
        one_piece(line, '\n');
        let lines = seq![line];
        assert(lines.drop_last() =~= Seq::empty());
        let none = Seq::<Seq<char>>::empty();
        assert(filled_lines(lines.drop_last()) =~= none);
        if trim(line).len() == 0 {
            assert(filled_lines(lines) =~= none);
            assert(clean_comment(line) =~= trim(line));
        } else {
            assert(filled_lines(lines) =~= none.push(trim(line)));
            assert(clean_comment(line) == trim(line));
        }
    }
    split_in_two(a, '\n', b);
    filled_in_two(split(a, '\n'), split(b, '\n'));
    let x = filled_lines(split(a, '\n'));
    let y = filled_lines(split(b, '\n'));
    if x.len() > 0 && y.len() > 0 {
        joined_in_two(x, y, " "@);
    }
    if x.len() == 0 {
        assert(x + y =~= y);
    }
    if y.len() == 0 {
        assert(x + y =~= x);
    }
}

/// A text that is too long keeps its beginning and ends in three dots, just within the
/// limit; another stays.
pub proof fn long_texts_are_cut(s: Seq<char>, limit: int)
    requires
        limit >= 3,
    ensures
        s.len() <= limit ==> cut(s, limit) == s,
        s.len() > limit ==> {
            &&& cut(s, limit).len() == limit
            &&& cut(s, limit).take(limit - 3) == s.take(limit - 3)
            &&& cut(s, limit).skip(limit - 3) == seq!['.', '.', '.']
        },
{
    reveal_strlit("...");
    if s.len() > limit {
        assert("..."@ =~= seq!['.', '.', '.']);
        assert(cut(s, limit).take(limit - 3) =~= s.take(limit - 3));
        assert(cut(s, limit).skip(limit - 3) =~= seq!['.', '.', '.']);
    }
}

/// A description is the cleaned text of its argument, or nothing without one, cut to its
/// limit.
pub proof fn descriptions_are_cleaned(value: Value, limit: int)
    requires
        limit >= 3,
    ensures
        description(Some(value), limit).len() <= limit,
        missing(value) ==> description(Some(value), limit) == description(None, limit),
        !missing(value) && value.text@.len() > 0 && clean_comment(value.text@).len() <= limit
            ==> description(Some(value), limit) == clean_comment(value.text@),
        description(None, limit).len() == 0,
{
    reveal_strlit("...");
    comments_are_their_lines(Seq::empty(), Seq::empty(), Seq::empty());
    assert(trim(Seq::<char>::empty()).len() == 0);
}

// ---------------------------------------------------------------------------
// Parameters
// ---------------------------------------------------------------------------

/// A parameter has a key of at most 255 characters that Glue takes.
pub proof fn keys_that_glue_takes(key: Seq<char>, c: char)
    ensures
        valid_key(key) <==> key.len() <= 255 && forall|i: int|
            0 <= i < key.len() ==> key_char(#[trigger] key[i]),
        key_char(c) <==> c as u32 == 9 || 32 <= c as u32 <= 55295 || 57344 <= c as u32 <= 65533,
{
}

/// The value of a parameter: JSON for what holds other values, `True` and `False`, `None`
/// for what is missing, and the text of anything else; of it the first 512000 characters.
pub proof fn values_that_glue_gets(value: Value)
    ensures
        value.kind == ValueKind::Mapping || value.kind == ValueKind::Sequence || value.kind
            == ValueKind::Iterable ==> {
            &&& value.json is None ==> parameter_value(value) is None
            &&& value.json matches Some(json) ==> parameter_value(value) == Some(
                head(json@, 512_000),
            )
        },
        value.kind == ValueKind::Undefined || value.kind == ValueKind::Nothing ==> parameter_value(
            value,
        ) == Some("None"@),
        value.kind == ValueKind::Boolean && value.truthy ==> parameter_value(value) == Some(
            "True"@,
        ),
        value.kind == ValueKind::Boolean && !value.truthy ==> parameter_value(value) == Some(
            "False"@,
        ),
        value.kind == ValueKind::Number || value.kind == ValueKind::Str || value.kind
            == ValueKind::Bytes || value.kind == ValueKind::Plain || value.kind
            == ValueKind::Invalid ==> parameter_value(value) == Some(head(value.text@, 512_000)),
{
    reveal_strlit("None");
    reveal_strlit("True");
    reveal_strlit("False");
    assert("None"@.len() == 4 && "True"@.len() == 4 && "False"@.len() == 5);
}

/// A parameter is left out where Glue does not take its key or it has no value.
pub proof fn parameters_that_glue_gets(key: Seq<char>, value: Value)
    ensures
        !valid_key(key) ==> parameter(key, Some(value)) is None && parameter(key, None) is None,
        valid_key(key) ==> parameter(key, None) == Some((key, "None"@)),
        valid_key(key) ==> (match parameter_value(value) {
            Some(t) => parameter(key, Some(value)) == Some((key, t)),
            None => parameter(key, Some(value)) is None,
        }),
{
}

/// Whole entries and flags of arguments.
pub proof fn arguments_are_read(value: Value, name: Seq<char>)
    ensures
        !flag(None),
        flag(Some(value)) == value.truthy,
        entries_of(None) == Ok::<Seq<(String, Value)>, Seq<char>>(Seq::empty()),
        missing(value) ==> entries_of(Some(value)) == Ok::<Seq<(String, Value)>, Seq<char>>(
            Seq::empty(),
        ),
        value.kind == ValueKind::Mapping ==> entries_of(Some(value)) == Ok::<
            Seq<(String, Value)>,
            Seq<char>,
        >(value.entries@),
        !missing(value) && value.kind != ValueKind::Mapping ==> entries_of(Some(value)) is Err,
        value.integer matches Some(n) ==> (0 <= n <= usize::MAX ==> count_of(value, name) == Ok::<
            int,
            Seq<char>,
        >(n as int)) && (n < 0 ==> count_of(value, name) is Err),
        value.integer is None && value.string is None ==> count_of(value, name) is Err,
        value.integer is None ==> (value.string matches Some(s) ==> (count_of(
            value,
            name,
        ) is Ok <==> (unsigned(trim(s@)) matches Some(m) && m <= usize::MAX))),
        value.integer is None ==> (value.string matches Some(s) ==> (count_of(value, name)
            matches Ok(n) ==> unsigned(trim(s@)) == Some(n))),
{
}

/// The parameters of a table come from its meta, in their order, and behind them its
/// unique id, its materialization and its project, each where it has one.
pub proof fn tables_get_their_parameters(model: Value, project: Option<Value>)
    ensures
        table_parameters(model, project) matches Ok(all) ==> {
            let config = attribute(model, "config"@);
            let meta = meta_parameters(entries_of(attribute_of(config, "meta"@))->Ok_0);
            let id = parameter("unique_id"@, attribute(model, "unique_id"@));
            let how = parameter("materialized"@, attribute_of(config, "materialized"@));
            let whose = parameter("dbt_project_name"@, project);
            &&& id matches Some(p) ==> all.contains(p)
            &&& how matches Some(p) ==> all.contains(p)
            &&& project is Some ==> (whose matches Some(p) ==> all.last() == p)
            &&& all.take(meta.len() as int) == meta
            &&& forall|i: int|
                meta.len() <= i < all.len() ==> Some(#[trigger] all[i]) == id || Some(all[i]) == how
                    || Some(all[i]) == whose
            &&& all.len() <= meta.len() + 3
        },
{
    let config = attribute(model, "config"@);
    if let Ok(all) = table_parameters(model, project) {
        let meta = meta_parameters(entries_of(attribute_of(config, "meta"@))->Ok_0);
        let id = parameter("unique_id"@, attribute(model, "unique_id"@));
        let how = parameter("materialized"@, attribute_of(config, "materialized"@));
        let a = with_parameter(meta, id);
        let b = with_parameter(a, how);
        if id is Some {
            assert(all[meta.len() as int] == id->0);
        }
        if how is Some {
            assert(all[a.len() as int] == how->0);
        }
        assert(all.take(meta.len() as int) =~= meta);
    }
}

/// The parameters of meta are those of its entries, in their order.
pub proof fn meta_gives_its_parameters(entries: Seq<(String, Value)>, one: (String, Value))
    ensures
        meta_parameters(Seq::empty()) == Seq::<(Seq<char>, Seq<char>)>::empty(),
        parameter(one.0@, Some(one.1)) is None ==> meta_parameters(entries.push(one))
            == meta_parameters(entries),
        parameter(one.0@, Some(one.1)) matches Some(p) ==> meta_parameters(entries.push(one))
            == meta_parameters(entries).push(p),
{
    assert(entries.push(one).drop_last() =~= entries);
}

/// Every column has its description, of at most 255 characters, and the parameters of its
/// own meta.
pub proof fn columns_get_their_docs(columns: Seq<(String, Value)>, one: (String, Value))
    ensures
        column_docs(columns.push(one)) is Ok <==> column_docs(columns) is Ok && entries_of(
            attribute(one.1, "meta"@),
        ) is Ok,
        column_docs(columns.push(one)) matches Ok((comments, parameters)) ==> {
            let before = column_docs(columns)->Ok_0;
            let meta = meta_parameters(entries_of(attribute(one.1, "meta"@))->Ok_0);
            &&& comments == before.0.push((one.0@, description(attribute(one.1, "description"@), 255)))
            &&& parameters.len() == before.1.len() + meta.len()
            &&& parameters.take(before.1.len() as int) == before.1
            &&& forall|i: int|
                0 <= i < meta.len() ==> (#[trigger] parameters[before.1.len() + i]) == (
                    one.0@,
                    meta[i].0,
                    meta[i].1,
                )
        },
{
    assert(columns.push(one).drop_last() =~= columns);
    if let Ok((comments, parameters)) = column_docs(columns.push(one)) {
        let before = column_docs(columns)->Ok_0;
        assert(parameters.take(before.1.len() as int) =~= before.1);
    }
}

/// Only what is asked for is documented: the table with at most 2048 characters, and the
/// columns.
pub proof fn only_what_is_asked_for_is_documented(
    model: Value,
    table: Option<Value>,
    columns: Option<Value>,
    skip: Option<Value>,
    project: Option<Value>,
)
    ensures
        model_docs(model, table, columns, skip, project) matches Ok(docs) ==> {
            &&& docs.skip_archive_table_version == flag(skip)
            &&& !flag(table) ==> docs.table_description is None && docs.table_parameters.len() == 0
            &&& flag(table) ==> docs.table_description == Some(
                description(attribute(model, "description"@), 2048),
            ) && table_parameters(model, project) == Ok::<Pairs, Seq<char>>(docs.table_parameters)
            &&& !flag(columns) ==> docs.column_descriptions.len() == 0
                && docs.column_parameters.len() == 0
            &&& flag(columns) ==> column_docs(entries_of(attribute(model, "columns"@))->Ok_0) == Ok::<
                (Pairs, Triples),
                Seq<char>,
            >((docs.column_descriptions, docs.column_parameters))
        },
{
}

// ---------------------------------------------------------------------------
// Writing to Glue
// ---------------------------------------------------------------------------

/// No key stands twice.
pub open spec fn keyed_once(fields: FieldsView) -> bool {
    forall|i: int, j: int|
        0 <= i < j < fields.len() ==> (#[trigger] fields[i]).0 != (#[trigger] fields[j]).0
}

proof fn field_of_the_last(fields: FieldsView, key: Seq<char>)
    requires
        fields.len() > 0,
        keyed_once(fields),
    ensures
        keyed_once(fields.drop_last()),
        fields.last().0 == key ==> field(fields, key) == Some(fields.last().1) && field(
            fields.drop_last(),
            key,
        ) is None,
        fields.last().0 != key ==> field(fields, key) == field(fields.drop_last(), key),
{
    let init = fields.drop_last();
    assert forall|i: int, j: int| 0 <= i < j < init.len() implies (#[trigger] init[i]).0 != (
    #[trigger] init[j]).0 by {
        assert(fields[i].0 != fields[j].0);
    }
    assert(init.push(fields.last()) =~= fields);
    pushed_is_found(init, fields.last().0, fields.last().1, key);
    place_is_first(init, key);
    if fields.last().0 == key && field(init, key) is Some {
        let p = place(init, key);
        assert(fields[p].0 == key && fields[fields.len() - 1].0 == key);
    }
}

/// A table is written back with every field that Glue takes and that has a value, and with
/// no other.
pub proof fn fields_that_glue_takes(fields: FieldsView, key: Seq<char>)
    requires
        keyed_once(fields),
    ensures
        field(writable(fields), key) == (if (key == "Name"@ || key == "Description"@ || key
            == "Owner"@ || key == "LastAccessTime"@ || key == "LastAnalyzedTime"@ || key
            == "Retention"@ || key == "StorageDescriptor"@ || key == "PartitionKeys"@ || key
            == "ViewOriginalText"@ || key == "ViewExpandedText"@ || key == "TableType"@ || key
            == "Parameters"@ || key == "TargetTable"@) && field(fields, key) != Some(
            JsonView::Null,
        ) {
            field(fields, key)
        } else {
            None
        }),
    decreases fields.len(),
{
    if fields.len() > 0 {
        let init = fields.drop_last();
        let (k, v) = fields.last();
        field_of_the_last(fields, key);
        fields_that_glue_takes(init, key);
        pushed_is_found(writable(init), k, v, key);
    }
}

/// Once documented, a table has the description and the parameters that were asked for,
/// and keeps all others; it counts as changed just where one of them was another before.
pub proof fn a_table_is_described(
    table: JsonView,
    input: FieldsView,
    wanted: Seq<char>,
    parameters: Pairs,
    key: Seq<char>,
)
    requires
        described_table(table, input, wanted, parameters) is Ok,
        distinct_keys(parameters),
        !has_key(parameters, "comment"@),
    ensures
        ({
            let (output, changed) = described_table(table, input, wanted, parameters)->Ok_0;
            let before = match field(input, "Parameters"@) {
                Some(JsonView::Object(p)) => p,
                _ => Seq::empty(),
            };
            &&& field(output, "Description"@) == Some(JsonView::Text(wanted))
            &&& key != "Description"@ && key != "Parameters"@ ==> field(output, key) == field(
                input,
                key,
            )
            &&& field(output, "Parameters"@) matches Some(JsonView::Object(after)) && {
                &&& field(after, "comment"@) == Some(JsonView::Text(wanted))
                &&& forall|i: int|
                    0 <= i < parameters.len() ==> field(after, (#[trigger] parameters[i]).0)
                        == Some(JsonView::Text(parameters[i].1))
                &&& key != "comment"@ && !has_key(parameters, key) ==> field(after, key) == field(
                    before,
                    key,
                )
            }
            &&& !changed <==> {
                &&& or_empty(text_at(table, "Description"@)) == wanted
                &&& (match field(before, "comment"@) {
                    Some(JsonView::Text(c)) => c,
                    _ => Seq::empty(),
                }) == wanted
                &&& forall|i: int|
                    0 <= i < parameters.len() ==> field(before, (#[trigger] parameters[i]).0)
                        == Some(JsonView::Text(parameters[i].1))
            }
        }),
{
    literals_differ();
    let before = match field(input, "Parameters"@) {
        Some(JsonView::Object(p)) => p,
        _ => Seq::empty(),
    };
    let comment = text(wanted);
    let p = put(before, "comment"@, comment);
    let (q, changed) = with_texts(p, parameters);
    put_then_field(before, "comment"@, comment, key);
    texts_are_there(p, parameters);
    texts_leave_others(p, parameters, "comment"@);
    if !has_key(parameters, key) {
        texts_leave_others(p, parameters, key);
    }
    put_then_field(input, "Parameters"@, JsonView::Object(q), key);
    let middle = put(input, "Parameters"@, JsonView::Object(q));
    put_then_field(middle, "Description"@, comment, key);
    put_then_field(middle, "Description"@, comment, "Parameters"@);
    texts_change(p, parameters);
    assert forall|i: int| 0 <= i < parameters.len() implies field(
        p,
        (#[trigger] parameters[i]).0,
    ) == field(before, parameters[i].0) by {
        put_then_field(before, "comment"@, comment, parameters[i].0);
    }
}

proof fn texts_change(fields: FieldsView, entries: Pairs)
    requires
        distinct_keys(entries),
    ensures
        !with_texts(fields, entries).1 <==> forall|i: int|
            0 <= i < entries.len() ==> field(fields, (#[trigger] entries[i]).0) == Some(
                JsonView::Text(entries[i].1),
            ),
    decreases entries.len(),
{
    if entries.len() > 0 {
        let init = entries.drop_last();
        let (k, v) = entries.last();
        assert(distinct_keys(init)) by {
            assert forall|i: int, j: int| 0 <= i < j < init.len() implies (#[trigger] init[i]).0
                != (#[trigger] init[j]).0 by {
                assert(entries[i].0 != entries[j].0);
            }
        }
        texts_change(fields, init);
        assert(!has_key(init, k)) by {
            if has_key(init, k) {
                let i = choose|i: int| 0 <= i < init.len() && (#[trigger] init[i]).0 == k;
                assert(entries[i].0 != entries[entries.len() - 1].0);
            }
        }
        texts_leave_others(fields, init, k);
        if forall|i: int|
            0 <= i < entries.len() ==> field(fields, (#[trigger] entries[i]).0) == Some(
                JsonView::Text(entries[i].1),
            ) {
            assert(entries[entries.len() - 1] == (k, v));
            assert forall|i: int| 0 <= i < init.len() implies field(
                fields,
                (#[trigger] init[i]).0,
            ) == Some(JsonView::Text(init[i].1)) by {
                assert(entries[i] == init[i]);
            }
        }
        if !with_texts(fields, entries).1 {
            assert forall|i: int| 0 <= i < entries.len() implies field(
                fields,
                (#[trigger] entries[i]).0,
            ) == Some(JsonView::Text(entries[i].1)) by {
                if i < init.len() {
                    assert(init[i] == entries[i]);
                }
            }
        }
    }
}

/// The comment for a column is the last that names it, and its parameters are all that
/// name it, in their order.
pub proof fn columns_are_found_by_name(
    comments: Pairs,
    parameters: Triples,
    column: Seq<char>,
    a: Seq<char>,
    b: Seq<char>,
    name: Seq<char>,
)
    ensures
        comment_for(Seq::empty(), name) is None,
        comment_for(comments.push((name, a)), name) == Some(a),
        column != name ==> comment_for(comments.push((column, a)), name) == comment_for(
            comments,
            name,
        ),
        parameters_for(Seq::empty(), name) == Seq::<(Seq<char>, Seq<char>)>::empty(),
        parameters_for(parameters.push((name, a, b)), name) == parameters_for(
            parameters,
            name,
        ).push((a, b)),
        column != name ==> parameters_for(parameters.push((column, a, b)), name) == parameters_for(
            parameters,
            name,
        ),
{
    assert(comments.push((name, a)).drop_last() =~= comments);
    assert(comments.push((column, a)).drop_last() =~= comments);
    assert(parameters.push((name, a, b)).drop_last() =~= parameters);
    assert(parameters.push((column, a, b)).drop_last() =~= parameters);
}

/// A column that has a name gets its comment and keeps every field but that and its
/// parameters.
pub proof fn a_column_is_commented(
    column: FieldsView,
    name: Seq<char>,
    comments: Pairs,
    parameters: Triples,
    key: Seq<char>,
)
    requires
        field(column, "Name"@) == Some(JsonView::Text(name)),
    ensures
        documented_column(JsonView::Object(column), comments, parameters).0 matches JsonView::Object(
            after,
        ) && {
            &&& key != "Comment"@ && key != "Parameters"@ ==> field(after, key) == field(
                column,
                key,
            )
            &&& comment_for(comments, name) matches Some(c) ==> field(after, "Comment"@) == Some(
                JsonView::Text(c),
            )
            &&& comment_for(comments, name) is None ==> field(after, "Comment"@) == field(
                column,
                "Comment"@,
            )
            &&& parameters_for(parameters, name).len() == 0 ==> field(after, "Parameters"@)
                == field(column, "Parameters"@)
        },
        parameters_for(parameters, name).len() == 0 ==> (documented_column(
            JsonView::Object(column),
            comments,
            parameters,
        ).1 <==> (comment_for(comments, name) matches Some(c) && c != (match field(
            column,
            "Comment"@,
        ) {
            Some(JsonView::Text(old_comment)) => old_comment,
            _ => Seq::empty(),
        }))),
{
    literals_differ();
    let (g, a) = commented(column, comment_for(comments, name));
    if let Some(c) = comment_for(comments, name) {
        put_then_field(column, "Comment"@, text(c), key);
        put_then_field(column, "Comment"@, text(c), "Parameters"@);
    }
    let own = parameters_for(parameters, name);
    if own.len() > 0 {
        let start = match field(g, "Parameters"@) {
            Some(JsonView::Object(current)) => current,
            _ => Seq::empty(),
        };
        let p = with_texts(start, own).0;
        put_then_field(g, "Parameters"@, JsonView::Object(p), key);
        put_then_field(g, "Parameters"@, JsonView::Object(p), "Comment"@);
    }
}

/// A column with parameters of its own gets each of them.
pub proof fn a_column_gets_its_parameters(
    column: FieldsView,
    parameters: Pairs,
    i: int,
)
    requires
        0 <= i < parameters.len(),
        distinct_keys(parameters),
        field(column, "Parameters"@) is None || (field(
            column,
            "Parameters"@,
        ) matches Some(JsonView::Object(_))),
    ensures
        field(parameterised(column, parameters).0, "Parameters"@) matches Some(
            JsonView::Object(after),
        ) && field(after, parameters[i].0) == Some(JsonView::Text(parameters[i].1)),
{
    let start = match field(column, "Parameters"@) {
        Some(JsonView::Object(current)) => current,
        _ => Seq::empty(),
    };
    texts_are_there(start, parameters);
    let p = with_texts(start, parameters).0;
    put_then_field(column, "Parameters"@, JsonView::Object(p), "Parameters"@);
}

/// Glue is asked to update a table just where its documentation changes, with the table as
/// documented and the wish to skip the archive; a table that is not there is an error.
pub proof fn only_changes_are_written(
    relation: RelationParts,
    docs: DocsView,
    catalog: Option<Seq<char>>,
    table: Option<JsonView>,
    replies: Seq<ReplyView>,
    at: int,
    n: int,
    m: int,
)
    requires
        catalog_id(opt(relation.database), replies, at) == ProgressView::Got(catalog, n),
        glue_table_json(relation, replies, n) == ProgressView::Got(table, m),
        0 <= m <= replies.len(),
    ensures
        table is None ==> (persisted(relation, docs, replies, at) matches ProgressView::Fail(e, _)
            && e.kind == OpsErrorKind::NotFound),
        table matches Some(t) ==> {
            &&& documented(t, docs) is Err ==> persisted(relation, docs, replies, at) is Fail
            &&& documented(t, docs) matches Ok((input, changed)) ==> {
                &&& !changed ==> persisted(relation, docs, replies, at) == ProgressView::Got((), m)
                &&& changed && m == replies.len() ==> (persisted(relation, docs, replies, at)
                    matches ProgressView::Ask(r) && {
                    &&& r.operation == "glue.update_table"@
                    &&& text_at(r.payload, "DatabaseName"@) == Some(relation.schema@)
                    &&& text_at(r.payload, "CatalogId"@) == catalog
                    &&& member(r.payload, "TableInput"@) == JsonView::Object(input)
                    &&& member(r.payload, "SkipArchive"@) == JsonView::Bool(
                        docs.skip_archive_table_version,
                    )
                })
                &&& changed && m < replies.len() && replies[m] is Ok ==> persisted(
                    relation,
                    docs,
                    replies,
                    at,
                ) == ProgressView::Got((), m + 1)
            }
        },
{
    reveal_strlit("DatabaseName");
    reveal_strlit("CatalogId");
    reveal_strlit("TableInput");
    reveal_strlit("SkipArchive");
    assert("DatabaseName"@.len() == 12 && "CatalogId"@.len() == 9 && "TableInput"@.len() == 10
        && "SkipArchive"@.len() == 11);
    let s = scope(catalog, relation.schema@);
    requests_name_their_scope(catalog, relation.schema@);
    if catalog is Some {
        place_is_unique(s, "SkipArchive"@, 2);
    } else {
        place_is_unique(s, "SkipArchive"@, 1);
    }
    if let Some(t) = table {
        if let Ok((input, changed)) = documented(t, docs) {
            let v = JsonView::Object(input);
            let f = s.push(("TableInput"@, v));
            pushed_is_found(s, "TableInput"@, v, "DatabaseName"@);
            pushed_is_found(s, "TableInput"@, v, "CatalogId"@);
            pushed_is_found(s, "TableInput"@, v, "SkipArchive"@);
            let w = JsonView::Bool(docs.skip_archive_table_version);
            pushed_is_found(f, "SkipArchive"@, w, "DatabaseName"@);
            pushed_is_found(f, "SkipArchive"@, w, "CatalogId"@);
            pushed_is_found(f, "SkipArchive"@, w, "TableInput"@);
        }
    }
}

} // verus!
