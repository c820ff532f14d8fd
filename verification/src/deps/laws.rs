//! What of a declaration counts for its checksum.

use crate::deps::package_checksum::{
    all_allowed, allowed, core_checksum, core_file_checksum, core_texts, core_value, hashed_lines,
    in_order, marked, named, only_source, sha1_text, source_key, with_default, with_defaults,
    without, DbtPackageType, Source,
};
use crate::deps::python_json::{python, python_fields, python_items, quoted, texts};
use crate::json::{
    field, place, place_is_first, place_is_unique, put_then_field, FieldsView, JsonView,
};
use crate::number::decimal;
use crate::ordered::{arranged, arranging_sorts};
use crate::text::join;
use vstd::prelude::*;

verus! {

// ---------------------------------------------------------------------------
// Order
// ---------------------------------------------------------------------------

/// Putting declarations in order neither drops nor adds one.
pub proof fn no_declaration_is_lost(declarations: Seq<Seq<char>>, t: Seq<char>)
    ensures
        in_order(declarations).len() == declarations.len(),
        in_order(declarations).contains(t) <==> declarations.contains(t),
{
    let m = marked(declarations);
    let a = arranged(m);
    arranging_sorts(m);
    a.to_multiset_ensures();
    m.to_multiset_ensures();
    assert(a.len() == m.len());
    let all = in_order(declarations);
    if declarations.contains(t) {
        let i = declarations.index_of(t);
        assert(m[i] == (t, ()));
        assert(m.contains((t, ())));
        assert(m.to_multiset().count((t, ())) > 0);
        assert(a.contains((t, ())));
        let k = a.index_of((t, ()));
        assert(all[k] == t);
    }
    if all.contains(t) {
        let k = all.index_of(t);
        assert(a[k].0 == t);
        assert(a[k] == (t, ()));
        assert(a.contains((t, ())));
        assert(a.to_multiset().count((t, ())) > 0);
        assert(m.contains((t, ())));
        let i = m.index_of((t, ()));
        assert(declarations[i] == t);
    }
}

/// The wish for newer downloads is one more line behind the declarations, and without it
/// there is none.
pub proof fn newer_downloads_count(declarations: Seq<Seq<char>>)
    ensures
        hashed_lines(declarations, false) == in_order(declarations),
        hashed_lines(declarations, true).len() == declarations.len() + 1,
        hashed_lines(declarations, true).last() == "use_v2_compatible_package_downloads: true"@,
        hashed_lines(declarations, true).drop_last() == in_order(declarations),
{
    if declarations.len() > 0 {
        no_declaration_is_lost(declarations, declarations[0]);
    } else {
        no_declaration_is_lost(declarations, Seq::empty());
    }
    assert(hashed_lines(declarations, true).drop_last() =~= in_order(declarations));
}

// ---------------------------------------------------------------------------
// Sources
// ---------------------------------------------------------------------------

/// A declaration has a source where it declares exactly one of the five.
pub proof fn one_source_is_declared(fields: FieldsView)
    ensures
        ({
            let package = field(fields, "package"@) is Some;
            let git = field(fields, "git"@) is Some;
            let local = field(fields, "local"@) is Some;
            let private = field(fields, "private"@) is Some;
            let tarball = field(fields, "tarball"@) is Some;
            &&& only_source(fields) == Some(Source::Package) <==> package && !git && !local
                && !private && !tarball
            &&& only_source(fields) == Some(Source::Git) <==> !package && git && !local && !private
                && !tarball
            &&& only_source(fields) == Some(Source::Local) <==> !package && !git && local
                && !private && !tarball
            &&& only_source(fields) == Some(Source::Private) <==> !package && !git && !local
                && private && !tarball
            &&& only_source(fields) == Some(Source::Tarball) <==> !package && !git && !local
                && !private && tarball
        }),
{
}

/// The keys that a declaration of each source may have.
pub proof fn keys_go_by_source(key: Seq<char>)
    ensures
        allowed(Source::Package, key) <==> key == "name"@ || key == "package"@ || key == "version"@
            || key == "install_prerelease"@,
        allowed(Source::Git, key) <==> key == "name"@ || key == "git"@ || key == "revision"@ || key
            == "warn-unpinned"@ || key == "subdirectory"@,
        allowed(Source::Local, key) <==> key == "name"@ || key == "local"@,
        allowed(Source::Private, key) <==> key == "name"@ || key == "private"@ || key
            == "provider"@ || key == "revision"@ || key == "warn-unpinned"@ || key
            == "subdirectory"@,
        allowed(Source::Tarball, key) <==> key == "name"@ || key == "tarball"@,
        source_key(Source::Package) == "package"@,
        source_key(Source::Git) == "git"@,
        source_key(Source::Local) == "local"@,
        source_key(Source::Private) == "private"@,
        source_key(Source::Tarball) == "tarball"@,
{
}

proof fn default_is_found(fields: FieldsView, key: Seq<char>, value: JsonView, other: Seq<char>)
    ensures
        field(with_default(fields, key, value), key) == (if field(fields, key) is Some {
            field(fields, key)
        } else {
            Some(value)
        }),
        other != key ==> field(with_default(fields, key, value), other) == field(fields, other),
{
    if field(fields, key) is None {
        let more = fields.push((key, value));
        place_is_first(fields, key);
        place_is_first(fields, other);
        let q = place(fields, other);
        assert forall|i: int| 0 <= i < fields.len() implies (#[trigger] more[i]).0 != key by {
            assert(more[i] == fields[i]);
        }
        place_is_unique(more, key, fields.len() as int);
        if other != key {
            assert forall|i: int| 0 <= i < q implies (#[trigger] more[i]).0 != other by {
                assert(more[i] == fields[i]);
            }
            if q < fields.len() {
                place_is_unique(more, other, q);
            } else {
                place_is_unique(more, other, q + 1);
            }
        }
    }
}

/// What a declaration leaves out counts as its default, and what it says stays.
pub proof fn defaults_fill_in(source: Source, fields: FieldsView, key: Seq<char>)
    ensures
        field(fields, key) is Some ==> field(with_defaults(source, fields), key) == field(
            fields,
            key,
        ),
        field(fields, key) is None ==> field(with_defaults(source, fields), key) == (if source
            == Source::Package && key == "install_prerelease"@ {
            Some(JsonView::Bool(false))
        } else if (source == Source::Git || source == Source::Private) && (key == "revision"@ || key
            == "warn-unpinned"@ || key == "subdirectory"@) || source == Source::Private && key
            == "provider"@ {
            Some(JsonView::Null)
        } else {
            None
        }),
{
    reveal_strlit("install_prerelease");
    reveal_strlit("revision");
    reveal_strlit("warn-unpinned");
    reveal_strlit("subdirectory");
    reveal_strlit("provider");
    assert("install_prerelease"@.len() == 18 && "revision"@.len() == 8 && "warn-unpinned"@.len()
        == 13 && "subdirectory"@.len() == 12 && "provider"@.len() == 8);
    assert("revision"@[0] == 'r' && "provider"@[0] == 'p');
    match source {
        Source::Package => {
            default_is_found(fields, "install_prerelease"@, JsonView::Bool(false), key);
        },
        Source::Git => {
            let a = with_default(fields, "revision"@, JsonView::Null);
            let b = with_default(a, "warn-unpinned"@, JsonView::Null);
            default_is_found(fields, "revision"@, JsonView::Null, key);
            default_is_found(a, "warn-unpinned"@, JsonView::Null, key);
            default_is_found(b, "subdirectory"@, JsonView::Null, key);
        },
        Source::Private => {
            let z = with_default(fields, "provider"@, JsonView::Null);
            let a = with_default(z, "revision"@, JsonView::Null);
            let b = with_default(a, "warn-unpinned"@, JsonView::Null);
            default_is_found(fields, "provider"@, JsonView::Null, key);
            default_is_found(z, "revision"@, JsonView::Null, key);
            default_is_found(a, "warn-unpinned"@, JsonView::Null, key);
            default_is_found(b, "subdirectory"@, JsonView::Null, key);
        },
        _ => {},
    }
}

proof fn removed_is_gone(fields: FieldsView, key: Seq<char>, other: Seq<char>)
    ensures
        field(without(fields, key), key) is None,
        other != key ==> field(without(fields, key), other) == field(fields, other),
    decreases fields.len(),
{
    if fields.len() > 0 {
        let init = fields.drop_last();
        removed_is_gone(init, key, other);
        let (k, v) = fields.last();
        let rest = without(init, key);
        assert(init.push((k, v)) =~= fields);
        pushed(init, k, v, other);
        pushed(rest, k, v, other);
        pushed(rest, k, v, key);
    } else {
        place_is_unique(fields, key, 0);
    }
}

proof fn pushed(fields: FieldsView, key: Seq<char>, value: JsonView, other: Seq<char>)
    ensures
        field(fields.push((key, value)), other) == (if field(fields, other) is Some {
            field(fields, other)
        } else if key == other {
            Some(value)
        } else {
            None
        }),
{
    let more = fields.push((key, value));
    let q = place(fields, other);
    place_is_first(fields, other);
    assert forall|i: int| 0 <= i < q implies (#[trigger] more[i]).0 != other by {
        assert(more[i] == fields[i]);
    }
    if q < fields.len() || key == other {
        place_is_unique(more, other, q);
    } else {
        place_is_unique(more, other, q + 1);
    }
}

/// What counts of a declaration: all that was made of it, its defaults and, beside them,
/// what was written; a name that is null does not count.
pub proof fn declarations_that_count(
    made: FieldsView,
    given: FieldsView,
    source: Source,
    key: Seq<char>,
)
    requires
        only_source(made) == Some(source),
    ensures
        core_value(JsonView::Object(made), JsonView::Object(given)) is Some <==> field(
            given,
            source_key(source),
        ) is Some && all_allowed(source, made) && all_allowed(source, given),
        core_value(JsonView::Object(made), JsonView::Object(given)) matches Some(v) ==> (
        v matches JsonView::Object(all) && {
            &&& field(all, "unrendered"@) == Some(JsonView::Object(given))
            &&& key != "unrendered"@ && key != "name"@ ==> field(all, key) == field(
                with_defaults(source, made),
                key,
            )
            &&& field(all, "name"@) == (if field(made, "name"@) == Some(JsonView::Null) {
                None
            } else {
                field(made, "name"@)
            })
        }),
{
    reveal_strlit("unrendered");
    reveal_strlit("name");
    reveal_strlit("install_prerelease");
    reveal_strlit("revision");
    reveal_strlit("warn-unpinned");
    reveal_strlit("subdirectory");
    reveal_strlit("provider");
    assert("unrendered"@.len() == 10 && "name"@.len() == 4 && "install_prerelease"@.len() == 18
        && "revision"@.len() == 8 && "warn-unpinned"@.len() == 13 && "subdirectory"@.len() == 12
        && "provider"@.len() == 8);
    let d = with_defaults(source, made);
    let n = named(d);
    defaults_fill_in(source, made, "name"@);
    removed_is_gone(d, "name"@, key);
    put_then_field(n, "unrendered"@, JsonView::Object(given), key);
    put_then_field(n, "unrendered"@, JsonView::Object(given), "name"@);
}

/// A declaration that is no object, or that has no one source, has no checksum.
pub proof fn other_declarations_do_not_count(made: JsonView, given: JsonView)
    ensures
        !(made is Object) || !(given is Object) ==> core_value(made, given) is None,
        made matches JsonView::Object(fields) ==> (only_source(fields) is None ==> core_value(
            made,
            given,
        ) is None),
{
}

// ---------------------------------------------------------------------------
// Checksums
// ---------------------------------------------------------------------------

/// Without packages the checksum is that of nothing; otherwise that of all declarations,
/// line by line and in order.
pub proof fn checksums_are_of_all_declarations(
    given: Seq<JsonView>,
    made: Seq<JsonView>,
    rendered: Option<Seq<JsonView>>,
)
    ensures
        core_checksum(None, rendered) == Some(sha1_text(Seq::empty())),
        core_checksum(Some(given), None) is None,
        given.len() != made.len() ==> core_checksum(Some(given), Some(made)) is None,
        given.len() == made.len() ==> (match core_texts(made, given, made.len() as int) {
            Some(lines) => core_checksum(Some(given), Some(made)) == Some(
                sha1_text(join(in_order(lines), seq!['\n'])),
            ),
            None => core_checksum(Some(given), Some(made)) is None,
        }),
        core_file_checksum(DbtPackageType::PackageYml, Some(given), rendered) == core_checksum(
            Some(given),
            rendered,
        ),
        core_file_checksum(DbtPackageType::DependenciesYml, Some(given), rendered)
            == core_checksum(Some(given), Some(given)),
{
    reveal_strlit("");
    reveal_strlit("\n");
    assert(""@ =~= Seq::empty());
    assert("\n"@ =~= seq!['\n']);
}

/// The lines of declarations, each for itself, in their order.
pub proof fn every_declaration_is_a_line(made: Seq<JsonView>, given: Seq<JsonView>, to: int)
    requires
        0 < to <= made.len(),
    ensures
        core_texts(made, given, 0) == Some(Seq::<Seq<char>>::empty()),
        core_texts(made, given, to) is Some <==> core_texts(made, given, to - 1) is Some
            && core_value(made[to - 1], given[to - 1]) is Some,
        core_texts(made, given, to) matches Some(lines) ==> lines == core_texts(
            made,
            given,
            to - 1,
        )->0.push(python(core_value(made[to - 1], given[to - 1])->0)),
{
}

// ---------------------------------------------------------------------------
// JSON as Python writes it
// ---------------------------------------------------------------------------

/// Values as Python writes them, with a blank behind commas and colons.
pub proof fn values_as_python_writes_them(n: int, s: Seq<char>)
    ensures
        python(JsonView::Null) == "null"@,
        python(JsonView::Bool(true)) == "true"@,
        python(JsonView::Bool(false)) == "false"@,
        python(JsonView::Int(n)) == decimal(n),
        python(JsonView::Real(s)) == s,
        python(JsonView::Text(s)) == quoted(s),
{
}

/// A list is its items in their order, an object its fields in the order of their keys.
pub proof fn lists_and_objects_as_python_writes_them(
    items: Seq<JsonView>,
    item: JsonView,
    fields: FieldsView,
    key: Seq<char>,
    value: JsonView,
)
    ensures
        python(JsonView::List(items)) == seq!['['] + join(python_items(items), seq![',', ' '])
            + seq![']'],
        python_items(items.push(item)) == python_items(items).push(python(item)),
        python_items(Seq::empty()).len() == 0,
        python(JsonView::Object(fields)) == seq!['{'] + join(
            texts(arranged(python_fields(fields))),
            seq![',', ' '],
        ) + seq!['}'],
        python_fields(fields.push((key, value))) == python_fields(fields).push(
            (key, quoted(key) + seq![':', ' '] + python(value)),
        ),
        python_fields(Seq::empty()).len() == 0,
{
    reveal_strlit("[");
    reveal_strlit("]");
    reveal_strlit("{");
    reveal_strlit("}");
    reveal_strlit(", ");
    reveal_strlit(": ");
    assert("["@ =~= seq!['[']);
    assert("]"@ =~= seq![']']);
    assert("{"@ =~= seq!['{']);
    assert("}"@ =~= seq!['}']);
    assert(", "@ =~= seq![',', ' ']);
    assert(": "@ =~= seq![':', ' ']);
    assert(items.push(item).drop_last() =~= items);
    assert(fields.push((key, value)).drop_last() =~= fields);
}

} // verus!
