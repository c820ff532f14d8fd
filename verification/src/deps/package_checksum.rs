//! Checksums of package declarations.

use crate::deps::python_json::{python, python_json};
use crate::json::{field, opt, put, Fields, FieldsView, Json, JsonView};
use crate::ordered::{arranged, arranging_sorts, keyed, members, one_order_is_sorted, place};
use crate::text::{join, joined, same, views};
use vstd::prelude::*;

verus! {

/// The SHA-1 digest of a text in UTF-8, as lower case hexadecimal digits.
pub uninterp spec fn sha1_text(s: Seq<char>) -> Seq<char>;

/// `sha1::Sha1::digest` of the bytes of a text, formatted with `{:x}`. The digest itself is
/// left to the name.
#[verifier::external_body]
fn sha1_hex(value: &str) -> (r: String)
    ensures
        r@ == sha1_text(value@),
        r@.len() == 40,
{
    format!("{:x}", <sha1::Sha1 as sha1::Digest>::digest(value.as_bytes()))
}

// ---------------------------------------------------------------------------
// Sorting declarations
// ---------------------------------------------------------------------------

pub open spec fn marked(texts: Seq<Seq<char>>) -> Seq<(Seq<char>, ())> {
    texts.map_values(|t: Seq<char>| (t, ()))
}

/// Texts in their order.
pub open spec fn in_order(texts: Seq<Seq<char>>) -> Seq<Seq<char>> {
    members(arranged(marked(texts)))
}

fn sort_texts(texts: &Vec<String>) -> (r: Vec<String>)
    ensures
        views(r@) == in_order(views(texts@)),
{
    let ghost all = marked(views(texts@));
    let mut placed_texts: Vec<(String, ())> = Vec::new();
    let mut i: usize = 0;
    assert(keyed(placed_texts@) =~= arranged(all.take(0)));
    while i < texts.len()
        invariant
            i <= texts.len(),
            all == marked(views(texts@)),
            keyed(placed_texts@) == arranged(all.take(i as int)),
        decreases texts.len() - i,
    {
        assert(all.take(i + 1).drop_last() =~= all.take(i as int));
        assert(all.take(i + 1).last() == (texts@[i as int]@, ()));
        place(&mut placed_texts, texts[i].clone(), ());
        i += 1;
    }
    assert(all.take(i as int) =~= all);
    let ghost sorted_texts = members(keyed(placed_texts@));
    let mut r: Vec<String> = Vec::new();
    let mut j: usize = 0;
    while j < placed_texts.len()
        invariant
            j <= placed_texts.len(),
            sorted_texts == members(keyed(placed_texts@)),
            views(r@) =~= sorted_texts.take(j as int),
        decreases placed_texts.len() - j,
    {
        let ghost prior = views(r@);
        r.push(placed_texts[j].0.clone());
        assert(sorted_texts[j as int] == placed_texts@[j as int].0@);
        assert(views(r@) =~= prior.push(sorted_texts[j as int]));
        assert(sorted_texts.take(j + 1) =~= prior.push(sorted_texts[j as int]));
        j += 1;
    }
    assert(sorted_texts.take(j as int) =~= sorted_texts);
    r
}

/// The order in which texts are given makes no difference.
pub proof fn in_order_forgets_the_order(a: Seq<Seq<char>>, b: Seq<Seq<char>>)
    requires
        marked(a).to_multiset() =~= marked(b).to_multiset(),
    ensures
        in_order(a) == in_order(b),
{
    arranging_sorts(marked(a));
    arranging_sorts(marked(b));
    one_order_is_sorted(arranged(marked(a)), arranged(marked(b)));
}

// ---------------------------------------------------------------------------
// The engine's own checksum
// ---------------------------------------------------------------------------

/// The lines that are hashed: the declarations in their order, and a line for downloads of
/// another version, so that switching to them installs anew.
pub open spec fn hashed_lines(declarations: Seq<Seq<char>>, v2: bool) -> Seq<Seq<char>> {
    if v2 {
        in_order(declarations).push("use_v2_compatible_package_downloads: true"@)
    } else {
        in_order(declarations)
    }
}

/// The checksum of package declarations, each given as JSON text.
pub fn fusion_sha1_hash_packages(
    packages: &Vec<String>,
    use_v2_compatible_package_downloads: bool,
) -> (r: String)
    ensures
        r@ == sha1_text(
            join(hashed_lines(views(packages@), use_v2_compatible_package_downloads), "\n"@),
        ),
{
    let mut lines = sort_texts(packages);
    if use_v2_compatible_package_downloads {
        let ghost prior = views(lines@);
        lines.push("use_v2_compatible_package_downloads: true".to_owned());
        assert(views(lines@) =~= prior.push("use_v2_compatible_package_downloads: true"@));
    }
    sha1_hex(joined(&lines, "\n").as_str())
}

// ---------------------------------------------------------------------------
// dbt Core's checksum
// ---------------------------------------------------------------------------

/// What a package is declared by.
#[derive(Debug, Clone, Copy, PartialEq, Eq, Structural)]
pub enum Source {
    Package,
    Git,
    Local,
    Private,
    Tarball,
}

pub open spec fn source_key(source: Source) -> Seq<char> {
    match source {
        Source::Package => "package"@,
        Source::Git => "git"@,
        Source::Local => "local"@,
        Source::Private => "private"@,
        Source::Tarball => "tarball"@,
    }
}

pub open spec fn count(b: bool) -> int {
    if b {
        1
    } else {
        0
    }
}

pub open spec fn declares(fields: FieldsView, key: Seq<char>) -> bool {
    field(fields, key) is Some
}

/// What a package is declared by, where that is one thing.
pub open spec fn only_source(fields: FieldsView) -> Option<Source> {
    if count(declares(fields, "package"@)) + count(declares(fields, "git"@)) + count(
        declares(fields, "local"@),
    ) + count(declares(fields, "private"@)) + count(declares(fields, "tarball"@)) != 1 {
        None
    } else if declares(fields, "package"@) {
        Some(Source::Package)
    } else if declares(fields, "git"@) {
        Some(Source::Git)
    } else if declares(fields, "local"@) {
        Some(Source::Local)
    } else if declares(fields, "private"@) {
        Some(Source::Private)
    } else {
        Some(Source::Tarball)
    }
}

/// The keys that a declaration may have.
pub open spec fn allowed(source: Source, key: Seq<char>) -> bool {
    key == "name"@ || match source {
        Source::Package => key == "package"@ || key == "version"@ || key == "install_prerelease"@,
        Source::Git => key == "git"@ || key == "revision"@ || key == "warn-unpinned"@ || key
            == "subdirectory"@,
        Source::Local => key == "local"@,
        Source::Private => key == "private"@ || key == "provider"@ || key == "revision"@ || key
            == "warn-unpinned"@ || key == "subdirectory"@,
        Source::Tarball => key == "tarball"@,
    }
}

pub open spec fn all_allowed(source: Source, fields: FieldsView) -> bool {
    forall|i: int| 0 <= i < fields.len() ==> allowed(source, (#[trigger] fields[i]).0)
}

/// The fields with one that they lack.
pub open spec fn with_default(fields: FieldsView, key: Seq<char>, value: JsonView) -> FieldsView {
    if declares(fields, key) {
        fields
    } else {
        fields.push((key, value))
    }
}

/// The fields with what a declaration has by default.
pub open spec fn with_defaults(source: Source, fields: FieldsView) -> FieldsView {
    match source {
        Source::Package => with_default(fields, "install_prerelease"@, JsonView::Bool(false)),
        Source::Git => with_default(
            with_default(
                with_default(fields, "revision"@, JsonView::Null),
                "warn-unpinned"@,
                JsonView::Null,
            ),
            "subdirectory"@,
            JsonView::Null,
        ),
        Source::Private => with_default(
            with_default(
                with_default(
                    with_default(fields, "provider"@, JsonView::Null),
                    "revision"@,
                    JsonView::Null,
                ),
                "warn-unpinned"@,
                JsonView::Null,
            ),
            "subdirectory"@,
            JsonView::Null,
        ),
        _ => fields,
    }
}

/// The fields without those of a name.
pub open spec fn without(fields: FieldsView, key: Seq<char>) -> FieldsView
    decreases fields.len(),
{
    if fields.len() == 0 {
        Seq::empty()
    } else {
        let rest = without(fields.drop_last(), key);
        if fields.last().0 == key {
            rest
        } else {
            rest.push(fields.last())
        }
    }
}

/// The fields without a name that is null.
pub open spec fn named(fields: FieldsView) -> FieldsView {
    if field(fields, "name"@) == Some(JsonView::Null) {
        without(fields, "name"@)
    } else {
        fields
    }
}

/// The declaration that dbt Core hashes, where it is of a known shape.
pub open spec fn core_value(rendered: JsonView, unrendered: JsonView) -> Option<JsonView> {
    match (rendered, unrendered) {
        (JsonView::Object(made), JsonView::Object(given)) => match only_source(made) {
            None => None,
            Some(source) => if !declares(given, source_key(source)) || !all_allowed(source, made)
                || !all_allowed(source, given) {
                None
            } else {
                Some(
                    JsonView::Object(
                        put(
                            named(with_defaults(source, made)),
                            "unrendered"@,
                            JsonView::Object(given),
                        ),
                    ),
                )
            },
        },
        _ => None,
    }
}

/// The texts of the declarations up to a place, where all are of a known shape.
pub open spec fn core_texts(
    rendered: Seq<JsonView>,
    unrendered: Seq<JsonView>,
    to: int,
) -> Option<Seq<Seq<char>>>
    decreases to,
{
    if to <= 0 || to > rendered.len() {
        Some(Seq::empty())
    } else {
        match (
            core_texts(rendered, unrendered, to - 1),
            core_value(rendered[to - 1], unrendered[to - 1]),
        ) {
            (Some(rest), Some(v)) => Some(rest.push(python(v))),
            _ => None,
        }
    }
}

/// dbt Core's checksum of a package file, by its packages as they are written and as they
/// are rendered, where each of them is a list.
pub open spec fn core_checksum(
    unrendered: Option<Seq<JsonView>>,
    rendered: Option<Seq<JsonView>>,
) -> Option<Seq<char>> {
    match (unrendered, rendered) {
        (None, _) => Some(sha1_text(""@)),
        (Some(given), Some(made)) => if given.len() != made.len() {
            None
        } else {
            match core_texts(made, given, made.len() as int) {
                Some(texts) => Some(sha1_text(join(in_order(texts), "\n"@))),
                None => None,
            }
        },
        _ => None,
    }
}

fn object_fields(value: &Json) -> (r: Option<Fields>)
    ensures
        match (r, value@) {
            (Some(f), JsonView::Object(fields)) => f@ == fields,
            (None, JsonView::Object(_)) => false,
            (None, _) => true,
            _ => false,
        },
{
    match value {
        Json::Object(pairs) => {
            proof {
                crate::json::object_view_is(*pairs);
            }
            match value.copy() {
                Json::Object(copied) => {
                    proof {
                        crate::json::object_view_is(copied);
                    }
                    Some(Fields { pairs: copied })
                },
                _ => None,
            }
        },
        _ => None,
    }
}

fn has_field(fields: &Fields, key: &str) -> (r: bool)
    ensures
        r == declares(fields@, key@),
{
    fields.get(key).is_some()
}

fn source_of(fields: &Fields) -> (r: Option<Source>)
    ensures
        r == only_source(fields@),
{
    let package = has_field(fields, "package");
    let git = has_field(fields, "git");
    let local = has_field(fields, "local");
    let private = has_field(fields, "private");
    let tarball = has_field(fields, "tarball");
    if package {
        if git || local || private || tarball {
            None
        } else {
            Some(Source::Package)
        }
    } else if git {
        if local || private || tarball {
            None
        } else {
            Some(Source::Git)
        }
    } else if local {
        if private || tarball {
            None
        } else {
            Some(Source::Local)
        }
    } else if private {
        if tarball {
            None
        } else {
            Some(Source::Private)
        }
    } else if tarball {
        Some(Source::Tarball)
    } else {
        None
    }
}

fn key_of(source: Source) -> (r: &'static str)
    ensures
        r@ == source_key(source),
{
    match source {
        Source::Package => "package",
        Source::Git => "git",
        Source::Local => "local",
        Source::Private => "private",
        Source::Tarball => "tarball",
    }
}

fn is_allowed(source: Source, key: &str) -> (r: bool)
    ensures
        r == allowed(source, key@),
{
    same(key, "name") || match source {
        Source::Package => same(key, "package") || same(key, "version") || same(
            key,
            "install_prerelease",
        ),
        Source::Git => same(key, "git") || same(key, "revision") || same(key, "warn-unpinned")
            || same(key, "subdirectory"),
        Source::Local => same(key, "local"),
        Source::Private => same(key, "private") || same(key, "provider") || same(key, "revision")
            || same(key, "warn-unpinned") || same(key, "subdirectory"),
        Source::Tarball => same(key, "tarball"),
    }
}

fn are_allowed(source: Source, fields: &Fields) -> (r: bool)
    ensures
        r == all_allowed(source, fields@),
{
    let mut i: usize = 0;
    while i < fields.pairs.len()
        invariant
            i <= fields.pairs.len(),
            forall|k: int| 0 <= k < i ==> allowed(source, (#[trigger] fields@[k]).0),
        decreases fields.pairs.len() - i,
    {
        assert(fields@[i as int].0 == fields.pairs@[i as int].0@);
        if !is_allowed(source, fields.pairs[i].0.as_str()) {
            return false;
        }
        i += 1;
    }
    true
}

fn default_to(fields: Fields, key: &str, value: Json) -> (r: Fields)
    ensures
        r@ == with_default(fields@, key@, value@),
{
    if has_field(&fields, key) {
        fields
    } else {
        fields.with(key, value)
    }
}

fn insert_defaults(source: Source, fields: Fields) -> (r: Fields)
    ensures
        r@ == with_defaults(source, fields@),
{
    match source {
        Source::Package => default_to(fields, "install_prerelease", Json::Bool(false)),
        Source::Git => default_to(
            default_to(
                default_to(fields, "revision", Json::Null),
                "warn-unpinned",
                Json::Null,
            ),
            "subdirectory",
            Json::Null,
        ),
        Source::Private => default_to(
            default_to(
                default_to(
                    default_to(fields, "provider", Json::Null),
                    "revision",
                    Json::Null,
                ),
                "warn-unpinned",
                Json::Null,
            ),
            "subdirectory",
            Json::Null,
        ),
        _ => fields,
    }
}

fn remove_field(fields: &Fields, key: &str) -> (r: Fields)
    ensures
        r@ == without(fields@, key@),
{
    let ghost all = fields@;
    let mut r = Fields::new();
    let mut i: usize = 0;
    assert(r@ =~= without(all.take(0), key@));
    while i < fields.pairs.len()
        invariant
            i <= fields.pairs.len(),
            all == fields@,
            r@ == without(all.take(i as int), key@),
        decreases fields.pairs.len() - i,
    {
        assert(all.take(i + 1).drop_last() =~= all.take(i as int));
        assert(all.take(i + 1).last() == (
            fields.pairs@[i as int].0@,
            fields.pairs@[i as int].1@,
        ));
        let (name, value) = &fields.pairs[i];
        if !same(name.as_str(), key) {
            r = r.with(name.as_str(), value.copy());
        }
        i += 1;
    }
    assert(all.take(i as int) =~= all);
    r
}

fn without_null_name(fields: Fields) -> (r: Fields)
    ensures
        r@ == named(fields@),
{
    let null = match fields.get("name") {
        Some(v) => v.is_null(),
        None => false,
    };
    if null {
        remove_field(&fields, "name")
    } else {
        fields
    }
}

pub fn core_package_value(rendered: &Json, unrendered: &Json) -> (r: Option<Json>)
    ensures
        match (r, core_value(rendered@, unrendered@)) {
            (Some(v), Some(w)) => v@ == w,
            (None, None) => true,
            _ => false,
        },
{
    let (made, given) = match (object_fields(rendered), object_fields(unrendered)) {
        (Some(a), Some(b)) => (a, b),
        _ => {
            return None;
        },
    };
    let source = match source_of(&made) {
        Some(s) => s,
        None => {
            return None;
        },
    };
    if !has_field(&given, key_of(source)) || !are_allowed(source, &made) || !are_allowed(
        source,
        &given,
    ) {
        return None;
    }
    let whole = without_null_name(insert_defaults(source, made));
    Some(whole.set("unrendered", given.object()).object())
}

pub open spec fn lists_view(items: Option<&Vec<Json>>) -> Option<Seq<JsonView>> {
    match items {
        Some(v) => Some(crate::json::items_view(v@)),
        None => None,
    }
}

/// Calculate dbt Core's checksum for common package declarations.
///
/// <https://github.com/dbt-labs/dbt-core/blob/d97d5c5b711e61eb8c486083aa1c84ec041808cf/core/dbt/task/deps.py#L42-L56>
///
/// Core renders Jinja in `packages.yml` before hashing but leaves `dependencies.yml` literal.
///
/// Compatibility is intentionally best effort. Python number coercion and float formatting
/// are not reproduced and may cause checksum mismatches. Other YAML/schema
/// differences are not normalized: PyYAML boolean aliases (`yes`/`no`/`on`/`off`) are unsupported,
/// and schema defaults/coercions are reproduced only for the known package fields.
/// Unsupported shapes return `None`; other differences can yield a checksum mismatch, causing
/// normal resolution.
pub fn core_sha1_hash_packages(
    unrendered: Option<&Vec<Json>>,
    rendered: Option<&Vec<Json>>,
) -> (r: Option<String>)
    ensures
        opt(r) == core_checksum(lists_view(unrendered), lists_view(rendered)),
{
    let given = match unrendered {
        Some(v) => v,
        None => {
            return Some(sha1_hex(""));
        },
    };
    let made = match rendered {
        Some(v) => v,
        None => {
            return None;
        },
    };
    let ghost a = crate::json::items_view(made@);
    let ghost b = crate::json::items_view(given@);
    if given.len() != made.len() {
        return None;
    }
    let mut texts: Vec<String> = Vec::new();
    let mut i: usize = 0;
    assert(views(texts@) =~= Seq::empty());
    while i < made.len()
        invariant
            i <= made.len(),
            made.len() == given.len(),
            unrendered == Some(given),
            rendered == Some(made),
            a == crate::json::items_view(made@),
            b == crate::json::items_view(given@),
            core_texts(a, b, i as int) == Some(views(texts@)),
        decreases made.len() - i,
    {
        assert(a[i as int] == made@[i as int]@);
        assert(b[i as int] == given@[i as int]@);
        match core_package_value(&made[i], &given[i]) {
            Some(v) => {
                let ghost prior = views(texts@);
                let text = python_json(&v);
                let ghost added = text@;
                texts.push(text);
                assert(views(texts@) =~= prior.push(added));
            },
            None => {
                proof {
                    unknown_stays(a, b, i + 1, a.len() as int);
                }
                return None;
            },
        }
        i += 1;
    }
    Some(sha1_hex(joined(&sort_texts(&texts), "\n").as_str()))
}

/// The file that declares the packages of a project.
#[derive(Debug, Clone, Copy, PartialEq, Eq, Structural)]
pub enum DbtPackageType {
    PackageYml,
    DependenciesYml,
}

/// Core's checksum of a file of packages: `packages.yml` is taken as it is rendered,
/// `dependencies.yml` as it stands.
pub open spec fn core_file_checksum(
    package_type: DbtPackageType,
    unrendered: Option<Seq<JsonView>>,
    rendered: Option<Seq<JsonView>>,
) -> Option<Seq<char>> {
    match package_type {
        DbtPackageType::PackageYml => core_checksum(unrendered, rendered),
        DbtPackageType::DependenciesYml => core_checksum(unrendered, unrendered),
    }
}

/// Calculate dbt Core's checksum of a file of packages. What the file declares is given
/// as it stands and as it is rendered.
pub fn core_sha1_hash_package_file(
    package_type: DbtPackageType,
    unrendered: Option<&Vec<Json>>,
    rendered: Option<&Vec<Json>>,
) -> (r: Option<String>)
    ensures
        opt(r) == core_file_checksum(package_type, lists_view(unrendered), lists_view(rendered)),
{
    match package_type {
        DbtPackageType::PackageYml => core_sha1_hash_packages(unrendered, rendered),
        DbtPackageType::DependenciesYml => core_sha1_hash_packages(unrendered, unrendered),
    }
}

/// What a template in `dependencies.yml` would render to has no part in its checksum.
pub proof fn dependencies_are_literal(
    unrendered: Option<Seq<JsonView>>,
    a: Option<Seq<JsonView>>,
    b: Option<Seq<JsonView>>,
)
    ensures
        core_file_checksum(DbtPackageType::DependenciesYml, unrendered, a) == core_file_checksum(
            DbtPackageType::DependenciesYml,
            unrendered,
            b,
        ),
{
}

proof fn unknown_stays(
    rendered: Seq<JsonView>,
    unrendered: Seq<JsonView>,
    from: int,
    to: int,
)
    requires
        0 <= from <= to <= rendered.len(),
        core_texts(rendered, unrendered, from) is None,
    ensures
        core_texts(rendered, unrendered, to) is None,
    decreases to,
{
    if from < to {
        unknown_stays(rendered, unrendered, from, to - 1);
    }
}

} // verus!
