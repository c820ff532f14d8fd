//! Where tables live in S3.

use crate::json::opt_str;
use crate::text::{
    ascii_lower, contains, first_at, first_place_exists, first_place_is_unique, has_prefix, same,
    split_once, splitted_once, stands_at, starts_with, to_ascii_lower, trim_end_char,
    trim_start_char, trimmed_end, trimmed_start,
};
use vstd::prelude::*;

verus! {

/// The Glue federated catalog under which S3 Tables buckets appear.
pub const S3_TABLES_GLUE_CATALOG_PREFIX: &'static str = "s3tablescatalog";

/// How the location of a table's data is named.
#[derive(Debug, Clone, Copy, PartialEq, Eq, Structural)]
pub enum S3DataNaming {
    Unique,
    Table,
    TableUnique,
    SchemaTable,
    SchemaTableUnique,
}

/// The naming that a configured value stands for.
pub open spec fn naming_of(value: Seq<char>) -> Option<S3DataNaming> {
    if value == "unique"@ {
        Some(S3DataNaming::Unique)
    } else if value == "table"@ {
        Some(S3DataNaming::Table)
    } else if value == "table_unique"@ {
        Some(S3DataNaming::TableUnique)
    } else if value == "schema_table"@ {
        Some(S3DataNaming::SchemaTable)
    } else if value == "schema_table_unique"@ {
        Some(S3DataNaming::SchemaTableUnique)
    } else {
        None
    }
}

impl S3DataNaming {
    /// The naming that a configured value stands for.
    pub fn parse(value: &str) -> (r: Option<S3DataNaming>)
        ensures
            r == naming_of(value@),
    {
        if same(value, "unique") {
            Some(S3DataNaming::Unique)
        } else if same(value, "table") {
            Some(S3DataNaming::Table)
        } else if same(value, "table_unique") {
            Some(S3DataNaming::TableUnique)
        } else if same(value, "schema_table") {
            Some(S3DataNaming::SchemaTable)
        } else if same(value, "schema_table_unique") {
            Some(S3DataNaming::SchemaTableUnique)
        } else {
            None
        }
    }
}

/// A database of S3 Tables: its name starts with the catalog prefix and a slash, whatever
/// the case of its letters.
pub open spec fn in_s3_tables(database: Option<Seq<char>>) -> bool {
    match database {
        Some(d) => starts_with(ascii_lower(d), S3_TABLES_GLUE_CATALOG_PREFIX@ + "/"@),
        None => false,
    }
}

pub fn is_s3_tables_database(database: Option<&str>) -> (r: bool)
    ensures
        r == in_s3_tables(opt_str(database)),
{
    match database {
        Some(d) => {
            let prefix = S3_TABLES_GLUE_CATALOG_PREFIX.to_owned().concat("/");
            has_prefix(to_ascii_lower(d).as_str(), prefix.as_str())
        },
        None => false,
    }
}

/// Two parts of an S3 URI with one slash between them.
pub open spec fn s3_join(base: Seq<char>, part: Seq<char>) -> Seq<char> {
    trim_end_char(base, '/') + "/"@ + part
}

fn join_s3(base: &str, part: &str) -> (r: String)
    ensures
        r@ == s3_join(base@, part@),
{
    trimmed_end(base, '/').concat("/").concat(part)
}

/// A text that is there and not empty.
pub open spec fn filled(s: Option<Seq<char>>) -> bool {
    s is Some && s->0.len() > 0
}

/// The directory that tables of a model are placed under: the temporary directory of the
/// model or else of the profile for a temporary table, then the data directory, then
/// `tables` under the staging directory.
pub open spec fn table_prefix(
    s3_staging_dir: Seq<char>,
    profile_s3_tmp_table_dir: Option<Seq<char>>,
    s3_data_dir: Option<Seq<char>>,
    s3_tmp_table_dir: Option<Seq<char>>,
    is_temporary_table: bool,
) -> Seq<char> {
    if is_temporary_table && filled(s3_tmp_table_dir) {
        s3_tmp_table_dir->0
    } else if is_temporary_table && filled(profile_s3_tmp_table_dir) {
        profile_s3_tmp_table_dir->0
    } else {
        match s3_data_dir {
            Some(dir) => dir,
            None => s3_join(s3_staging_dir, "tables"@),
        }
    }
}

pub fn s3_table_prefix(
    s3_staging_dir: &str,
    profile_s3_tmp_table_dir: Option<&str>,
    s3_data_dir: Option<&str>,
    s3_tmp_table_dir: Option<&str>,
    is_temporary_table: bool,
) -> (r: String)
    ensures
        r@ == table_prefix(
            s3_staging_dir@,
            opt_str(profile_s3_tmp_table_dir),
            opt_str(s3_data_dir),
            opt_str(s3_tmp_table_dir),
            is_temporary_table,
        ),
{
    if is_temporary_table {
        if let Some(dir) = s3_tmp_table_dir {
            if !dir.is_empty() {
                return dir.to_owned();
            }
        }
        if let Some(dir) = profile_s3_tmp_table_dir {
            if !dir.is_empty() {
                return dir.to_owned();
            }
        }
    }
    match s3_data_dir {
        Some(dir) => dir.to_owned(),
        None => join_s3(s3_staging_dir, "tables"),
    }
}

/// The location of a table by a naming: the parts that the naming names, under the prefix.
pub open spec fn named_location(
    schema: Seq<char>,
    identifier: Seq<char>,
    prefix: Seq<char>,
    naming: S3DataNaming,
    unique: Seq<char>,
) -> Seq<char> {
    match naming {
        S3DataNaming::Unique => s3_join(prefix, unique),
        S3DataNaming::Table => s3_join(prefix, identifier),
        S3DataNaming::TableUnique => s3_join(s3_join(prefix, identifier), unique),
        S3DataNaming::SchemaTable => s3_join(s3_join(prefix, schema), identifier),
        S3DataNaming::SchemaTableUnique => s3_join(
            s3_join(s3_join(prefix, schema), identifier),
            unique,
        ),
    }
}

/// The location of a table: its external location where it has one and is not temporary,
/// else the location by its naming.
pub open spec fn table_location(
    schema: Seq<char>,
    identifier: Seq<char>,
    prefix: Seq<char>,
    naming: S3DataNaming,
    external_location: Option<Seq<char>>,
    is_temporary_table: bool,
    unique: Seq<char>,
) -> Seq<char> {
    if filled(external_location) && !is_temporary_table {
        trim_end_char(external_location->0, '/')
    } else {
        named_location(schema, identifier, prefix, naming, unique)
    }
}

pub fn generate_s3_location(
    schema: &str,
    identifier: &str,
    table_prefix: &str,
    naming: S3DataNaming,
    external_location: Option<&str>,
    is_temporary_table: bool,
    unique: &str,
) -> (r: String)
    ensures
        r@ == table_location(
            schema@,
            identifier@,
            table_prefix@,
            naming,
            opt_str(external_location),
            is_temporary_table,
            unique@,
        ),
{
    if let Some(external) = external_location {
        if !external.is_empty() && !is_temporary_table {
            return trimmed_end(external, '/');
        }
    }
    match naming {
        S3DataNaming::Unique => join_s3(table_prefix, unique),
        S3DataNaming::Table => join_s3(table_prefix, identifier),
        S3DataNaming::TableUnique => join_s3(
            join_s3(table_prefix, identifier).as_str(),
            unique,
        ),
        S3DataNaming::SchemaTable => join_s3(join_s3(table_prefix, schema).as_str(), identifier),
        S3DataNaming::SchemaTableUnique => join_s3(
            join_s3(join_s3(table_prefix, schema).as_str(), identifier).as_str(),
            unique,
        ),
    }
}

/// What stands behind the scheme of a URI.
pub open spec fn without_scheme(s3_path: Seq<char>) -> Seq<char> {
    match split_once(s3_path, "://"@) {
        Some((_, rest)) => rest,
        None => s3_path,
    }
}

pub open spec fn bucket_of(s3_path: Seq<char>) -> Seq<char> {
    match split_once(without_scheme(s3_path), "/"@) {
        Some((bucket, _)) => bucket,
        None => without_scheme(s3_path),
    }
}

/// The key prefix of a path, with one slash at its end and none at its start.
pub open spec fn prefix_of(s3_path: Seq<char>) -> Seq<char> {
    let path = match split_once(without_scheme(s3_path), "/"@) {
        Some((_, path)) => path,
        None => ""@,
    };
    trim_end_char(trim_start_char(path, '/'), '/') + "/"@
}

/// The bucket and the key prefix of an S3 path: `s3://bucket/a/b` is `bucket` and `a/b/`.
pub fn parse_s3_path(s3_path: &str) -> (r: (String, String))
    ensures
        r.0@ == bucket_of(s3_path@),
        r.1@ == prefix_of(s3_path@),
{
    let rest = match splitted_once(s3_path, "://") {
        Some((_, rest)) => rest,
        None => s3_path.to_owned(),
    };
    let (bucket, path) = match splitted_once(rest.as_str(), "/") {
        Some(parts) => parts,
        None => (rest.clone(), "".to_owned()),
    };
    let inner = trimmed_end(trimmed_start(path.as_str(), '/').as_str(), '/');
    (bucket, inner.concat("/"))
}

// ---------------------------------------------------------------------------
// Paths with and without a slash at their end
// ---------------------------------------------------------------------------

proof fn stands_further(s: Seq<char>, pat: Seq<char>, t: Seq<char>, i: int)
    requires
        i + pat.len() <= s.len(),
    ensures
        stands_at(s + t, pat, i) <==> stands_at(s, pat, i),
{
    if 0 <= i {
        assert((s + t).subrange(i, i + pat.len()) =~= s.subrange(i, i + pat.len()));
    }
}

/// What stands behind the first place of a pattern goes on with what is added to the text.
proof fn split_goes_on(s: Seq<char>, pat: Seq<char>, t: Seq<char>)
    requires
        contains(s, pat),
    ensures
        split_once(s, pat) matches Some((front, back)) && split_once(s + t, pat) == Some(
            (front, back + t),
        ),
{
    first_place_exists(s, pat);
    let i = choose|i: int| first_at(s, pat, i);
    stands_further(s, pat, t, i);
    assert forall|j: int| 0 <= j < i implies !stands_at(s + t, pat, j) by {
        stands_further(s, pat, t, j);
        assert(!stands_at(s, pat, j));
    }
    assert(first_at(s + t, pat, i));
    first_place_is_unique(s + t, pat, i);
    assert((s + t).take(i) =~= s.take(i));
    assert((s + t).skip(i + pat.len()) =~= s.skip(i + pat.len()) + t);
}

proof fn slash_stands(s: Seq<char>, i: int)
    ensures
        stands_at(s, "/"@, i) <==> 0 <= i < s.len() && s[i] == '/',
{
    reveal_strlit("/");
    if 0 <= i < s.len() {
        if s[i] == '/' {
            assert(s.subrange(i, i + 1) =~= "/"@);
        } else {
            assert(s.subrange(i, i + 1)[0] == s[i]);
        }
    }
}

proof fn trim_start_stops(s: Seq<char>, t: char)
    ensures
        trim_start_char(s, t).len() > 0 ==> trim_start_char(s, t)[0] != t && trim_start_char(
            s.push(t),
            t,
        ) == trim_start_char(s, t).push(t),
        trim_start_char(s, t).len() == 0 ==> trim_start_char(s.push(t), t).len() == 0,
    decreases s.len(),
{
    let more = s.push(t);
    if s.len() == 0 {
        assert(more.drop_first() =~= Seq::empty());
        assert(trim_start_char(more.drop_first(), t) =~= Seq::empty());
    } else if s[0] == t {
        assert(more.drop_first() =~= s.drop_first().push(t));
        trim_start_stops(s.drop_first(), t);
    }
}

proof fn trim_end_stops(s: Seq<char>, t: char)
    ensures
        trim_end_char(s.push(t), t) == trim_end_char(s, t),
        trim_end_char(s, t).len() <= s.len(),
        trim_end_char(s, t) == s.take(trim_end_char(s, t).len() as int),
        trim_end_char(s, t).len() > 0 ==> trim_end_char(s, t).last() != t,
    decreases s.len(),
{
    assert(s.push(t).drop_last() =~= s);
    if s.len() > 0 && s.last() == t {
        trim_end_stops(s.drop_last(), t);
        let n = trim_end_char(s, t).len() as int;
        assert(s.drop_last().take(n) =~= s.take(n));
    } else {
        assert(s.take(s.len() as int) =~= s);
    }
}

/// The path between the bucket and the end, without slashes at its ends.
pub open spec fn inner_path(path: Seq<char>) -> Seq<char> {
    trim_end_char(trim_start_char(path, '/'), '/')
}

proof fn inner_path_stays(path: Seq<char>)
    ensures
        inner_path(path.push('/')) == inner_path(path),
        inner_path(path).len() > 0 ==> inner_path(path)[0] != '/' && inner_path(path).last() != '/',
{
    let a = trim_start_char(path, '/');
    trim_start_stops(path, '/');
    trim_end_stops(a, '/');
    if a.len() == 0 {
        assert(a =~= Seq::empty());
        assert(trim_start_char(path.push('/'), '/') =~= a);
    }
}

/// A path of S3 with a slash at its end stands for the same bucket and prefix as without.
/// A bucket holds no slash; a prefix ends in one slash, and starts with one only where it
/// is nothing else.
pub proof fn a_slash_at_the_end_is_ignored(s3_path: Seq<char>)
    requires
        contains(s3_path, "://"@),
    ensures
        bucket_of(s3_path.push('/')) == bucket_of(s3_path),
        prefix_of(s3_path.push('/')) == prefix_of(s3_path),
        !bucket_of(s3_path).contains('/'),
        ({
            let x = prefix_of(s3_path);
            &&& x.len() > 0 && x.last() == '/'
            &&& x.len() > 1 ==> x[x.len() - 2] != '/' && x[0] != '/'
        }),
{
    reveal_strlit("/");
    assert(s3_path.push('/') =~= s3_path + seq!['/']);
    split_goes_on(s3_path, "://"@, seq!['/']);
    let rest = without_scheme(s3_path);
    assert(without_scheme(s3_path.push('/')) == rest + seq!['/']);
    let bucket = bucket_of(s3_path);
    if contains(rest, "/"@) {
        split_goes_on(rest, "/"@, seq!['/']);
        let (_, path) = split_once(rest, "/"@)->0;
        assert(path.push('/') =~= path + seq!['/']);
        inner_path_stays(path);
        first_place_exists(rest, "/"@);
        let i = choose|i: int| first_at(rest, "/"@, i);
        if bucket.contains('/') {
            let k = choose|k: int| 0 <= k < bucket.len() && bucket[k] == '/';
            slash_stands(rest, k);
            assert(stands_at(rest, "/"@, k));
        }
    } else {
        let n = rest.len() as int;
        slash_stands(rest + seq!['/'], n);
        assert forall|j: int| 0 <= j < n implies !stands_at(rest + seq!['/'], "/"@, j) by {
            slash_stands(rest + seq!['/'], j);
            slash_stands(rest, j);
            assert(!stands_at(rest, "/"@, j));
        }
        assert(first_at(rest + seq!['/'], "/"@, n));
        first_place_is_unique(rest + seq!['/'], "/"@, n);
        assert((rest + seq!['/']).take(n) =~= rest);
        assert((rest + seq!['/']).skip(n + 1) =~= Seq::empty());
        reveal_strlit("");
        assert(""@ =~= Seq::<char>::empty());
        inner_path_stays(""@);
        if bucket.contains('/') {
            let k = choose|k: int| 0 <= k < bucket.len() && bucket[k] == '/';
            slash_stands(rest, k);
            assert(stands_at(rest, "/"@, k));
        }
    }
}

} // verus!
