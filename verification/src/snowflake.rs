//! Statements on Snowflake tables.

use crate::relation::{rendered, Relation, RelationView};
use vstd::prelude::*;

verus! {

pub open spec fn lifecycle(transient: bool) -> Seq<char> {
    if transient {
        "transient "@
    } else {
        ""@
    }
}

pub open spec fn clone_sql(
    destination: RelationView,
    source: RelationView,
    transient: bool,
) -> Seq<char> {
    "create "@ + lifecycle(transient) + "table "@ + rendered(destination) + " clone "@ + rendered(
        source,
    )
}

pub open spec fn claim_sql(destination: RelationView, transient: bool) -> Seq<char> {
    "create "@ + lifecycle(transient) + "table "@ + rendered(destination)
        + " (__DBT_WAP_PLACEHOLDER boolean)"@
}

pub fn lifecycle_of(transient: bool) -> (r: &'static str)
    ensures
        r@ == lifecycle(transient),
{
    if transient {
        "transient "
    } else {
        ""
    }
}

/// Create a working clone without replacing an existing destination or copying grants.
pub fn create_table_clone_sql(
    destination: &Relation,
    source: &Relation,
    transient: bool,
) -> (r: String)
    ensures
        r@ == clone_sql(destination@, source@, transient),
{
    "create ".to_owned().concat(lifecycle_of(transient)).concat("table ").concat(
        destination.render_self_as_str().as_str(),
    ).concat(" clone ").concat(source.render_self_as_str().as_str())
}

/// Reserve a working-table name atomically before its first materialization.
/// The table that is built replaces this empty placeholder before any audit runs.
pub fn create_table_claim_sql(destination: &Relation, transient: bool) -> (r: String)
    ensures
        r@ == claim_sql(destination@, transient),
{
    "create ".to_owned().concat(lifecycle_of(transient)).concat("table ").concat(
        destination.render_self_as_str().as_str(),
    ).concat(" (__DBT_WAP_PLACEHOLDER boolean)")
}

/// The statement that replaces a table by a clone of another one.
pub open spec fn replace_sql(
    destination: RelationView,
    source: RelationView,
    transient: bool,
    copy_grants: bool,
) -> Seq<char> {
    "create or replace "@ + lifecycle(transient) + "table "@ + rendered(destination) + " clone "@
        + rendered(source) + (if copy_grants {
        " copy grants"@
    } else {
        ""@
    })
}

/// Replace the public table by its audited working table.
pub fn create_or_replace_clone_sql(
    destination: &Relation,
    source: &Relation,
    transient: bool,
    copy_grants: bool,
) -> (r: String)
    ensures
        r@ == replace_sql(destination@, source@, transient, copy_grants),
{
    "create or replace ".to_owned().concat(lifecycle_of(transient)).concat("table ").concat(
        destination.render_self_as_str().as_str(),
    ).concat(" clone ").concat(source.render_self_as_str().as_str()).concat(
        if copy_grants {
            " copy grants"
        } else {
            ""
        },
    )
}

/// The statement that builds a table from a query.
pub open spec fn build_sql(destination: RelationView, query: Seq<char>, transient: bool) -> Seq<
    char,
> {
    "create or replace "@ + lifecycle(transient) + "table "@ + rendered(destination) + " as ("@
        + query + " ) ;"@
}

/// Build a table from a query.
pub fn create_table_as_sql(destination: &Relation, query: &str, transient: bool) -> (r: String)
    ensures
        r@ == build_sql(destination@, query@, transient),
{
    "create or replace ".to_owned().concat(lifecycle_of(transient)).concat("table ").concat(
        destination.render_self_as_str().as_str(),
    ).concat(" as (").concat(query).concat(" ) ;")
}

} // verus!
