//! Materialization classification for dbt State requests.
//!
//! Every dbt State client must classify a node's materialization the same way,
//! or the same node lands under a different cache key depending on which client
//! built the request. These predicates are the canonical classification and
//! decide three things:
//!
//! * whether a node is submitted to the service at all ([`is_table`] /
//!   [`is_view`]),
//! * whether it is submitted as `VIEW`,
//! * whether it is submitted as `DBT_CUSTOM`.
//!
//! They take the materialization as a string: the classification is by name, and
//! there are names without a variant of their own.

use crate::json::opt_str;
use crate::text::{ascii_lower, replace_char, replaced, same, to_ascii_lower};
use vstd::prelude::*;

verus! {

/// Materializations dbt itself defines. Anything else is a user-defined
/// materialization macro.
///
/// `seed` is deliberately absent: seeds never reach the SQL execution-type
/// derivation, they take the `SubmitValues` path instead.
pub open spec fn known_materialization(name: Seq<char>) -> bool {
    name == "table"@ || name == "view"@ || name == "materialized_view"@ || name == "incremental"@
        || name == "ephemeral"@ || name == "semantic_view"@ || name == "snapshot"@
}

/// dbt's built-in incremental strategies. Any other strategy is a user-defined
/// custom strategy backed by a `get_incremental_<strategy>_sql` macro.
pub open spec fn known_strategy(name: Seq<char>) -> bool {
    name == "append"@ || name == "delete_insert"@ || name == "merge"@ || name
        == "insert_overwrite"@ || name == "microbatch"@
}

/// dbt treats a model with no `materialized` config as a view.
pub open spec fn effective(materialization: Seq<char>) -> Seq<char> {
    if materialization.len() == 0 {
        "view"@
    } else {
        materialization
    }
}

pub open spec fn normal_strategy(strategy: Seq<char>) -> Seq<char> {
    ascii_lower(replace_char(strategy, '+', "_"@))
}

pub open spec fn views_data(materialization: Seq<char>) -> bool {
    effective(materialization) == "view"@ || effective(materialization) == "materialized_view"@
}

pub open spec fn is_virtual(materialization: Seq<char>) -> bool {
    effective(materialization) == "ephemeral"@ || effective(materialization) == "semantic_view"@
}

pub open spec fn stores_data(materialization: Seq<char>) -> bool {
    !views_data(materialization) && !is_virtual(materialization)
}

pub open spec fn custom_strategy(
    materialization: Seq<char>,
    strategy: Option<Seq<char>>,
) -> bool {
    materialization == "incremental"@ && strategy is Some && !known_strategy(
        normal_strategy(strategy->0),
    )
}

pub open spec fn custom_by_name(materialization: Seq<char>, strategy: Option<Seq<char>>) -> bool {
    materialization.len() > 0 && (!known_materialization(materialization) || custom_strategy(
        materialization,
        strategy,
    ))
}

/// A node is submitted as a view, submitted as stored data or not submitted, and never two
/// of these.
pub proof fn submitted_as_one_kind(materialization: Seq<char>)
    ensures
        !(views_data(materialization) && stores_data(materialization)),
        !(views_data(materialization) && is_virtual(materialization)),
        views_data(materialization) || stores_data(materialization) <==> materialization
            != "ephemeral"@ && materialization != "semantic_view"@,
{
    reveal_strlit("view");
    reveal_strlit("materialized_view");
    reveal_strlit("ephemeral");
    reveal_strlit("semantic_view");
    assert("view"@.len() == 4 && "materialized_view"@.len() == 17 && "ephemeral"@.len() == 9
        && "semantic_view"@.len() == 13);
}

fn or_view<'a>(materialization: &'a str) -> (r: &'a str)
    ensures
        r@ == effective(materialization@),
{
    if materialization.is_empty() {
        "view"
    } else {
        materialization
    }
}

fn is_known_materialization(name: &str) -> (r: bool)
    ensures
        r == known_materialization(name@),
{
    same(name, "table") || same(name, "view") || same(name, "materialized_view") || same(
        name,
        "incremental",
    ) || same(name, "ephemeral") || same(name, "semantic_view") || same(name, "snapshot")
}

fn is_known_strategy(name: &str) -> (r: bool)
    ensures
        r == known_strategy(name@),
{
    same(name, "append") || same(name, "delete_insert") || same(name, "merge") || same(
        name,
        "insert_overwrite",
    ) || same(name, "microbatch")
}

/// Normalizes an incremental strategy name: dbt config keys may carry a `+`
/// prefix, and comparison is case-insensitive.
pub fn normalize_incremental_strategy(strategy: &str) -> (r: String)
    ensures
        r@ == normal_strategy(strategy@),
{
    to_ascii_lower(replaced(strategy, '+', "_").as_str())
}

/// Whether the node materializes as a view, i.e. a relation whose query is
/// re-evaluated on read rather than stored.
///
/// Such nodes skip dependency traversal entirely: only the view's own
/// `last_modified_epoch` and query hash matter.
pub fn is_view(materialization: &str) -> (r: bool)
    ensures
        r == views_data(materialization@),
{
    let name = or_view(materialization);
    same(name, "view") || same(name, "materialized_view")
}

/// Whether the node materializes as stored data whose freshness is worth
/// tracking.
///
/// This is a "not a view and not virtual" test rather than an allow-list, so
/// adapter-specific table-like materializations (`dynamic_table`,
/// `streaming_table`, `interactive_table`, `metric_view`, `external`, ...) are
/// tables here. They are submitted, as `DBT_CUSTOM`, because
/// [`is_custom_by_name`] rejects their names.
pub fn is_table(materialization: &str) -> (r: bool)
    ensures
        r == stores_data(materialization@),
{
    let name = or_view(materialization);
    !(same(name, "view") || same(name, "materialized_view") || same(name, "ephemeral") || same(
        name,
        "semantic_view",
    ))
}

/// Whether the node is submitted to the dbt State service at all.
///
/// A node is submitted iff its materialization is table-like or view-like,
/// which rejects exactly `ephemeral` and `semantic_view` — neither has a
/// relation whose reuse the service can reason about.
pub fn is_submittable(materialization: &str) -> (r: bool)
    ensures
        r == (materialization@ != "ephemeral"@ && materialization@ != "semantic_view"@),
{
    proof {
        submitted_as_one_kind(materialization@);
    }
    is_table(materialization) || is_view(materialization)
}

/// Whether an incremental node uses a user-defined incremental strategy.
///
/// A missing strategy means dbt falls back to the adapter's default, which is
/// always one of the built-in strategies.
pub fn is_custom_incremental_strategy(
    materialization: &str,
    incremental_strategy: Option<&str>,
) -> (r: bool)
    ensures
        r == custom_strategy(materialization@, opt_str(incremental_strategy)),
{
    if !same(materialization, "incremental") {
        return false;
    }
    match incremental_strategy {
        Some(strategy) => !is_known_strategy(normalize_incremental_strategy(strategy).as_str()),
        None => false,
    }
}

/// Whether the node runs a user-defined materialization, by *name*.
///
/// A custom materialization that *shadows* a built-in name is not detectable
/// here; that requires resolving which macro dbt would actually dispatch, and
/// is applied on top of this check by the caller.
///
/// An empty materialization is not custom: a node with no `materialized` config
/// runs dbt's default view materialization, which is checked before the `view`
/// defaulting that [`is_view`] and [`is_table`] apply.
pub fn is_custom_by_name(materialization: &str, incremental_strategy: Option<&str>) -> (r: bool)
    ensures
        r == custom_by_name(materialization@, opt_str(incremental_strategy)),
{
    if materialization.is_empty() {
        return false;
    }
    if !is_known_materialization(materialization) {
        return true;
    }
    is_custom_incremental_strategy(materialization, incremental_strategy)
}

} // verus!
