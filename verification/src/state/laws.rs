//! How materializations and their strategies are classed.

use crate::state::materialization::{
    custom_by_name, custom_strategy, effective, is_virtual, known_materialization, known_strategy,
    normal_strategy, stores_data, views_data,
};
use crate::text::replace_char;
use vstd::prelude::*;

verus! {

proof fn names_differ()
    ensures
        "table"@.len() == 5,
        "view"@.len() == 4,
        "materialized_view"@.len() == 17,
        "incremental"@.len() == 11,
        "ephemeral"@.len() == 9,
        "semantic_view"@.len() == 13,
        "snapshot"@.len() == 8,
{
    reveal_strlit("table");
    reveal_strlit("view");
    reveal_strlit("materialized_view");
    reveal_strlit("incremental");
    reveal_strlit("ephemeral");
    reveal_strlit("semantic_view");
    reveal_strlit("snapshot");
}

/// What each materialization leaves behind: views no data, tables data, ephemeral models
/// and semantic views nothing. Without a name a model is a view, and what is not known
/// stores data.
pub proof fn materializations_are_classed(m: Seq<char>)
    ensures
        views_data(m) <==> m.len() == 0 || m == "view"@ || m == "materialized_view"@,
        is_virtual(m) <==> m == "ephemeral"@ || m == "semantic_view"@,
        stores_data(m) <==> m.len() > 0 && m != "view"@ && m != "materialized_view"@ && m
            != "ephemeral"@ && m != "semantic_view"@,
{
    names_differ();
}

/// The names that are known.
pub proof fn names_that_are_known(m: Seq<char>)
    ensures
        known_materialization(m) <==> m == "table"@ || m == "view"@ || m == "materialized_view"@
            || m == "incremental"@ || m == "ephemeral"@ || m == "semantic_view"@ || m
            == "snapshot"@,
        known_strategy(m) <==> m == "append"@ || m == "delete_insert"@ || m == "merge"@ || m
            == "insert_overwrite"@ || m == "microbatch"@,
{
}

proof fn replaced_char_by_char(s: Seq<char>)
    ensures
        replace_char(s, '+', seq!['_']).len() == s.len(),
        forall|i: int|
            0 <= i < s.len() ==> (#[trigger] replace_char(s, '+', seq!['_'])[i]) == (if s[i]
                == '+' {
                '_'
            } else {
                s[i]
            }),
    decreases s.len(),
{
    if s.len() > 0 {
        replaced_char_by_char(s.drop_last());
    }
}

/// A strategy is compared in lower case, with an underscore for each plus sign.
pub proof fn strategies_are_compared(s: Seq<char>, i: int)
    ensures
        normal_strategy(s).len() == s.len(),
        0 <= i < s.len() ==> normal_strategy(s)[i] == (if s[i] == '+' {
            '_'
        } else if 'A' <= s[i] && s[i] <= 'Z' {
            ((s[i] as u8) + 32) as char
        } else {
            s[i]
        }),
{
    reveal_strlit("_");
    assert("_"@ =~= seq!['_']);
    replaced_char_by_char(s);
    if 0 <= i < s.len() {
        assert(replace_char(s, '+', seq!['_'])[i] == (if s[i] == '+' {
            '_'
        } else {
            s[i]
        }));
    }
}

/// A model is custom by the name of its materialization, or, where that is incremental, by
/// the name of its strategy; a model without a name is not.
pub proof fn models_that_are_custom(m: Seq<char>, s: Seq<char>)
    ensures
        m.len() == 0 ==> !custom_by_name(m, Some(s)) && !custom_by_name(m, None),
        m.len() > 0 && !known_materialization(m) ==> custom_by_name(m, None) && custom_by_name(
            m,
            Some(s),
        ),
        known_materialization(m) && m != "incremental"@ ==> !custom_by_name(m, Some(s))
            && !custom_strategy(m, Some(s)),
        custom_by_name("incremental"@, Some(s)) <==> !known_strategy(normal_strategy(s)),
        custom_strategy("incremental"@, Some(s)) <==> !known_strategy(normal_strategy(s)),
        !custom_by_name("incremental"@, None),
{
    names_differ();
}

/// A model without a materialization is a view.
pub proof fn models_are_views_by_default(m: Seq<char>)
    ensures
        effective(Seq::empty()) == "view"@,
        m.len() > 0 ==> effective(m) == m,
{
}

} // verus!
