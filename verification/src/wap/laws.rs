//! What holds of every plan.

use crate::ordered::{
    ascending, difference, difference_holds, found, found_is_there, has_key, inserted,
    inserted_is_found, keyed,
};
use crate::relation::{identity, AdapterType, RelationView, ResolvedQuoting};
use crate::text::{ascii_upper, upper_char};
use crate::wap::invocation::{
    candidate_name, collision, collisions, entries_from, entry, hex, hex_char, names_refusal,
    outputs_refusal, plan, storage, storage_refusal, storages_refusal, taken, taken_from, writes,
    RunTasksArgs,
};
use crate::wap::nodes::{
    owners, owns_relation, relation_under, DbtTest, FsCommand, NodeType, Nodes, RelationOwner,
};
use crate::wap::plan::{
    active, audit_refusal, audits_from, audits_known, audits_refusal, candidate, depends_on_others,
    owned, public, required_audits, stored_audit, stored_audits, stores, WapModelView,
};
use vstd::prelude::*;

verus! {

// ---------------------------------------------------------------------------
// The audits of a model
// ---------------------------------------------------------------------------

/// A test that a model owns, at a place among the tests.
pub open spec fn owned_at(tests: Seq<(String, DbtTest)>, model_id: Seq<char>, k: int) -> bool {
    0 <= k < tests.len() && active(tests[k].1) && owned(tests[k].1, model_id)
}

/// A test with this id is owned, at or behind a place.
pub open spec fn owned_behind(
    tests: Seq<(String, DbtTest)>,
    model_id: Seq<char>,
    i: int,
    t: Seq<char>,
) -> bool {
    exists|k: int| i <= k && #[trigger] owned_at(tests, model_id, k) && tests[k].0@ == t
}

proof fn audits_hold(
    tests: Seq<(String, DbtTest)>,
    model_id: Seq<char>,
    i: int,
    ids: Seq<(Seq<char>, ())>,
    t: Seq<char>,
)
    requires
        0 <= i,
        ascending(ids),
    ensures
        audits_from(tests, model_id, i, ids) matches Ok(all) ==> {
            &&& ascending(all)
            &&& has_key(all, t) <==> has_key(ids, t) || owned_behind(tests, model_id, i, t)
            &&& forall|k: int| #[trigger]
                owned_at(tests, model_id, k) && k >= i ==> !depends_on_others(
                    tests[k].1,
                    model_id,
                ) && tests[k].1.depends_on@.len() > 0
        },
    decreases tests.len() - i,
{
    if i < tests.len() {
        let (id, test) = tests[i];
        let here = active(test) && owned(test, model_id);
        assert(here == owned_at(tests, model_id, i));
        if !here {
            audits_hold(tests, model_id, i + 1, ids, t);
        } else if test.depends_on@.len() > 0 && !depends_on_others(test, model_id) {
            inserted_is_found(ids, id@, (), t);
            found_is_there(ids, t);
            found_is_there(inserted(ids, id@, ()), t);
            audits_hold(tests, model_id, i + 1, inserted(ids, id@, ()), t);
        }
        if owned_behind(tests, model_id, i, t) {
            let k = choose|k: int|
                i <= k && #[trigger] owned_at(tests, model_id, k) && tests[k].0@ == t;
            if k > i {
                assert(owned_behind(tests, model_id, i + 1, t));
            }
        }
        if owned_behind(tests, model_id, i + 1, t) {
            let k = choose|k: int|
                i + 1 <= k && #[trigger] owned_at(tests, model_id, k) && tests[k].0@ == t;
            assert(owned_behind(tests, model_id, i, t));
        }
    }
}

/// The audits of a model are exactly the enabled tests that it owns, and each of them
/// depends on that model alone.
pub proof fn required_audits_are_the_owned_tests(
    tests: Seq<(String, DbtTest)>,
    model_id: Seq<char>,
    t: Seq<char>,
)
    ensures
        required_audits(tests, model_id) matches Ok(all) ==> {
            &&& ascending(all)
            &&& has_key(all, t) <==> owned_behind(tests, model_id, 0, t)
            &&& forall|k: int| #[trigger]
                owned_at(tests, model_id, k) ==> !depends_on_others(tests[k].1, model_id)
                    && tests[k].1.depends_on@.len() > 0
        },
{
    audits_hold(tests, model_id, 0, Seq::empty(), t);
}

proof fn usable_audits(tests: Seq<(Seq<char>, DbtTest)>, ids: Seq<(Seq<char>, ())>, i: int, j: int)
    requires
        0 <= i <= j < ids.len(),
        audits_refusal(tests, ids, i) is None,
    ensures
        found(tests, ids[j].0) matches Some(t) ==> audit_refusal(ids[j].0, t) is None,
    decreases ids.len() - i,
{
    if i < j {
        usable_audits(tests, ids, i + 1, j);
    }
}

// ---------------------------------------------------------------------------
// The models of a plan
// ---------------------------------------------------------------------------

/// Every model that is held was built.
spec fn all_built(
    args: RunTasksArgs,
    selected: Seq<(Seq<char>, ())>,
    nodes: Nodes,
    models: Seq<(Seq<char>, WapModelView)>,
) -> bool {
    ascending(models) && forall|id: Seq<char>| #[trigger]
        found(models, id) matches Some(m) ==> entry(args, selected, nodes, id) == Ok::<
            Option<WapModelView>,
            crate::wap::nodes::FsErrorView,
        >(Some(m))
}

proof fn entries_are_built(
    args: RunTasksArgs,
    selected: Seq<(Seq<char>, ())>,
    nodes: Nodes,
    i: int,
    models: Seq<(Seq<char>, WapModelView)>,
)
    requires
        0 <= i,
        all_built(args, selected, nodes, models),
    ensures
        entries_from(args, selected, nodes, i, models) matches Ok(all) ==> all_built(
            args,
            selected,
            nodes,
            all,
        ),
    decreases selected.len() - i,
{
    if i < selected.len() {
        match entry(args, selected, nodes, selected[i].0) {
            Err(_) => {},
            Ok(None) => {
                entries_are_built(args, selected, nodes, i + 1, models);
            },
            Ok(Some(m)) => {
                let next = inserted(models, selected[i].0, m);
                assert forall|id: Seq<char>| #[trigger] found(next, id) matches Some(n) implies
                    entry(args, selected, nodes, id) == Ok::<
                    Option<WapModelView>,
                    crate::wap::nodes::FsErrorView,
                >(Some(found(next, id)->0)) by {
                    inserted_is_found(models, selected[i].0, m, id);
                }
                inserted_is_found(models, selected[i].0, m, selected[i].0);
                entries_are_built(args, selected, nodes, i + 1, next);
            },
        }
    }
}

proof fn entries_stay(
    args: RunTasksArgs,
    selected: Seq<(Seq<char>, ())>,
    nodes: Nodes,
    i: int,
    models: Seq<(Seq<char>, WapModelView)>,
    id: Seq<char>,
)
    requires
        0 <= i,
        ascending(models),
        found(models, id) is Some,
    ensures
        entries_from(args, selected, nodes, i, models) matches Ok(all) ==> found(all, id) is Some,
    decreases selected.len() - i,
{
    if i < selected.len() {
        match entry(args, selected, nodes, selected[i].0) {
            Err(_) => {},
            Ok(None) => {
                entries_stay(args, selected, nodes, i + 1, models, id);
            },
            Ok(Some(m)) => {
                inserted_is_found(models, selected[i].0, m, id);
                entries_stay(
                    args,
                    selected,
                    nodes,
                    i + 1,
                    inserted(models, selected[i].0, m),
                    id,
                );
            },
        }
    }
}

proof fn entries_are_held(
    args: RunTasksArgs,
    selected: Seq<(Seq<char>, ())>,
    nodes: Nodes,
    i: int,
    models: Seq<(Seq<char>, WapModelView)>,
    j: int,
)
    requires
        0 <= i <= j < selected.len(),
        ascending(models),
    ensures
        entries_from(args, selected, nodes, i, models) matches Ok(all) ==> {
            &&& entry(args, selected, nodes, selected[j].0) is Ok
            &&& entry(args, selected, nodes, selected[j].0)->Ok_0 is Some ==> found(
                all,
                selected[j].0,
            ) is Some
        },
    decreases selected.len() - i,
{
    match entry(args, selected, nodes, selected[i].0) {
        Err(_) => {},
        Ok(None) => {
            if i < j {
                entries_are_held(args, selected, nodes, i + 1, models, j);
            }
        },
        Ok(Some(m)) => {
            let next = inserted(models, selected[i].0, m);
            inserted_is_found(models, selected[i].0, m, selected[i].0);
            if i < j {
                entries_are_held(args, selected, nodes, i + 1, next, j);
            } else {
                entries_stay(args, selected, nodes, i + 1, next, selected[i].0);
            }
        },
    }
}

proof fn empty_is_built(args: RunTasksArgs, selected: Seq<(Seq<char>, ())>, nodes: Nodes)
    ensures
        all_built(args, selected, nodes, Seq::empty()),
{
    assert forall|id: Seq<char>| #[trigger]
        found(Seq::<(Seq<char>, WapModelView)>::empty(), id) is None by {}
}

/// A planned model is the manifest's own, is built by `build` alone, has at least one
/// audit, and has each audit that it requires selected.
pub proof fn planned_models_are_audited(
    args: RunTasksArgs,
    selected: Seq<(Seq<char>, ())>,
    nodes: Nodes,
    id: Seq<char>,
    t: Seq<char>,
)
    ensures
        plan(args, selected, nodes) matches Ok(models) ==> ascending(models) && (found(
            models,
            id,
        ) matches Some(m) ==> {
            &&& args.command == FsCommand::Build
            &&& found(keyed(nodes.models@), id) == Some(m.model)
            &&& m.model.config.wap == Some(true)
            &&& m.candidate_identifier == candidate_name(args.invocation_id, m.model.id_hash)
            &&& m.audit_ids.len() > 0
            &&& required_audits(nodes.tests@, id) == Ok::<
                Seq<(Seq<char>, ())>,
                crate::wap::nodes::FsErrorView,
            >(m.audit_ids)
            &&& has_key(m.audit_ids, t) ==> has_key(selected, t) && (found(
                keyed(nodes.tests@),
                t,
            ) matches Some(test) ==> audit_refusal(t, test) is None)
        }),
{
    empty_is_built(args, selected, nodes);
    entries_are_built(args, selected, nodes, 0, Seq::empty());
    if let Ok(models) = plan(args, selected, nodes) {
        if let Some(m) = found(models, id) {
            assert(entry(args, selected, nodes, id) == Ok::<
                Option<WapModelView>,
                crate::wap::nodes::FsErrorView,
            >(Some(m)));
            difference_holds(m.audit_ids, selected, t);
            if has_key(m.audit_ids, t) {
                if !has_key(selected, t) {
                    let d = difference(m.audit_ids, selected);
                    let k = choose|k: int| 0 <= k < d.len() && d[k] == t;
                    assert(d.len() > 0);
                }
                let j = choose|j: int|
                    0 <= j < m.audit_ids.len() && (#[trigger] m.audit_ids[j]).0 == t;
                usable_audits(keyed(nodes.tests@), m.audit_ids, 0, j);
            }
        }
    }
}

/// A selected model that asks for audited publication is planned by `build`, and no
/// command that would write it unaudited has a plan.
pub proof fn no_command_bypasses_the_audits(
    args: RunTasksArgs,
    selected: Seq<(Seq<char>, ())>,
    nodes: Nodes,
    id: Seq<char>,
)
    requires
        has_key(selected, id),
        found(keyed(nodes.models@), id) matches Some(model) && model.config.wap == Some(true),
    ensures
        plan(args, selected, nodes) matches Ok(models) ==> {
            &&& args.command != FsCommand::Run
            &&& args.command != FsCommand::Clone
            &&& args.command == FsCommand::Build ==> found(models, id) is Some
        },
{
    let j = choose|j: int| 0 <= j < selected.len() && (#[trigger] selected[j]).0 == id;
    entries_are_held(args, selected, nodes, 0, Seq::empty(), j);
}

/// Every audit of a plan is a test of the project.
pub proof fn planned_audits_are_known(
    args: RunTasksArgs,
    selected: Seq<(Seq<char>, ())>,
    nodes: Nodes,
)
    ensures
        plan(args, selected, nodes) matches Ok(models) ==> audits_known(
            keyed(nodes.tests@),
            models,
        ),
{
    empty_is_built(args, selected, nodes);
    entries_are_built(args, selected, nodes, 0, Seq::empty());
    if let Ok(models) = plan(args, selected, nodes) {
        assert forall|i: int, j: int|
            0 <= i < models.len() && 0 <= j < models[i].1.audit_ids.len() implies has_key(
            keyed(nodes.tests@),
            (#[trigger] models[i].1.audit_ids[j]).0,
        ) by {
            let (id, m) = models[i];
            let t = m.audit_ids[j].0;
            found_at(models, i);
            assert(entry(args, selected, nodes, id) == Ok::<
                Option<WapModelView>,
                crate::wap::nodes::FsErrorView,
            >(Some(m)));
            required_audits_are_the_owned_tests(nodes.tests@, id, t);
            assert(has_key(m.audit_ids, t));
            let k = choose|k: int|
                0 <= k && #[trigger] owned_at(nodes.tests@, id, k) && nodes.tests@[k].0@ == t;
            assert(keyed(nodes.tests@)[k].0 == t);
        }
    }
}

/// In ascending entries each entry is found by its key.
proof fn found_at<V>(m: Seq<(Seq<char>, V)>, i: int)
    requires
        ascending(m),
        0 <= i < m.len(),
    ensures
        found(m, m[i].0) == Some(m[i].1),
    decreases m.len(),
{
    let rest = m.drop_last();
    if i < m.len() - 1 {
        assert(crate::ordered::less(m[i].0, m[m.len() - 1].0));
        crate::ordered::less_is_irreflexive(m[i].0);
        assert(ascending(rest)) by {
            assert forall|a: int, b: int| 0 <= a < b < rest.len() implies crate::ordered::less(
                (#[trigger] rest[a]).0,
                (#[trigger] rest[b]).0,
            ) by {
                assert(rest[a] == m[a] && rest[b] == m[b]);
            }
        }
        assert(rest[i] == m[i]);
        found_at(rest, i);
    }
}

// ---------------------------------------------------------------------------
// The tables of a plan
// ---------------------------------------------------------------------------

proof fn no_collision(id: Seq<char>, m: WapModelView, os: Seq<RelationOwner>, i: int, j: int)
    requires
        0 <= i <= j < os.len(),
        collisions(id, m, os, i) is None,
    ensures
        collision(id, m, os[j]) is None,
    decreases os.len() - i,
{
    if i < j {
        no_collision(id, m, os, i + 1, j);
    }
}

proof fn no_name_collides(
    models: Seq<(Seq<char>, WapModelView)>,
    os: Seq<RelationOwner>,
    i: int,
    k: int,
)
    requires
        0 <= i <= k < models.len(),
        names_refusal(models, os, i) is None,
    ensures
        collisions(models[k].0, models[k].1, os, 0) is None,
    decreases models.len() - i,
{
    if i < k {
        no_name_collides(models, os, i + 1, k);
    }
}

/// No node of the project owns the working table of a planned model, and none but sources
/// shares its public one.
pub proof fn planned_tables_are_nobody_elses(
    args: RunTasksArgs,
    selected: Seq<(Seq<char>, ())>,
    nodes: Nodes,
    k: int,
    j: int,
)
    requires
        0 <= j < owners(nodes).len(),
        owns_relation(owners(nodes)[j]),
    ensures
        plan(args, selected, nodes) matches Ok(models) ==> (0 <= k < models.len() ==> {
            let o = owners(nodes)[j];
            let name = identity(relation_under(o, o.quoting));
            &&& name != identity(candidate(models[k].1))
            &&& o.id != models[k].0 && o.resource_type != NodeType::Source ==> name != identity(
                public(models[k].1),
            )
        }),
{
    if let Ok(models) = plan(args, selected, nodes) {
        if 0 <= k < models.len() {
            no_name_collides(models, owners(nodes), 0, k);
            no_collision(models[k].0, models[k].1, owners(nodes), 0, j);
        }
    }
}

proof fn stores_nothing(
    tests: Seq<(Seq<char>, DbtTest)>,
    ids: Seq<(Seq<char>, ())>,
    flag: bool,
    i: int,
    j: int,
)
    requires
        0 <= i <= j < ids.len(),
        stored_audit(tests, ids, flag, i) is None,
    ensures
        found(tests, ids[j].0) matches Some(test) ==> !stores(test, flag),
    decreases ids.len() - i,
{
    if i < j {
        stores_nothing(tests, ids, flag, i + 1, j);
    }
}

/// What is validated stores the failures of none of its audits.
pub proof fn validated_audits_store_nothing(
    tests: Seq<(Seq<char>, DbtTest)>,
    models: Seq<(Seq<char>, WapModelView)>,
    flag: bool,
    i: int,
    k: int,
    j: int,
)
    requires
        0 <= i <= k < models.len(),
        0 <= j < models[k].1.audit_ids.len(),
        stored_audits(tests, models, flag, i) is None,
    ensures
        found(tests, models[k].1.audit_ids[j].0) matches Some(test) ==> !stores(test, flag),
    decreases models.len() - i,
{
    if i < k {
        validated_audits_store_nothing(tests, models, flag, i + 1, k, j);
    } else {
        stores_nothing(tests, models[k].1.audit_ids, flag, 0, j);
    }
}

proof fn not_taken(
    models: Seq<(Seq<char>, WapModelView)>,
    relation: RelationView,
    description: Seq<char>,
    i: int,
    k: int,
)
    requires
        0 <= i <= k < models.len(),
        taken_from(models, relation, description, i) is None,
    ensures
        identity(relation) != identity(public(models[k].1)),
        identity(relation) != identity(candidate(models[k].1)),
    decreases models.len() - i,
{
    if i < k {
        not_taken(models, relation, description, i + 1, k);
    }
}

/// A relation that is validated replaces neither table of any planned model.
pub proof fn validated_relations_replace_no_table(
    models: Seq<(Seq<char>, WapModelView)>,
    relation: RelationView,
    description: Seq<char>,
    k: int,
)
    requires
        0 <= k < models.len(),
        relation.adapter_type == AdapterType::Snowflake,
        taken(models, relation, description) is None,
    ensures
        identity(relation) != identity(public(models[k].1)),
        identity(relation) != identity(candidate(models[k].1)),
{
    not_taken(models, relation, description, 0, k);
}

/// The outputs that are validated replace neither table of any planned model.
pub proof fn validated_outputs_replace_no_table(
    models: Seq<(Seq<char>, WapModelView)>,
    os: Seq<RelationOwner>,
    quoting: ResolvedQuoting,
    i: int,
    j: int,
    k: int,
)
    requires
        0 <= i <= j < os.len(),
        0 <= k < models.len(),
        outputs_refusal(models, os, quoting, i) is None,
        writes(models, os[j]),
    ensures
        identity(relation_under(os[j], quoting)) != identity(public(models[k].1)),
        identity(relation_under(os[j], quoting)) != identity(candidate(models[k].1)),
    decreases os.len() - i,
{
    if i < j {
        validated_outputs_replace_no_table(models, os, quoting, i + 1, j, k);
    } else {
        not_taken(
            models,
            relation_under(os[j], quoting),
            "Output relation for '"@ + os[j].id + "'"@,
            0,
            k,
        );
    }
}

proof fn no_storage_collides(
    tests: Seq<(String, DbtTest)>,
    id: Seq<char>,
    m: WapModelView,
    quoting: ResolvedQuoting,
    flag: bool,
    i: int,
    j: int,
)
    requires
        0 <= i <= j < tests.len(),
        storages_refusal(tests, id, m, quoting, flag, i) is None,
        active(tests[j].1),
        tests[j].1.adapter == AdapterType::Snowflake,
        stores(tests[j].1, flag),
    ensures
        identity(storage(tests[j].1, quoting)) != identity(public(m)),
        identity(storage(tests[j].1, quoting)) != identity(candidate(m)),
    decreases tests.len() - i,
{
    if i < j {
        no_storage_collides(tests, id, m, quoting, flag, i + 1, j);
    }
}

/// The storage of failures that is validated replaces neither table of any planned model.
pub proof fn validated_storage_replaces_no_table(
    tests: Seq<(String, DbtTest)>,
    models: Seq<(Seq<char>, WapModelView)>,
    quoting: ResolvedQuoting,
    flag: bool,
    i: int,
    j: int,
    k: int,
)
    requires
        0 <= i <= k < models.len(),
        0 <= j < tests.len(),
        storage_refusal(tests, models, quoting, flag, i) is None,
        active(tests[j].1),
        tests[j].1.adapter == AdapterType::Snowflake,
        stores(tests[j].1, flag),
    ensures
        identity(storage(tests[j].1, quoting)) != identity(public(models[k].1)),
        identity(storage(tests[j].1, quoting)) != identity(candidate(models[k].1)),
    decreases models.len() - i,
{
    if i < k {
        validated_storage_replaces_no_table(tests, models, quoting, flag, i + 1, j, k);
    } else {
        no_storage_collides(tests, models[k].0, models[k].1, quoting, flag, 0, j);
    }
}

// ---------------------------------------------------------------------------
// Working tables of several invocations
// ---------------------------------------------------------------------------

/// How many numbers have so many hexadecimal digits.
pub open spec fn span(width: nat) -> int
    decreases width,
{
    if width == 0 {
        1
    } else {
        16 * span((width - 1) as nat)
    }
}

proof fn digits_differ(a: int, b: int)
    requires
        0 <= a < 16,
        0 <= b < 16,
        upper_char(hex_char(a)) == upper_char(hex_char(b)),
    ensures
        a == b,
{
}

proof fn hex_tells_apart(a: int, b: int, width: nat)
    requires
        0 <= a < span(width),
        0 <= b < span(width),
        ascii_upper(hex(a, width)) == ascii_upper(hex(b, width)),
    ensures
        a == b,
        hex(a, width).len() == width,
    decreases width,
{
    if width > 0 {
        let w = (width - 1) as nat;
        let x = hex(a, width);
        let y = hex(b, width);
        let p = hex(a / 16, w);
        let q = hex(b / 16, w);
        assert(x.len() == y.len()) by {
            assert(ascii_upper(x).len() == ascii_upper(y).len());
        }
        assert(ascii_upper(x).last() == upper_char(hex_char(a % 16)));
        assert(ascii_upper(y).last() == upper_char(hex_char(b % 16)));
        digits_differ(a % 16, b % 16);
        assert(ascii_upper(x).drop_last() =~= ascii_upper(p));
        assert(ascii_upper(y).drop_last() =~= ascii_upper(q));
        hex_tells_apart(a / 16, b / 16, w);
    }
}

pub proof fn hex_has_its_width(n: int, width: nat)
    ensures
        hex(n, width).len() == width,
    decreases width,
{
    if width > 0 {
        hex_has_its_width(n / 16, (width - 1) as nat);
    }
}

/// No two invocations have a working table of one name, whatever the models.
pub proof fn working_tables_differ_between_invocations(
    a: u128,
    b: u128,
    a_hash: Seq<char>,
    b_hash: Seq<char>,
)
    requires
        a != b,
    ensures
        candidate_name(a, a_hash) != candidate_name(b, b_hash),
{
    let x = candidate_name(a, a_hash);
    let y = candidate_name(b, b_hash);
    if x == y {
        reveal_strlit("__DBT_WAP_");
        let p = hex(a as int, 32);
        let q = hex(b as int, 32);
        hex_has_its_width(a as int, 32);
        hex_has_its_width(b as int, 32);
        assert("__DBT_WAP_"@.len() == 10);
        assert(x.subrange(10, 42) =~= ascii_upper(p));
        assert(y.subrange(10, 42) =~= ascii_upper(q));
        reveal_with_fuel(span, 33);
        assert(span(32) == 0x1_0000_0000_0000_0000_0000_0000_0000_0000int);
        hex_tells_apart(a as int, b as int, 32);
    }
}

} // verus!
