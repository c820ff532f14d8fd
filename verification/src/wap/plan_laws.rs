//! What a plan of audited publication admits, setting by setting.

use crate::json::{field, fields_view, opt, FieldsView, JsonView};
use crate::ordered::{difference, difference_holds, found, found_is_there, has_key, keyed};
use crate::relation::{
    identity, rendered, written, AdapterType, RelationType, RelationView, ResolvedQuoting,
};
use crate::text::{ascii_upper, replace_char, trim};
use crate::wap::invocation::{
    candidate_name, collision, entry, hex, invocation_refusal, materializations_refusal, plan,
    runtime_refusal, selection_refusal, storage, taken, taken_from, writes, MaterializationResolver,
    RunTasksArgs,
};
use crate::wap::laws::{
    hex_has_its_width, owned_at, owned_behind, planned_models_are_audited,
    required_audits_are_the_owned_tests,
};
use crate::wap::nodes::{
    owners, owns_relation, relation_under, ComputeArg, DbtMaterialization, DbtTest, ErrorCode,
    FsCommand, FsErrorView, LocalExecutionBackendKind, ModelView, NodeType, Nodes, RelationOwner,
    SnowflakeAttrView, StoreFailuresAs,
};
use crate::wap::plan::{
    active, audit_refusal, candidate, candidate_under, execution, literal, owned, public,
    quoting_refusal, sql_refusal, stored_audits, stores, WapModelView,
};
use vstd::prelude::*;

verus! {

// ---------------------------------------------------------------------------
// Names of working tables
// ---------------------------------------------------------------------------

/// The name of a working table: a fixed prefix, the 32 digits of the invocation, an
/// underscore and the hash of the model, in upper case.
pub proof fn a_working_table_is_named(invocation_id: u128, id_hash: Seq<char>)
    ensures
        candidate_name(invocation_id, id_hash).len() == 43 + id_hash.len(),
        candidate_name(invocation_id, id_hash).take(10) == "__DBT_WAP_"@,
        candidate_name(invocation_id, id_hash).subrange(10, 42) == ascii_upper(
            hex(invocation_id as int, 32),
        ),
        candidate_name(invocation_id, id_hash)[42] == '_',
        candidate_name(invocation_id, id_hash).skip(43) == ascii_upper(id_hash),
{
    reveal_strlit("__DBT_WAP_");
    reveal_strlit("_");
    hex_has_its_width(invocation_id as int, 32);
    let name = candidate_name(invocation_id, id_hash);
    assert(name.take(10) =~= "__DBT_WAP_"@);
    assert(name.subrange(10, 42) =~= ascii_upper(hex(invocation_id as int, 32)));
    assert(name.skip(43) =~= ascii_upper(id_hash));
}

/// Within an invocation, models whose hashes differ have working tables of different names.
pub proof fn working_tables_differ_between_models(
    invocation_id: u128,
    a_hash: Seq<char>,
    b_hash: Seq<char>,
)
    requires
        ascii_upper(a_hash) != ascii_upper(b_hash),
    ensures
        candidate_name(invocation_id, a_hash) != candidate_name(invocation_id, b_hash),
{
    a_working_table_is_named(invocation_id, a_hash);
    a_working_table_is_named(invocation_id, b_hash);
}

/// The models of a plan whose hashes differ get working tables of different names, each
/// ending in the hash of its model.
pub proof fn planned_working_tables_differ(
    args: RunTasksArgs,
    selected: Seq<(Seq<char>, ())>,
    nodes: Nodes,
    a: Seq<char>,
    b: Seq<char>,
)
    ensures
        plan(args, selected, nodes) matches Ok(models) ==> (found(models, a) matches Some(m) ==> {
            &&& m.candidate_identifier.len() == 43 + m.model.id_hash.len()
            &&& m.candidate_identifier.skip(43) == ascii_upper(m.model.id_hash)
            &&& found(models, b) matches Some(n) ==> (ascii_upper(m.model.id_hash) != ascii_upper(
                n.model.id_hash,
            ) ==> m.candidate_identifier != n.candidate_identifier)
        }),
{
    planned_models_are_audited(args, selected, nodes, a, a);
    planned_models_are_audited(args, selected, nodes, b, b);
    if let Ok(models) = plan(args, selected, nodes) {
        if let Some(m) = found(models, a) {
            a_working_table_is_named(args.invocation_id, m.model.id_hash);
            if let Some(n) = found(models, b) {
                a_working_table_is_named(args.invocation_id, n.model.id_hash);
            }
        }
    }
}

// ---------------------------------------------------------------------------
// What is refused
// ---------------------------------------------------------------------------

/// A model is published by an invocation that builds it whole, on Snowflake, and by no
/// other.
pub proof fn invocations_that_publish(args: RunTasksArgs, id: Seq<char>, model: ModelView)
    ensures
        invocation_refusal(args, id, model) is None <==> {
            &&& !args.empty
            &&& args.sample is None
            &&& args.sample_renaming@.len() == 0
            &&& args.local_execution_backend == LocalExecutionBackendKind::Remote
            &&& model.compute is None || model.compute == Some(ComputeArg::Remote)
            &&& !model.propagates
            &&& !args.infer_schemas_and_typeless
        },
        invocation_refusal(args, id, model) matches Some(e) ==> e.code == ErrorCode::InvalidConfig,
{
}

/// A model has at least one audit, and all of its audits are selected.
pub proof fn selections_that_publish(
    selected: Seq<(Seq<char>, ())>,
    id: Seq<char>,
    audits: Seq<(Seq<char>, ())>,
)
    ensures
        selection_refusal(selected, id, audits) is None <==> audits.len() > 0 && forall|t: Seq<char>|
            #[trigger] has_key(audits, t) ==> has_key(selected, t),
        selection_refusal(selected, id, audits) matches Some(e) ==> e.code
            == ErrorCode::InvalidConfig,
{
    let missing = difference(audits, selected);
    if missing.len() > 0 {
        difference_holds(audits, selected, missing[0]);
        assert(missing.contains(missing[0]));
        assert(has_key(audits, missing[0]) && !has_key(selected, missing[0]));
    } else {
        assert forall|t: Seq<char>| #[trigger] has_key(audits, t) implies has_key(selected, t) by {
            difference_holds(audits, selected, t);
        }
    }
}

/// A setting is literal where its author wrote just its text, or wrote nothing and it has
/// no value or the default.
pub proof fn what_is_literal(
    authored: FieldsView,
    key: Seq<char>,
    value: Option<Seq<char>>,
    default: Option<Seq<char>>,
)
    ensures
        field(authored, key) is None ==> (literal(authored, key, value, default) <==> value is None
            || value == default),
        field(authored, key) == Some(JsonView::Null) ==> (literal(authored, key, value, default)
            <==> value is None || value == default),
        field(authored, key) matches Some(JsonView::Text(written)) ==> (literal(
            authored,
            key,
            value,
            default,
        ) <==> value == Some(written)),
        field(authored, key) matches Some(JsonView::Bool(_)) ==> !literal(
            authored,
            key,
            value,
            default,
        ),
        field(authored, key) matches Some(JsonView::Int(_)) ==> !literal(
            authored,
            key,
            value,
            default,
        ),
        field(authored, key) matches Some(JsonView::Real(_)) ==> !literal(
            authored,
            key,
            value,
            default,
        ),
        field(authored, key) matches Some(JsonView::List(_)) ==> !literal(
            authored,
            key,
            value,
            default,
        ),
        field(authored, key) matches Some(JsonView::Object(_)) ==> !literal(
            authored,
            key,
            value,
            default,
        ),
{
}

/// An audit may run as the test that it is: its SQL is literal, it has no header and it
/// executes on Snowflake.
pub proof fn tests_that_audit(id: Seq<char>, test: DbtTest)
    ensures
        audit_refusal(id, test) is None <==> {
            let authored = fields_view(test.unrendered_config@);
            &&& literal(authored, "where"@, opt(test.where_clause), None)
            &&& literal(authored, "fail_calc"@, opt(test.fail_calc), Some("count(*)"@))
            &&& literal(authored, "error_if"@, opt(test.error_if), Some("!= 0"@))
            &&& literal(authored, "warn_if"@, opt(test.warn_if), Some("!= 0"@))
            &&& test.sql_header matches Some(header) ==> trim(header@).len() == 0
            &&& test.adapter == AdapterType::Snowflake
            &&& test.compute is None || test.compute == Some(ComputeArg::Remote)
        },
        audit_refusal(id, test) matches Some(e) ==> e.code == ErrorCode::InvalidConfig,
        sql_refusal(id, test) is None <==> {
            let authored = fields_view(test.unrendered_config@);
            &&& literal(authored, "where"@, opt(test.where_clause), None)
            &&& literal(authored, "fail_calc"@, opt(test.fail_calc), Some("count(*)"@))
            &&& literal(authored, "error_if"@, opt(test.error_if), Some("!= 0"@))
            &&& literal(authored, "warn_if"@, opt(test.warn_if), Some("!= 0"@))
        },
{
}

/// A test is an audit of a model where it is enabled and attached to it, or, attached to
/// nothing, depends on it.
pub proof fn tests_that_a_model_owns(test: DbtTest, id: Seq<char>)
    ensures
        active(test) <==> test.enabled && test.config_enabled != Some(false),
        test.attached_node matches Some(owner) ==> (owned(test, id) <==> owner@ == id),
        test.attached_node is None ==> (owned(test, id) <==> exists|i: int|
            0 <= i < test.depends_on@.len() && (#[trigger] test.depends_on@[i])@ == id),
{
}

/// A test keeps its failures where it is told to, and where it is told nothing, by the
/// flag or by the form that it asks for.
pub proof fn tests_that_store_failures(test: DbtTest, flag: bool)
    ensures
        test.store_failures == Some(true) ==> stores(test, flag),
        test.store_failures == Some(false) ==> !stores(test, flag),
        test.store_failures is None && flag ==> stores(test, flag),
        test.store_failures is None && !flag ==> (stores(test, flag) <==> test.store_failures_as
            == Some(StoreFailuresAs::Table) || test.store_failures_as == Some(
            StoreFailuresAs::View,
        )),
{
}

/// Every enabled test of a planned model is one of its audits, and depends on it alone.
pub proof fn no_test_is_left_out(
    args: RunTasksArgs,
    selected: Seq<(Seq<char>, ())>,
    nodes: Nodes,
    id: Seq<char>,
    k: int,
)
    requires
        0 <= k < nodes.tests@.len(),
        nodes.tests@[k].1.enabled,
        nodes.tests@[k].1.config_enabled != Some(false),
        opt(nodes.tests@[k].1.attached_node) == Some(id) || nodes.tests@[k].1.attached_node is None
            && exists|i: int|
            0 <= i < nodes.tests@[k].1.depends_on@.len() && (
            #[trigger] nodes.tests@[k].1.depends_on@[i])@ == id,
    ensures
        plan(args, selected, nodes) matches Ok(models) ==> (found(models, id) matches Some(m) ==> {
            &&& has_key(m.audit_ids, nodes.tests@[k].0@)
            &&& has_key(selected, nodes.tests@[k].0@)
            &&& nodes.tests@[k].1.depends_on@.len() > 0
            &&& forall|i: int|
                0 <= i < nodes.tests@[k].1.depends_on@.len() ==> (
                #[trigger] nodes.tests@[k].1.depends_on@[i])@ == id
        }),
{
    let t = nodes.tests@[k].0@;
    planned_models_are_audited(args, selected, nodes, id, t);
    required_audits_are_the_owned_tests(nodes.tests@, id, t);
    assert(owned_at(nodes.tests@, id, k));
    assert(owned_behind(nodes.tests@, id, 0, t));
}

/// An audit of a planned model is one of its enabled tests.
pub proof fn no_other_test_audits(
    args: RunTasksArgs,
    selected: Seq<(Seq<char>, ())>,
    nodes: Nodes,
    id: Seq<char>,
    t: Seq<char>,
)
    ensures
        plan(args, selected, nodes) matches Ok(models) ==> (found(models, id) matches Some(m)
            ==> (has_key(m.audit_ids, t) ==> exists|k: int|
            0 <= k < nodes.tests@.len() && (#[trigger] nodes.tests@[k]).0@ == t
                && nodes.tests@[k].1.enabled && nodes.tests@[k].1.config_enabled != Some(false) && (
            opt(nodes.tests@[k].1.attached_node) == Some(id)
                || nodes.tests@[k].1.attached_node is None))),
{
    planned_models_are_audited(args, selected, nodes, id, t);
    required_audits_are_the_owned_tests(nodes.tests@, id, t);
    if let Ok(models) = plan(args, selected, nodes) {
        if let Some(m) = found(models, id) {
            if has_key(m.audit_ids, t) {
                let k = choose|k: int|
                    0 <= k && #[trigger] owned_at(nodes.tests@, id, k) && nodes.tests@[k].0@ == t;
                assert(nodes.tests@[k].0@ == t);
            }
        }
    }
}

/// A model is planned as a build of it alone says: what its settings refuse, its
/// invocation refuses, or its audits refuse, and nothing else, keeps it out.
pub proof fn a_model_is_planned(
    args: RunTasksArgs,
    selected: Seq<(Seq<char>, ())>,
    nodes: Nodes,
    id: Seq<char>,
)
    ensures
        found(keyed(nodes.models@), id) is None ==> entry(args, selected, nodes, id) == Ok::<
            Option<WapModelView>,
            FsErrorView,
        >(None),
        found(keyed(nodes.models@), id) matches Some(model) ==> {
            &&& model.config.wap != Some(true) ==> entry(args, selected, nodes, id) == Ok::<
                Option<WapModelView>,
                FsErrorView,
            >(None)
            &&& model.config.wap == Some(true) && model.settings_error is Some ==> entry(
                args,
                selected,
                nodes,
                id,
            ) is Err
            &&& model.config.wap == Some(true) && (args.command == FsCommand::Run || args.command
                == FsCommand::Clone) ==> entry(args, selected, nodes, id) is Err
            &&& model.config.wap == Some(true) && model.settings_error is None && (args.command
                == FsCommand::Test || args.command == FsCommand::Compile || args.command
                == FsCommand::Other) ==> entry(args, selected, nodes, id) == Ok::<
                Option<WapModelView>,
                FsErrorView,
            >(None)
            &&& model.config.wap == Some(true) && model.settings_error is None && args.command
                == FsCommand::Build && entry(args, selected, nodes, id) is Ok ==> (entry(
                args,
                selected,
                nodes,
                id,
            ) matches Ok(Some(m)) && m.model == model)
        },
        entry(args, selected, nodes, id) is Err ==> {
            let model = found(keyed(nodes.models@), id)->0;
            &&& model.config.wap == Some(true)
            &&& args.command == FsCommand::Test || args.command == FsCommand::Compile
                || args.command == FsCommand::Other ==> model.settings_error is Some
        },
{
}

// ---------------------------------------------------------------------------
// Relations
// ---------------------------------------------------------------------------

/// Both tables of a model stand in its database and schema under its quoting, and only
/// their names differ.
pub proof fn both_tables_stand_together(m: WapModelView, quoting: ResolvedQuoting)
    ensures
        public(m).database == m.model.database,
        public(m).schema == m.model.schema,
        public(m).identifier == m.model.alias,
        public(m).quoting == m.model.quoting,
        public(m).adapter_type == m.model.adapter,
        public(m).relation_type == Some(RelationType::Table),
        candidate(m).database == m.model.database,
        candidate(m).schema == m.model.schema,
        candidate(m).identifier == m.candidate_identifier,
        candidate(m).quoting == m.model.quoting,
        candidate(m).adapter_type == m.model.adapter,
        candidate(m).relation_type == Some(RelationType::Table),
        candidate_under(m, quoting).database == m.model.database,
        candidate_under(m, quoting).schema == m.model.schema,
        candidate_under(m, quoting).identifier == m.candidate_identifier,
        candidate_under(m, quoting).quoting == quoting,
        quoting_refusal(m, quoting) is None <==> identity(candidate_under(m, quoting)) == identity(
            candidate(m),
        ),
        quoting_refusal(m, m.model.quoting) is None,
{
}

/// Snowflake reads a quoted part as it is written and another in upper case, part by part.
pub proof fn parts_are_read_by_their_quoting(r: RelationView)
    ensures
        identity(r).0 == (if r.quoting.database {
            r.database
        } else {
            ascii_upper(r.database)
        }),
        identity(r).1 == (if r.quoting.schema {
            r.schema
        } else {
            ascii_upper(r.schema)
        }),
        identity(r).2 == (if r.quoting.identifier {
            r.identifier
        } else {
            ascii_upper(r.identifier)
        }),
{
}

/// A quoted part is its characters between quotes, each quote doubled; another stands as
/// it is.
pub proof fn parts_are_written_by_their_quoting(part: Seq<char>, c: char)
    ensures
        written(part, false) == part,
        written(Seq::empty(), true) == seq!['"', '"'],
        written(part.push(c), true) == written(part, true).drop_last() + (if c == '"' {
            seq!['"', '"', '"']
        } else {
            seq![c, '"']
        }),
{
    reveal_strlit("\"");
    reveal_strlit("\"\"");
    assert("\""@ =~= seq!['"']);
    assert("\"\""@ =~= seq!['"', '"']);
    assert(part.push(c).drop_last() =~= part);
    assert(written(Seq::empty(), true) =~= seq!['"', '"']);
    let inner = replace_char(part, '"', "\"\""@);
    assert(written(part, true).drop_last() =~= "\""@ + inner);
    assert(written(part.push(c), true) =~= written(part, true).drop_last() + (if c == '"' {
        seq!['"', '"', '"']
    } else {
        seq![c, '"']
    }));
}

/// A relation is written as its three parts with dots between them.
pub proof fn relations_are_written_in_three_parts(r: RelationView)
    ensures
        rendered(r) == written(r.database, r.quoting.database) + seq!['.'] + written(
            r.schema,
            r.quoting.schema,
        ) + seq!['.'] + written(r.identifier, r.quoting.identifier),
{
    reveal_strlit(".");
    assert("."@ =~= seq!['.']);
}

/// A working table is built as the model is, but for its name, its grants and what it
/// copies.
pub proof fn a_working_table_is_built_as_the_model(m: WapModelView)
    ensures
        execution(m).alias == m.candidate_identifier,
        execution(m).config.alias == Some(m.candidate_identifier),
        execution(m).relation_name == Some(rendered(candidate(m))),
        execution(m).config.grants.len() == 0,
        execution(m).config.copy_grants == Some(false),
        execution(m).config.copy_tags == Some(false),
        m.model.snowflake is None ==> execution(m).snowflake is None,
        m.model.snowflake matches Some(a) ==> execution(m).snowflake == Some(
            SnowflakeAttrView {
                copy_grants: Some(false),
                copy_tags: Some(false),
                snowflake_warehouse: a.snowflake_warehouse,
            },
        ),
        execution(m).unique_id == m.model.unique_id,
        execution(m).adapter == m.model.adapter,
        execution(m).enabled == m.model.enabled,
        execution(m).materialized == m.model.materialized,
        execution(m).database == m.model.database,
        execution(m).schema == m.model.schema,
        execution(m).quoting == m.model.quoting,
        execution(m).compute == m.model.compute,
        execution(m).propagates == m.model.propagates,
        execution(m).id_hash == m.model.id_hash,
        execution(m).settings_error == m.model.settings_error,
        execution(m).config.wap == m.model.config.wap,
        execution(m).config.wap_retain_failed == m.model.config.wap_retain_failed,
        execution(m).config.transient == m.model.config.transient,
        execution(m).config.automatic_clustering == m.model.config.automatic_clustering,
        execution(m).config.sql_header == m.model.config.sql_header,
        execution(m).config.pre_hooks == m.model.config.pre_hooks,
        execution(m).config.post_hooks == m.model.config.post_hooks,
{
}

/// Every model and every other node is an owner, with its own place and quoting.
pub proof fn every_node_is_an_owner(nodes: Nodes, k: int)
    ensures
        owners(nodes).len() == nodes.models@.len() + nodes.others@.len(),
        0 <= k < nodes.models@.len() ==> {
            let o = owners(nodes)[k];
            let (id, model) = nodes.models@[k];
            &&& o.id == id@
            &&& o.resource_type == NodeType::Model
            &&& o.adapter == model.adapter
            &&& o.enabled == model.enabled
            &&& o.materialized == model.materialized
            &&& o.database == model.database@
            &&& o.schema == model.schema@
            &&& o.alias == model.alias@
            &&& o.quoting == model.quoting
        },
        0 <= k < nodes.others@.len() ==> {
            let o = owners(nodes)[nodes.models@.len() + k];
            let (id, other) = nodes.others@[k];
            &&& o.id == id@
            &&& o.resource_type == other.resource_type
            &&& o.adapter == other.adapter
            &&& o.enabled == other.enabled
            &&& o.materialized == other.materialized
            &&& o.database == other.database@
            &&& o.schema == other.schema@
            &&& o.alias == other.alias@
            &&& o.quoting == other.quoting
        },
{
}

/// What owns a relation, and where it stands.
pub proof fn owners_of_relations(o: RelationOwner, quoting: ResolvedQuoting)
    ensures
        owns_relation(o) <==> {
            &&& o.enabled
            &&& o.adapter == AdapterType::Snowflake
            &&& o.resource_type == NodeType::Model || o.resource_type == NodeType::Seed
                || o.resource_type == NodeType::Snapshot || o.resource_type == NodeType::Source
            &&& o.materialized != DbtMaterialization::Ephemeral
        },
        relation_under(o, quoting).database == o.database,
        relation_under(o, quoting).schema == o.schema,
        relation_under(o, quoting).identifier == o.alias,
        relation_under(o, quoting).quoting == quoting,
{
}

/// A model collides with an owner just where one of the two tables is the owner's, the
/// public table only of another node that is no source.
pub proof fn what_collides(id: Seq<char>, m: WapModelView, o: RelationOwner)
    ensures
        collision(id, m, o) is Some <==> owns_relation(o) && (identity(
            relation_under(o, o.quoting),
        ) == identity(candidate(m)) || o.id != id && o.resource_type != NodeType::Source
            && identity(relation_under(o, o.quoting)) == identity(public(m))),
        collision(id, m, o) matches Some(e) ==> e.code == ErrorCode::InvalidConfig,
{
}

proof fn taken_by(
    models: Seq<(Seq<char>, WapModelView)>,
    relation: RelationView,
    description: Seq<char>,
    i: int,
)
    requires
        0 <= i,
    ensures
        taken_from(models, relation, description, i) is Some <==> exists|k: int|
            i <= k < models.len() && (identity(relation) == identity(public(
                (#[trigger] models[k]).1,
            )) || identity(relation) == identity(candidate(models[k].1))),
    decreases models.len() - i,
{
    if i < models.len() {
        taken_by(models, relation, description, i + 1);
        assert(models[i] == models[i]);
    }
}

/// A relation of Snowflake is taken where it is a table of a planned model; those of other
/// adapters never are.
pub proof fn what_is_taken(
    models: Seq<(Seq<char>, WapModelView)>,
    relation: RelationView,
    description: Seq<char>,
)
    ensures
        taken(models, relation, description) is Some <==> relation.adapter_type
            == AdapterType::Snowflake && exists|k: int|
            0 <= k < models.len() && (identity(relation) == identity(public(
                (#[trigger] models[k]).1,
            )) || identity(relation) == identity(candidate(models[k].1))),
{
    taken_by(models, relation, description, 0);
}

/// What writes beside the plan: every owner of a relation but the planned models and the
/// sources.
pub proof fn what_writes(models: Seq<(Seq<char>, WapModelView)>, o: RelationOwner)
    ensures
        writes(models, o) <==> !has_key(models, o.id) && owns_relation(o) && o.resource_type
            != NodeType::Source,
{
    found_is_there(models, o.id);
}

/// Failures are stored in the place of their test under the quoting of the run.
pub proof fn where_failures_are_stored(test: DbtTest, quoting: ResolvedQuoting)
    ensures
        storage(test, quoting).database == test.database@,
        storage(test, quoting).schema == test.schema@,
        storage(test, quoting).identifier == test.alias@,
        storage(test, quoting).quoting == quoting,
        storage(test, quoting).adapter_type == AdapterType::Snowflake,
{
}

/// A plan without models needs nothing more; another needs both materializations as they
/// come with Snowflake.
pub proof fn materializations_that_publish(
    models: Seq<(Seq<char>, WapModelView)>,
    resolver: MaterializationResolver,
)
    ensures
        materializations_refusal(models, resolver) is None <==> models.len() == 0 || {
            &&& resolver.table.error is None
            &&& !resolver.table.custom
            &&& resolver.test.error is None
            &&& !resolver.test.custom
        },
        models.len() > 0 && resolver.table.error is Some ==> materializations_refusal(
            models,
            resolver,
        ) == Some(resolver.table.error->0@),
{
}

/// At run time the flag to store failures is a boolean, and is held against every audit.
pub proof fn the_flag_is_held_against_the_audits(
    models: Seq<(Seq<char>, WapModelView)>,
    nodes: Nodes,
    quoting: ResolvedQuoting,
    flag: Option<crate::value::Value>,
)
    ensures
        models.len() == 0 ==> runtime_refusal(models, nodes, quoting, flag) is None,
        runtime_refusal(models, nodes, quoting, flag) is None && models.len() > 0 ==> {
            &&& flag matches Some(v) && v.kind == crate::value::ValueKind::Boolean
            &&& stored_audits(keyed(nodes.tests@), models, flag->0.truthy, 0) is None
        },
{
}

/// What is said of invocations and models that are refused.
pub proof fn plan_refusals_are_told(
    m: WapModelView,
    quoting: ResolvedQuoting,
    id: Seq<char>,
    name: Seq<char>,
    resolver: MaterializationResolver,
)
    ensures
        quoting_refusal(m, quoting) matches Some(e) ==> e.code == ErrorCode::InvalidConfig
            && e.message == "WAP model '"@ + m.model.unique_id
            + "': the table materialization resolves a different database or schema under the profile's quoting policy; align the model and profile quoting settings"@,
        resolver.table.error is None && resolver.table.custom ==> (materializations_refusal(
            seq![(id, m)],
            resolver,
        ) matches Some(e) && e.code == ErrorCode::InvalidConfig && e.message == "WAP model '"@ + id
            + "' requires the built-in Snowflake '"@ + "table"@ + "' materialization"@),
        resolver.table.error is None && !resolver.table.custom && resolver.test.error is None
            && resolver.test.custom ==> (materializations_refusal(seq![(id, m)], resolver)
            matches Some(e) && e.code == ErrorCode::InvalidConfig && e.message == "WAP model '"@
            + id + "' requires the built-in Snowflake '"@ + "test"@ + "' materialization"@),
{
}

} // verus!
