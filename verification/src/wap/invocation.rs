//! The plan of an invocation: which models are audited and published, and what may not
//! stand in their way.

use crate::ordered::{difference, find, found, insert, inserted, keyed, minus};
use crate::relation::{identity, AdapterType, Relation, RelationView, ResolvedQuoting};
use crate::text::{ascii_upper, join, joined, same, to_ascii_upper, views};
use crate::value::{Value, ValueKind};
use crate::wap::nodes::{
    checked, invalid, invalid_config, owners, owners_view, owns_relation, relation_under, DbtModel,
    DbtTest, FsCommand, FsError, FsErrorView, LocalExecutionBackendKind, ModelView, NodeType, Nodes,
    Owner, RelationOwner,
};
use crate::wap::plan::{
    active, audits_from, audits_known, audits_refusal, candidate, has_other_dependency, is_active,
    is_local, is_owned, public, required_audits, runs_locally, stored_audits, stores,
    stores_audit_failures, stores_test_failures, validate_audits, WapModel, WapModelView,
};
use vstd::prelude::*;

verus! {

/// What an invocation runs with.
#[derive(Debug)]
pub struct RunTasksArgs {
    pub command: FsCommand,
    pub empty: bool,
    pub sample: Option<String>,
    pub sample_renaming: Vec<(String, String)>,
    pub local_execution_backend: LocalExecutionBackendKind,
    pub infer_schemas_and_typeless: bool,
    pub invocation_id: u128,
}

pub open spec fn hex_char(d: int) -> char {
    if d < 10 {
        (d + '0' as int) as char
    } else {
        (d - 10 + 'a' as int) as char
    }
}

/// A number as hexadecimal digits, so many of them.
pub open spec fn hex(n: int, width: nat) -> Seq<char>
    decreases width,
{
    if width == 0 {
        Seq::empty()
    } else {
        hex(n / 16, (width - 1) as nat).push(hex_char(n % 16))
    }
}

/// `Uuid::simple` and its `to_string`: the id as 32 lower case hexadecimal digits.
#[verifier::external_body]
fn simple(id: u128) -> (r: String)
    ensures
        r@ == hex(id as int, 32),
{
    uuid::Uuid::from_u128(id).simple().to_string()
}

/// The name of a model's working table in one invocation.
pub open spec fn candidate_name(invocation_id: u128, id_hash: Seq<char>) -> Seq<char> {
    ascii_upper("__DBT_WAP_"@ + hex(invocation_id as int, 32) + "_"@ + id_hash)
}

// ---------------------------------------------------------------------------
// What a plan holds
// ---------------------------------------------------------------------------

pub open spec fn prefix(id: Seq<char>) -> Seq<char> {
    "Model '"@ + id
}

/// What stands in the way of auditing and publishing a model in this invocation.
pub open spec fn invocation_refusal(args: RunTasksArgs, id: Seq<char>, model: ModelView) -> Option<
    FsErrorView,
> {
    if args.empty || args.sample is Some || args.sample_renaming@.len() > 0 {
        Some(invalid(prefix(id) + "': wap=true does not support --empty or --sample"@))
    } else if args.local_execution_backend != LocalExecutionBackendKind::Remote || is_local(
        model.compute,
    ) || model.propagates || args.infer_schemas_and_typeless {
        Some(
            invalid(
                prefix(id)
                    + "': wap=true requires execution on Snowflake without compute propagation or schema-only inference"@,
            ),
        )
    } else {
        None
    }
}

/// Why the audits of a model do not allow its publication, where they do not.
pub open spec fn selection_refusal(
    selected: Seq<(Seq<char>, ())>,
    id: Seq<char>,
    audits: Seq<(Seq<char>, ())>,
) -> Option<FsErrorView> {
    let missing = difference(audits, selected);
    if audits.len() == 0 {
        Some(
            invalid(
                prefix(id)
                    + "': wap=true requires at least one enabled single-relation data test"@,
            ),
        )
    } else if missing.len() > 0 {
        Some(
            invalid(
                prefix(id) + "': all WAP audits must be selected; missing: "@ + join(
                    missing,
                    ", "@,
                ),
            ),
        )
    } else {
        None
    }
}

/// The entry of a model that is to be built.
pub open spec fn built(
    args: RunTasksArgs,
    selected: Seq<(Seq<char>, ())>,
    nodes: Nodes,
    id: Seq<char>,
    model: ModelView,
) -> Result<WapModelView, FsErrorView> {
    match invocation_refusal(args, id, model) {
        Some(e) => Err(e),
        None => match required_audits(nodes.tests@, id) {
            Err(e) => Err(e),
            Ok(audits) => match selection_refusal(selected, id, audits) {
                Some(e) => Err(e),
                None => match audits_refusal(keyed(nodes.tests@), audits, 0) {
                    Some(e) => Err(e),
                    None => Ok(
                        WapModelView {
                            model,
                            candidate_identifier: candidate_name(
                                args.invocation_id,
                                model.id_hash,
                            ),
                            audit_ids: audits,
                        },
                    ),
                },
            },
        },
    }
}

/// The entry of a selected node, where it has one.
pub open spec fn entry(
    args: RunTasksArgs,
    selected: Seq<(Seq<char>, ())>,
    nodes: Nodes,
    id: Seq<char>,
) -> Result<Option<WapModelView>, FsErrorView> {
    match found(keyed(nodes.models@), id) {
        None => Ok(None),
        Some(model) => if model.config.wap != Some(true) {
            Ok(None)
        } else if model.settings_error is Some {
            Err(invalid(model.settings_error->0))
        } else {
            match args.command {
                FsCommand::Run | FsCommand::Clone => Err(
                    invalid(
                        prefix(id) + "' has wap=true; use dbt build to audit and publish it"@,
                    ),
                ),
                FsCommand::Build => match built(args, selected, nodes, id, model) {
                    Ok(m) => Ok(Some(m)),
                    Err(e) => Err(e),
                },
                _ => Ok(None),
            }
        },
    }
}

/// The entries of the selected nodes, from a place among them on.
pub open spec fn entries_from(
    args: RunTasksArgs,
    selected: Seq<(Seq<char>, ())>,
    nodes: Nodes,
    i: int,
    models: Seq<(Seq<char>, WapModelView)>,
) -> Result<Seq<(Seq<char>, WapModelView)>, FsErrorView>
    decreases selected.len() - i,
{
    if i < 0 || i >= selected.len() {
        Ok(models)
    } else {
        match entry(args, selected, nodes, selected[i].0) {
            Err(e) => Err(e),
            Ok(None) => entries_from(args, selected, nodes, i + 1, models),
            Ok(Some(m)) => entries_from(
                args,
                selected,
                nodes,
                i + 1,
                inserted(models, selected[i].0, m),
            ),
        }
    }
}

// ---------------------------------------------------------------------------
// Names that may not collide
// ---------------------------------------------------------------------------

/// A node's relation is one that a planned model needs for itself.
pub open spec fn collision(id: Seq<char>, m: WapModelView, o: RelationOwner) -> Option<
    FsErrorView,
> {
    let other = identity(relation_under(o, o.quoting));
    if !owns_relation(o) {
        None
    } else if other == identity(candidate(m)) {
        Some(
            invalid(
                "WAP candidate for '"@ + id + "' collides with relation of '"@ + o.id + "'"@,
            ),
        )
    } else if o.id != id && o.resource_type != NodeType::Source && other == identity(public(m)) {
        Some(
            invalid(
                "WAP model '"@ + id + "' shares its public relation with '"@ + o.id + "'"@,
            ),
        )
    } else {
        None
    }
}

pub open spec fn collisions(
    id: Seq<char>,
    m: WapModelView,
    os: Seq<RelationOwner>,
    i: int,
) -> Option<FsErrorView>
    decreases os.len() - i,
{
    if i < 0 || i >= os.len() {
        None
    } else {
        match collision(id, m, os[i]) {
            Some(e) => Some(e),
            None => collisions(id, m, os, i + 1),
        }
    }
}

pub open spec fn names_refusal(
    models: Seq<(Seq<char>, WapModelView)>,
    os: Seq<RelationOwner>,
    i: int,
) -> Option<FsErrorView>
    decreases models.len() - i,
{
    if i < 0 || i >= models.len() {
        None
    } else {
        match collisions(models[i].0, models[i].1, os, 0) {
            Some(e) => Some(e),
            None => names_refusal(models, os, i + 1),
        }
    }
}

/// The relation is the public or the working table of a planned model.
pub open spec fn taken_from(
    models: Seq<(Seq<char>, WapModelView)>,
    relation: RelationView,
    description: Seq<char>,
    i: int,
) -> Option<FsErrorView>
    decreases models.len() - i,
{
    if i < 0 || i >= models.len() {
        None
    } else if identity(relation) == identity(public(models[i].1)) || identity(relation)
        == identity(candidate(models[i].1)) {
        Some(
            invalid(
                description + " collides with the public or candidate table of WAP model '"@
                    + models[i].0 + "'"@,
            ),
        )
    } else {
        taken_from(models, relation, description, i + 1)
    }
}

pub open spec fn taken(
    models: Seq<(Seq<char>, WapModelView)>,
    relation: RelationView,
    description: Seq<char>,
) -> Option<FsErrorView> {
    if relation.adapter_type != AdapterType::Snowflake {
        None
    } else {
        taken_from(models, relation, description, 0)
    }
}

/// The node writes a relation in this invocation and is not itself planned.
pub open spec fn writes(models: Seq<(Seq<char>, WapModelView)>, o: RelationOwner) -> bool {
    found(models, o.id) is None && owns_relation(o) && o.resource_type != NodeType::Source
}

pub open spec fn outputs_refusal(
    models: Seq<(Seq<char>, WapModelView)>,
    os: Seq<RelationOwner>,
    quoting: ResolvedQuoting,
    i: int,
) -> Option<FsErrorView>
    decreases os.len() - i,
{
    if i < 0 || i >= os.len() {
        None
    } else if !writes(models, os[i]) {
        outputs_refusal(models, os, quoting, i + 1)
    } else {
        match taken(
            models,
            relation_under(os[i], quoting),
            "Output relation for '"@ + os[i].id + "'"@,
        ) {
            Some(e) => Some(e),
            None => outputs_refusal(models, os, quoting, i + 1),
        }
    }
}

/// The relation in which a test keeps the rows that failed.
pub open spec fn storage(test: DbtTest, quoting: ResolvedQuoting) -> RelationView {
    RelationView {
        adapter_type: AdapterType::Snowflake,
        database: test.database@,
        schema: test.schema@,
        identifier: test.alias@,
        relation_type: None,
        quoting,
    }
}

/// The tests keep no failures in the tables of a planned model, from a place on.
pub open spec fn storages_refusal(
    tests: Seq<(String, DbtTest)>,
    id: Seq<char>,
    m: WapModelView,
    quoting: ResolvedQuoting,
    flag: bool,
    i: int,
) -> Option<FsErrorView>
    decreases tests.len() - i,
{
    if i < 0 || i >= tests.len() {
        None
    } else {
        let (test_id, test) = tests[i];
        let name = identity(storage(test, quoting));
        if active(test) && test.adapter == AdapterType::Snowflake && stores(test, flag) && (name
            == identity(public(m)) || name == identity(candidate(m))) {
            Some(
                invalid(
                    "Failure storage for test '"@ + test_id@
                        + "' collides with the public or candidate table of WAP model '"@ + id
                        + "'"@,
                ),
            )
        } else {
            storages_refusal(tests, id, m, quoting, flag, i + 1)
        }
    }
}

pub open spec fn storage_refusal(
    tests: Seq<(String, DbtTest)>,
    models: Seq<(Seq<char>, WapModelView)>,
    quoting: ResolvedQuoting,
    flag: bool,
    i: int,
) -> Option<FsErrorView>
    decreases models.len() - i,
{
    if i < 0 || i >= models.len() {
        None
    } else {
        match storages_refusal(tests, models[i].0, models[i].1, quoting, flag, 0) {
            Some(e) => Some(e),
            None => storage_refusal(tests, models, quoting, flag, i + 1),
        }
    }
}

/// The plan of an invocation, or why there is none.
pub open spec fn plan(args: RunTasksArgs, selected: Seq<(Seq<char>, ())>, nodes: Nodes) -> Result<
    Seq<(Seq<char>, WapModelView)>,
    FsErrorView,
> {
    match entries_from(args, selected, nodes, 0, Seq::empty()) {
        Err(e) => Err(e),
        Ok(models) => match names_refusal(models, owners(nodes), 0) {
            Some(e) => Err(e),
            None => match stored_audits(keyed(nodes.tests@), models, false, 0) {
                Some(e) => Err(e),
                None => Ok(models),
            },
        },
    }
}

/// A flag of the invocation, where it is a boolean.
pub open spec fn boolean(flag: Option<Value>) -> Option<bool> {
    match flag {
        Some(v) => if v.kind == ValueKind::Boolean {
            Some(v.truthy)
        } else {
            None
        },
        None => None,
    }
}

/// Why the invocation may not store failures as its flags have it, where it may not.
pub open spec fn runtime_refusal(
    models: Seq<(Seq<char>, WapModelView)>,
    nodes: Nodes,
    quoting: ResolvedQuoting,
    flag: Option<Value>,
) -> Option<FsErrorView> {
    if models.len() == 0 {
        None
    } else {
        match boolean(flag) {
            None => Some(invalid("WAP requires a resolved boolean STORE_FAILURES flag"@)),
            Some(b) => match stored_audits(keyed(nodes.tests@), models, b, 0) {
                Some(e) => Some(e),
                None => storage_refusal(nodes.tests@, models, quoting, b, 0),
            },
        }
    }
}

// ---------------------------------------------------------------------------
// Materializations
// ---------------------------------------------------------------------------

/// What resolving a materialization came to: an error where none was found, or whether
/// the one that was found is a project's own.
#[derive(Debug)]
pub struct Materialization {
    pub error: Option<FsError>,
    pub custom: bool,
}

/// The materializations that build and audit tables of an adapter.
#[derive(Debug)]
pub struct MaterializationResolver {
    pub table: Materialization,
    pub test: Materialization,
}

pub open spec fn materialization_refusal(
    id: Seq<char>,
    name: Seq<char>,
    m: Materialization,
) -> Option<FsErrorView> {
    match m.error {
        Some(e) => Some(e@),
        None => if m.custom {
            Some(
                invalid(
                    "WAP model '"@ + id + "' requires the built-in Snowflake '"@ + name
                        + "' materialization"@,
                ),
            )
        } else {
            None
        },
    }
}

/// Why the materializations cannot build the plan: what holds of one model holds of all.
pub open spec fn materializations_refusal(
    models: Seq<(Seq<char>, WapModelView)>,
    resolver: MaterializationResolver,
) -> Option<FsErrorView> {
    if models.len() == 0 {
        None
    } else {
        match materialization_refusal(models[0].0, "table"@, resolver.table) {
            Some(e) => Some(e),
            None => materialization_refusal(models[0].0, "test"@, resolver.test),
        }
    }
}

fn validate_materialization(id: &str, name: &str, m: &Materialization) -> (r: Result<(), FsError>)
    ensures
        checked(r, materialization_refusal(id@, name@, *m)),
{
    if let Some(e) = &m.error {
        return Err(e.copy());
    }
    if m.custom {
        return Err(
            invalid_config(
                "WAP model '".to_owned().concat(id).concat(
                    "' requires the built-in Snowflake '",
                ).concat(name).concat("' materialization"),
            ),
        );
    }
    Ok(())
}

// ---------------------------------------------------------------------------
// The plan
// ---------------------------------------------------------------------------

/// Validated WAP work for the selected models in a single invocation.
#[derive(Debug)]
pub struct WapPlan {
    pub models: Vec<(String, WapModel)>,
}

impl View for WapPlan {
    type V = Seq<(Seq<char>, WapModelView)>;

    open spec fn view(&self) -> Seq<(Seq<char>, WapModelView)> {
        keyed(self.models@)
    }
}

fn validate_invocation(args: &RunTasksArgs, id: &str, model: &DbtModel) -> (r: Result<(), FsError>)
    ensures
        checked(r, invocation_refusal(*args, id@, model@)),
{
    if args.empty || args.sample.is_some() || args.sample_renaming.len() > 0 {
        return Err(
            invalid_config(
                "Model '".to_owned().concat(id).concat(
                    "': wap=true does not support --empty or --sample",
                ),
            ),
        );
    }
    if args.local_execution_backend != LocalExecutionBackendKind::Remote || runs_locally(
        model.compute,
    ) || model.propagates || args.infer_schemas_and_typeless {
        return Err(
            invalid_config(
                "Model '".to_owned().concat(id).concat(
                    "': wap=true requires execution on Snowflake without compute propagation or schema-only inference",
                ),
            ),
        );
    }
    Ok(())
}

fn validate_selection(
    selected: &Vec<(String, ())>,
    id: &str,
    audits: &Vec<(String, ())>,
) -> (r: Result<(), FsError>)
    ensures
        checked(r, selection_refusal(keyed(selected@), id@, keyed(audits@))),
{
    assert(keyed(audits@).len() == audits@.len());
    if audits.len() == 0 {
        return Err(
            invalid_config(
                "Model '".to_owned().concat(id).concat(
                    "': wap=true requires at least one enabled single-relation data test",
                ),
            ),
        );
    }
    let missing = minus(audits, selected);
    assert(views(missing@).len() == missing@.len());
    if missing.len() > 0 {
        return Err(
            invalid_config(
                "Model '".to_owned().concat(id).concat(
                    "': all WAP audits must be selected; missing: ",
                ).concat(joined(&missing, ", ").as_str()),
            ),
        );
    }
    Ok(())
}

pub open spec fn entry_is(
    r: Result<Option<WapModel>, FsError>,
    expected: Result<Option<WapModelView>, FsErrorView>,
) -> bool {
    match (r, expected) {
        (Ok(None), Ok(None)) => true,
        (Ok(Some(m)), Ok(Some(n))) => m@ == n,
        (Err(e), Err(f)) => e@ == f,
        _ => false,
    }
}

fn build_entry(
    args: &RunTasksArgs,
    selected: &Vec<(String, ())>,
    nodes: &Nodes,
    id: &str,
) -> (r: Result<Option<WapModel>, FsError>)
    ensures
        entry_is(r, entry(*args, keyed(selected@), *nodes, id@)),
{
    let model = match nodes.model(id) {
        Some(m) => m,
        None => {
            return Ok(None);
        },
    };
    match model.config.wap {
        Some(true) => {},
        _ => {
            return Ok(None);
        },
    }
    if let Some(e) = &model.settings_error {
        return Err(invalid_config(e.clone()));
    }
    match args.command {
        FsCommand::Run | FsCommand::Clone => {
            return Err(
                invalid_config(
                    "Model '".to_owned().concat(id).concat(
                        "' has wap=true; use dbt build to audit and publish it",
                    ),
                ),
            );
        },
        FsCommand::Build => {},
        // Read-only commands and standalone tests use canonical relations.
        _ => {
            return Ok(None);
        },
    }
    if let Err(e) = validate_invocation(args, id, model) {
        return Err(e);
    }
    let audits = match WapPlan::required_audit_ids(id, nodes) {
        Ok(a) => a,
        Err(e) => {
            return Err(e);
        },
    };
    if let Err(e) = validate_selection(selected, id, &audits) {
        return Err(e);
    }
    if let Err(e) = validate_audits(nodes, &audits) {
        return Err(e);
    }
    let name = "__DBT_WAP_".to_owned().concat(simple(args.invocation_id).as_str()).concat(
        "_",
    ).concat(model.id_hash.as_str());
    Ok(
        Some(
            WapModel {
                model: model.copy(),
                candidate_identifier: to_ascii_upper(name.as_str()),
                audit_ids: audits,
            },
        ),
    )
}

fn validate_owner(id: &str, m: &WapModel, o: &Owner) -> (r: Result<(), FsError>)
    ensures
        checked(r, collision(id@, m@, o@)),
{
    if !o.owns_relation() {
        return Ok(());
    }
    let other = o.relation_under(o.quoting).relation_identity();
    if other.is(&m.candidate_relation().relation_identity()) {
        return Err(
            invalid_config(
                "WAP candidate for '".to_owned().concat(id).concat(
                    "' collides with relation of '",
                ).concat(o.id.as_str()).concat("'"),
            ),
        );
    }
    if !same(o.id.as_str(), id) && o.resource_type != NodeType::Source && other.is(
        &m.public_relation().relation_identity(),
    ) {
        return Err(
            invalid_config(
                "WAP model '".to_owned().concat(id).concat(
                    "' shares its public relation with '",
                ).concat(o.id.as_str()).concat("'"),
            ),
        );
    }
    Ok(())
}

fn validate_owners(id: &str, m: &WapModel, os: &Vec<Owner>) -> (r: Result<(), FsError>)
    ensures
        checked(r, collisions(id@, m@, owners_view(os@), 0)),
{
    let ghost all = owners_view(os@);
    let mut i: usize = 0;
    while i < os.len()
        invariant
            i <= os.len(),
            all == owners_view(os@),
            collisions(id@, m@, all, 0) == collisions(id@, m@, all, i as int),
        decreases os.len() - i,
    {
        assert(all[i as int] == os@[i as int]@);
        if let Err(e) = validate_owner(id, m, &os[i]) {
            return Err(e);
        }
        i += 1;
    }
    Ok(())
}

fn validate_storages(
    nodes: &Nodes,
    id: &str,
    m: &WapModel,
    quoting: ResolvedQuoting,
    flag: bool,
) -> (r: Result<(), FsError>)
    ensures
        checked(r, storages_refusal(nodes.tests@, id@, m@, quoting, flag, 0)),
{
    let target = m.public_relation().relation_identity();
    let working = m.candidate_relation().relation_identity();
    let mut i: usize = 0;
    while i < nodes.tests.len()
        invariant
            i <= nodes.tests.len(),
            target@ == identity(public(m@)),
            working@ == identity(candidate(m@)),
            storages_refusal(nodes.tests@, id@, m@, quoting, flag, 0) == storages_refusal(
                nodes.tests@,
                id@,
                m@,
                quoting,
                flag,
                i as int,
            ),
        decreases nodes.tests.len() - i,
    {
        let (test_id, test) = &nodes.tests[i];
        if is_active(test) && test.adapter == AdapterType::Snowflake && stores_test_failures(
            test,
            flag,
        ) {
            let name = Relation::new(
                AdapterType::Snowflake,
                test.database.as_str(),
                test.schema.as_str(),
                test.alias.as_str(),
                None,
                quoting,
            ).relation_identity();
            if name.is(&target) || name.is(&working) {
                return Err(
                    invalid_config(
                        "Failure storage for test '".to_owned().concat(test_id.as_str()).concat(
                            "' collides with the public or candidate table of WAP model '",
                        ).concat(id).concat("'"),
                    ),
                );
            }
        }
        i += 1;
    }
    Ok(())
}

impl WapPlan {
    /// No model is planned.
    pub fn none() -> (r: WapPlan)
        ensures
            r@ == Seq::<(Seq<char>, WapModelView)>::empty(),
    {
        let r = WapPlan { models: Vec::new() };
        assert(r@ =~= Seq::empty());
        r
    }

    /// Discover all required audits before any warehouse writes are scheduled.
    pub fn build(args: &RunTasksArgs, selected_nodes: &Vec<(String, ())>, nodes: &Nodes) -> (r:
        Result<WapPlan, FsError>)
        ensures
            match (r, plan(*args, keyed(selected_nodes@), *nodes)) {
                (Ok(p), Ok(models)) => p@ == models,
                (Err(e), Err(f)) => e@ == f,
                _ => false,
            },
    {
        let ghost selected = keyed(selected_nodes@);
        let mut made = WapPlan::none();
        let mut i: usize = 0;
        while i < selected_nodes.len()
            invariant
                i <= selected_nodes.len(),
                selected == keyed(selected_nodes@),
                entries_from(*args, selected, *nodes, 0, Seq::empty()) == entries_from(
                    *args,
                    selected,
                    *nodes,
                    i as int,
                    made@,
                ),
            decreases selected_nodes.len() - i,
        {
            let id = &selected_nodes[i].0;
            assert(selected[i as int].0 == id@);
            match build_entry(args, selected_nodes, nodes, id.as_str()) {
                Err(e) => {
                    return Err(e);
                },
                Ok(None) => {},
                Ok(Some(m)) => {
                    insert(&mut made.models, id.clone(), m);
                },
            }
            i += 1;
        }
        if let Err(e) = made.validate_relation_names(nodes) {
            return Err(e);
        }
        if let Err(e) = made.refuse_stored_failures(nodes, false) {
            return Err(e);
        }
        Ok(made)
    }

    fn refuse_stored_failures(&self, nodes: &Nodes, flag: bool) -> (r: Result<(), FsError>)
        ensures
            checked(r, stored_audits(keyed(nodes.tests@), self@, flag, 0)),
    {
        let mut i: usize = 0;
        while i < self.models.len()
            invariant
                i <= self.models.len(),
                stored_audits(keyed(nodes.tests@), self@, flag, 0) == stored_audits(
                    keyed(nodes.tests@),
                    self@,
                    flag,
                    i as int,
                ),
            decreases self.models.len() - i,
        {
            assert(self@[i as int].1 == self.models@[i as int].1@);
            if let Err(e) = stores_audit_failures(nodes, &self.models[i].1.audit_ids, flag) {
                return Err(e);
            }
            i += 1;
        }
        Ok(())
    }

    /// Persisted failure tables are shared across invocations. Another test can
    /// replace their contents between materialization and counting failures.
    pub fn validate_audit_failure_storage(&self, nodes: &Nodes, store_failures_flag: bool) -> (r:
        Result<(), FsError>)
        requires
            audits_known(keyed(nodes.tests@), self@),
        ensures
            checked(r, stored_audits(keyed(nodes.tests@), self@, store_failures_flag, 0)),
    {
        self.refuse_stored_failures(nodes, store_failures_flag)
    }

    /// Check the actual execution flag as well as the parser-resolved configs.
    /// Flags are globals of the templates and are not part of the node's base context.
    pub fn validate_runtime_failure_storage(
        &self,
        nodes: &Nodes,
        effective_quoting: ResolvedQuoting,
        store_failures: &Option<Value>,
    ) -> (r: Result<(), FsError>)
        requires
            audits_known(keyed(nodes.tests@), self@),
        ensures
            checked(r, runtime_refusal(self@, *nodes, effective_quoting, *store_failures)),
    {
        assert(self@.len() == self.models@.len());
        if self.models.len() == 0 {
            return Ok(());
        }
        let flag = match store_failures {
            Some(v) => if v.kind == ValueKind::Boolean {
                Some(v.truthy)
            } else {
                None
            },
            None => None,
        };
        match flag {
            None => Err(
                invalid_config("WAP requires a resolved boolean STORE_FAILURES flag".to_owned()),
            ),
            Some(b) => {
                if let Err(e) = self.validate_audit_failure_storage(nodes, b) {
                    return Err(e);
                }
                self.validate_test_storage_relations(nodes, effective_quoting, b)
            },
        }
    }

    /// Resolve model and audit materializations before any warehouse writes.
    pub fn validate_materializations(&self, resolver: &MaterializationResolver) -> (r: Result<
        (),
        FsError,
    >)
        ensures
            checked(r, materializations_refusal(self@, *resolver)),
    {
        assert(self@.len() == self.models@.len());
        if self.models.len() == 0 {
            return Ok(());
        }
        let id = self.models[0].0.as_str();
        assert(self@[0].0 == id@);
        if let Err(e) = validate_materialization(id, "table", &resolver.table) {
            return Err(e);
        }
        validate_materialization(id, "test", &resolver.test)
    }

    fn validate_relation_names(&self, nodes: &Nodes) -> (r: Result<(), FsError>)
        ensures
            checked(r, names_refusal(self@, owners(*nodes), 0)),
    {
        let os = nodes.owners();
        let mut i: usize = 0;
        while i < self.models.len()
            invariant
                i <= self.models.len(),
                owners_view(os@) == owners(*nodes),
                names_refusal(self@, owners(*nodes), 0) == names_refusal(
                    self@,
                    owners(*nodes),
                    i as int,
                ),
            decreases self.models.len() - i,
        {
            assert(self@[i as int] == (self.models@[i as int].0@, self.models@[i as int].1@));
            if let Err(e) = validate_owners(self.models[i].0.as_str(), &self.models[i].1, &os) {
                return Err(e);
            }
            i += 1;
        }
        Ok(())
    }

    /// Auxiliary relations must not replace a public or working WAP table.
    pub fn validate_auxiliary_relation(&self, relation: &Relation, description: &str) -> (r: Result<
        (),
        FsError,
    >)
        ensures
            checked(r, taken(self@, relation@, description@)),
    {
        if relation.adapter_type != AdapterType::Snowflake {
            return Ok(());
        }
        let name = relation.relation_identity();
        let mut i: usize = 0;
        while i < self.models.len()
            invariant
                i <= self.models.len(),
                name@ == identity(relation@),
                relation.adapter_type == AdapterType::Snowflake,
                taken_from(self@, relation@, description@, 0) == taken_from(
                    self@,
                    relation@,
                    description@,
                    i as int,
                ),
            decreases self.models.len() - i,
        {
            assert(self@[i as int] == (self.models@[i as int].0@, self.models@[i as int].1@));
            let m = &self.models[i].1;
            if name.is(&m.public_relation().relation_identity()) || name.is(
                &m.candidate_relation().relation_identity(),
            ) {
                return Err(
                    invalid_config(
                        description.to_owned().concat(
                            " collides with the public or candidate table of WAP model '",
                        ).concat(self.models[i].0.as_str()).concat("'"),
                    ),
                );
            }
            i += 1;
        }
        Ok(())
    }

    /// Built-in materializations create outputs using the adapter's quoting,
    /// which can resolve a different name from the node's manifest relation.
    pub fn validate_materialization_relations(
        &self,
        nodes: &Nodes,
        effective_quoting: ResolvedQuoting,
    ) -> (r: Result<(), FsError>)
        ensures
            checked(r, outputs_refusal(self@, owners(*nodes), effective_quoting, 0)),
    {
        let os = nodes.owners();
        let ghost all = owners(*nodes);
        let mut i: usize = 0;
        while i < os.len()
            invariant
                i <= os.len(),
                owners_view(os@) == all,
                all == owners(*nodes),
                outputs_refusal(self@, all, effective_quoting, 0) == outputs_refusal(
                    self@,
                    all,
                    effective_quoting,
                    i as int,
                ),
            decreases os.len() - i,
        {
            assert(all[i as int] == os@[i as int]@);
            let o = &os[i];
            if find(&self.models, o.id.as_str()).is_none() && o.owns_relation() && o.resource_type
                != NodeType::Source {
                let relation = o.relation_under(effective_quoting);
                let description = "Output relation for '".to_owned().concat(
                    o.id.as_str(),
                ).concat("'");
                if let Err(e) = self.validate_auxiliary_relation(&relation, description.as_str()) {
                    return Err(e);
                }
            }
            i += 1;
        }
        Ok(())
    }

    /// Failure storage must not overwrite a public or working WAP table.
    /// Test materializations create their relations with the adapter's quoting,
    /// which can differ from the test node's configured quoting.
    pub fn validate_test_storage_relations(
        &self,
        nodes: &Nodes,
        effective_quoting: ResolvedQuoting,
        store_failures_flag: bool,
    ) -> (r: Result<(), FsError>)
        ensures
            checked(
                r,
                storage_refusal(nodes.tests@, self@, effective_quoting, store_failures_flag, 0),
            ),
    {
        let mut i: usize = 0;
        while i < self.models.len()
            invariant
                i <= self.models.len(),
                storage_refusal(nodes.tests@, self@, effective_quoting, store_failures_flag, 0)
                    == storage_refusal(
                    nodes.tests@,
                    self@,
                    effective_quoting,
                    store_failures_flag,
                    i as int,
                ),
            decreases self.models.len() - i,
        {
            assert(self@[i as int] == (self.models@[i as int].0@, self.models@[i as int].1@));
            if let Err(e) = validate_storages(
                nodes,
                self.models[i].0.as_str(),
                &self.models[i].1,
                effective_quoting,
                store_failures_flag,
            ) {
                return Err(e);
            }
            i += 1;
        }
        Ok(())
    }

    /// Required enabled audits, using the full manifest rather than pruned selection.
    pub fn required_audit_ids(model_id: &str, nodes: &Nodes) -> (r: Result<
        Vec<(String, ())>,
        FsError,
    >)
        ensures
            match (r, required_audits(nodes.tests@, model_id@)) {
                (Ok(ids), Ok(audits)) => keyed(ids@) == audits,
                (Err(e), Err(f)) => e@ == f,
                _ => false,
            },
    {
        let mut ids: Vec<(String, ())> = Vec::new();
        let mut i: usize = 0;
        assert(keyed(ids@) =~= Seq::empty());
        while i < nodes.tests.len()
            invariant
                i <= nodes.tests.len(),
                required_audits(nodes.tests@, model_id@) == audits_from(
                    nodes.tests@,
                    model_id@,
                    i as int,
                    keyed(ids@),
                ),
            decreases nodes.tests.len() - i,
        {
            let (test_id, test) = &nodes.tests[i];
            if is_active(test) && is_owned(test, model_id) {
                if test.depends_on.len() == 0 || has_other_dependency(test, model_id) {
                    return Err(
                        invalid_config(
                            "WAP audit '".to_owned().concat(test_id.as_str()).concat(
                                "' for '",
                            ).concat(model_id).concat(
                                "' must depend only on that model; multi-relation audits are not supported",
                            ),
                        ),
                    );
                }
                insert(&mut ids, test_id.clone(), ());
            }
            i += 1;
        }
        Ok(ids)
    }

    pub fn model<'a>(&'a self, unique_id: &str) -> (r: Option<&'a WapModel>)
        ensures
            match r {
                Some(m) => found(self@, unique_id@) == Some(m@),
                None => found(self@, unique_id@) is None,
            },
    {
        find(&self.models, unique_id)
    }

    /// The first model that has the audit.
    pub fn audit_owner<'a>(&'a self, unique_id: &str) -> (r: Option<&'a WapModel>)
        ensures
            match (r, owner_from(self@, unique_id@, 0)) {
                (Some(m), Some(n)) => m@ == n,
                (None, None) => true,
                _ => false,
            },
    {
        let mut i: usize = 0;
        while i < self.models.len()
            invariant
                i <= self.models.len(),
                owner_from(self@, unique_id@, 0) == owner_from(self@, unique_id@, i as int),
            decreases self.models.len() - i,
        {
            assert(self@[i as int].1 == self.models@[i as int].1@);
            if find(&self.models[i].1.audit_ids, unique_id).is_some() {
                return Some(&self.models[i].1);
            }
            i += 1;
        }
        None
    }

    pub fn contains_node(&self, unique_id: &str) -> (r: bool)
        ensures
            r == (found(self@, unique_id@) is Some || owner_from(self@, unique_id@, 0) is Some),
    {
        self.model(unique_id).is_some() || self.audit_owner(unique_id).is_some()
    }
}

/// The first model that has an audit, from a place among the models on.
pub open spec fn owner_from(
    models: Seq<(Seq<char>, WapModelView)>,
    audit: Seq<char>,
    i: int,
) -> Option<WapModelView>
    decreases models.len() - i,
{
    if i < 0 || i >= models.len() {
        None
    } else if found(models[i].1.audit_ids, audit) is Some {
        Some(models[i].1)
    } else {
        owner_from(models, audit, i + 1)
    }
}

} // verus!
