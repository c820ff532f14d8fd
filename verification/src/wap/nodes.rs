//! The nodes of a project, as far as audited publication reads them.

use crate::json::{opt, Json};
use crate::ordered::{find, found, insert, inserted, keyed};
use crate::relation::{AdapterType, Relation, RelationType, RelationView, ResolvedQuoting};
use crate::text::views;
use vstd::prelude::*;

verus! {

#[derive(Debug, Clone, Copy, PartialEq, Eq, Structural)]
pub enum ErrorCode {
    InvalidConfig,
    ExecutionError,
    Unexpected,
    Generic,
    InvalidArgument,
}

#[derive(Debug)]
pub struct FsError {
    pub code: ErrorCode,
    pub message: String,
}

pub struct FsErrorView {
    pub code: ErrorCode,
    pub message: Seq<char>,
}

impl View for FsError {
    type V = FsErrorView;

    open spec fn view(&self) -> FsErrorView {
        FsErrorView { code: self.code, message: self.message@ }
    }
}

impl FsError {
    pub fn new(code: ErrorCode, message: String) -> (r: FsError)
        ensures
            r@ == (FsErrorView { code, message: message@ }),
    {
        FsError { code, message }
    }

    pub fn copy(&self) -> (r: FsError)
        ensures
            r@ == self@,
    {
        FsError { code: self.code, message: self.message.clone() }
    }
}

pub open spec fn invalid(message: Seq<char>) -> FsErrorView {
    FsErrorView { code: ErrorCode::InvalidConfig, message }
}

pub fn invalid_config(message: String) -> (r: FsError)
    ensures
        r@ == invalid(message@),
{
    FsError { code: ErrorCode::InvalidConfig, message }
}

/// The result of a check is what it has to be.
pub open spec fn checked(r: Result<(), FsError>, expected: Option<FsErrorView>) -> bool {
    match (r, expected) {
        (Ok(_), None) => true,
        (Err(e), Some(f)) => e@ == f,
        _ => false,
    }
}

#[derive(Debug, Clone, Copy, PartialEq, Eq, Structural)]
pub enum NodeType {
    Model,
    Seed,
    Snapshot,
    Source,
    Test,
    UnitTest,
    Function,
}

#[derive(Debug, Clone, Copy, PartialEq, Eq, Structural)]
pub enum DbtMaterialization {
    Table,
    View,
    Incremental,
    Ephemeral,
    Other,
}

/// Where a node computes.
#[derive(Debug, Clone, Copy, PartialEq, Eq, Structural)]
pub enum ComputeArg {
    Remote,
    Local,
}

/// Where an invocation executes.
#[derive(Debug, Clone, Copy, PartialEq, Eq, Structural)]
pub enum LocalExecutionBackendKind {
    Remote,
    Inline,
    Worker,
    Service,
}

#[derive(Debug, Clone, Copy, PartialEq, Eq, Structural)]
pub enum FsCommand {
    Build,
    Run,
    Clone,
    Test,
    Compile,
    Other,
}

#[derive(Debug, Clone, Copy, PartialEq, Eq, Structural)]
pub enum StoreFailuresAs {
    Table,
    View,
    Ephemeral,
}

#[derive(Debug, Clone, Copy, PartialEq, Eq, Structural)]
pub enum Severity {
    Error,
    Warn,
}

// ---------------------------------------------------------------------------
// Models
// ---------------------------------------------------------------------------

/// A privilege and those to whom it is granted.
#[derive(Debug)]
pub struct Grant {
    pub privilege: String,
    pub grantees: Vec<String>,
}

pub struct GrantView {
    pub privilege: Seq<char>,
    pub grantees: Seq<Seq<char>>,
}

impl View for Grant {
    type V = GrantView;

    open spec fn view(&self) -> GrantView {
        GrantView { privilege: self.privilege@, grantees: views(self.grantees@) }
    }
}

pub open spec fn grants_view(grants: Seq<Grant>) -> Seq<GrantView> {
    grants.map_values(|g: Grant| g@)
}

/// What a model is configured with.
#[derive(Debug)]
pub struct ModelConfig {
    pub wap: Option<bool>,
    pub wap_retain_failed: Option<bool>,
    pub alias: Option<String>,
    pub transient: Option<bool>,
    pub copy_grants: Option<bool>,
    pub copy_tags: Option<bool>,
    pub automatic_clustering: Option<bool>,
    pub grants: Vec<Grant>,
    pub sql_header: Option<String>,
    pub pre_hooks: Vec<String>,
    pub post_hooks: Vec<String>,
}

pub struct ModelConfigView {
    pub wap: Option<bool>,
    pub wap_retain_failed: Option<bool>,
    pub alias: Option<Seq<char>>,
    pub transient: Option<bool>,
    pub copy_grants: Option<bool>,
    pub copy_tags: Option<bool>,
    pub automatic_clustering: Option<bool>,
    pub grants: Seq<GrantView>,
    pub sql_header: Option<Seq<char>>,
    pub pre_hooks: Seq<Seq<char>>,
    pub post_hooks: Seq<Seq<char>>,
}

impl View for ModelConfig {
    type V = ModelConfigView;

    open spec fn view(&self) -> ModelConfigView {
        ModelConfigView {
            wap: self.wap,
            wap_retain_failed: self.wap_retain_failed,
            alias: opt(self.alias),
            transient: self.transient,
            copy_grants: self.copy_grants,
            copy_tags: self.copy_tags,
            automatic_clustering: self.automatic_clustering,
            grants: grants_view(self.grants@),
            sql_header: opt(self.sql_header),
            pre_hooks: views(self.pre_hooks@),
            post_hooks: views(self.post_hooks@),
        }
    }
}

/// What only Snowflake models have.
#[derive(Debug)]
pub struct SnowflakeAttr {
    pub copy_grants: Option<bool>,
    pub copy_tags: Option<bool>,
    pub snowflake_warehouse: Option<String>,
}

pub struct SnowflakeAttrView {
    pub copy_grants: Option<bool>,
    pub copy_tags: Option<bool>,
    pub snowflake_warehouse: Option<Seq<char>>,
}

pub open spec fn snowflake_view(attr: Option<SnowflakeAttr>) -> Option<SnowflakeAttrView> {
    match attr {
        Some(a) => Some(
            SnowflakeAttrView {
                copy_grants: a.copy_grants,
                copy_tags: a.copy_tags,
                snowflake_warehouse: opt(a.snowflake_warehouse),
            },
        ),
        None => None,
    }
}

#[derive(Debug)]
pub struct DbtModel {
    pub unique_id: String,
    pub adapter: AdapterType,
    pub enabled: bool,
    pub materialized: DbtMaterialization,
    pub database: String,
    pub schema: String,
    pub alias: String,
    pub relation_name: Option<String>,
    pub quoting: ResolvedQuoting,
    pub compute: Option<ComputeArg>,
    /// Its compute is handed on to other nodes.
    pub propagates: bool,
    /// The hash of its unique id.
    pub id_hash: String,
    /// Why its own settings cannot be used for audited publication, where they cannot.
    pub settings_error: Option<String>,
    pub config: ModelConfig,
    pub snowflake: Option<SnowflakeAttr>,
}

pub struct ModelView {
    pub unique_id: Seq<char>,
    pub adapter: AdapterType,
    pub enabled: bool,
    pub materialized: DbtMaterialization,
    pub database: Seq<char>,
    pub schema: Seq<char>,
    pub alias: Seq<char>,
    pub relation_name: Option<Seq<char>>,
    pub quoting: ResolvedQuoting,
    pub compute: Option<ComputeArg>,
    pub propagates: bool,
    pub id_hash: Seq<char>,
    pub settings_error: Option<Seq<char>>,
    pub config: ModelConfigView,
    pub snowflake: Option<SnowflakeAttrView>,
}

impl View for DbtModel {
    type V = ModelView;

    open spec fn view(&self) -> ModelView {
        ModelView {
            unique_id: self.unique_id@,
            adapter: self.adapter,
            enabled: self.enabled,
            materialized: self.materialized,
            database: self.database@,
            schema: self.schema@,
            alias: self.alias@,
            relation_name: opt(self.relation_name),
            quoting: self.quoting,
            compute: self.compute,
            propagates: self.propagates,
            id_hash: self.id_hash@,
            settings_error: opt(self.settings_error),
            config: self.config@,
            snowflake: snowflake_view(self.snowflake),
        }
    }
}

impl DeepView for DbtModel {
    type V = ModelView;

    open spec fn deep_view(&self) -> ModelView {
        self@
    }
}

pub fn copy_text(s: &Option<String>) -> (r: Option<String>)
    ensures
        opt(r) == opt(*s),
{
    match s {
        Some(t) => Some(t.clone()),
        None => None,
    }
}

pub fn copy_texts(items: &Vec<String>) -> (r: Vec<String>)
    ensures
        views(r@) == views(items@),
{
    let mut r: Vec<String> = Vec::new();
    let mut i: usize = 0;
    while i < items.len()
        invariant
            i <= items.len(),
            views(r@) =~= views(items@).take(i as int),
        decreases items.len() - i,
    {
        let ghost prior = views(r@);
        r.push(items[i].clone());
        assert(views(r@) =~= prior.push(items@[i as int]@));
        assert(views(items@).take(i + 1) =~= prior.push(views(items@)[i as int]));
        i += 1;
    }
    assert(views(items@).take(i as int) =~= views(items@));
    r
}

fn copy_grants(grants: &Vec<Grant>) -> (r: Vec<Grant>)
    ensures
        grants_view(r@) == grants_view(grants@),
{
    let mut r: Vec<Grant> = Vec::new();
    let mut i: usize = 0;
    while i < grants.len()
        invariant
            i <= grants.len(),
            grants_view(r@) =~= grants_view(grants@).take(i as int),
        decreases grants.len() - i,
    {
        let ghost prior = grants_view(r@);
        let grant = Grant {
            privilege: grants[i].privilege.clone(),
            grantees: copy_texts(&grants[i].grantees),
        };
        assert(grant@ == grants@[i as int]@);
        r.push(grant);
        assert(grants_view(r@) =~= prior.push(grants@[i as int]@));
        assert(grants_view(grants@).take(i + 1) =~= prior.push(grants_view(grants@)[i as int]));
        i += 1;
    }
    assert(grants_view(grants@).take(i as int) =~= grants_view(grants@));
    r
}

impl ModelConfig {
    /// No setting.
    pub fn none() -> (r: ModelConfig)
        ensures
            r@ == (ModelConfigView {
                wap: None,
                wap_retain_failed: None,
                alias: None,
                transient: None,
                copy_grants: None,
                copy_tags: None,
                automatic_clustering: None,
                grants: Seq::empty(),
                sql_header: None,
                pre_hooks: Seq::empty(),
                post_hooks: Seq::empty(),
            }),
    {
        let r = ModelConfig {
            wap: None,
            wap_retain_failed: None,
            alias: None,
            transient: None,
            copy_grants: None,
            copy_tags: None,
            automatic_clustering: None,
            grants: Vec::new(),
            sql_header: None,
            pre_hooks: Vec::new(),
            post_hooks: Vec::new(),
        };
        assert(r@.grants =~= Seq::empty());
        assert(r@.pre_hooks =~= Seq::empty());
        assert(r@.post_hooks =~= Seq::empty());
        r
    }

    pub fn copy(&self) -> (r: ModelConfig)
        ensures
            r@ == self@,
    {
        ModelConfig {
            wap: self.wap,
            wap_retain_failed: self.wap_retain_failed,
            alias: copy_text(&self.alias),
            transient: self.transient,
            copy_grants: self.copy_grants,
            copy_tags: self.copy_tags,
            automatic_clustering: self.automatic_clustering,
            grants: copy_grants(&self.grants),
            sql_header: copy_text(&self.sql_header),
            pre_hooks: copy_texts(&self.pre_hooks),
            post_hooks: copy_texts(&self.post_hooks),
        }
    }
}

impl DbtModel {
    pub fn copy(&self) -> (r: DbtModel)
        ensures
            r@ == self@,
    {
        DbtModel {
            unique_id: self.unique_id.clone(),
            adapter: self.adapter,
            enabled: self.enabled,
            materialized: self.materialized,
            database: self.database.clone(),
            schema: self.schema.clone(),
            alias: self.alias.clone(),
            relation_name: copy_text(&self.relation_name),
            quoting: self.quoting,
            compute: self.compute,
            propagates: self.propagates,
            id_hash: self.id_hash.clone(),
            settings_error: copy_text(&self.settings_error),
            config: self.config.copy(),
            snowflake: match &self.snowflake {
                Some(a) => Some(
                    SnowflakeAttr {
                        copy_grants: a.copy_grants,
                        copy_tags: a.copy_tags,
                        snowflake_warehouse: copy_text(&a.snowflake_warehouse),
                    },
                ),
                None => None,
            },
        }
    }
}

// ---------------------------------------------------------------------------
// Tests
// ---------------------------------------------------------------------------

/// A data test, and what it is configured with.
#[derive(Debug)]
pub struct DbtTest {
    pub unique_id: String,
    pub adapter: AdapterType,
    pub enabled: bool,
    pub config_enabled: Option<bool>,
    pub database: String,
    pub schema: String,
    pub alias: String,
    pub compute: Option<ComputeArg>,
    pub depends_on: Vec<String>,
    pub attached_node: Option<String>,
    /// The settings as their author wrote them.
    pub unrendered_config: Vec<(String, Json)>,
    pub where_clause: Option<String>,
    pub fail_calc: Option<String>,
    pub error_if: Option<String>,
    pub warn_if: Option<String>,
    pub severity: Option<Severity>,
    pub sql_header: Option<String>,
    pub store_failures: Option<bool>,
    pub store_failures_as: Option<StoreFailuresAs>,
}

impl DeepView for DbtTest {
    type V = DbtTest;

    open spec fn deep_view(&self) -> DbtTest {
        *self
    }
}

// ---------------------------------------------------------------------------
// Other nodes
// ---------------------------------------------------------------------------

/// A node of another type, as far as its relation is concerned.
#[derive(Debug)]
pub struct OtherNode {
    pub resource_type: NodeType,
    pub adapter: AdapterType,
    pub enabled: bool,
    pub materialized: DbtMaterialization,
    pub database: String,
    pub schema: String,
    pub alias: String,
    pub quoting: ResolvedQuoting,
}

/// The nodes of a project by their ids: maps kept in the order of their keys.
#[derive(Debug)]
pub struct Nodes {
    pub models: Vec<(String, DbtModel)>,
    pub tests: Vec<(String, DbtTest)>,
    pub others: Vec<(String, OtherNode)>,
}

/// A node that owns a relation.
pub struct RelationOwner {
    pub id: Seq<char>,
    pub resource_type: NodeType,
    pub adapter: AdapterType,
    pub enabled: bool,
    pub materialized: DbtMaterialization,
    pub database: Seq<char>,
    pub schema: Seq<char>,
    pub alias: Seq<char>,
    pub quoting: ResolvedQuoting,
}

pub open spec fn model_owner(entry: (String, DbtModel)) -> RelationOwner {
    RelationOwner {
        id: entry.0@,
        resource_type: NodeType::Model,
        adapter: entry.1.adapter,
        enabled: entry.1.enabled,
        materialized: entry.1.materialized,
        database: entry.1.database@,
        schema: entry.1.schema@,
        alias: entry.1.alias@,
        quoting: entry.1.quoting,
    }
}

pub open spec fn other_owner(entry: (String, OtherNode)) -> RelationOwner {
    RelationOwner {
        id: entry.0@,
        resource_type: entry.1.resource_type,
        adapter: entry.1.adapter,
        enabled: entry.1.enabled,
        materialized: entry.1.materialized,
        database: entry.1.database@,
        schema: entry.1.schema@,
        alias: entry.1.alias@,
        quoting: entry.1.quoting,
    }
}

/// The nodes that may own relations: the models, then the other ones.
pub open spec fn owners(nodes: Nodes) -> Seq<RelationOwner> {
    nodes.models@.map_values(|e: (String, DbtModel)| model_owner(e)) + nodes.others@.map_values(
        |e: (String, OtherNode)| other_owner(e),
    )
}

/// The node owns a relation of Snowflake.
pub open spec fn owns_relation(o: RelationOwner) -> bool {
    o.enabled && o.adapter == AdapterType::Snowflake && (o.resource_type == NodeType::Model
        || o.resource_type == NodeType::Seed || o.resource_type == NodeType::Snapshot
        || o.resource_type == NodeType::Source) && o.materialized != DbtMaterialization::Ephemeral
}

/// The relation of a Snowflake node under a quoting.
pub open spec fn relation_under(o: RelationOwner, quoting: ResolvedQuoting) -> RelationView {
    RelationView {
        adapter_type: AdapterType::Snowflake,
        database: o.database,
        schema: o.schema,
        identifier: o.alias,
        relation_type: None,
        quoting,
    }
}

/// A node that may own a relation.
#[derive(Debug)]
pub struct Owner {
    pub id: String,
    pub resource_type: NodeType,
    pub adapter: AdapterType,
    pub enabled: bool,
    pub materialized: DbtMaterialization,
    pub database: String,
    pub schema: String,
    pub alias: String,
    pub quoting: ResolvedQuoting,
}

impl View for Owner {
    type V = RelationOwner;

    open spec fn view(&self) -> RelationOwner {
        RelationOwner {
            id: self.id@,
            resource_type: self.resource_type,
            adapter: self.adapter,
            enabled: self.enabled,
            materialized: self.materialized,
            database: self.database@,
            schema: self.schema@,
            alias: self.alias@,
            quoting: self.quoting,
        }
    }
}

pub open spec fn owners_view(owners: Seq<Owner>) -> Seq<RelationOwner> {
    owners.map_values(|o: Owner| o@)
}

impl Owner {
    pub fn owns_relation(&self) -> (r: bool)
        ensures
            r == owns_relation(self@),
    {
        self.enabled && self.adapter == AdapterType::Snowflake && matches!(
            self.resource_type,
            NodeType::Model | NodeType::Seed | NodeType::Snapshot | NodeType::Source
        ) && self.materialized != DbtMaterialization::Ephemeral
    }

    pub fn relation_under(&self, quoting: ResolvedQuoting) -> (r: Relation)
        ensures
            r@ == relation_under(self@, quoting),
    {
        Relation::new(
            AdapterType::Snowflake,
            self.database.as_str(),
            self.schema.as_str(),
            self.alias.as_str(),
            None,
            quoting,
        )
    }
}

impl Nodes {
    pub fn new() -> (r: Nodes)
        ensures
            r.models@ == Seq::<(String, DbtModel)>::empty(),
            r.tests@ == Seq::<(String, DbtTest)>::empty(),
            r.others@ == Seq::<(String, OtherNode)>::empty(),
    {
        Nodes { models: Vec::new(), tests: Vec::new(), others: Vec::new() }
    }

    pub fn insert_model(&mut self, model: DbtModel)
        ensures
            keyed(final(self).models@) == inserted(
                keyed(old(self).models@),
                model.unique_id@,
                model@,
            ),
            final(self).tests == old(self).tests,
            final(self).others == old(self).others,
    {
        let id = model.unique_id.clone();
        insert(&mut self.models, id, model);
    }

    pub fn insert_test(&mut self, test: DbtTest)
        ensures
            keyed(final(self).tests@) == inserted(keyed(old(self).tests@), test.unique_id@, test),
            final(self).models == old(self).models,
            final(self).others == old(self).others,
    {
        let id = test.unique_id.clone();
        insert(&mut self.tests, id, test);
    }

    pub fn model<'a>(&'a self, id: &str) -> (r: Option<&'a DbtModel>)
        ensures
            match r {
                Some(m) => found(keyed(self.models@), id@) == Some(m@),
                None => found(keyed(self.models@), id@) is None,
            },
    {
        find(&self.models, id)
    }

    pub fn test<'a>(&'a self, id: &str) -> (r: Option<&'a DbtTest>)
        ensures
            match r {
                Some(t) => found(keyed(self.tests@), id@) == Some(*t),
                None => found(keyed(self.tests@), id@) is None,
            },
    {
        find(&self.tests, id)
    }

    /// The nodes that may own relations.
    pub fn owners(&self) -> (r: Vec<Owner>)
        ensures
            owners_view(r@) == owners(*self),
    {
        let ghost models = self.models@.map_values(|e: (String, DbtModel)| model_owner(e));
        let ghost others = self.others@.map_values(|e: (String, OtherNode)| other_owner(e));
        let mut r: Vec<Owner> = Vec::new();
        let mut i: usize = 0;
        while i < self.models.len()
            invariant
                i <= self.models.len(),
                models == self.models@.map_values(|e: (String, DbtModel)| model_owner(e)),
                owners_view(r@) =~= models.take(i as int),
            decreases self.models.len() - i,
        {
            let ghost prior = owners_view(r@);
            let (id, m) = &self.models[i];
            let owner = Owner {
                id: id.clone(),
                resource_type: NodeType::Model,
                adapter: m.adapter,
                enabled: m.enabled,
                materialized: m.materialized,
                database: m.database.clone(),
                schema: m.schema.clone(),
                alias: m.alias.clone(),
                quoting: m.quoting,
            };
            assert(owner@ == models[i as int]);
            r.push(owner);
            assert(owners_view(r@) =~= prior.push(models[i as int]));
            assert(models.take(i + 1) =~= prior.push(models[i as int]));
            i += 1;
        }
        let mut j: usize = 0;
        assert(models.take(i as int) =~= models);
        while j < self.others.len()
            invariant
                j <= self.others.len(),
                others == self.others@.map_values(|e: (String, OtherNode)| other_owner(e)),
                owners_view(r@) =~= models + others.take(j as int),
            decreases self.others.len() - j,
        {
            let ghost prior = owners_view(r@);
            let (id, m) = &self.others[j];
            let owner = Owner {
                id: id.clone(),
                resource_type: m.resource_type,
                adapter: m.adapter,
                enabled: m.enabled,
                materialized: m.materialized,
                database: m.database.clone(),
                schema: m.schema.clone(),
                alias: m.alias.clone(),
                quoting: m.quoting,
            };
            assert(owner@ == others[j as int]);
            r.push(owner);
            assert(owners_view(r@) =~= prior.push(others[j as int]));
            assert(models + others.take(j + 1) =~= prior.push(others[j as int]));
            j += 1;
        }
        assert(others.take(j as int) =~= others);
        r
    }
}

/// The relation of a node, as a table.
pub open spec fn table_relation(
    model: ModelView,
    identifier: Seq<char>,
    quoting: ResolvedQuoting,
) -> RelationView {
    RelationView {
        adapter_type: model.adapter,
        database: model.database,
        schema: model.schema,
        identifier,
        relation_type: Some(RelationType::Table),
        quoting,
    }
}

} // verus!
