//! Publishing a model: what is inspected before, what is finalized after, and what is said
//! of it.

use crate::json::{
    is_true, lookup, opt_json, put, put_then_field, text_at, Fields, FieldsView, Json, JsonView,
};
use crate::ordered::{find, found, keyed};
use crate::relation::{identity, rendered, AdapterType, Relation, RelationView, ResolvedQuoting};
use crate::snowflake::{create_or_replace_clone_sql, replace_sql};
use crate::wap::audit::{
    audit_publication_status, audits_failure, publication_status, Audit, NodeStatus,
    TestExecutionResult,
};
use crate::wap::inspect::{
    existence, inspect_relation_rows, inspect_table_rows, table_refusal, well_formed,
    RelationExpectation, ShownRows,
};
use crate::wap::invocation::WapPlan;
use crate::wap::nodes::{
    invalid, invalid_config, DbtModel, DbtTest, ErrorCode, FsError, FsErrorView, ModelConfigView,
    ModelView, NodeType, Nodes,
};
use crate::wap::plan::{
    candidate, public, quoting_refusal, WapCandidateState, WapModel, WapModelView,
};
use crate::wap::publication::{run_publication_steps, Publication, PublicationStep};
use vstd::prelude::*;

verus! {

// ---------------------------------------------------------------------------
// Inspecting both tables
// ---------------------------------------------------------------------------

/// What is asked of the warehouse: the objects of a name, or the details of a table.
#[derive(Debug, Clone, Copy, PartialEq, Eq, Structural)]
pub struct Lookup {
    /// The working table is meant, and not the public one.
    pub working: bool,
    pub details: bool,
}

/// An inspection, by the replies so far.
#[derive(Debug)]
pub enum Inspection {
    /// The next thing to ask.
    Ask(Lookup),
    /// Whether the public table exists.
    Inspected(bool),
    Refused(FsError),
}

pub enum InspectionView {
    Ask(Lookup),
    Inspected(bool),
    Refused(FsErrorView),
}

impl View for Inspection {
    type V = InspectionView;

    open spec fn view(&self) -> InspectionView {
        match self {
            Inspection::Ask(l) => InspectionView::Ask(*l),
            Inspection::Inspected(b) => InspectionView::Inspected(*b),
            Inspection::Refused(e) => InspectionView::Refused(e@),
        }
    }
}

/// The inspection of one table, by the replies from a place on.
pub enum TableInspection {
    Ask(Lookup),
    /// Whether it exists, and the place behind its replies.
    Done(bool, int),
    Refused(FsErrorView),
}

pub open spec fn inspect_one(
    relation: RelationView,
    expectation: RelationExpectation,
    working: bool,
    replies: Seq<ShownRows>,
    at: int,
) -> TableInspection {
    let name = identity(relation).2;
    if relation.adapter_type != AdapterType::Snowflake {
        TableInspection::Refused(invalid("WAP requires Snowflake"@))
    } else if at >= replies.len() {
        TableInspection::Ask(Lookup { working, details: false })
    } else {
        match existence(replies[at], name, expectation) {
            Err(e) => TableInspection::Refused(e),
            Ok(false) => TableInspection::Done(false, at + 1),
            Ok(true) => if at + 1 >= replies.len() {
                TableInspection::Ask(Lookup { working, details: true })
            } else {
                match table_refusal(replies[at + 1], name) {
                    Some(e) => TableInspection::Refused(e),
                    None => TableInspection::Done(true, at + 2),
                }
            },
        }
    }
}

/// The inspection of both tables, by the replies.
pub open spec fn inspect_both(
    target: RelationView,
    working: RelationView,
    candidate_must_exist: bool,
    replies: Seq<ShownRows>,
) -> InspectionView {
    match inspect_one(target, RelationExpectation::OptionalTable, false, replies, 0) {
        TableInspection::Ask(l) => InspectionView::Ask(l),
        TableInspection::Refused(e) => InspectionView::Refused(e),
        TableInspection::Done(target_exists, at) => {
            let expectation = if candidate_must_exist {
                RelationExpectation::ExistingTable
            } else {
                RelationExpectation::Absent
            };
            match inspect_one(working, expectation, true, replies, at) {
                TableInspection::Ask(l) => InspectionView::Ask(l),
                TableInspection::Refused(e) => InspectionView::Refused(e),
                TableInspection::Done(_, _) => InspectionView::Inspected(target_exists),
            }
        },
    }
}

pub open spec fn all_well_formed(replies: Seq<ShownRows>) -> bool {
    forall|i: int| 0 <= i < replies.len() ==> well_formed(#[trigger] replies[i])
}

enum One {
    Ask(Lookup),
    Done(bool, usize),
    Refused(FsError),
}

spec fn one_is(r: One, expected: TableInspection) -> bool {
    match (r, expected) {
        (One::Ask(a), TableInspection::Ask(b)) => a == b,
        (One::Done(a, i), TableInspection::Done(b, j)) => a == b && i == j,
        (One::Refused(e), TableInspection::Refused(f)) => e@ == f,
        _ => false,
    }
}

fn inspect_relation(
    relation: &Relation,
    expectation: RelationExpectation,
    working: bool,
    replies: &Vec<ShownRows>,
    at: usize,
) -> (r: One)
    requires
        all_well_formed(replies@),
    ensures
        one_is(r, inspect_one(relation@, expectation, working, replies@, at as int)),
{
    if relation.adapter_type != AdapterType::Snowflake {
        return One::Refused(invalid_config("WAP requires Snowflake".to_owned()));
    }
    let name = relation.relation_identity().identifier;
    if at >= replies.len() {
        return One::Ask(Lookup { working, details: false });
    }
    match inspect_relation_rows(&replies[at], name.as_str(), expectation) {
        Err(e) => One::Refused(e),
        Ok(exists) => if !exists {
            One::Done(false, at + 1)
        } else if at + 1 >= replies.len() {
            One::Ask(Lookup { working, details: true })
        } else {
            match inspect_table_rows(&replies[at + 1], name.as_str()) {
                Err(e) => One::Refused(e),
                Ok(_) => One::Done(true, at + 2),
            }
        },
    }
}

/// Inspects the public and the working table by what the warehouse shows of them.
pub fn inspect_relations(
    target: &Relation,
    working: &Relation,
    candidate_must_exist: bool,
    replies: &Vec<ShownRows>,
) -> (r: Inspection)
    requires
        all_well_formed(replies@),
    ensures
        r@ == inspect_both(target@, working@, candidate_must_exist, replies@),
{
    match inspect_relation(target, RelationExpectation::OptionalTable, false, replies, 0) {
        One::Ask(l) => Inspection::Ask(l),
        One::Refused(e) => Inspection::Refused(e),
        One::Done(target_exists, at) => {
            let expectation = if candidate_must_exist {
                RelationExpectation::ExistingTable
            } else {
                RelationExpectation::Absent
            };
            match inspect_relation(working, expectation, true, replies, at) {
                One::Ask(l) => Inspection::Ask(l),
                One::Refused(e) => Inspection::Refused(e),
                One::Done(_, _) => Inspection::Inspected(target_exists),
            }
        },
    }
}

// ---------------------------------------------------------------------------
// The catalog
// ---------------------------------------------------------------------------

/// The catalog of a model, as it was resolved.
#[derive(Debug, Clone, Copy, PartialEq, Eq, Structural)]
pub struct CatalogRelation {
    /// The catalog is Snowflake's own.
    pub native: bool,
    /// The table format is the default one.
    pub default_format: bool,
    pub is_transient: Option<bool>,
}

/// Whether the table is transient, or why that cannot be told.
pub open spec fn transience(catalog: Option<CatalogRelation>) -> Result<bool, FsErrorView> {
    match catalog {
        None => Err(
            FsErrorView {
                code: ErrorCode::Unexpected,
                message: "WAP could not resolve the model catalog"@,
            },
        ),
        Some(c) => if !c.native || !c.default_format {
            Err(invalid("WAP requires a native Snowflake catalog and table format"@))
        } else {
            match c.is_transient {
                Some(b) => Ok(b),
                None => Err(invalid("WAP could not resolve the table lifecycle"@)),
            }
        },
    }
}

pub fn resolved_transient(catalog: Option<CatalogRelation>) -> (r: Result<bool, FsError>)
    ensures
        match (r, transience(catalog)) {
            (Ok(a), Ok(b)) => a == b,
            (Err(e), Err(f)) => e@ == f,
            _ => false,
        },
{
    match catalog {
        None => Err(
            FsError::new(
                ErrorCode::Unexpected,
                "WAP could not resolve the model catalog".to_owned(),
            ),
        ),
        Some(c) => {
            if !c.native || !c.default_format {
                return Err(
                    invalid_config(
                        "WAP requires a native Snowflake catalog and table format".to_owned(),
                    ),
                );
            }
            match c.is_transient {
                Some(b) => Ok(b),
                None => Err(
                    invalid_config("WAP could not resolve the table lifecycle".to_owned()),
                ),
            }
        },
    }
}

// ---------------------------------------------------------------------------
// Before the working table is touched
// ---------------------------------------------------------------------------

/// A preflight, by what is known so far.
#[derive(Debug)]
pub enum Preflight {
    Ask(Lookup),
    /// The stage may run; the text says what it builds.
    Ready(String),
    Refused(FsError),
}

pub enum PreflightView {
    Ask(Lookup),
    Ready(Seq<char>),
    Refused(FsErrorView),
}

impl View for Preflight {
    type V = PreflightView;

    open spec fn view(&self) -> PreflightView {
        match self {
            Preflight::Ask(l) => PreflightView::Ask(*l),
            Preflight::Ready(s) => PreflightView::Ready(s@),
            Preflight::Refused(e) => PreflightView::Refused(e@),
        }
    }
}

pub open spec fn preflight(
    m: WapModelView,
    custom: bool,
    adapter_quoting: Option<ResolvedQuoting>,
    catalog: Option<CatalogRelation>,
    replies: Seq<ShownRows>,
) -> PreflightView {
    if custom {
        PreflightView::Refused(
            invalid(
                "WAP requires the built-in Snowflake table materialization: "@
                    + m.model.unique_id,
            ),
        )
    } else {
        match adapter_quoting {
            None => PreflightView::Refused(
                FsErrorView {
                    code: ErrorCode::Unexpected,
                    message: "Missing adapter for WAP staging"@,
                },
            ),
            Some(quoting) => match quoting_refusal(m, quoting) {
                Some(e) => PreflightView::Refused(e),
                None => match transience(catalog) {
                    Err(e) => PreflightView::Refused(e),
                    Ok(_) => match inspect_both(public(m), candidate(m), false, replies) {
                        InspectionView::Ask(l) => PreflightView::Ask(l),
                        InspectionView::Refused(e) => PreflightView::Refused(e),
                        InspectionView::Inspected(_) => PreflightView::Ready(
                            "WAP: building "@ + rendered(public(m)) + " in working table "@
                                + rendered(candidate(m)),
                        ),
                    },
                },
            },
        }
    }
}

/// Check the live warehouse, not the adapter cache, before touching a working table.
pub fn preflight_stage(
    wap: &WapModel,
    custom: bool,
    adapter_quoting: Option<ResolvedQuoting>,
    catalog: Option<CatalogRelation>,
    replies: &Vec<ShownRows>,
) -> (r: Preflight)
    requires
        all_well_formed(replies@),
    ensures
        r@ == preflight(wap@, custom, adapter_quoting, catalog, replies@),
{
    if custom {
        return Preflight::Refused(
            invalid_config(
                "WAP requires the built-in Snowflake table materialization: ".to_owned().concat(
                    wap.model.unique_id.as_str(),
                ),
            ),
        );
    }
    let quoting = match adapter_quoting {
        Some(q) => q,
        None => {
            return Preflight::Refused(
                FsError::new(
                    ErrorCode::Unexpected,
                    "Missing adapter for WAP staging".to_owned(),
                ),
            );
        },
    };
    if let Err(e) = wap.validate_materialization_quoting(quoting) {
        return Preflight::Refused(e);
    }
    if let Err(e) = resolved_transient(catalog) {
        return Preflight::Refused(e);
    }
    let target = wap.public_relation();
    let working = wap.candidate_relation();
    match inspect_relations(&target, &working, false, replies) {
        Inspection::Ask(l) => Preflight::Ask(l),
        Inspection::Refused(e) => Preflight::Refused(e),
        Inspection::Inspected(_) => Preflight::Ready(
            "WAP: building ".to_owned().concat(target.render_self_as_str().as_str()).concat(
                " in working table ",
            ).concat(working.render_self_as_str().as_str()),
        ),
    }
}

// ---------------------------------------------------------------------------
// Preparing a publication
// ---------------------------------------------------------------------------

/// The model by which the public table is replaced: with the lifecycle that the catalog
/// resolved, and with grants copied only from a table that exists.
pub open spec fn publication(model: ModelView, transient: bool, target_exists: bool) -> ModelView {
    ModelView {
        config: ModelConfigView {
            transient: Some(transient),
            copy_grants: Some(target_exists && model.config.copy_grants == Some(true)),
            ..model.config
        },
        ..model
    }
}

/// The model is copied and left as it is.
pub fn publication_model(model: &DbtModel, transient: bool, target_exists: bool) -> (r: DbtModel)
    ensures
        r@ == publication(model@, transient, target_exists),
{
    let mut made = model.copy();
    let copies = match model.config.copy_grants {
        Some(b) => b,
        None => false,
    };
    made.config.transient = Some(transient);
    made.config.copy_grants = Some(target_exists && copies);
    made
}

/// What a publication runs with.
#[derive(Debug)]
pub struct Prepared {
    pub model: DbtModel,
    pub target_exists: bool,
    /// The statement that replaces the public table.
    pub clone_sql: String,
}

/// The preparation of a publication, by what is known so far.
#[derive(Debug)]
pub enum Preparation {
    Ask(Lookup),
    Ready(Prepared),
    Refused(FsError),
}

pub enum PreparationView {
    Ask(Lookup),
    Ready(ModelView, bool, Seq<char>),
    Refused(FsErrorView),
}

impl View for Preparation {
    type V = PreparationView;

    open spec fn view(&self) -> PreparationView {
        match self {
            Preparation::Ask(l) => PreparationView::Ask(*l),
            Preparation::Ready(p) => PreparationView::Ready(p.model@, p.target_exists, p.clone_sql@),
            Preparation::Refused(e) => PreparationView::Refused(e@),
        }
    }
}

pub open spec fn preparation(
    m: WapModelView,
    catalog: Option<CatalogRelation>,
    replies: Seq<ShownRows>,
) -> PreparationView {
    match inspect_both(public(m), candidate(m), true, replies) {
        InspectionView::Ask(l) => PreparationView::Ask(l),
        InspectionView::Refused(e) => PreparationView::Refused(e),
        InspectionView::Inspected(target_exists) => match transience(catalog) {
            Err(e) => PreparationView::Refused(e),
            Ok(transient) => PreparationView::Ready(
                publication(m.model, transient, target_exists),
                target_exists,
                replace_sql(
                    public(m),
                    candidate(m),
                    transient,
                    target_exists && m.model.config.copy_grants == Some(true),
                ),
            ),
        },
    }
}

pub fn prepare_publication(
    wap: &WapModel,
    catalog: Option<CatalogRelation>,
    replies: &Vec<ShownRows>,
) -> (r: Preparation)
    requires
        all_well_formed(replies@),
    ensures
        r@ == preparation(wap@, catalog, replies@),
{
    let target = wap.public_relation();
    let working = wap.candidate_relation();
    match inspect_relations(&target, &working, true, replies) {
        Inspection::Ask(l) => Preparation::Ask(l),
        Inspection::Refused(e) => Preparation::Refused(e),
        Inspection::Inspected(target_exists) => match resolved_transient(catalog) {
            Err(e) => Preparation::Refused(e),
            Ok(transient) => {
                let copies = match wap.model.config.copy_grants {
                    Some(b) => b,
                    None => false,
                };
                Preparation::Ready(
                    Prepared {
                        model: publication_model(&wap.model, transient, target_exists),
                        target_exists,
                        clone_sql: create_or_replace_clone_sql(
                            &target,
                            &working,
                            transient,
                            target_exists && copies,
                        ),
                    },
                )
            },
        },
    }
}

/// The error of a clone whose outcome is unknown: it can have committed without an answer.
pub open spec fn unknown_outcome(
    target: RelationView,
    working: RelationView,
    e: FsErrorView,
) -> FsErrorView {
    FsErrorView {
        code: e.code,
        message: "WAP publication failed for "@ + rendered(target) + ": "@ + e.message
            + ". Publication may have committed; inspect Snowflake query history before retrying. Working table: "@
            + rendered(working),
    }
}

pub fn clone_failed(wap: &WapModel, e: &FsError) -> (r: FsError)
    ensures
        r@ == unknown_outcome(public(wap@), candidate(wap@), e@),
{
    FsError::new(
        e.code,
        "WAP publication failed for ".to_owned().concat(
            wap.public_relation().render_self_as_str().as_str(),
        ).concat(": ").concat(e.message.as_str()).concat(
            ". Publication may have committed; inspect Snowflake query history before retrying. Working table: ",
        ).concat(wap.candidate_relation().render_self_as_str().as_str()),
    )
}

/// The statement of the clone, unless the run was cancelled before it is submitted.
pub fn clone_statement(prepared: &Prepared, cancelled: Option<FsError>) -> (r: Result<
    String,
    FsError,
>)
    ensures
        match (r, cancelled) {
            (Ok(sql), None) => sql@ == prepared.clone_sql@,
            (Err(e), Some(cause)) => e == cause,
            _ => false,
        },
{
    match cancelled {
        Some(e) => Err(e),
        None => Ok(prepared.clone_sql.clone()),
    }
}

/// What is recorded of a confirmed clone: the warehouse's response, that the public table
/// was replaced, and the working table that it was replaced from.
pub open spec fn publication_record(response: FieldsView, working: RelationView) -> FieldsView {
    put(
        put(response, "wap_published"@, JsonView::Bool(true)),
        "wap_candidate"@,
        JsonView::Text(rendered(working)),
    )
}

/// What a submitted clone comes to: what is recorded of it, or an error that leaves open
/// whether it committed.
pub fn cloned(wap: &WapModel, outcome: Result<Fields, FsError>) -> (r: Result<Json, FsError>)
    ensures
        match (r, outcome) {
            (Ok(record), Ok(response)) => record@ == JsonView::Object(
                publication_record(response@, candidate(wap@)),
            ),
            (Err(e), Err(cause)) => e@ == unknown_outcome(
                public(wap@),
                candidate(wap@),
                cause@,
            ),
            _ => false,
        },
{
    match outcome {
        Ok(response) => {
            let working = wap.candidate_relation().render_self_as_str();
            Ok(
                response.set("wap_published", Json::Bool(true)).set(
                    "wap_candidate",
                    Json::Text(working),
                ).object(),
            )
        },
        Err(e) => Err(clone_failed(wap, &e)),
    }
}

// ---------------------------------------------------------------------------
// Finalizing a publication
// ---------------------------------------------------------------------------

/// What is done once the public table is replaced.
#[derive(Debug)]
pub enum FinalizeAction {
    /// What was known of the table's last build no longer holds.
    EvictMetadata,
    CachePublic,
    /// The grants are applied; those of the replaced table are revoked or not.
    ApplyGrants(bool),
    Execute(String),
    PointLatestVersion,
}

pub enum FinalizeView {
    EvictMetadata,
    CachePublic,
    ApplyGrants(bool),
    Execute(Seq<char>),
    PointLatestVersion,
}

impl View for FinalizeAction {
    type V = FinalizeView;

    open spec fn view(&self) -> FinalizeView {
        match self {
            FinalizeAction::EvictMetadata => FinalizeView::EvictMetadata,
            FinalizeAction::CachePublic => FinalizeView::CachePublic,
            FinalizeAction::ApplyGrants(b) => FinalizeView::ApplyGrants(*b),
            FinalizeAction::Execute(s) => FinalizeView::Execute(s@),
            FinalizeAction::PointLatestVersion => FinalizeView::PointLatestVersion,
        }
    }
}

pub open spec fn actions_view(actions: Seq<FinalizeAction>) -> Seq<FinalizeView> {
    actions.map_values(|a: FinalizeAction| a@)
}

/// The actions of a finalization, in their order.
pub open spec fn finalization(
    publication: ModelView,
    target: RelationView,
    target_exists: bool,
    run_cache_requested: bool,
    clustered: bool,
    latest_version: bool,
) -> Seq<FinalizeView> {
    let evicted = if run_cache_requested {
        Seq::empty().push(FinalizeView::EvictMetadata)
    } else {
        Seq::empty()
    };
    let granted = evicted.push(FinalizeView::CachePublic).push(
        FinalizeView::ApplyGrants(target_exists && publication.config.copy_grants == Some(true)),
    );
    let clusters = if publication.config.automatic_clustering == Some(true) && clustered {
        granted.push(
            FinalizeView::Execute("alter table "@ + rendered(target) + " resume recluster"@),
        )
    } else {
        granted
    };
    if latest_version {
        clusters.push(FinalizeView::PointLatestVersion)
    } else {
        clusters
    }
}

fn push_action(actions: &mut Vec<FinalizeAction>, action: FinalizeAction)
    ensures
        actions_view(final(actions)@) == actions_view(old(actions)@).push(action@),
{
    let ghost prior = actions_view(actions@);
    actions.push(action);
    assert(actions_view(actions@) =~= prior.push(action@));
}

pub fn finalize_publication(
    prepared: &Prepared,
    target: &Relation,
    run_cache_requested: bool,
    clustered: bool,
    latest_version: bool,
) -> (r: Vec<FinalizeAction>)
    ensures
        actions_view(r@) == finalization(
            prepared.model@,
            target@,
            prepared.target_exists,
            run_cache_requested,
            clustered,
            latest_version,
        ),
{
    let mut r: Vec<FinalizeAction> = Vec::new();
    assert(actions_view(r@) =~= Seq::empty());
    if run_cache_requested {
        push_action(&mut r, FinalizeAction::EvictMetadata);
    }
    push_action(&mut r, FinalizeAction::CachePublic);
    let copies = match prepared.model.config.copy_grants {
        Some(b) => b,
        None => false,
    };
    push_action(&mut r, FinalizeAction::ApplyGrants(prepared.target_exists && copies));
    let clusters = match prepared.model.config.automatic_clustering {
        Some(b) => b,
        None => false,
    };
    if clusters && clustered {
        let sql = "alter table ".to_owned().concat(target.render_self_as_str().as_str()).concat(
            " resume recluster",
        );
        push_action(&mut r, FinalizeAction::Execute(sql));
    }
    if latest_version {
        push_action(&mut r, FinalizeAction::PointLatestVersion);
    }
    r
}

// ---------------------------------------------------------------------------
// The publication of a model
// ---------------------------------------------------------------------------

/// How a node ended, with what is said of it and what its test counted.
#[derive(Debug)]
pub struct RunStat {
    pub status: NodeStatus,
    pub message: String,
    pub raw: Option<TestExecutionResult>,
}

impl DeepView for RunStat {
    type V = RunStat;

    open spec fn deep_view(&self) -> RunStat {
        *self
    }
}

/// An audit of a model, by how it ended.
pub open spec fn is_audit(
    a: Audit,
    id: Seq<char>,
    stats: Seq<(Seq<char>, RunStat)>,
    tests: Seq<(Seq<char>, DbtTest)>,
) -> bool {
    let stat = found(stats, id);
    let status = publication_status(
        match stat {
            Some(s) => Some(s.status),
            None => None,
        },
        found(tests, id),
        match stat {
            Some(s) => s.raw,
            None => None,
        },
    );
    a.id@ == id && a.status == status && (stat matches Some(s) ==> a.message@ == s.message@)
}

/// The audits of a model, by how they ended.
pub fn audits_of(wap: &WapModel, stats: &Vec<(String, RunStat)>, nodes: &Nodes) -> (r: Vec<Audit>)
    ensures
        r.len() == wap.audit_ids.len(),
        forall|i: int|
            0 <= i < r.len() ==> is_audit(
                #[trigger] r[i],
                wap.audit_ids[i].0@,
                keyed(stats@),
                keyed(nodes.tests@),
            ),
{
    let mut r: Vec<Audit> = Vec::new();
    let mut i: usize = 0;
    while i < wap.audit_ids.len()
        invariant
            i <= wap.audit_ids.len(),
            r.len() == i,
            forall|k: int|
                0 <= k < i ==> is_audit(
                    #[trigger] r[k],
                    wap.audit_ids[k].0@,
                    keyed(stats@),
                    keyed(nodes.tests@),
                ),
        decreases wap.audit_ids.len() - i,
    {
        let id = &wap.audit_ids[i].0;
        let (reported, raw, message) = match find(stats, id.as_str()) {
            Some(s) => (Some(s.status.copy()), s.raw, s.message.clone()),
            None => (None, None, "missing".to_owned()),
        };
        let status = audit_publication_status(reported, nodes.test(id.as_str()), raw);
        r.push(Audit { id: id.clone(), status, message });
        i += 1;
    }
    r
}

/// Starts the publication of a planned model. Nothing is touched unless its audits passed.
pub fn publish_model(
    plan: &WapPlan,
    unique_id: &str,
    has_adapter: bool,
    stats: &Vec<(String, RunStat)>,
    nodes: &Nodes,
) -> (r: Result<Publication, FsError>)
    ensures
        match found(plan@, unique_id@) {
            None => r matches Err(e) && e@ == (FsErrorView {
                code: ErrorCode::Unexpected,
                message: "Missing WAP plan for '"@ + unique_id@ + "'"@,
            }),
            Some(m) => if !has_adapter {
                r matches Err(e) && e@ == (FsErrorView {
                    code: ErrorCode::Unexpected,
                    message: "Missing adapter for WAP publication"@,
                })
            } else {
                exists|audits: Seq<Audit>|
                    {
                        &&& audits.len() == m.audit_ids.len()
                        &&& forall|i: int|
                            0 <= i < audits.len() ==> is_audit(
                                #[trigger] audits[i],
                                m.audit_ids[i].0,
                                keyed(stats@),
                                keyed(nodes.tests@),
                            )
                        &&& match r {
                            Err(e) => #[trigger] audits_failure(audits) == Some(e@),
                            Ok(p) => {
                                &&& audits_failure(audits) is None
                                &&& p.step == PublicationStep::Prepare
                                &&& !p.published
                                &&& p.failure is None
                                &&& p.target_name@ == rendered(public(m))
                                &&& p.candidate_name@ == rendered(candidate(m))
                            },
                        }
                    }
            },
        },
{
    let wap = match plan.model(unique_id) {
        Some(m) => m,
        None => {
            return Err(
                FsError::new(
                    ErrorCode::Unexpected,
                    "Missing WAP plan for '".to_owned().concat(unique_id).concat("'"),
                ),
            );
        },
    };
    if !has_adapter {
        return Err(
            FsError::new(
                ErrorCode::Unexpected,
                "Missing adapter for WAP publication".to_owned(),
            ),
        );
    }
    let audits = audits_of(wap, stats, nodes);
    assert(wap@.audit_ids.len() == wap.audit_ids@.len());
    assert forall|i: int| 0 <= i < audits@.len() implies is_audit(
        #[trigger] audits@[i],
        wap@.audit_ids[i].0,
        keyed(stats@),
        keyed(nodes.tests@),
    ) by {
        assert(is_audit(
            audits[i],
            wap.audit_ids[i].0@,
            keyed(stats@),
            keyed(nodes.tests@),
        ));
    }
    let r = run_publication_steps(
        &audits,
        wap.public_relation().render_self_as_str().as_str(),
        wap.candidate_relation().render_self_as_str().as_str(),
    );
    assert(audits_failure(audits@) == audits_failure(audits@));
    r
}

// ---------------------------------------------------------------------------
// The task
// ---------------------------------------------------------------------------

/// The phase in which a task runs.
#[derive(Debug, Clone, Copy, PartialEq, Eq, Structural)]
pub enum TaskPhase {
    Render,
    Analyze,
    Run,
}

/// The model's terminal task: no public success is recorded by the preceding stage task.
#[derive(Debug)]
pub struct PublishTask {
    pub model: DbtModel,
}

impl PublishTask {
    pub fn new(model: DbtModel) -> (r: PublishTask)
        ensures
            r.model == model,
    {
        PublishTask { model }
    }

    pub fn resource_type(&self) -> (r: NodeType)
        ensures
            r == NodeType::Model,
    {
        NodeType::Model
    }

    pub fn task_type(&self) -> (r: &'static str)
        ensures
            r@ == "wap_publish_run"@,
    {
        "wap_publish_run"
    }

    pub fn work_node_id<'a>(&'a self) -> (r: &'a str)
        ensures
            r@ == self.model.unique_id@,
    {
        self.model.unique_id.as_str()
    }

    pub fn task_phase(&self) -> (r: Option<TaskPhase>)
        ensures
            r == Some(TaskPhase::Run),
    {
        Some(TaskPhase::Run)
    }

    /// The status of the model and what is said of it, by what its publication came to.
    pub fn outcome(&self, result: &Result<(), FsError>) -> (r: (NodeStatus, String))
        ensures
            match result {
                Ok(_) => r.0 == NodeStatus::Succeeded && r.1@
                    == "WAP: all audits passed; table published"@,
                Err(e) => r.0 == NodeStatus::Errored && r.1@ == e.message@,
            },
    {
        match result {
            Ok(_) => (
                NodeStatus::Succeeded,
                "WAP: all audits passed; table published".to_owned(),
            ),
            Err(e) => (NodeStatus::Errored, e.message.clone()),
        }
    }
}

/// The response says that the public table was replaced.
pub open spec fn says_published(response: Option<JsonView>) -> bool {
    match response {
        Some(v) => match lookup(v, "wap_published"@) {
            Some(flag) => is_true(flag),
            None => false,
        },
        None => false,
    }
}

/// What is said of a publication that was interrupted, by what is recorded of its clone.
pub fn interruption_message(response: Option<&Json>) -> (r: &'static str)
    ensures
        r@ == (if says_published(opt_json(response)) {
            "WAP table was published; finalization was interrupted. Working table retained if present"@
        } else {
            "WAP interrupted before completion; working table retained if created. If publication was in flight, verify its outcome in Snowflake before retrying"@
        }),
{
    let published = match response {
        Some(v) => match v.get("wap_published") {
            Some(flag) => flag.truth(),
            None => false,
        },
        None => false,
    };
    if published {
        "WAP table was published; finalization was interrupted. Working table retained if present"
    } else {
        "WAP interrupted before completion; working table retained if created. If publication was in flight, verify its outcome in Snowflake before retrying"
    }
}

/// What is recorded of a confirmed clone says, whatever the warehouse responded, that the
/// public table was replaced and which working table it was replaced from.
pub proof fn a_confirmed_clone_is_told(response: FieldsView, working: RelationView)
    ensures
        says_published(Some(JsonView::Object(publication_record(response, working)))),
        text_at(JsonView::Object(publication_record(response, working)), "wap_candidate"@) == Some(
            rendered(working),
        ),
{
    reveal_strlit("wap_published");
    reveal_strlit("wap_candidate");
    assert("wap_published"@[4] != "wap_candidate"@[4]);
    let flagged = put(response, "wap_published"@, JsonView::Bool(true));
    put_then_field(
        response,
        "wap_published"@,
        JsonView::Bool(true),
        "wap_published"@,
    );
    put_then_field(
        flagged,
        "wap_candidate"@,
        JsonView::Text(rendered(working)),
        "wap_published"@,
    );
    put_then_field(
        flagged,
        "wap_candidate"@,
        JsonView::Text(rendered(working)),
        "wap_candidate"@,
    );
}

/// What is said of a working table that may be left.
pub fn retained_candidate(plan: &WapPlan, unique_id: &str) -> (r: Option<String>)
    ensures
        match (r, found(plan@, unique_id@)) {
            (Some(text), Some(m)) => text@ == "WAP working table retained if created: "@ + rendered(
                candidate(m),
            ) + " (model "@ + unique_id@ + ")"@,
            (None, None) => true,
            _ => false,
        },
{
    match plan.model(unique_id) {
        Some(wap) => Some(
            "WAP working table retained if created: ".to_owned().concat(
                wap.candidate_relation().render_self_as_str().as_str(),
            ).concat(" (model ").concat(unique_id).concat(")"),
        ),
        None => None,
    }
}

// ---------------------------------------------------------------------------
// Cleaning up
// ---------------------------------------------------------------------------

/// A working table is removed after a failure, unless it is to be kept, it is not known to
/// be this invocation's own, or its publication may still be under way.
pub open spec fn cleanup_due(
    retain_failed: Option<bool>,
    state: Option<WapCandidateState>,
    status: Option<NodeStatus>,
) -> bool {
    retain_failed != Some(true) && (state == Some(WapCandidateState::Created) || state == Some(
        WapCandidateState::Published,
    )) && (status == Some(NodeStatus::Errored) || status == Some(
        NodeStatus::SkippedUpstreamFailed,
    ))
}

/// Whether a working table is to be dropped.
pub fn failed_candidate_cleanup(
    retain_failed: Option<bool>,
    state: Option<WapCandidateState>,
    status: &Option<NodeStatus>,
) -> (r: bool)
    ensures
        r == cleanup_due(retain_failed, state, *status),
{
    let retained = match retain_failed {
        Some(b) => b,
        None => false,
    };
    let own = match state {
        Some(WapCandidateState::Created) => true,
        Some(WapCandidateState::Published) => true,
        _ => false,
    };
    let failed = match status {
        Some(NodeStatus::Errored) => true,
        Some(NodeStatus::SkippedUpstreamFailed) => true,
        _ => false,
    };
    !retained && own && failed
}

/// Drops a working table where that is due. Says whether it was dropped, or why it could
/// not be.
pub fn run_failed_candidate_cleanup<F: FnOnce() -> Result<(), FsError>>(
    retain_failed: Option<bool>,
    state: Option<WapCandidateState>,
    status: &Option<NodeStatus>,
    drop: F,
) -> (r: Result<bool, FsError>)
    requires
        drop.requires(()),
    ensures
        match r {
            Ok(dropped) => dropped == cleanup_due(retain_failed, state, *status) && (dropped
                ==> drop.ensures((), Ok(()))),
            Err(e) => cleanup_due(retain_failed, state, *status) && drop.ensures((), Err(e)),
        },
{
    if !failed_candidate_cleanup(retain_failed, state, status) {
        return Ok(false);
    }
    match drop() {
        Ok(done) => {
            assert(done == ());
            Ok(true)
        },
        Err(e) => Err(e),
    }
}

/// A publication whose outcome is unknown keeps its working table.
pub proof fn uncertain_publications_keep_their_table(
    retain_failed: Option<bool>,
    status: Option<NodeStatus>,
)
    ensures
        !cleanup_due(retain_failed, Some(WapCandidateState::PublicationSubmitted), status),
        !cleanup_due(retain_failed, None, status),
{
}

} // verus!
