//! Invocation-local planning for audited publication of Snowflake tables.

use crate::json::{field, field_of, fields_view, opt, opt_str, text_of, FieldsView, Json, JsonView};
use crate::ordered::{found, has_key, inserted, keyed};
use crate::relation::{
    identity, rendered, AdapterType, Relation, RelationType, RelationView, ResolvedQuoting,
};
use crate::text::{same, trim, trimmed};
use crate::wap::nodes::{
    checked, copy_text, invalid, invalid_config, table_relation, ComputeArg, DbtModel, DbtTest,
    FsError, FsErrorView, ModelConfigView, ModelView, Nodes, SnowflakeAttr, SnowflakeAttrView,
    StoreFailuresAs,
};
use vstd::prelude::*;

verus! {

/// What a data test's `fail_calc` is unless it is configured.
pub const DEFAULT_DATA_TEST_FAIL_CALC: &'static str = "count(*)";

/// What a data test's `error_if` is unless it is configured.
pub const DEFAULT_DATA_TEST_ERROR_IF: &'static str = "!= 0";

/// What a data test's `warn_if` is unless it is configured.
pub const DEFAULT_DATA_TEST_WARN_IF: &'static str = "!= 0";

/// Cleanup authority is recorded only after a successful create-only claim.
#[derive(Debug, Clone, Copy, PartialEq, Eq, Structural)]
pub enum WapCandidateState {
    Created,
    /// A lost clone response leaves the publication outcome unknown.
    PublicationSubmitted,
    Published,
}

// ---------------------------------------------------------------------------
// Models of the plan
// ---------------------------------------------------------------------------

/// A canonical model and the private execution identity used by this invocation.
#[derive(Debug)]
pub struct WapModel {
    pub model: DbtModel,
    pub candidate_identifier: String,
    pub audit_ids: Vec<(String, ())>,
}

pub struct WapModelView {
    pub model: ModelView,
    pub candidate_identifier: Seq<char>,
    pub audit_ids: Seq<(Seq<char>, ())>,
}

impl View for WapModel {
    type V = WapModelView;

    open spec fn view(&self) -> WapModelView {
        WapModelView {
            model: self.model@,
            candidate_identifier: self.candidate_identifier@,
            audit_ids: keyed(self.audit_ids@),
        }
    }
}

impl DeepView for WapModel {
    type V = WapModelView;

    open spec fn deep_view(&self) -> WapModelView {
        self@
    }
}

/// The relation that the manifest names.
pub open spec fn public(m: WapModelView) -> RelationView {
    table_relation(m.model, m.model.alias, m.model.quoting)
}

/// The relation that this invocation builds.
pub open spec fn candidate(m: WapModelView) -> RelationView {
    table_relation(m.model, m.candidate_identifier, m.model.quoting)
}

pub open spec fn candidate_under(m: WapModelView, quoting: ResolvedQuoting) -> RelationView {
    table_relation(m.model, m.candidate_identifier, quoting)
}

/// Why a model's table cannot be built under the profile's quoting, where it cannot.
pub open spec fn quoting_refusal(m: WapModelView, quoting: ResolvedQuoting) -> Option<
    FsErrorView,
> {
    if identity(candidate_under(m, quoting)) != identity(candidate(m)) {
        Some(
            invalid(
                "WAP model '"@ + m.model.unique_id
                    + "': the table materialization resolves a different database or schema under the profile's quoting policy; align the model and profile quoting settings"@,
            ),
        )
    } else {
        None
    }
}

/// The attributes with nothing copied onto the working table.
pub open spec fn without_copies(attr: Option<SnowflakeAttrView>) -> Option<SnowflakeAttrView> {
    match attr {
        Some(a) => Some(
            SnowflakeAttrView { copy_grants: Some(false), copy_tags: Some(false), ..a },
        ),
        None => None,
    }
}

/// The model that builds the working table.
pub open spec fn execution(m: WapModelView) -> ModelView {
    ModelView {
        alias: m.candidate_identifier,
        relation_name: Some(rendered(candidate(m))),
        config: ModelConfigView {
            alias: Some(m.candidate_identifier),
            grants: Seq::empty(),
            copy_grants: Some(false),
            copy_tags: Some(false),
            ..m.model.config
        },
        snowflake: without_copies(m.model.snowflake),
        ..m.model
    }
}

/// The working table is built where the public one stands, and access to it is granted to
/// nobody.
pub proof fn execution_differs_in_name_and_access_alone(m: WapModelView)
    ensures
        execution(m).unique_id == m.model.unique_id,
        execution(m).database == m.model.database,
        execution(m).schema == m.model.schema,
        execution(m).quoting == m.model.quoting,
        execution(m).alias == m.candidate_identifier,
        execution(m).config.grants.len() == 0,
        execution(m).config.copy_grants == Some(false),
        table_relation(execution(m), execution(m).alias, execution(m).quoting) == candidate(m),
{
}

impl WapModel {
    pub fn public_relation(&self) -> (r: Relation)
        ensures
            r@ == public(self@),
    {
        Relation::new(
            self.model.adapter,
            self.model.database.as_str(),
            self.model.schema.as_str(),
            self.model.alias.as_str(),
            Some(RelationType::Table),
            self.model.quoting,
        )
    }

    pub fn candidate_relation(&self) -> (r: Relation)
        ensures
            r@ == candidate(self@),
    {
        self.candidate_relation_with_quoting(self.model.quoting)
    }

    pub fn candidate_relation_with_quoting(&self, quoting: ResolvedQuoting) -> (r: Relation)
        ensures
            r@ == candidate_under(self@, quoting),
    {
        Relation::new(
            self.model.adapter,
            self.model.database.as_str(),
            self.model.schema.as_str(),
            self.candidate_identifier.as_str(),
            Some(RelationType::Table),
            quoting,
        )
    }

    /// The built-in materialization creates its table using the adapter's quoting.
    pub fn validate_materialization_quoting(&self, effective_quoting: ResolvedQuoting) -> (r:
        Result<(), FsError>)
        ensures
            checked(r, quoting_refusal(self@, effective_quoting)),
    {
        let expected = self.candidate_relation().relation_identity();
        let actual = self.candidate_relation_with_quoting(effective_quoting).relation_identity();
        if !actual.is(&expected) {
            return Err(
                invalid_config(
                    "WAP model '".to_owned().concat(self.model.unique_id.as_str()).concat(
                        "': the table materialization resolves a different database or schema under the profile's quoting policy; align the model and profile quoting settings",
                    ),
                ),
            );
        }
        Ok(())
    }

    /// Create the scoped model used for candidate rendering and materialization.
    /// The manifest's model is never mutated.
    pub fn execution_model(&self) -> (r: DbtModel)
        ensures
            r@ == execution(self@),
    {
        let mut model = self.model.copy();
        model.alias = self.candidate_identifier.clone();
        model.config.alias = Some(self.candidate_identifier.clone());
        model.relation_name = Some(self.candidate_relation().render_self_as_str());
        // Access is applied to the public relation only after the audit passes.
        model.config.grants = Vec::new();
        model.config.copy_grants = Some(false);
        model.config.copy_tags = Some(false);
        let snowflake = match &self.model.snowflake {
            Some(a) => Some(
                SnowflakeAttr {
                    copy_grants: Some(false),
                    copy_tags: Some(false),
                    snowflake_warehouse: copy_text(&a.snowflake_warehouse),
                },
            ),
            None => None,
        };
        model.snowflake = snowflake;
        assert(model@.config.grants =~= Seq::empty());
        assert(model@ == execution(self@));
        model
    }
}

// ---------------------------------------------------------------------------
// Audits
// ---------------------------------------------------------------------------

/// The test runs at all.
pub open spec fn active(test: DbtTest) -> bool {
    test.enabled && test.config_enabled != Some(false)
}

pub open spec fn depends_on(test: DbtTest, id: Seq<char>) -> bool {
    exists|i: int| 0 <= i < test.depends_on@.len() && (#[trigger] test.depends_on@[i])@ == id
}

pub open spec fn depends_on_others(test: DbtTest, id: Seq<char>) -> bool {
    exists|i: int| 0 <= i < test.depends_on@.len() && (#[trigger] test.depends_on@[i])@ != id
}

/// The model owns the test: it is attached to it, or attached to nothing and depends on it.
pub open spec fn owned(test: DbtTest, model_id: Seq<char>) -> bool {
    match opt(test.attached_node) {
        Some(owner) => owner == model_id,
        None => depends_on(test, model_id),
    }
}

/// The ids of the audits that a model requires, from a place among the tests on.
pub open spec fn audits_from(
    tests: Seq<(String, DbtTest)>,
    model_id: Seq<char>,
    i: int,
    ids: Seq<(Seq<char>, ())>,
) -> Result<Seq<(Seq<char>, ())>, FsErrorView>
    decreases tests.len() - i,
{
    if i < 0 || i >= tests.len() {
        Ok(ids)
    } else {
        let (id, test) = tests[i];
        if !active(test) || !owned(test, model_id) {
            audits_from(tests, model_id, i + 1, ids)
        } else if test.depends_on@.len() == 0 || depends_on_others(test, model_id) {
            Err(
                invalid(
                    "WAP audit '"@ + id@ + "' for '"@ + model_id
                        + "' must depend only on that model; multi-relation audits are not supported"@,
                ),
            )
        } else {
            audits_from(tests, model_id, i + 1, inserted(ids, id@, ()))
        }
    }
}

/// The audits that a model requires, or why they cannot be used.
pub open spec fn required_audits(tests: Seq<(String, DbtTest)>, model_id: Seq<char>) -> Result<
    Seq<(Seq<char>, ())>,
    FsErrorView,
> {
    audits_from(tests, model_id, 0, Seq::empty())
}

/// A setting is SQL as it was written, or what it is by default.
pub open spec fn literal(
    authored: FieldsView,
    key: Seq<char>,
    resolved: Option<Seq<char>>,
    default: Option<Seq<char>>,
) -> bool {
    match field(authored, key) {
        Some(JsonView::Null) => resolved is None || resolved == default,
        Some(value) => text_of(value) is Some && text_of(value) == resolved,
        None => resolved is None || resolved == default,
    }
}

pub open spec fn dynamic(audit_id: Seq<char>, key: Seq<char>) -> FsErrorView {
    invalid(
        "WAP audit '"@ + audit_id + "' requires a literal '"@ + key
            + "' config; dynamically rendered SQL config or a nondefault value without an authored origin is not supported. Move relation-dependent expressions into the test SQL so ref() can bind to the working table"@,
    )
}

/// Why the SQL settings of an audit cannot be used, where they cannot.
pub open spec fn sql_refusal(audit_id: Seq<char>, audit: DbtTest) -> Option<FsErrorView> {
    let authored = fields_view(audit.unrendered_config@);
    if !literal(authored, "where"@, opt(audit.where_clause), None) {
        Some(dynamic(audit_id, "where"@))
    } else if !literal(authored, "fail_calc"@, opt(audit.fail_calc), Some("count(*)"@)) {
        Some(dynamic(audit_id, "fail_calc"@))
    } else if !literal(authored, "error_if"@, opt(audit.error_if), Some("!= 0"@)) {
        Some(dynamic(audit_id, "error_if"@))
    } else if !literal(authored, "warn_if"@, opt(audit.warn_if), Some("!= 0"@)) {
        Some(dynamic(audit_id, "warn_if"@))
    } else {
        None
    }
}

pub open spec fn is_local(compute: Option<ComputeArg>) -> bool {
    compute is Some && compute != Some(ComputeArg::Remote)
}

/// Why an audit cannot be used, where it cannot.
pub open spec fn audit_refusal(audit_id: Seq<char>, audit: DbtTest) -> Option<FsErrorView> {
    match sql_refusal(audit_id, audit) {
        Some(e) => Some(e),
        None => if audit.sql_header is Some && trim(audit.sql_header->0@).len() > 0 {
            Some(
                invalid(
                    "WAP audit '"@ + audit_id
                        + "' does not support sql_header; audits must not execute statements outside their test query"@,
                ),
            )
        } else if audit.adapter != AdapterType::Snowflake || is_local(audit.compute) {
            Some(invalid("WAP audit '"@ + audit_id + "' must execute on Snowflake"@))
        } else {
            None
        },
    }
}

/// The first audit that cannot be used, from a place among the ids on.
pub open spec fn audits_refusal(
    tests: Seq<(Seq<char>, DbtTest)>,
    ids: Seq<(Seq<char>, ())>,
    i: int,
) -> Option<FsErrorView>
    decreases ids.len() - i,
{
    if i < 0 || i >= ids.len() {
        None
    } else {
        match found(tests, ids[i].0) {
            Some(test) => match audit_refusal(ids[i].0, test) {
                Some(e) => Some(e),
                None => audits_refusal(tests, ids, i + 1),
            },
            None => audits_refusal(tests, ids, i + 1),
        }
    }
}

/// A test keeps the rows that failed in a table.
pub open spec fn stores(test: DbtTest, store_failures_flag: bool) -> bool {
    match test.store_failures {
        Some(b) => b,
        None => store_failures_flag || test.store_failures_as == Some(StoreFailuresAs::Table)
            || test.store_failures_as == Some(StoreFailuresAs::View),
    }
}

pub open spec fn stored(audit_id: Seq<char>) -> FsErrorView {
    invalid(
        "WAP audit '"@ + audit_id
            + "' does not support persisted failure storage; concurrent tests can replace stored failures before the audit counts them. Set store_failures=false; to inspect failed working tables, set wap_retain_failed=true on the model"@,
    )
}

/// The first audit of a model that stores failures, from a place among the ids on.
pub open spec fn stored_audit(
    tests: Seq<(Seq<char>, DbtTest)>,
    ids: Seq<(Seq<char>, ())>,
    flag: bool,
    i: int,
) -> Option<FsErrorView>
    decreases ids.len() - i,
{
    if i < 0 || i >= ids.len() {
        None
    } else if found(tests, ids[i].0) is Some && stores(found(tests, ids[i].0)->0, flag) {
        Some(stored(ids[i].0))
    } else {
        stored_audit(tests, ids, flag, i + 1)
    }
}

/// The first audit of the plan that stores failures, from a place among the models on.
pub open spec fn stored_audits(
    tests: Seq<(Seq<char>, DbtTest)>,
    models: Seq<(Seq<char>, WapModelView)>,
    flag: bool,
    i: int,
) -> Option<FsErrorView>
    decreases models.len() - i,
{
    if i < 0 || i >= models.len() {
        None
    } else {
        match stored_audit(tests, models[i].1.audit_ids, flag, 0) {
            Some(e) => Some(e),
            None => stored_audits(tests, models, flag, i + 1),
        }
    }
}

/// Every audit of the plan is a test of the project.
pub open spec fn audits_known(
    tests: Seq<(Seq<char>, DbtTest)>,
    models: Seq<(Seq<char>, WapModelView)>,
) -> bool {
    forall|i: int, j: int|
        0 <= i < models.len() && 0 <= j < models[i].1.audit_ids.len() ==> has_key(
            tests,
            (#[trigger] models[i].1.audit_ids[j]).0,
        )
}

pub(crate) fn is_active(test: &DbtTest) -> (r: bool)
    ensures
        r == active(*test),
{
    test.enabled && match test.config_enabled {
        Some(false) => false,
        _ => true,
    }
}

fn has_dependency(test: &DbtTest, id: &str) -> (r: bool)
    ensures
        r == depends_on(*test, id@),
{
    let mut i: usize = 0;
    while i < test.depends_on.len()
        invariant
            i <= test.depends_on.len(),
            forall|k: int| 0 <= k < i ==> (#[trigger] test.depends_on@[k])@ != id@,
        decreases test.depends_on.len() - i,
    {
        if same(test.depends_on[i].as_str(), id) {
            assert(test.depends_on@[i as int]@ == id@);
            return true;
        }
        i += 1;
    }
    false
}

pub(crate) fn has_other_dependency(test: &DbtTest, id: &str) -> (r: bool)
    ensures
        r == depends_on_others(*test, id@),
{
    let mut i: usize = 0;
    while i < test.depends_on.len()
        invariant
            i <= test.depends_on.len(),
            forall|k: int| 0 <= k < i ==> (#[trigger] test.depends_on@[k])@ == id@,
        decreases test.depends_on.len() - i,
    {
        if !same(test.depends_on[i].as_str(), id) {
            assert(test.depends_on@[i as int]@ != id@);
            return true;
        }
        i += 1;
    }
    false
}

pub(crate) fn is_owned(test: &DbtTest, model_id: &str) -> (r: bool)
    ensures
        r == owned(*test, model_id@),
{
    match &test.attached_node {
        Some(owner) => same(owner.as_str(), model_id),
        None => has_dependency(test, model_id),
    }
}

fn same_text(a: Option<&str>, b: Option<&str>) -> (r: bool)
    ensures
        r == (opt_str(a) == opt_str(b)),
{
    match (a, b) {
        (None, None) => true,
        (Some(x), Some(y)) => same(x, y),
        _ => false,
    }
}

fn borrowed<'a>(s: &'a Option<String>) -> (r: Option<&'a str>)
    ensures
        opt_str(r) == opt(*s),
{
    match s {
        Some(t) => Some(t.as_str()),
        None => None,
    }
}

fn is_literal(
    authored: &Vec<(String, Json)>,
    key: &str,
    resolved: &Option<String>,
    default: Option<&str>,
) -> (r: bool)
    ensures
        r == literal(fields_view(authored@), key@, opt(*resolved), opt_str(default)),
{
    let resolved = borrowed(resolved);
    match field_of(authored, key) {
        Some(value) => if value.is_null() {
            resolved.is_none() || same_text(resolved, default)
        } else {
            match value.as_str() {
                Some(text) => same_text(Some(text), resolved),
                None => false,
            }
        },
        None => resolved.is_none() || same_text(resolved, default),
    }
}

fn dynamic_config(audit_id: &str, key: &str) -> (r: FsError)
    ensures
        r@ == dynamic(audit_id@, key@),
{
    invalid_config(
        "WAP audit '".to_owned().concat(audit_id).concat("' requires a literal '").concat(key).concat(
            "' config; dynamically rendered SQL config or a nondefault value without an authored origin is not supported. Move relation-dependent expressions into the test SQL so ref() can bind to the working table",
        ),
    )
}

pub(crate) fn runs_locally(compute: Option<ComputeArg>) -> (r: bool)
    ensures
        r == is_local(compute),
{
    match compute {
        Some(c) => c != ComputeArg::Remote,
        None => false,
    }
}

/// Parsed config strings do not participate in the audit's ref overrides.
/// Require literal SQL config, or known defaults when no authored origin exists.
pub fn validate_audit_sql_config(audit_id: &str, audit: &DbtTest) -> (r: Result<(), FsError>)
    ensures
        checked(r, sql_refusal(audit_id@, *audit)),
{
    let authored = &audit.unrendered_config;
    if !is_literal(authored, "where", &audit.where_clause, None) {
        return Err(dynamic_config(audit_id, "where"));
    }
    if !is_literal(authored, "fail_calc", &audit.fail_calc, Some(DEFAULT_DATA_TEST_FAIL_CALC)) {
        return Err(dynamic_config(audit_id, "fail_calc"));
    }
    if !is_literal(authored, "error_if", &audit.error_if, Some(DEFAULT_DATA_TEST_ERROR_IF)) {
        return Err(dynamic_config(audit_id, "error_if"));
    }
    if !is_literal(authored, "warn_if", &audit.warn_if, Some(DEFAULT_DATA_TEST_WARN_IF)) {
        return Err(dynamic_config(audit_id, "warn_if"));
    }
    Ok(())
}

fn validate_audit(audit_id: &str, audit: &DbtTest) -> (r: Result<(), FsError>)
    ensures
        checked(r, audit_refusal(audit_id@, *audit)),
{
    if let Err(e) = validate_audit_sql_config(audit_id, audit) {
        return Err(e);
    }
    let header = match &audit.sql_header {
        Some(h) => {
            let t = trimmed(h.as_str());
            !t.as_str().is_empty()
        },
        None => false,
    };
    if header {
        return Err(
            invalid_config(
                "WAP audit '".to_owned().concat(audit_id).concat(
                    "' does not support sql_header; audits must not execute statements outside their test query",
                ),
            ),
        );
    }
    if audit.adapter != AdapterType::Snowflake || runs_locally(audit.compute) {
        return Err(
            invalid_config(
                "WAP audit '".to_owned().concat(audit_id).concat("' must execute on Snowflake"),
            ),
        );
    }
    Ok(())
}

pub(crate) fn validate_audits(nodes: &Nodes, ids: &Vec<(String, ())>) -> (r: Result<(), FsError>)
    ensures
        checked(r, audits_refusal(keyed(nodes.tests@), keyed(ids@), 0)),
{
    let mut i: usize = 0;
    while i < ids.len()
        invariant
            i <= ids.len(),
            audits_refusal(keyed(nodes.tests@), keyed(ids@), 0) == audits_refusal(
                keyed(nodes.tests@),
                keyed(ids@),
                i as int,
            ),
        decreases ids.len() - i,
    {
        assert(keyed(ids@)[i as int].0 == ids@[i as int].0@);
        if let Some(audit) = nodes.test(ids[i].0.as_str()) {
            if let Err(e) = validate_audit(ids[i].0.as_str(), audit) {
                return Err(e);
            }
        }
        i += 1;
    }
    Ok(())
}

/// A test keeps the rows that failed in a table. An explicit setting wins over the flag.
pub fn stores_test_failures(test: &DbtTest, store_failures_flag: bool) -> (r: bool)
    ensures
        r == stores(*test, store_failures_flag),
{
    match test.store_failures {
        Some(b) => b,
        None => store_failures_flag || matches!(
            test.store_failures_as,
            Some(StoreFailuresAs::Table | StoreFailuresAs::View)
        ),
    }
}

pub(crate) fn stores_audit_failures(nodes: &Nodes, ids: &Vec<(String, ())>, flag: bool) -> (r: Result<
    (),
    FsError,
>)
    ensures
        checked(r, stored_audit(keyed(nodes.tests@), keyed(ids@), flag, 0)),
{
    let mut i: usize = 0;
    while i < ids.len()
        invariant
            i <= ids.len(),
            stored_audit(keyed(nodes.tests@), keyed(ids@), flag, 0) == stored_audit(
                keyed(nodes.tests@),
                keyed(ids@),
                flag,
                i as int,
            ),
        decreases ids.len() - i,
    {
        assert(keyed(ids@)[i as int].0 == ids@[i as int].0@);
        if let Some(audit) = nodes.test(ids[i].0.as_str()) {
            if stores_test_failures(audit, flag) {
                return Err(
                    invalid_config(
                        "WAP audit '".to_owned().concat(ids[i].0.as_str()).concat(
                            "' does not support persisted failure storage; concurrent tests can replace stored failures before the audit counts them. Set store_failures=false; to inspect failed working tables, set wap_retain_failed=true on the model",
                        ),
                    ),
                );
            }
        }
        i += 1;
    }
    Ok(())
}

} // verus!
