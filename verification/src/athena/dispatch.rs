//! The methods that macros call on the adapter.
//!
//! Each takes what the macro hands over. While a project is parsed, the methods that would
//! reach the services do nothing and answer with nothing.

use crate::athena::cleanup::cleaned_up;
use crate::athena::docs::{
    argument_text, count_of, deref, entries_of, flag, model_docs, pairs, prepare_docs, to_usize,
};
use crate::athena::driver::{
    replies_view, OpsError, OpsErrorKind, OpsErrorView, Progress, ProgressView, Reply, ReplyView,
    Request, RequestView,
};
use crate::athena::glue::{
    glue_table_of, opt_as_str, AthenaOps, GlueTableView, RelationParts, DEFAULT_WORK_GROUP,
};
use crate::athena::lakeformation::{holds_tags_config, is_tags_config, tagged_database};
use crate::athena::methods::{
    after_run, cleaned_table, conditions_of, entry_texts, is_list, limit_outcome, located,
    location_arguments, location_enforced, location_with, model_location, more_runs,
    partitions_limit_result, query_view, s3_location, s3_location_with, seed_object,
    upload_arguments, where_conditions, AfterRun, LocationError, LocationErrorView, QueryStats,
    S3Profile,
};
use crate::athena::partition::{
    bucket_of, format_one_partition_key, format_partition_keys, format_value_for_partition,
    murmur3_hash, partition_key, partition_keys, partition_value,
};
use crate::athena::persist::persisted;
use crate::athena::s3::{bucket_of as path_bucket, prefix_of};
use crate::athena::storage::{base64_text, deleted_path, uploaded};
use crate::athena::swap::{deleted_table, dropped_database, swapped};
use crate::athena::table_type::TableType;
use crate::athena::versions::expired_versions;
use crate::json::{opt, opt_str};
use crate::text::contains;
use crate::value::{attribute, walked, Value, ValueKind};
use vstd::prelude::*;

verus! {

/// The catalog that a database is dropped from where none is named.
pub const DEFAULT_CATALOG: &'static str = "awsdatacatalog";

/// The adapter, as far as its methods depend on it.
pub struct Adapter {
    /// The project is being parsed: nothing is to be done.
    pub parsing: bool,
    pub profile: S3Profile,
    pub work_group: Option<String>,
    /// The tags that the profile sets on databases.
    pub lf_tags_database: Vec<(String, String)>,
}

/// Why a method fails: what it was handed is not valid, or an operation failed.
#[derive(Debug, PartialEq)]
pub enum MethodError {
    Invalid(String),
    NotSupported(String),
    Operation(OpsError),
}

pub enum MethodErrorView {
    Invalid(Seq<char>),
    NotSupported(Seq<char>),
    Operation(OpsErrorView),
}

impl View for MethodError {
    type V = MethodErrorView;

    open spec fn view(&self) -> MethodErrorView {
        match self {
            MethodError::Invalid(m) => MethodErrorView::Invalid(m@),
            MethodError::NotSupported(m) => MethodErrorView::NotSupported(m@),
            MethodError::Operation(e) => MethodErrorView::Operation(e@),
        }
    }
}

/// How far a method has come.
#[derive(Debug, PartialEq)]
pub enum Step<T> {
    Ask(Request),
    Done(T),
    Failed(MethodError),
}

pub enum StepView<T> {
    Ask(RequestView),
    Done(T),
    Failed(MethodErrorView),
}

impl<T: DeepView> View for Step<T> {
    type V = StepView<T::V>;

    open spec fn view(&self) -> StepView<T::V> {
        match self {
            Step::Ask(r) => StepView::Ask(r@),
            Step::Done(t) => StepView::Done(t.deep_view()),
            Step::Failed(e) => StepView::Failed(e@),
        }
    }
}

/// A method that does what an operation does.
pub open spec fn run<T>(p: ProgressView<T>) -> StepView<T> {
    match p {
        ProgressView::Ask(r) => StepView::Ask(r),
        ProgressView::Got(t, _) => StepView::Done(t),
        ProgressView::Fail(e, _) => StepView::Failed(MethodErrorView::Operation(e)),
    }
}

pub open spec fn refused<T>(message: Seq<char>) -> StepView<T> {
    StepView::Failed(MethodErrorView::Invalid(message))
}

/// A method that answers with nothing while a project is parsed.
pub open spec fn unless_parsing(parsing: bool, p: ProgressView<()>) -> StepView<()> {
    if parsing {
        StepView::Done(())
    } else {
        run(p)
    }
}

fn ran<T: DeepView>(p: Progress<T>) -> (r: Step<T>)
    ensures
        r@ == run(p@),
{
    match p {
        Progress::Ask(r) => Step::Ask(r),
        Progress::Got(t, _) => Step::Done(t),
        Progress::Fail(e, _) => Step::Failed(MethodError::Operation(e)),
    }
}

/// What a failure to make a location is to a macro.
pub open spec fn location_failure(e: LocationErrorView) -> MethodErrorView {
    match e {
        LocationErrorView::Configuration(message) => MethodErrorView::Operation(
            OpsErrorView { kind: OpsErrorKind::Configuration, message },
        ),
        LocationErrorView::Invalid(message) => MethodErrorView::Invalid(message),
    }
}

fn location_failed(e: LocationError) -> (r: MethodError)
    ensures
        r@ == location_failure(e@),
{
    match e {
        LocationError::Configuration(message) => MethodError::Operation(
            OpsError { kind: OpsErrorKind::Configuration, message },
        ),
        LocationError::Invalid(message) => MethodError::Invalid(message),
    }
}

// ---------------------------------------------------------------------------
// Values
// ---------------------------------------------------------------------------

/// The outcome of a method that only computes.
pub open spec fn computed(r: Result<String, MethodError>) -> Result<Seq<char>, MethodErrorView> {
    match r {
        Ok(s) => Ok(s@),
        Err(e) => Err(e@),
    }
}

impl Adapter {
    /// `adapter.is_list(value)`
    pub fn athena_is_list(&self, value: &Value) -> (r: bool)
        ensures
            r == (value.kind == ValueKind::Sequence),
    {
        is_list(value)
    }

    /// `adapter.format_value_for_partition(value, column_type)`: the value and the
    /// operator.
    pub fn athena_format_value_for_partition(&self, value: &Value, column_type: &str) -> (r: Result<
        (String, &'static str),
        MethodError,
    >)
        ensures
            match (r, partition_value(*value, column_type@)) {
                (Ok(p), Ok((text, operator))) => p.0@ == text && p.1@ == operator,
                (Err(e), Err(f)) => e@ == MethodErrorView::Invalid(f),
                _ => false,
            },
    {
        match format_value_for_partition(value, column_type) {
            Ok(pair) => Ok(pair),
            Err(e) => Err(MethodError::Invalid(e)),
        }
    }

    /// `adapter.format_one_partition_key(partition_key)`
    pub fn athena_format_one_partition_key(&self, key: &str) -> (r: String)
        ensures
            r@ == partition_key(key@),
    {
        format_one_partition_key(key)
    }

    /// `adapter.format_partition_keys(partition_keys)`
    pub fn athena_format_partition_keys(&self, keys: &Value) -> (r: Result<String, MethodError>)
        ensures
            computed(r) == match walked(*keys) {
                Ok(texts) => Ok(partition_keys(texts)),
                Err(e) => Err(MethodErrorView::Invalid(e)),
            },
    {
        match keys.walk() {
            Ok(texts) => Ok(format_partition_keys(&texts)),
            Err(e) => Err(MethodError::Invalid(e)),
        }
    }

    /// `adapter.murmur3_hash(value, num_buckets)`
    pub fn athena_murmur3_hash(&self, value: &Value, num_buckets: i64) -> (r: Result<
        i64,
        MethodError,
    >)
        ensures
            match (r, bucket_of(*value, num_buckets as int)) {
                (Ok(b), Ok(c)) => b == c,
                (Err(e), Err(f)) => e@ == MethodErrorView::Invalid(f),
                _ => false,
            },
    {
        match murmur3_hash(value, num_buckets) {
            Ok(bucket) => Ok(bucket),
            Err(e) => Err(MethodError::Invalid(e)),
        }
    }
}

// ---------------------------------------------------------------------------
// Locations
// ---------------------------------------------------------------------------

/// The location of a model's table, as its macro asks for it.
pub open spec fn asked_location(
    profile: S3Profile,
    relation: RelationParts,
    s3_data_dir: Option<Value>,
    s3_data_naming: Option<Value>,
    s3_tmp_table_dir: Option<Value>,
    external_location: Option<Value>,
    is_temporary_table: Option<Value>,
    unique: Seq<char>,
) -> Result<Seq<char>, MethodErrorView> {
    match location_with(
        profile,
        relation,
        argument_text(s3_data_dir),
        argument_text(s3_data_naming),
        argument_text(s3_tmp_table_dir),
        argument_text(external_location),
        flag(is_temporary_table),
        unique,
    ) {
        Ok(location) => Ok(location),
        Err(e) => Err(location_failure(e)),
    }
}

/// Uploading a seed: the answer is the location of its table.
pub open spec fn seed_uploaded(
    adapter: Adapter,
    relation: RelationParts,
    body: Seq<u8>,
    s3_data_dir: Option<Value>,
    s3_data_naming: Option<Value>,
    external_location: Option<Value>,
    seed_s3_upload_args: Option<Value>,
    unique: Seq<char>,
    replies: Seq<ReplyView>,
) -> StepView<Option<Seq<char>>> {
    match entries_of(seed_s3_upload_args) {
        Err(e) => refused(e),
        Ok(entries) => if adapter.parsing {
            StepView::Done(None)
        } else {
            match asked_location(
                adapter.profile,
                relation,
                s3_data_dir,
                s3_data_naming,
                None,
                external_location,
                None,
                unique,
            ) {
                Err(e) => StepView::Failed(e),
                Ok(location) => match uploaded(
                    path_bucket(location),
                    prefix_of(location) + relation.identifier@ + ".csv"@,
                    base64_text(body),
                    entry_texts(entries),
                    replies,
                    0,
                ) {
                    ProgressView::Ask(r) => StepView::Ask(r),
                    ProgressView::Got(_, _) => StepView::Done(Some(location)),
                    ProgressView::Fail(e, _) => StepView::Failed(MethodErrorView::Operation(e)),
                },
            }
        },
    }
}

impl Adapter {
    /// `adapter.generate_s3_location(..)`: a location with a new unique part, where it has
    /// one.
    pub fn athena_generate_s3_location(
        &self,
        relation: &RelationParts,
        s3_data_dir: Option<&Value>,
        s3_data_naming: Option<&Value>,
        s3_tmp_table_dir: Option<&Value>,
        external_location: Option<&Value>,
        is_temporary_table: Option<&Value>,
    ) -> (r: Result<String, MethodError>)
        ensures
            exists|unique: Seq<char>|
                computed(r) == #[trigger] asked_location(
                    self.profile,
                    *relation,
                    deref(s3_data_dir),
                    deref(s3_data_naming),
                    deref(s3_tmp_table_dir),
                    deref(external_location),
                    deref(is_temporary_table),
                    unique,
                ),
    {
        let arguments = location_arguments(
            s3_data_dir,
            s3_data_naming,
            s3_tmp_table_dir,
            external_location,
            is_temporary_table,
        );
        let made = s3_location(&self.profile, relation, &arguments);
        let ghost unique = choose|unique: Seq<char>|
            located(made) == #[trigger] model_location(
                self.profile,
                *relation,
                arguments,
                unique,
            );
        let r = match made {
            Ok(location) => Ok(location),
            Err(e) => Err(location_failed(e)),
        };
        assert(computed(r) == asked_location(
            self.profile,
            *relation,
            deref(s3_data_dir),
            deref(s3_data_naming),
            deref(s3_tmp_table_dir),
            deref(external_location),
            deref(is_temporary_table),
            unique,
        ));
        r
    }

    /// `adapter.upload_seed_to_s3(..)`: uploads the rows of a seed as CSV. The unique part
    /// of the location is that of the one upload.
    pub fn athena_upload_seed_to_s3(
        &self,
        relation: &RelationParts,
        body: &[u8],
        s3_data_dir: Option<&Value>,
        s3_data_naming: Option<&Value>,
        external_location: Option<&Value>,
        seed_s3_upload_args: Option<&Value>,
        unique: &str,
        replies: &Vec<Reply>,
    ) -> (r: Step<Option<String>>)
        ensures
            r@ == seed_uploaded(
                *self,
                *relation,
                body@,
                deref(s3_data_dir),
                deref(s3_data_naming),
                deref(external_location),
                deref(seed_s3_upload_args),
                unique@,
                replies_view(replies@),
            ),
    {
        let upload_args = match upload_arguments(seed_s3_upload_args) {
            Ok(arguments) => arguments,
            Err(e) => {
                return Step::Failed(MethodError::Invalid(e));
            },
        };
        if self.parsing {
            return Step::Done(None);
        }
        let arguments = location_arguments(
            s3_data_dir,
            s3_data_naming,
            None,
            external_location,
            None,
        );
        let location = match s3_location_with(&self.profile, relation, &arguments, unique) {
            Ok(location) => location,
            Err(e) => {
                return Step::Failed(location_failed(e));
            },
        };
        let (bucket, key) = seed_object(location.as_str(), relation.identifier.as_str());
        match AthenaOps::upload_object(
            bucket.as_str(),
            key.as_str(),
            body,
            &upload_args,
            replies,
            0,
        ) {
            Progress::Ask(r) => Step::Ask(r),
            Progress::Got(_, _) => Step::Done(Some(location)),
            Progress::Fail(e, _) => Step::Failed(MethodError::Operation(e)),
        }
    }
}

// ---------------------------------------------------------------------------
// Tables
// ---------------------------------------------------------------------------

/// The type of a table, as a macro asks for it.
pub open spec fn asked_type(parsing: bool, table: ProgressView<Option<GlueTableView>>) -> StepView<
    Option<TableType>,
> {
    if parsing {
        StepView::Done(None)
    } else {
        match table {
            ProgressView::Ask(r) => StepView::Ask(r),
            ProgressView::Got(Some(t), _) => StepView::Done(Some(t.table_type)),
            ProgressView::Got(None, _) => StepView::Done(None),
            ProgressView::Fail(e, _) => StepView::Failed(MethodErrorView::Operation(e)),
        }
    }
}

/// The catalog that a database is dropped from.
pub open spec fn named_catalog(catalog_name: Option<Seq<char>>) -> Seq<char> {
    match catalog_name {
        Some(name) => name,
        None => DEFAULT_CATALOG@,
    }
}

/// Expiring the versions of a table, as a macro asks for it.
pub open spec fn asked_expiry(
    parsing: bool,
    relation: RelationParts,
    to_keep: Value,
    delete_s3: bool,
    replies: Seq<ReplyView>,
) -> StepView<Seq<Seq<char>>> {
    match count_of(to_keep, "to_keep"@) {
        Err(e) => refused(e),
        Ok(n) => if parsing {
            StepView::Done(Seq::empty())
        } else {
            run(expired_versions(relation, n, delete_s3, replies, 0))
        },
    }
}

/// Cleaning up partitions, as a macro asks for it.
pub open spec fn asked_clean_up(
    parsing: bool,
    relation: RelationParts,
    where_condition: Value,
    replies: Seq<ReplyView>,
) -> StepView<()> {
    match conditions_of(where_condition) {
        Err(e) => refused(e),
        Ok(conditions) => unless_parsing(parsing, cleaned_up(relation, conditions, replies, 0)),
    }
}

/// Writing the documentation of a model, as a macro asks for it.
pub open spec fn asked_docs(
    parsing: bool,
    relation: RelationParts,
    model: Value,
    persist_relation_docs: Option<Value>,
    persist_column_docs: Option<Value>,
    skip_archive_table_version: Option<Value>,
    project_name: Option<Value>,
    replies: Seq<ReplyView>,
) -> StepView<()> {
    if parsing {
        StepView::Done(())
    } else {
        match model_docs(
            model,
            persist_relation_docs,
            persist_column_docs,
            skip_archive_table_version,
            project_name,
        ) {
            Err(e) => refused(e),
            Ok(docs) => run(persisted(relation, docs, replies, 0)),
        }
    }
}

impl Adapter {
    /// `adapter.get_glue_table_type(relation)`
    pub fn athena_get_glue_table_type(&self, relation: &RelationParts, replies: &Vec<Reply>) -> (r:
        Step<Option<TableType>>)
        ensures
            r@ == asked_type(
                self.parsing,
                glue_table_of(*relation, replies_view(replies@), 0),
            ),
    {
        if self.parsing {
            return Step::Done(None);
        }
        match AthenaOps::glue_table(relation, replies, 0) {
            Progress::Ask(r) => Step::Ask(r),
            Progress::Got(table, _) => match table {
                Some(t) => Step::Done(Some(t.table_type)),
                None => Step::Done(None),
            },
            Progress::Fail(e, _) => Step::Failed(MethodError::Operation(e)),
        }
    }

    /// `adapter.clean_up_table(relation)`: deletes the data of a table, where it has any.
    pub fn athena_clean_up_table(&self, relation: &RelationParts, replies: &Vec<Reply>) -> (r: Step<
        (),
    >)
        ensures
            r@ == unless_parsing(
                self.parsing,
                cleaned_table(*relation, replies_view(replies@), 0),
            ),
    {
        if self.parsing {
            return Step::Done(());
        }
        ran(AthenaOps::clean_up_table(relation, replies, 0))
    }

    /// `adapter.delete_from_glue_catalog(relation)`
    pub fn athena_delete_from_glue_catalog(&self, relation: &RelationParts, replies: &Vec<Reply>) -> (r:
        Step<()>)
        ensures
            r@ == unless_parsing(
                self.parsing,
                deleted_table(*relation, replies_view(replies@), 0),
            ),
    {
        if self.parsing {
            return Step::Done(());
        }
        ran(AthenaOps::delete_from_glue_catalog(relation, replies, 0))
    }

    /// `adapter.drop_glue_database(database_name, catalog_name)`
    pub fn athena_drop_glue_database(
        &self,
        database_name: &str,
        catalog_name: Option<&str>,
        replies: &Vec<Reply>,
    ) -> (r: Step<()>)
        ensures
            r@ == unless_parsing(
                self.parsing,
                dropped_database(
                    database_name@,
                    named_catalog(opt_str(catalog_name)),
                    replies_view(replies@),
                    0,
                ),
            ),
    {
        if self.parsing {
            return Step::Done(());
        }
        let catalog = match catalog_name {
            Some(name) => name,
            None => DEFAULT_CATALOG,
        };
        ran(AthenaOps::drop_glue_database(database_name, catalog, replies, 0))
    }

    /// `adapter.expire_glue_table_versions(relation, to_keep, delete_s3)`: the ids of the
    /// versions that were deleted.
    pub fn athena_expire_glue_table_versions(
        &self,
        relation: &RelationParts,
        to_keep: &Value,
        delete_s3: bool,
        replies: &Vec<Reply>,
    ) -> (r: Step<Vec<String>>)
        ensures
            r@ == asked_expiry(
                self.parsing,
                *relation,
                *to_keep,
                delete_s3,
                replies_view(replies@),
            ),
    {
        let kept: usize = match to_usize(to_keep, "to_keep") {
            Ok(n) => n,
            Err(e) => {
                return Step::Failed(MethodError::Invalid(e));
            },
        };
        if self.parsing {
            let none: Vec<String> = Vec::new();
            assert(none.deep_view() =~= Seq::empty());
            return Step::Done(none);
        }
        ran(AthenaOps::expire_glue_table_versions(relation, kept, delete_s3, replies, 0))
    }

    /// `adapter.swap_table(src_relation, target_relation)`
    pub fn athena_swap_table(
        &self,
        src: &RelationParts,
        target: &RelationParts,
        replies: &Vec<Reply>,
    ) -> (r: Step<()>)
        ensures
            r@ == unless_parsing(
                self.parsing,
                swapped(*src, *target, replies_view(replies@), 0),
            ),
    {
        if self.parsing {
            return Step::Done(());
        }
        ran(AthenaOps::swap_table(src, target, replies, 0))
    }

    /// `adapter.clean_up_partitions(relation, where_condition)`: one condition or several.
    pub fn athena_clean_up_partitions(
        &self,
        relation: &RelationParts,
        where_condition: &Value,
        replies: &Vec<Reply>,
    ) -> (r: Step<()>)
        ensures
            r@ == asked_clean_up(
                self.parsing,
                *relation,
                *where_condition,
                replies_view(replies@),
            ),
    {
        let conditions = match where_conditions(where_condition) {
            Ok(conditions) => conditions,
            Err(e) => {
                return Step::Failed(MethodError::Invalid(e));
            },
        };
        if self.parsing {
            return Step::Done(());
        }
        ran(AthenaOps::clean_up_partitions(relation, &conditions, replies, 0))
    }

    /// `adapter.delete_from_s3(s3_path)`
    pub fn athena_delete_from_s3(&self, s3_path: &str, replies: &Vec<Reply>) -> (r: Step<()>)
        ensures
            r@ == unless_parsing(
                self.parsing,
                deleted_path(s3_path@, replies_view(replies@), 0),
            ),
    {
        if self.parsing {
            return Step::Done(());
        }
        ran(AthenaOps::delete_from_s3(s3_path, replies, 0))
    }

    /// `adapter.is_work_group_output_location_enforced()`
    pub fn athena_is_work_group_output_location_enforced(&self, replies: &Vec<Reply>) -> (r: Step<
        bool,
    >)
        ensures
            r@ == (if self.parsing {
                StepView::Done(false)
            } else {
                run(
                    location_enforced(
                        match self.work_group {
                            Some(name) => name@,
                            None => DEFAULT_WORK_GROUP@,
                        },
                        replies_view(replies@),
                        0,
                    ),
                )
            }),
    {
        if self.parsing {
            return Step::Done(false);
        }
        let ops = AthenaOps::new(opt_as_str(&self.work_group));
        ran(ops.is_work_group_output_location_enforced(replies, 0))
    }

    /// `adapter.persist_docs_to_glue(..)`: writes the documentation of a model to its Glue
    /// table.
    pub fn athena_persist_docs_to_glue(
        &self,
        relation: &RelationParts,
        model: &Value,
        persist_relation_docs: Option<&Value>,
        persist_column_docs: Option<&Value>,
        skip_archive_table_version: Option<&Value>,
        project_name: Option<&Value>,
        replies: &Vec<Reply>,
    ) -> (r: Step<()>)
        ensures
            r@ == asked_docs(
                self.parsing,
                *relation,
                *model,
                deref(persist_relation_docs),
                deref(persist_column_docs),
                deref(skip_archive_table_version),
                deref(project_name),
                replies_view(replies@),
            ),
    {
        if self.parsing {
            return Step::Done(());
        }
        match prepare_docs(
            model,
            persist_relation_docs,
            persist_column_docs,
            skip_archive_table_version,
            project_name,
        ) {
            Ok(docs) => ran(AthenaOps::persist_docs_to_glue(relation, &docs, replies, 0)),
            Err(e) => Step::Failed(MethodError::Invalid(e)),
        }
    }
}

// ---------------------------------------------------------------------------
// Lake Formation
// ---------------------------------------------------------------------------

/// The value has an attribute that is true.
pub open spec fn is_on(v: Value, key: Seq<char>) -> bool {
    attribute(v, key) matches Some(a) && a.truthy
}

fn turned_on(v: &Value, key: &str) -> (r: bool)
    ensures
        r == is_on(*v, key@),
{
    match v.attr(key) {
        Some(a) => a.truthy,
        None => false,
    }
}

/// What becomes of a configuration of tags: nothing where it is disabled; otherwise it is
/// refused, by its form or for what it asks.
pub open spec fn asked_tags(config: Value) -> StepView<()> {
    if !is_on(config, "enabled"@) {
        StepView::Done(())
    } else if !(config.data matches Some(data) && is_tags_config(data@)) {
        StepView::Failed(MethodErrorView::Invalid("invalid lf_tags_config"@))
    } else {
        StepView::Failed(
            MethodErrorView::NotSupported(
                "lf_tags_config is not yet supported by the dbt Athena backend"@,
            ),
        )
    }
}

/// What becomes of a configuration of grants: nothing where its filters are disabled;
/// otherwise it is refused.
pub open spec fn asked_grants(config: Value) -> StepView<()> {
    if attribute(config, "data_cell_filters"@) matches Some(filters) && is_on(
        filters,
        "enabled"@,
    ) {
        StepView::Failed(
            MethodErrorView::NotSupported(
                "lf_grants is not yet supported by the dbt Athena backend"@,
            ),
        )
    } else {
        StepView::Done(())
    }
}

impl Adapter {
    /// `adapter.add_lf_tags(relation, lf_tags_config)`: nothing where the tags are
    /// disabled, an error otherwise.
    pub fn athena_add_lf_tags(&self, config: &Value) -> (r: Step<()>)
        ensures
            r@ == asked_tags(*config),
    {
        if !turned_on(config, "enabled") {
            return Step::Done(());
        }
        let formed = match &config.data {
            Some(data) => holds_tags_config(data),
            None => false,
        };
        if !formed {
            return Step::Failed(MethodError::Invalid("invalid lf_tags_config".to_owned()));
        }
        Step::Failed(
            MethodError::NotSupported(
                "lf_tags_config is not yet supported by the dbt Athena backend".to_owned(),
            ),
        )
    }

    /// `adapter.add_lf_tags_to_database(relation)`: the tags that the profile sets.
    pub fn athena_add_lf_tags_to_database(&self, schema: &str, replies: &Vec<Reply>) -> (r: Step<
        (),
    >)
        ensures
            r@ == unless_parsing(
                self.parsing,
                tagged_database(
                    schema@,
                    pairs(self.lf_tags_database@),
                    replies_view(replies@),
                    0,
                ),
            ),
    {
        if self.parsing {
            return Step::Done(());
        }
        ran(AthenaOps::add_lf_tags_to_database(schema, &self.lf_tags_database, replies, 0))
    }

    /// `adapter.apply_lf_grants(relation, lf_grants_config)`: nothing where the filters are
    /// disabled, an error otherwise.
    pub fn athena_apply_lf_grants(&self, config: &Value) -> (r: Step<()>)
        ensures
            r@ == asked_grants(*config),
    {
        let enabled = match config.attr("data_cell_filters") {
            Some(filters) => turned_on(filters, "enabled"),
            None => false,
        };
        if enabled {
            Step::Failed(
                MethodError::NotSupported(
                    "lf_grants is not yet supported by the dbt Athena backend".to_owned(),
                ),
            )
        } else {
            Step::Done(())
        }
    }
}

// ---------------------------------------------------------------------------
// Queries
// ---------------------------------------------------------------------------

/// What a method that runs a query does next.
#[derive(Debug, PartialEq)]
pub enum QueryStep {
    /// Run the query.
    Execute,
    /// The answer, where there is one.
    Done(Option<String>),
    /// The query failed.
    Failed(String),
}

pub enum QueryStepView {
    Execute,
    Done(Option<Seq<char>>),
    Failed(Seq<char>),
}

impl View for QueryStep {
    type V = QueryStepView;

    open spec fn view(&self) -> QueryStepView {
        match self {
            QueryStep::Execute => QueryStepView::Execute,
            QueryStep::Done(answer) => QueryStepView::Done(opt(*answer)),
            QueryStep::Failed(message) => QueryStepView::Failed(message@),
        }
    }
}

/// Running a query whose failure on open partitions is an answer.
pub open spec fn limited_query(
    parsing: bool,
    outcome: Option<Result<QueryStats, String>>,
) -> QueryStepView {
    if parsing {
        QueryStepView::Done(None)
    } else {
        match outcome {
            None => QueryStepView::Execute,
            Some(o) => match limit_outcome(query_view(o)) {
                Ok(answer) => QueryStepView::Done(Some(answer)),
                Err(message) => QueryStepView::Failed(message),
            },
        }
    }
}

/// Running an operation as often as Athena asks for it.
pub open spec fn repeated_query(
    parsing: bool,
    op: Seq<char>,
    outcome: Option<Result<(), String>>,
) -> QueryStepView {
    if parsing {
        QueryStepView::Done(None)
    } else {
        match outcome {
            None => QueryStepView::Execute,
            Some(Ok(_)) => QueryStepView::Done(None),
            Some(Err(message)) => if contains(message@, more_runs(op)) {
                QueryStepView::Execute
            } else {
                QueryStepView::Failed(message@)
            },
        }
    }
}

impl Adapter {
    /// `adapter.run_query_with_partitions_limit_catching(sql)`, from what the query came
    /// to, where it has run.
    pub fn athena_run_query_with_partitions_limit_catching(
        &self,
        outcome: Option<Result<QueryStats, String>>,
    ) -> (r: QueryStep)
        ensures
            r@ == limited_query(self.parsing, outcome),
    {
        if self.parsing {
            return QueryStep::Done(None);
        }
        match outcome {
            None => QueryStep::Execute,
            Some(o) => match partitions_limit_result(o) {
                Ok(answer) => QueryStep::Done(Some(answer)),
                Err(message) => QueryStep::Failed(message),
            },
        }
    }

    /// `adapter.run_operation_with_potential_multiple_runs(query, op)`, from what the last
    /// run came to, where there was one.
    pub fn athena_run_operation_with_potential_multiple_runs(
        &self,
        op: &str,
        outcome: Option<Result<(), String>>,
    ) -> (r: QueryStep)
        ensures
            r@ == repeated_query(self.parsing, op@, outcome),
    {
        if self.parsing {
            return QueryStep::Done(None);
        }
        match outcome {
            None => QueryStep::Execute,
            Some(o) => match after_run(op, o) {
                AfterRun::Done => QueryStep::Done(None),
                AfterRun::Again => QueryStep::Execute,
                AfterRun::Failed(message) => QueryStep::Failed(message),
            },
        }
    }
}

// ---------------------------------------------------------------------------
// Parsing
// ---------------------------------------------------------------------------

/// While a project is parsed, no method that reaches the services asks for anything,
/// whatever it is handed.
pub proof fn parsing_asks_for_nothing(
    adapter: Adapter,
    relation: RelationParts,
    other: RelationParts,
    value: Value,
    options: Seq<Option<Value>>,
    body: Seq<u8>,
    text: Seq<char>,
    delete_s3: bool,
    replies: Seq<ReplyView>,
)
    requires
        adapter.parsing,
        options.len() == 4,
    ensures
        asked_type(adapter.parsing, glue_table_of(relation, replies, 0)) !is Ask,
        unless_parsing(adapter.parsing, cleaned_table(relation, replies, 0)) !is Ask,
        unless_parsing(adapter.parsing, deleted_table(relation, replies, 0)) !is Ask,
        unless_parsing(adapter.parsing, dropped_database(text, text, replies, 0)) !is Ask,
        asked_expiry(adapter.parsing, relation, value, delete_s3, replies) !is Ask,
        unless_parsing(adapter.parsing, swapped(relation, other, replies, 0)) !is Ask,
        asked_clean_up(adapter.parsing, relation, value, replies) !is Ask,
        unless_parsing(adapter.parsing, deleted_path(text, replies, 0)) !is Ask,
        asked_docs(
            adapter.parsing,
            relation,
            value,
            options[0],
            options[1],
            options[2],
            options[3],
            replies,
        ) !is Ask,
        seed_uploaded(
            adapter,
            relation,
            body,
            options[0],
            options[1],
            options[2],
            options[3],
            text,
            replies,
        ) !is Ask,
        limited_query(adapter.parsing, None) !is Execute,
        repeated_query(adapter.parsing, text, None) !is Execute,
{
}

} // verus!
