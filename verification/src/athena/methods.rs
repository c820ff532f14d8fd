//! The methods that macros call on the Athena adapter: what they read from their arguments
//! and what they decide.

use crate::athena::docs::{argument_text, deref, entries_of, flag, map_error, optional_str, truth};
use crate::athena::driver::{
    call, called, replies_view, then_do, within, Progress, ProgressView, Reply, ReplyView,
};
use crate::athena::glue::{opt_as_str, table_location_of, text, AthenaOps, RelationParts};
use crate::athena::s3::{
    bucket_of, generate_s3_location, naming_of, parse_s3_path, prefix_of, s3_table_prefix,
    table_location, table_prefix, S3DataNaming,
};
use crate::athena::storage::deleted_path;
use crate::json::{fields, member, nil, opt, text_at, Json, JsonView};
use crate::number::{decimal, decimal_of};
use crate::text::{ascii_upper, contains, has, to_ascii_upper, views};
use crate::value::{walk_view, walked, Value, ValueKind};
use vstd::prelude::*;

verus! {

// ---------------------------------------------------------------------------
// Locations
// ---------------------------------------------------------------------------

/// What the profile says of where tables live.
#[derive(Debug)]
pub struct S3Profile {
    pub s3_staging_dir: Option<String>,
    pub s3_data_naming: Option<String>,
    pub s3_tmp_table_dir: Option<String>,
}

/// What a model says of where its table lives.
#[derive(Debug)]
pub struct S3Arguments {
    pub s3_data_dir: Option<String>,
    pub s3_data_naming: Option<String>,
    pub s3_tmp_table_dir: Option<String>,
    pub external_location: Option<String>,
    pub is_temporary_table: bool,
}

/// Why a location cannot be made.
#[derive(Debug, PartialEq)]
pub enum LocationError {
    Configuration(String),
    Invalid(String),
}

pub enum LocationErrorView {
    Configuration(Seq<char>),
    Invalid(Seq<char>),
}

impl View for LocationError {
    type V = LocationErrorView;

    open spec fn view(&self) -> LocationErrorView {
        match self {
            LocationError::Configuration(m) => LocationErrorView::Configuration(m@),
            LocationError::Invalid(m) => LocationErrorView::Invalid(m@),
        }
    }
}

pub open spec fn located(r: Result<String, LocationError>) -> Result<Seq<char>, LocationErrorView> {
    match r {
        Ok(s) => Ok(s@),
        Err(e) => Err(e@),
    }
}

/// The naming of a model: its own, else that of the profile, else by table and a unique
/// part.
pub open spec fn chosen_naming(own: Option<Seq<char>>, profile: Option<Seq<char>>) -> Result<
    S3DataNaming,
    Seq<char>,
> {
    let name = if own is Some {
        own
    } else {
        profile
    };
    match name {
        Some(n) => match naming_of(n) {
            Some(naming) => Ok(naming),
            None => Err("'"@ + n + "' is not a valid s3_data_naming"@),
        },
        None => Ok(S3DataNaming::TableUnique),
    }
}

/// The part of a location that stands for the table.
pub open spec fn table_part(relation: RelationParts) -> Seq<char> {
    match relation.s3_path_table_part {
        Some(part) => part@,
        None => relation.identifier@,
    }
}

/// The location of a table, with the unique part that it may hold.
pub open spec fn location_with(
    profile: S3Profile,
    relation: RelationParts,
    s3_data_dir: Option<Seq<char>>,
    s3_data_naming: Option<Seq<char>>,
    s3_tmp_table_dir: Option<Seq<char>>,
    external_location: Option<Seq<char>>,
    is_temporary_table: bool,
    unique: Seq<char>,
) -> Result<Seq<char>, LocationErrorView> {
    match profile.s3_staging_dir {
        None => Err(
            LocationErrorView::Configuration(
                "Athena requires 's3_staging_dir' in profile configuration"@,
            ),
        ),
        Some(staging) => match chosen_naming(s3_data_naming, opt(profile.s3_data_naming)) {
            Err(e) => Err(LocationErrorView::Invalid(e)),
            Ok(naming) => Ok(
                table_location(
                    relation.schema@,
                    table_part(relation),
                    table_prefix(
                        staging@,
                        opt(profile.s3_tmp_table_dir),
                        s3_data_dir,
                        s3_tmp_table_dir,
                        is_temporary_table,
                    ),
                    naming,
                    external_location,
                    is_temporary_table,
                    unique,
                ),
            ),
        },
    }
}

/// The location of a model's table, with the unique part that it may hold.
pub open spec fn model_location(
    profile: S3Profile,
    relation: RelationParts,
    arguments: S3Arguments,
    unique: Seq<char>,
) -> Result<Seq<char>, LocationErrorView> {
    location_with(
        profile,
        relation,
        opt(arguments.s3_data_dir),
        opt(arguments.s3_data_naming),
        opt(arguments.s3_tmp_table_dir),
        opt(arguments.external_location),
        arguments.is_temporary_table,
        unique,
    )
}

/// `uuid::Uuid::new_v4` as text: a random identifier. Nothing is claimed of it.
#[verifier::external_body]
fn new_unique() -> (r: String) {
    uuid::Uuid::new_v4().to_string()
}

/// The location of a model's table, with a given unique part.
pub fn s3_location_with(
    profile: &S3Profile,
    relation: &RelationParts,
    arguments: &S3Arguments,
    unique: &str,
) -> (r: Result<String, LocationError>)
    ensures
        located(r) == model_location(*profile, *relation, *arguments, unique@),
{
    let staging = match &profile.s3_staging_dir {
        Some(staging) => staging,
        None => {
            return Err(
                LocationError::Configuration(
                    "Athena requires 's3_staging_dir' in profile configuration".to_owned(),
                ),
            );
        },
    };
    let name = match &arguments.s3_data_naming {
        Some(name) => Some(name.as_str()),
        None => opt_as_str(&profile.s3_data_naming),
    };
    let naming = match name {
        Some(n) => match S3DataNaming::parse(n) {
            Some(naming) => naming,
            None => {
                return Err(
                    LocationError::Invalid(
                        "'".to_owned().concat(n).concat("' is not a valid s3_data_naming"),
                    ),
                );
            },
        },
        None => S3DataNaming::TableUnique,
    };
    let prefix = s3_table_prefix(
        staging.as_str(),
        opt_as_str(&profile.s3_tmp_table_dir),
        opt_as_str(&arguments.s3_data_dir),
        opt_as_str(&arguments.s3_tmp_table_dir),
        arguments.is_temporary_table,
    );
    let part = match &relation.s3_path_table_part {
        Some(part) => part.as_str(),
        None => relation.identifier.as_str(),
    };
    Ok(
        generate_s3_location(
            relation.schema.as_str(),
            part,
            prefix.as_str(),
            naming,
            opt_as_str(&arguments.external_location),
            arguments.is_temporary_table,
            unique,
        ),
    )
}

/// The location of a model's table, with a new unique part.
pub fn s3_location(
    profile: &S3Profile,
    relation: &RelationParts,
    arguments: &S3Arguments,
) -> (r: Result<String, LocationError>)
    ensures
        exists|unique: Seq<char>|
            located(r) == #[trigger] model_location(*profile, *relation, *arguments, unique),
{
    let unique = new_unique();
    s3_location_with(profile, relation, arguments, unique.as_str())
}

/// The arguments of a location, read from what a macro hands over.
pub fn location_arguments(
    s3_data_dir: Option<&Value>,
    s3_data_naming: Option<&Value>,
    s3_tmp_table_dir: Option<&Value>,
    external_location: Option<&Value>,
    is_temporary_table: Option<&Value>,
) -> (r: S3Arguments)
    ensures
        opt(r.s3_data_dir) == argument_text(deref(s3_data_dir)),
        opt(r.s3_data_naming) == argument_text(deref(s3_data_naming)),
        opt(r.s3_tmp_table_dir) == argument_text(deref(s3_tmp_table_dir)),
        opt(r.external_location) == argument_text(deref(external_location)),
        r.is_temporary_table == flag(deref(is_temporary_table)),
{
    S3Arguments {
        s3_data_dir: optional_str(s3_data_dir),
        s3_data_naming: optional_str(s3_data_naming),
        s3_tmp_table_dir: optional_str(s3_tmp_table_dir),
        external_location: optional_str(external_location),
        is_temporary_table: truth(is_temporary_table),
    }
}

/// The bucket and the key that a seed is uploaded to, from the location of its table.
pub fn seed_object(location: &str, identifier: &str) -> (r: (String, String))
    ensures
        r.0@ == bucket_of(location@),
        r.1@ == prefix_of(location@) + identifier@ + ".csv"@,
{
    let (bucket, prefix) = parse_s3_path(location);
    (bucket, prefix.concat(identifier).concat(".csv"))
}

pub open spec fn entry_texts(entries: Seq<(String, Value)>) -> Seq<(Seq<char>, Seq<char>)> {
    entries.map_values(|e: (String, Value)| (e.0@, e.1.text@))
}

/// The arguments of an upload, read from what a macro hands over.
pub fn upload_arguments(value: Option<&Value>) -> (r: Result<Vec<(String, String)>, String>)
    ensures
        match (r, entries_of(deref(value))) {
            (Ok(a), Ok(entries)) => crate::athena::docs::pairs(a@) == entry_texts(entries),
            (Err(e), Err(f)) => e@ == f,
            _ => false,
        },
{
    if let Some(e) = map_error(value) {
        return Err(e);
    }
    let mut arguments: Vec<(String, String)> = Vec::new();
    if let Some(v) = value {
        if !v.is_missing() {
            let mut i: usize = 0;
            while i < v.entries.len()
                invariant
                    i <= v.entries.len(),
                    arguments.len() == i,
                    forall|j: int|
                        0 <= j < i ==> (#[trigger] arguments@[j]).0@ == v.entries@[j].0@
                            && arguments@[j].1@ == v.entries@[j].1.text@,
                decreases v.entries.len() - i,
            {
                arguments.push((v.entries[i].0.clone(), v.entries[i].1.text.clone()));
                i += 1;
            }
            assert(crate::athena::docs::pairs(arguments@) =~= entry_texts(v.entries@));
            return Ok(arguments);
        }
    }
    assert(crate::athena::docs::pairs(arguments@) =~= entry_texts(Seq::empty()));
    Ok(arguments)
}

// ---------------------------------------------------------------------------
// Arguments
// ---------------------------------------------------------------------------

/// Whether a value is a list.
pub fn is_list(value: &Value) -> (r: bool)
    ensures
        r == (value.kind == ValueKind::Sequence),
{
    match value.kind {
        ValueKind::Sequence => true,
        _ => false,
    }
}

/// The conditions of a clean-up: one string, or what a value yields when it is walked.
pub open spec fn conditions_of(value: Value) -> Result<Seq<Seq<char>>, Seq<char>> {
    match value.string {
        Some(s) => Ok(seq![s@]),
        None => walked(value),
    }
}

pub fn where_conditions(value: &Value) -> (r: Result<Vec<String>, String>)
    ensures
        walk_view(r) == conditions_of(*value),
{
    match &value.string {
        Some(s) => {
            let mut single: Vec<String> = Vec::new();
            single.push(s.clone());
            assert(views(single@) =~= seq![s@]);
            Ok(single)
        },
        None => value.walk(),
    }
}

// ---------------------------------------------------------------------------
// Queries
// ---------------------------------------------------------------------------

pub const TOO_MANY_OPEN_PARTITIONS: &'static str = "TOO_MANY_OPEN_PARTITIONS";

/// What a query answered: the rows that it affected and the bytes that it scanned.
#[derive(Debug, Clone, Copy, PartialEq, Eq, Structural)]
pub struct QueryStats {
    pub rows_affected: i64,
    pub bytes_processed: Option<i64>,
}

/// What a macro learns of a query: its statistics as JSON, or that it met the limit on
/// open partitions. Any other failure stays one.
pub open spec fn limit_outcome(outcome: Result<QueryStats, Seq<char>>) -> Result<
    Seq<char>,
    Seq<char>,
> {
    match outcome {
        Ok(stats) => Ok(
            "{\"rowcount\":"@ + decimal(stats.rows_affected as int)
                + ",\"data_scanned_in_bytes\":"@ + decimal(
                match stats.bytes_processed {
                    Some(b) => b as int,
                    None => 0,
                },
            ) + "}"@,
        ),
        Err(message) => if contains(message, TOO_MANY_OPEN_PARTITIONS@) {
            Ok(TOO_MANY_OPEN_PARTITIONS@)
        } else {
            Err(message)
        },
    }
}

pub open spec fn texts_outcome(r: Result<String, String>) -> Result<Seq<char>, Seq<char>> {
    match r {
        Ok(s) => Ok(s@),
        Err(e) => Err(e@),
    }
}

pub open spec fn query_view(r: Result<QueryStats, String>) -> Result<QueryStats, Seq<char>> {
    match r {
        Ok(s) => Ok(s),
        Err(e) => Err(e@),
    }
}

pub fn partitions_limit_result(outcome: Result<QueryStats, String>) -> (r: Result<String, String>)
    ensures
        texts_outcome(r) == limit_outcome(query_view(outcome)),
{
    match outcome {
        Ok(stats) => {
            let bytes: i64 = match stats.bytes_processed {
                Some(b) => b,
                None => 0,
            };
            Ok(
                "{\"rowcount\":".to_owned().concat(
                    decimal_of(stats.rows_affected as i128).as_str(),
                ).concat(",\"data_scanned_in_bytes\":").concat(
                    decimal_of(bytes as i128).as_str(),
                ).concat("}"),
            )
        },
        Err(message) => if has(message.as_str(), TOO_MANY_OPEN_PARTITIONS) {
            Ok(TOO_MANY_OPEN_PARTITIONS.to_owned())
        } else {
            Err(message)
        },
    }
}

/// What follows a run of an operation that may need several.
#[derive(Debug, PartialEq)]
pub enum AfterRun {
    Done,
    Again,
    Failed(String),
}

/// The message by which Athena asks for another run of an operation.
pub open spec fn more_runs(op: Seq<char>) -> Seq<char> {
    "ICEBERG_"@ + ascii_upper(op) + "_MORE_RUNS_NEEDED"@
}

/// Whether an operation is done, runs again, or has failed: it runs again as long as
/// Athena asks for it.
pub fn after_run(op: &str, outcome: Result<(), String>) -> (r: AfterRun)
    ensures
        match outcome {
            Ok(_) => r == AfterRun::Done,
            Err(message) => if contains(message@, more_runs(op@)) {
                r == AfterRun::Again
            } else {
                r matches AfterRun::Failed(m) && m@ == message@
            },
        },
{
    match outcome {
        Ok(_) => AfterRun::Done,
        Err(message) => {
            let wanted = "ICEBERG_".to_owned().concat(to_ascii_upper(op).as_str()).concat(
                "_MORE_RUNS_NEEDED",
            );
            if has(message.as_str(), wanted.as_str()) {
                AfterRun::Again
            } else {
                AfterRun::Failed(message)
            }
        },
    }
}

// ---------------------------------------------------------------------------
// Operations
// ---------------------------------------------------------------------------

/// Deleting the data of a table, where it has any.
pub open spec fn cleaned_table(
    relation: RelationParts,
    replies: Seq<ReplyView>,
    at: int,
) -> ProgressView<()> {
    then_do(
        table_location_of(relation, replies, at),
        |location: Option<Seq<char>>, n: int|
            match location {
                Some(path) => deleted_path(path, replies, n),
                None => ProgressView::Got((), n),
            },
    )
}

pub open spec fn bool_of(v: JsonView) -> bool {
    v == JsonView::Bool(true)
}

/// A work group whose configuration is enforced and names an output location.
pub open spec fn enforces_location(response: JsonView) -> bool {
    let configuration = member(member(response, "WorkGroup"@), "Configuration"@);
    text_at(member(configuration, "ResultConfiguration"@), "OutputLocation"@) is Some && bool_of(
        member(configuration, "EnforceWorkGroupConfiguration"@),
    )
}

pub open spec fn location_enforced(
    work_group: Seq<char>,
    replies: Seq<ReplyView>,
    at: int,
) -> ProgressView<bool> {
    then_do(
        called(
            replies,
            at,
            "athena.get_work_group"@,
            JsonView::Object(nil().push(("WorkGroup"@, text(work_group)))),
        ),
        |response: JsonView, n: int| ProgressView::Got(enforces_location(response), n),
    )
}

fn enforced(response: &Json) -> (r: bool)
    ensures
        r == enforces_location(response@),
{
    let configuration = match response.get("WorkGroup") {
        Some(group) => match group.get("Configuration") {
            Some(configuration) => configuration,
            None => {
                return false;
            },
        },
        None => {
            return false;
        },
    };
    let has_location = match configuration.get("ResultConfiguration") {
        Some(result) => result.str_at("OutputLocation").is_some(),
        None => false,
    };
    let is_enforced = match configuration.get("EnforceWorkGroupConfiguration") {
        Some(flag) => match flag.as_bool() {
            Some(b) => b,
            None => false,
        },
        None => false,
    };
    has_location && is_enforced
}

impl AthenaOps {
    /// Deletes the data of a table, where it has any.
    pub fn clean_up_table(relation: &RelationParts, replies: &Vec<Reply>, at: usize) -> (r: Progress<
        (),
    >)
        requires
            at <= replies.len(),
        ensures
            r@ == cleaned_table(*relation, replies_view(replies@), at as int),
            within(r, at, replies@),
    {
        match Self::glue_table_location(relation, replies, at) {
            Progress::Got(Some(location), n) => Self::delete_from_s3(
                location.as_str(),
                replies,
                n,
            ),
            Progress::Got(None, n) => Progress::Got((), n),
            Progress::Ask(r) => Progress::Ask(r),
            Progress::Fail(e, n) => Progress::Fail(e, n),
        }
    }

    /// Whether the work group enforces an output location.
    pub fn is_work_group_output_location_enforced(&self, replies: &Vec<Reply>, at: usize) -> (r:
        Progress<bool>)
        requires
            at <= replies.len(),
        ensures
            r@ == location_enforced(self.work_group@, replies_view(replies@), at as int),
            within(r, at, replies@),
    {
        let payload = fields().text("WorkGroup", self.work_group.as_str());
        match call(replies, at, "athena.get_work_group", payload.object()) {
            Progress::Got(response, n) => Progress::Got(enforced(&response), n),
            Progress::Ask(r) => Progress::Ask(r),
            Progress::Fail(e, n) => Progress::Fail(e, n),
        }
    }
}

} // verus!
