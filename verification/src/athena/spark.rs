//! The Spark settings of Python models.

use crate::athena::docs::deref;
use crate::athena::driver::{OpsError, OpsErrorKind, OpsErrorView};
use crate::athena::glue::text;
use crate::json::{
    field, fields, fields_view, nil, object_view_is, put, Fields, FieldsView, Json, JsonView,
};
use crate::number::{plain, plain_number, shown_number, shown_number_of};
use crate::text::{same, to_chars, to_lowercase, unicode_lower};
use crate::value::{attribute, missing, Value};
use vstd::prelude::*;

verus! {

pub const DEFAULT_CALCULATION_TIMEOUT_SECS: i64 = 43200;

pub const DEFAULT_SPARK_COORDINATOR_DPU_SIZE: i128 = 1;

pub const DEFAULT_SPARK_MAX_CONCURRENT_DPUS: i128 = 2;

pub const DEFAULT_SPARK_EXECUTOR_DPU_SIZE: i128 = 1;

pub const DEFAULT_POLLING_INTERVAL_SECS: i128 = 1;

// ---------------------------------------------------------------------------
// Spark properties
// ---------------------------------------------------------------------------

pub type Properties = Seq<(Seq<char>, Seq<char>)>;

pub open spec fn no_properties() -> Properties {
    Seq::empty()
}

/// The Spark properties that a table format or a flag stands for.
pub open spec fn default_properties(key: Seq<char>) -> Properties {
    if key == "iceberg"@ {
        no_properties().push(
            (
                "spark.sql.catalog.spark_catalog"@,
                "org.apache.iceberg.spark.SparkSessionCatalog"@,
            ),
        ).push(
            (
                "spark.sql.catalog.spark_catalog.catalog-impl"@,
                "org.apache.iceberg.aws.glue.GlueCatalog"@,
            ),
        ).push(
            (
                "spark.sql.catalog.spark_catalog.io-impl"@,
                "org.apache.iceberg.aws.s3.S3FileIO"@,
            ),
        ).push(
            (
                "spark.sql.extensions"@,
                "org.apache.iceberg.spark.extensions.IcebergSparkSessionExtensions"@,
            ),
        )
    } else if key == "hudi"@ {
        no_properties().push(
            (
                "spark.sql.catalog.spark_catalog"@,
                "org.apache.spark.sql.hudi.catalog.HoodieCatalog"@,
            ),
        ).push(
            ("spark.serializer"@, "org.apache.spark.serializer.KryoSerializer"@),
        ).push(
            (
                "spark.sql.extensions"@,
                "org.apache.spark.sql.hudi.HoodieSparkSessionExtension"@,
            ),
        )
    } else if key == "delta_lake"@ {
        no_properties().push(
            (
                "spark.sql.catalog.spark_catalog"@,
                "org.apache.spark.sql.delta.catalog.DeltaCatalog"@,
            ),
        ).push(("spark.sql.extensions"@, "io.delta.sql.DeltaSparkSessionExtension"@))
    } else if key == "spark_encryption"@ {
        no_properties().push(("spark.authenticate"@, "true"@)).push(
            ("spark.io.encryption.enabled"@, "true"@),
        ).push(("spark.network.crypto.enabled"@, "true"@))
    } else if key == "spark_cross_account_catalog"@ {
        no_properties().push(("spark.hadoop.aws.glue.catalog.separator"@, "/"@))
    } else if key == "spark_requester_pays"@ {
        no_properties().push(("spark.hadoop.fs.s3.useRequesterPaysHeader"@, "true"@))
    } else {
        no_properties()
    }
}

pub open spec fn properties_view(v: Seq<(&'static str, &'static str)>) -> Properties {
    v.map_values(|p: (&'static str, &'static str)| (p.0@, p.1@))
}

/// The Spark properties that a table format or a flag stands for.
pub fn default_spark_properties(key: &str) -> (r: Vec<(&'static str, &'static str)>)
    ensures
        properties_view(r@) == default_properties(key@),
{
    let mut r: Vec<(&'static str, &'static str)> = Vec::new();
    if same(key, "iceberg") {
        r.push(
            (
                "spark.sql.catalog.spark_catalog",
                "org.apache.iceberg.spark.SparkSessionCatalog",
            ),
        );
        r.push(
            (
                "spark.sql.catalog.spark_catalog.catalog-impl",
                "org.apache.iceberg.aws.glue.GlueCatalog",
            ),
        );
        r.push(
            ("spark.sql.catalog.spark_catalog.io-impl", "org.apache.iceberg.aws.s3.S3FileIO"),
        );
        r.push(
            (
                "spark.sql.extensions",
                "org.apache.iceberg.spark.extensions.IcebergSparkSessionExtensions",
            ),
        );
    } else if same(key, "hudi") {
        r.push(
            (
                "spark.sql.catalog.spark_catalog",
                "org.apache.spark.sql.hudi.catalog.HoodieCatalog",
            ),
        );
        r.push(("spark.serializer", "org.apache.spark.serializer.KryoSerializer"));
        r.push(
            ("spark.sql.extensions", "org.apache.spark.sql.hudi.HoodieSparkSessionExtension"),
        );
    } else if same(key, "delta_lake") {
        r.push(
            (
                "spark.sql.catalog.spark_catalog",
                "org.apache.spark.sql.delta.catalog.DeltaCatalog",
            ),
        );
        r.push(("spark.sql.extensions", "io.delta.sql.DeltaSparkSessionExtension"));
    } else if same(key, "spark_encryption") {
        r.push(("spark.authenticate", "true"));
        r.push(("spark.io.encryption.enabled", "true"));
        r.push(("spark.network.crypto.enabled", "true"));
    } else if same(key, "spark_cross_account_catalog") {
        r.push(("spark.hadoop.aws.glue.catalog.separator", "/"));
    } else if same(key, "spark_requester_pays") {
        r.push(("spark.hadoop.fs.s3.useRequesterPaysHeader", "true"));
    }
    assert(properties_view(r@) =~= default_properties(key@));
    r
}

/// Fields with properties set in them.
pub open spec fn with_properties(start: FieldsView, properties: Properties) -> FieldsView
    decreases properties.len(),
{
    if properties.len() == 0 {
        start
    } else {
        put(
            with_properties(start, properties.drop_last()),
            properties.last().0,
            text(properties.last().1),
        )
    }
}

fn set_defaults(start: Fields, key: &str) -> (r: Fields)
    ensures
        r@ == with_properties(start@, default_properties(key@)),
{
    let properties = default_spark_properties(key);
    let ghost all = properties_view(properties@);
    let ghost begin = start@;
    let mut r = start;
    let mut i: usize = 0;
    assert(all.take(0) =~= Seq::empty());
    while i < properties.len()
        invariant
            i <= properties.len(),
            all == properties_view(properties@),
            r@ == with_properties(begin, all.take(i as int)),
        decreases properties.len() - i,
    {
        assert(all.take(i + 1).drop_last() =~= all.take(i as int));
        let (name, value) = properties[i];
        assert(all.take(i + 1).last() == (name@, value@));
        r = r.set(name, Json::Text(value.to_owned()));
        i += 1;
    }
    assert(all.take(i as int) =~= all);
    r
}

// ---------------------------------------------------------------------------
// The engine
// ---------------------------------------------------------------------------

/// A setting of a model that is there.
pub open spec fn setting(config: Value, key: Seq<char>) -> Option<Value> {
    match attribute(config, key) {
        Some(v) => if missing(v) {
            None
        } else {
            Some(v)
        },
        None => None,
    }
}

pub open spec fn is_set(config: Value, key: Seq<char>) -> bool {
    setting(config, key) matches Some(v) && v.truthy
}

/// The table format of a model, in lower case.
pub open spec fn table_format(config: Value) -> Seq<char> {
    match setting(config, "table_type"@) {
        Some(v) => unicode_lower(v.text@),
        None => "hive"@,
    }
}

pub open spec fn flag_properties(config: Value, start: FieldsView, key: Seq<char>) -> FieldsView {
    if is_set(config, key) {
        with_properties(start, default_properties(key))
    } else {
        start
    }
}

/// The properties that the format and the flags of a model stand for.
pub open spec fn base_properties(config: Value, format: Seq<char>) -> FieldsView {
    let a = with_properties(nil(), default_properties(format));
    let b = flag_properties(config, a, "spark_encryption"@);
    let c = flag_properties(config, b, "spark_cross_account_catalog"@);
    flag_properties(config, c, "spark_requester_pays"@)
}

pub open spec fn engine_key(key: Seq<char>) -> bool {
    key == "CoordinatorDpuSize"@ || key == "MaxConcurrentDpus"@ || key
        == "DefaultExecutorDpuSize"@ || key == "SparkProperties"@ || key == "AdditionalConfigs"@
}

pub open spec fn base_engine() -> FieldsView {
    nil().push(
        ("CoordinatorDpuSize"@, JsonView::Int(DEFAULT_SPARK_COORDINATOR_DPU_SIZE as int)),
    ).push(
        ("MaxConcurrentDpus"@, JsonView::Int(DEFAULT_SPARK_MAX_CONCURRENT_DPUS as int)),
    ).push(
        ("DefaultExecutorDpuSize"@, JsonView::Int(DEFAULT_SPARK_EXECUTOR_DPU_SIZE as int)),
    )
}

/// Fields with all fields of another object set in them.
pub open spec fn merged(start: FieldsView, more: FieldsView) -> FieldsView
    decreases more.len(),
{
    if more.len() == 0 {
        start
    } else {
        put(merged(start, more.drop_last()), more.last().0, more.last().1)
    }
}

pub open spec fn all_engine_keys(provided: FieldsView) -> bool {
    forall|i: int| 0 <= i < provided.len() ==> engine_key((#[trigger] provided[i]).0)
}

/// The engine and the properties with what a model provides for them.
pub open spec fn provided_engine(
    engine: FieldsView,
    properties: FieldsView,
    provided: FieldsView,
) -> (FieldsView, FieldsView)
    decreases provided.len(),
{
    if provided.len() == 0 {
        (engine, properties)
    } else {
        let (e, p) = provided_engine(engine, properties, provided.drop_last());
        let (key, value) = provided.last();
        match value {
            JsonView::Object(own) => if key == "SparkProperties"@ {
                (e, merged(p, own))
            } else {
                (put(e, key, value), p)
            },
            _ => (put(e, key, value), p),
        }
    }
}

pub open spec fn wrong_keys() -> Seq<char> {
    "The engine configuration keys provided do not match the expected athena engine keys: [\"CoordinatorDpuSize\", \"MaxConcurrentDpus\", \"DefaultExecutorDpuSize\", \"SparkProperties\", \"AdditionalConfigs\"]"@
}

pub open spec fn config_error(message: Seq<char>) -> OpsErrorView {
    OpsErrorView { kind: OpsErrorKind::Configuration, message }
}

/// The engine configuration with the properties set, where it asks for more than one
/// concurrent unit.
pub open spec fn finished_engine(engine: FieldsView, properties: FieldsView) -> Result<
    FieldsView,
    OpsErrorView,
> {
    if field(engine, "MaxConcurrentDpus"@) == Some(JsonView::Int(1)) {
        Err(config_error("The lowest value supported for MaxConcurrentDpus is 2"@))
    } else {
        Ok(put(engine, "SparkProperties"@, JsonView::Object(properties)))
    }
}

/// The engine configuration of a model, given its table format.
pub open spec fn engine_for(config: Value, format: Seq<char>) -> Result<
    FieldsView,
    OpsErrorView,
> {
    let properties = base_properties(config, format);
    match setting(config, "engine_config"@) {
        None => finished_engine(base_engine(), properties),
        Some(v) => match v.data {
            Some(d) => match d@ {
                JsonView::Object(provided) => if all_engine_keys(provided) {
                    let (e, p) = provided_engine(base_engine(), properties, provided);
                    finished_engine(e, p)
                } else {
                    Err(config_error(wrong_keys()))
                },
                _ => Err(config_error("Engine configuration has to be of type dict"@)),
            },
            None => Err(config_error("Engine configuration has to be of type dict"@)),
        },
    }
}

fn get_setting<'a>(config: &'a Value, key: &str) -> (r: Option<&'a Value>)
    ensures
        deref(r) == setting(*config, key@),
{
    match config.attr(key) {
        Some(v) => if v.is_missing() {
            None
        } else {
            Some(v)
        },
        None => None,
    }
}

fn has_flag(config: &Value, key: &str) -> (r: bool)
    ensures
        r == is_set(*config, key@),
{
    match get_setting(config, key) {
        Some(v) => v.truthy,
        None => false,
    }
}

fn flag_defaults(config: &Value, start: Fields, key: &str) -> (r: Fields)
    ensures
        r@ == flag_properties(*config, start@, key@),
{
    if has_flag(config, key) {
        set_defaults(start, key)
    } else {
        start
    }
}

fn is_engine_key(key: &str) -> (r: bool)
    ensures
        r == engine_key(key@),
{
    same(key, "CoordinatorDpuSize") || same(key, "MaxConcurrentDpus") || same(
        key,
        "DefaultExecutorDpuSize",
    ) || same(key, "SparkProperties") || same(key, "AdditionalConfigs")
}

fn merge(start: Fields, more: &Vec<(String, Json)>) -> (r: Fields)
    ensures
        r@ == merged(start@, fields_view(more@)),
{
    let ghost all = fields_view(more@);
    let ghost begin = start@;
    let mut r = start;
    let mut i: usize = 0;
    assert(all.take(0) =~= Seq::empty());
    while i < more.len()
        invariant
            i <= more.len(),
            all == fields_view(more@),
            r@ == merged(begin, all.take(i as int)),
        decreases more.len() - i,
    {
        assert(all.take(i + 1).drop_last() =~= all.take(i as int));
        assert(all.take(i + 1).last() == (more@[i as int].0@, more@[i as int].1@));
        r = r.set(more[i].0.as_str(), more[i].1.copy());
        i += 1;
    }
    assert(all.take(i as int) =~= all);
    r
}

fn keys_are_known(provided: &Vec<(String, Json)>) -> (r: bool)
    ensures
        r == all_engine_keys(fields_view(provided@)),
{
    let ghost all = fields_view(provided@);
    let mut i: usize = 0;
    while i < provided.len()
        invariant
            i <= provided.len(),
            all == fields_view(provided@),
            forall|j: int| 0 <= j < i ==> engine_key((#[trigger] all[j]).0),
        decreases provided.len() - i,
    {
        if !is_engine_key(provided[i].0.as_str()) {
            assert(!engine_key(all[i as int].0));
            return false;
        }
        i += 1;
    }
    true
}

fn provide(engine: Fields, properties: Fields, provided: &Vec<(String, Json)>) -> (r: (
    Fields,
    Fields,
))
    ensures
        (r.0@, r.1@) == provided_engine(engine@, properties@, fields_view(provided@)),
{
    let ghost all = fields_view(provided@);
    let ghost start = (engine@, properties@);
    let mut e = engine;
    let mut p = properties;
    let mut i: usize = 0;
    assert(all.take(0) =~= Seq::empty());
    while i < provided.len()
        invariant
            i <= provided.len(),
            all == fields_view(provided@),
            (e@, p@) == provided_engine(start.0, start.1, all.take(i as int)),
        decreases provided.len() - i,
    {
        assert(all.take(i + 1).drop_last() =~= all.take(i as int));
        let key = provided[i].0.as_str();
        let value = &provided[i].1;
        assert(all.take(i + 1).last() == (key@, value@));
        match value {
            Json::Object(own) => {
                proof {
                    object_view_is(*own);
                }
                if same(key, "SparkProperties") {
                    p = merge(p, own);
                } else {
                    e = e.set(key, value.copy());
                }
            },
            _ => {
                e = e.set(key, value.copy());
            },
        }
        i += 1;
    }
    assert(all.take(i as int) =~= all);
    (e, p)
}

fn is_one(v: Option<&Json>) -> (r: bool)
    ensures
        r == (crate::json::opt_json(v) == Some(JsonView::Int(1))),
{
    match v {
        Some(Json::Int(n)) => *n == 1,
        _ => false,
    }
}

fn configuration_error(message: &str) -> (e: OpsError)
    ensures
        e@ == config_error(message@),
{
    OpsError { kind: OpsErrorKind::Configuration, message: message.to_owned() }
}

pub open spec fn fields_outcome(r: Result<Fields, OpsError>) -> Result<FieldsView, OpsErrorView> {
    match r {
        Ok(f) => Ok(f@),
        Err(e) => Err(e@),
    }
}

/// The engine configuration of a model, given its table format in lower case.
pub fn engine_config_for(config: &Value, format: &str) -> (r: Result<Fields, OpsError>)
    ensures
        fields_outcome(r) == engine_for(*config, format@),
{
    let a = set_defaults(fields(), format);
    let b = flag_defaults(config, a, "spark_encryption");
    let c = flag_defaults(config, b, "spark_cross_account_catalog");
    let properties = flag_defaults(config, c, "spark_requester_pays");
    let engine = fields().with(
        "CoordinatorDpuSize",
        Json::Int(DEFAULT_SPARK_COORDINATOR_DPU_SIZE),
    ).with("MaxConcurrentDpus", Json::Int(DEFAULT_SPARK_MAX_CONCURRENT_DPUS)).with(
        "DefaultExecutorDpuSize",
        Json::Int(DEFAULT_SPARK_EXECUTOR_DPU_SIZE),
    );
    let (engine, properties) = match get_setting(config, "engine_config") {
        None => (engine, properties),
        Some(v) => match &v.data {
            Some(Json::Object(provided)) => {
                proof {
                    object_view_is(*provided);
                }
                if !keys_are_known(provided) {
                    return Err(
                        configuration_error(
                            "The engine configuration keys provided do not match the expected athena engine keys: [\"CoordinatorDpuSize\", \"MaxConcurrentDpus\", \"DefaultExecutorDpuSize\", \"SparkProperties\", \"AdditionalConfigs\"]",
                        ),
                    );
                }
                provide(engine, properties, provided)
            },
            _ => {
                return Err(
                    configuration_error("Engine configuration has to be of type dict"),
                );
            },
        },
    };
    if is_one(engine.get("MaxConcurrentDpus")) {
        return Err(
            configuration_error("The lowest value supported for MaxConcurrentDpus is 2"),
        );
    }
    Ok(engine.set("SparkProperties", properties.object()))
}

/// The engine configuration of a model.
pub fn engine_config(config: &Value) -> (r: Result<Fields, OpsError>)
    ensures
        fields_outcome(r) == engine_for(*config, table_format(*config)),
{
    match get_setting(config, "table_type") {
        Some(v) => engine_config_for(config, to_lowercase(v.text.as_str()).as_str()),
        None => engine_config_for(config, "hive"),
    }
}

// ---------------------------------------------------------------------------
// Times
// ---------------------------------------------------------------------------

/// The timeout of a model's calculation, in seconds: a positive integer.
pub open spec fn timeout_of(config: Value) -> Result<int, OpsErrorView> {
    let seconds = match setting(config, "timeout"@) {
        None => Ok(DEFAULT_CALCULATION_TIMEOUT_SECS as int),
        Some(v) => match v.data {
            Some(Json::Int(n)) => if i64::MIN <= n <= i64::MAX {
                Ok(n as int)
            } else {
                Err(config_error("Timeout must be an integer"@))
            },
            _ => Err(config_error("Timeout must be an integer"@)),
        },
    };
    match seconds {
        Err(e) => Err(e),
        Ok(n) => if n <= 0 {
            Err(config_error("Timeout must be a positive integer"@))
        } else {
            Ok(n)
        },
    }
}

fn timeout(config: &Value) -> (r: Result<u64, OpsError>)
    ensures
        match (r, timeout_of(*config)) {
            (Ok(n), Ok(m)) => n == m,
            (Err(e), Err(f)) => e@ == f,
            _ => false,
        },
{
    let seconds: i64 = match get_setting(config, "timeout") {
        None => DEFAULT_CALCULATION_TIMEOUT_SECS,
        Some(v) => match &v.data {
            Some(Json::Int(n)) => if *n >= i64::MIN as i128 && *n <= i64::MAX as i128 {
                *n as i64
            } else {
                return Err(configuration_error("Timeout must be an integer"));
            },
            _ => {
                return Err(configuration_error("Timeout must be an integer"));
            },
        },
    };
    if seconds <= 0 {
        return Err(configuration_error("Timeout must be a positive integer"));
    }
    Ok(seconds as u64)
}

/// The text of a number that is greater than zero: it has no minus, and some digit that
/// is not zero.
pub open spec fn positive_text(s: Seq<char>) -> bool {
    s.len() > 0 && s[0] != '-' && exists|i: int| 0 <= i < s.len() && '1' <= #[trigger] s[i] <= '9'
}

/// A number as text, as a floating-point number: without an exponent, and without a fraction
/// that is zero.
pub open spec fn number_text(v: JsonView) -> Option<Seq<char>> {
    match v {
        JsonView::Int(n) => Some(shown_number(n)),
        JsonView::Real(s) => Some(plain(s)),
        _ => None,
    }
}

pub open spec fn positive(v: JsonView) -> bool {
    match v {
        JsonView::Int(n) => n > 0,
        JsonView::Real(s) => positive_text(s),
        _ => false,
    }
}

pub open spec fn bad_interval(shown: Seq<char>) -> OpsErrorView {
    config_error("Polling_interval must be a positive number. Got: "@ + shown)
}

/// The polling interval of a model, in seconds: its own, else that of the profile, else the
/// default; a positive number.
pub open spec fn interval_of(config: Value, poll_interval: Option<JsonView>) -> Result<
    JsonView,
    OpsErrorView,
> {
    let number = match setting(config, "polling_interval"@) {
        None => Ok(
            match poll_interval {
                Some(p) => p,
                None => JsonView::Int(DEFAULT_POLLING_INTERVAL_SECS as int),
            },
        ),
        Some(v) => match v.data {
            Some(d) => match d@ {
                JsonView::Int(_) => Ok(d@),
                JsonView::Real(_) => Ok(d@),
                _ => Err(bad_interval(v.text@)),
            },
            None => Err(bad_interval(v.text@)),
        },
    };
    match number {
        Err(e) => Err(e),
        Ok(n) => if positive(n) {
            Ok(n)
        } else {
            Err(
                bad_interval(
                    match number_text(n) {
                        Some(s) => s,
                        None => ""@,
                    },
                ),
            )
        },
    }
}

fn is_positive_text(s: &str) -> (r: bool)
    ensures
        r == positive_text(s@),
{
    let chars = to_chars(s);
    if chars.len() == 0 || chars[0] == '-' {
        return false;
    }
    let mut i: usize = 0;
    while i < chars.len()
        invariant
            i <= chars.len(),
            chars@ == s@,
            s@.len() > 0,
            s@[0] != '-',
            forall|j: int| 0 <= j < i ==> !('1' <= #[trigger] s@[j] <= '9'),
        decreases chars.len() - i,
    {
        if '1' <= chars[i] && chars[i] <= '9' {
            assert('1' <= s@[i as int] <= '9');
            return true;
        }
        i += 1;
    }
    false
}

fn interval_error(shown: &str) -> (e: OpsError)
    ensures
        e@ == bad_interval(shown@),
{
    OpsError {
        kind: OpsErrorKind::Configuration,
        message: "Polling_interval must be a positive number. Got: ".to_owned().concat(shown),
    }
}

fn polling_interval(config: &Value, poll_interval: Option<&Json>) -> (r: Result<Json, OpsError>)
    ensures
        match (r, interval_of(*config, crate::json::opt_json(poll_interval))) {
            (Ok(n), Ok(m)) => n@ == m,
            (Err(e), Err(f)) => e@ == f,
            _ => false,
        },
{
    let number = match get_setting(config, "polling_interval") {
        None => match poll_interval {
            Some(p) => p.copy(),
            None => Json::Int(DEFAULT_POLLING_INTERVAL_SECS),
        },
        Some(v) => match &v.data {
            Some(Json::Int(n)) => Json::Int(*n),
            Some(Json::Real(s)) => Json::Real(s.clone()),
            _ => {
                return Err(interval_error(v.text.as_str()));
            },
        },
    };
    match &number {
        Json::Int(n) => if *n <= 0 {
            return Err(interval_error(shown_number_of(*n).as_str()));
        },
        Json::Real(s) => if !is_positive_text(s.as_str()) {
            return Err(interval_error(plain_number(s.as_str()).as_str()));
        },
        _ => {
            return Err(interval_error(""));
        },
    }
    Ok(number)
}

// ---------------------------------------------------------------------------
// The settings
// ---------------------------------------------------------------------------

/// The Spark settings of one Python model. The polling interval is a number of seconds.
#[derive(Debug, PartialEq)]
pub struct SparkConfig {
    pub timeout_secs: u64,
    pub polling_interval: Json,
    pub engine_config: Json,
}

pub struct SparkConfigView {
    pub timeout_secs: int,
    pub polling_interval: JsonView,
    pub engine_config: JsonView,
}

impl View for SparkConfig {
    type V = SparkConfigView;

    open spec fn view(&self) -> SparkConfigView {
        SparkConfigView {
            timeout_secs: self.timeout_secs as int,
            polling_interval: self.polling_interval@,
            engine_config: self.engine_config@,
        }
    }
}

/// The Spark settings of a model: its timeout, its polling interval and its engine, each
/// checked in this order.
pub open spec fn spark_config(config: Value, poll_interval: Option<JsonView>) -> Result<
    SparkConfigView,
    OpsErrorView,
> {
    match timeout_of(config) {
        Err(e) => Err(e),
        Ok(timeout_secs) => match interval_of(config, poll_interval) {
            Err(e) => Err(e),
            Ok(polling_interval) => match engine_for(config, table_format(config)) {
                Err(e) => Err(e),
                Ok(engine) => Ok(
                    SparkConfigView {
                        timeout_secs,
                        polling_interval,
                        engine_config: JsonView::Object(engine),
                    },
                ),
            },
        },
    }
}

impl SparkConfig {
    /// The Spark settings of a model, from its configuration and the polling interval of
    /// the profile.
    pub fn from_model_config(config: &Value, poll_interval: Option<&Json>) -> (r: Result<
        SparkConfig,
        OpsError,
    >)
        ensures
            match (r, spark_config(*config, crate::json::opt_json(poll_interval))) {
                (Ok(c), Ok(d)) => c@ == d,
                (Err(e), Err(f)) => e@ == f,
                _ => false,
            },
    {
        let timeout_secs = match timeout(config) {
            Ok(n) => n,
            Err(e) => {
                return Err(e);
            },
        };
        let polling_interval = match polling_interval(config, poll_interval) {
            Ok(n) => n,
            Err(e) => {
                return Err(e);
            },
        };
        match engine_config(config) {
            Ok(engine) => Ok(
                SparkConfig { timeout_secs, polling_interval, engine_config: engine.object() },
            ),
            Err(e) => Err(e),
        }
    }
}

} // verus!
