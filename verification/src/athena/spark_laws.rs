//! How a Python model runs on Spark: its settings, its session and its calculation.

use crate::athena::driver::{OpsErrorKind, OpsErrorView, ReplyView};
use crate::athena::glue::text;
use crate::athena::session::{
    after_start_failure, after_status, blank, ended, first_free, first_free_holds, first_with_id,
    free, next_step, released, runtime_error, session_failed, status_text, taken, taken_id,
    tells_ended, ActionView, EventView, SessionView, SparkJob, StateView, StepView,
};
use crate::athena::spark::{
    bad_interval, base_engine, base_properties, default_properties, engine_for, engine_key,
    flag_properties, interval_of, is_set, merged, positive, positive_text, provided_engine, setting,
    spark_config, table_format, timeout_of, with_properties, Properties,
};
use crate::json::{
    field, member, nil, or_empty, place_is_unique, put_then_field, text_at, FieldsView, Json,
    JsonView,
};
use crate::number::decimal;
use crate::text::{contains, trim, trim_start, trim_trims};
use crate::text_laws::{all_spaces, trimming_drops_white_space_alone};
use crate::value::{attribute, missing, Value};
use vstd::prelude::*;

verus! {

// ---------------------------------------------------------------------------
// Settings
// ---------------------------------------------------------------------------

/// A setting that is missing counts as not given.
pub proof fn missing_settings_are_not_given(config: Value, key: Seq<char>)
    ensures
        attribute(config, key) is None ==> setting(config, key) is None,
        attribute(config, key) matches Some(v) ==> setting(config, key) == (if missing(v) {
            None
        } else {
            Some(v)
        }),
        setting(config, "table_type"@) is None ==> table_format(config) == "hive"@,
{
}

/// A calculation may take twelve hours, or as many whole seconds as are given, at least
/// one.
pub proof fn timeouts_are_positive(config: Value)
    ensures
        setting(config, "timeout"@) is None ==> timeout_of(config) == Ok::<int, OpsErrorView>(
            43200,
        ),
        setting(config, "timeout"@) matches Some(v) ==> (timeout_of(config) matches Ok(n) ==> n > 0
            && v.data == Some(Json::Int(n as i128))),
        (setting(config, "timeout"@) matches Some(v) && (v.data matches Some(Json::Int(n)) && 0 < n
            <= i64::MAX)) ==> timeout_of(config) is Ok,
        timeout_of(config) matches Err(e) ==> e.kind == OpsErrorKind::Configuration,
{
}

/// The state is asked for every second, or as often as the model or else the profile says,
/// in a positive number of seconds.
pub proof fn intervals_are_positive(config: Value, poll_interval: Option<JsonView>)
    ensures
        interval_of(config, poll_interval) matches Ok(n) ==> positive(n),
        setting(config, "polling_interval"@) is None && poll_interval is None ==> interval_of(
            config,
            poll_interval,
        ) == Ok::<JsonView, OpsErrorView>(JsonView::Int(1)),
        setting(config, "polling_interval"@) is None ==> (poll_interval matches Some(p)
            ==> if positive(p) {
            interval_of(config, poll_interval) == Ok::<JsonView, OpsErrorView>(p)
        } else {
            interval_of(config, poll_interval) is Err
        }),
        setting(config, "polling_interval"@) matches Some(v) ==> (interval_of(config, poll_interval)
            matches Ok(n) ==> (v.data matches Some(d) && d@ == n)),
        (setting(config, "polling_interval"@) matches Some(v) && (v.data matches Some(d) && (
        d@ matches JsonView::Int(n) && n > 0))) ==> interval_of(config, poll_interval) is Ok,
        positive(JsonView::Int(0)) == false,
{
}

proof fn engine_keys_differ()
    ensures
        "CoordinatorDpuSize"@.len() == 18,
        "MaxConcurrentDpus"@.len() == 17 && "MaxConcurrentDpus"@[0] == 'M',
        "DefaultExecutorDpuSize"@.len() == 22,
        "SparkProperties"@.len() == 15,
        "AdditionalConfigs"@.len() == 17 && "AdditionalConfigs"@[0] == 'A',
{
    reveal_strlit("CoordinatorDpuSize");
    reveal_strlit("MaxConcurrentDpus");
    reveal_strlit("DefaultExecutorDpuSize");
    reveal_strlit("SparkProperties");
    reveal_strlit("AdditionalConfigs");
}

/// Without a configuration of its own an engine has one unit to coordinate, two at most
/// and one for each executor.
pub proof fn engines_have_defaults(config: Value, format: Seq<char>)
    requires
        setting(config, "engine_config"@) is None,
    ensures
        engine_for(config, format) matches Ok(engine) && {
            &&& field(engine, "CoordinatorDpuSize"@) == Some(JsonView::Int(1))
            &&& field(engine, "MaxConcurrentDpus"@) == Some(JsonView::Int(2))
            &&& field(engine, "DefaultExecutorDpuSize"@) == Some(JsonView::Int(1))
            &&& field(engine, "AdditionalConfigs"@) is None
            &&& field(engine, "SparkProperties"@) == Some(
                JsonView::Object(base_properties(config, format)),
            )
        },
{
    engine_keys_differ();
    let b = base_engine();
    place_is_unique(b, "CoordinatorDpuSize"@, 0);
    place_is_unique(b, "MaxConcurrentDpus"@, 1);
    place_is_unique(b, "DefaultExecutorDpuSize"@, 2);
    place_is_unique(b, "AdditionalConfigs"@, 3);
    let p = JsonView::Object(base_properties(config, format));
    put_then_field(b, "SparkProperties"@, p, "CoordinatorDpuSize"@);
    put_then_field(b, "SparkProperties"@, p, "MaxConcurrentDpus"@);
    put_then_field(b, "SparkProperties"@, p, "DefaultExecutorDpuSize"@);
    put_then_field(b, "SparkProperties"@, p, "AdditionalConfigs"@);
}

/// What a model provides replaces the defaults key by key; of the properties of Spark it
/// replaces only those that it names.
pub proof fn provided_settings_replace_defaults(
    engine: FieldsView,
    properties: FieldsView,
    provided: FieldsView,
    key: Seq<char>,
    value: JsonView,
    other: Seq<char>,
)
    ensures
        provided_engine(engine, properties, Seq::empty()) == (engine, properties),
        ({
            let (e, p) = provided_engine(engine, properties, provided);
            let (f, q) = provided_engine(engine, properties, provided.push((key, value)));
            &&& key != "SparkProperties"@ || !(value is Object) ==> {
                &&& field(f, key) == Some(value)
                &&& other != key ==> field(f, other) == field(e, other)
                &&& q == p
            }
            &&& key == "SparkProperties"@ ==> (value matches JsonView::Object(own) ==> {
                &&& f == e
                &&& q == merged(p, own)
            })
        }),
{
    assert(provided.push((key, value)).drop_last() =~= provided);
    let (e, p) = provided_engine(engine, properties, provided);
    put_then_field(e, key, value, other);
}

/// Of two values for one property the later counts, and no other property changes.
pub proof fn later_properties_count(
    start: FieldsView,
    more: FieldsView,
    properties: Properties,
    key: Seq<char>,
    value: JsonView,
    written: Seq<char>,
    other: Seq<char>,
)
    ensures
        merged(start, Seq::empty()) == start,
        field(merged(start, more.push((key, value))), key) == Some(value),
        other != key ==> field(merged(start, more.push((key, value))), other) == field(
            merged(start, more),
            other,
        ),
        with_properties(start, Seq::empty()) == start,
        field(with_properties(start, properties.push((key, written))), key) == Some(
            JsonView::Text(written),
        ),
        other != key ==> field(with_properties(start, properties.push((key, written))), other)
            == field(with_properties(start, properties), other),
{
    assert(more.push((key, value)).drop_last() =~= more);
    put_then_field(merged(start, more), key, value, other);
    assert(properties.push((key, written)).drop_last() =~= properties);
    put_then_field(with_properties(start, properties), key, text(written), other);
}

/// The properties that come with each format and each flag.
pub proof fn formats_have_properties()
    ensures
        default_properties("iceberg"@) == seq![
            (
                "spark.sql.catalog.spark_catalog"@,
                "org.apache.iceberg.spark.SparkSessionCatalog"@,
            ),
            (
                "spark.sql.catalog.spark_catalog.catalog-impl"@,
                "org.apache.iceberg.aws.glue.GlueCatalog"@,
            ),
            (
                "spark.sql.catalog.spark_catalog.io-impl"@,
                "org.apache.iceberg.aws.s3.S3FileIO"@,
            ),
            (
                "spark.sql.extensions"@,
                "org.apache.iceberg.spark.extensions.IcebergSparkSessionExtensions"@,
            ),
        ],
        default_properties("hudi"@) == seq![
            (
                "spark.sql.catalog.spark_catalog"@,
                "org.apache.spark.sql.hudi.catalog.HoodieCatalog"@,
            ),
            ("spark.serializer"@, "org.apache.spark.serializer.KryoSerializer"@),
            (
                "spark.sql.extensions"@,
                "org.apache.spark.sql.hudi.HoodieSparkSessionExtension"@,
            ),
        ],
        default_properties("delta_lake"@) == seq![
            (
                "spark.sql.catalog.spark_catalog"@,
                "org.apache.spark.sql.delta.catalog.DeltaCatalog"@,
            ),
            ("spark.sql.extensions"@, "io.delta.sql.DeltaSparkSessionExtension"@),
        ],
        default_properties("spark_encryption"@) == seq![
            ("spark.authenticate"@, "true"@),
            ("spark.io.encryption.enabled"@, "true"@),
            ("spark.network.crypto.enabled"@, "true"@),
        ],
        default_properties("spark_cross_account_catalog"@) == seq![
            ("spark.hadoop.aws.glue.catalog.separator"@, "/"@),
        ],
        default_properties("spark_requester_pays"@) == seq![
            ("spark.hadoop.fs.s3.useRequesterPaysHeader"@, "true"@),
        ],
        default_properties("hive"@).len() == 0,
{
    reveal_strlit("iceberg");
    reveal_strlit("hudi");
    reveal_strlit("hive");
    reveal_strlit("delta_lake");
    reveal_strlit("spark_encryption");
    reveal_strlit("spark_cross_account_catalog");
    reveal_strlit("spark_requester_pays");
    assert("iceberg"@.len() == 7 && "hudi"@.len() == 4 && "hive"@.len() == 4 && "delta_lake"@.len()
        == 10 && "spark_encryption"@.len() == 16 && "spark_cross_account_catalog"@.len() == 27
        && "spark_requester_pays"@.len() == 20);
    assert("hudi"@[1] == 'u' && "hive"@[1] == 'i');
}

/// A flag that is not set adds no property.
pub proof fn flags_add_properties(config: Value, start: FieldsView, key: Seq<char>)
    ensures
        !(setting(config, key) matches Some(v) && v.truthy) ==> flag_properties(config, start, key)
            == start,
        (setting(config, key) matches Some(v) && v.truthy) ==> flag_properties(config, start, key)
            == with_properties(start, default_properties(key)),
{
}

/// An engine has room for at least two units, and only known keys.
pub proof fn engines_that_are_refused(config: Value, format: Seq<char>, k: int)
    ensures
        engine_for(config, format) matches Ok(engine) ==> field(engine, "MaxConcurrentDpus"@)
            != Some(JsonView::Int(1)),
        (setting(config, "engine_config"@) matches Some(v) && (v.data matches Some(d) && (
        d@ matches JsonView::Object(provided) && 0 <= k < provided.len() && provided[k].0
            != "CoordinatorDpuSize"@ && provided[k].0 != "MaxConcurrentDpus"@ && provided[k].0
            != "DefaultExecutorDpuSize"@ && provided[k].0 != "SparkProperties"@ && provided[k].0
            != "AdditionalConfigs"@))) ==> engine_for(config, format) is Err,
        (setting(config, "engine_config"@) matches Some(v) && !(v.data matches Some(d) && (
        d@ matches JsonView::Object(_)))) ==> engine_for(config, format) is Err,
{
    engine_keys_differ();
    if let Some(v) = setting(config, "engine_config"@) {
        if let Some(d) = v.data {
            if let JsonView::Object(provided) = d@ {
                let (e, p) = provided_engine(
                    base_engine(),
                    base_properties(config, format),
                    provided,
                );
                put_then_field(
                    e,
                    "SparkProperties"@,
                    JsonView::Object(p),
                    "MaxConcurrentDpus"@,
                );
            }
        }
    } else {
        engines_have_defaults(config, format);
    }
}

/// The settings of a run are its timeout, its interval and the engine for the format of its
/// table.
pub proof fn settings_are_put_together(config: Value, poll_interval: Option<JsonView>)
    ensures
        spark_config(config, poll_interval) matches Ok(c) ==> {
            &&& timeout_of(config) == Ok::<int, OpsErrorView>(c.timeout_secs)
            &&& interval_of(config, poll_interval) == Ok::<JsonView, OpsErrorView>(
                c.polling_interval,
            )
            &&& c.engine_config matches JsonView::Object(engine) && engine_for(
                config,
                table_format(config),
            ) == Ok::<FieldsView, OpsErrorView>(engine)
        },
        spark_config(config, poll_interval) is Ok <==> timeout_of(config) is Ok && interval_of(
            config,
            poll_interval,
        ) is Ok && engine_for(config, table_format(config)) is Ok,
{
}

// ---------------------------------------------------------------------------
// Sessions
// ---------------------------------------------------------------------------

/// The first session that is free and was made for the same settings is taken, and only
/// that is marked as busy.
pub proof fn the_first_free_session_is_taken(
    pool: Seq<SessionView>,
    description: Seq<char>,
    i: int,
)
    ensures
        taken_id(pool, description) is Some <==> exists|p: int|
            0 <= p < pool.len() && !(#[trigger] pool[p]).busy && pool[p].description == description,
        taken(pool, description).len() == pool.len(),
        taken_id(pool, description) is None ==> taken(pool, description) == pool,
        taken_id(pool, description) matches Some(id) ==> {
            let p = first_free(pool, description);
            &&& 0 <= p < pool.len()
            &&& pool[p].id == id
            &&& !pool[p].busy
            &&& pool[p].description == description
            &&& taken(pool, description)[p].busy
            &&& taken(pool, description)[p].id == id
            &&& taken(pool, description)[p].description == description
            &&& 0 <= i < p ==> pool[i].busy || pool[i].description != description
            &&& 0 <= i < pool.len() && i != p ==> taken(pool, description)[i] == pool[i]
        },
{
    first_free_holds(pool, description);
    none_before_is_free(pool, description);
    let p = first_free(pool, description);
    if p < pool.len() {
        assert(free(pool[p], description));
    }
    if exists|q: int|
        0 <= q < pool.len() && !(#[trigger] pool[q]).busy && pool[q].description == description {
        let q = choose|q: int|
            0 <= q < pool.len() && !(#[trigger] pool[q]).busy && pool[q].description
                == description;
        assert(free(pool[q], description));
    }
    if 0 <= i < p {
        assert(!free(pool[i], description));
    }
}

proof fn none_before_is_free(pool: Seq<SessionView>, description: Seq<char>)
    ensures
        forall|i: int|
            0 <= i < first_free(pool, description) && i < pool.len() ==> !free(
                #[trigger] pool[i],
                description,
            ),
    decreases pool.len(),
{
    if pool.len() > 0 && !free(pool[0], description) {
        let rest = pool.drop_first();
        none_before_is_free(rest, description);
        assert forall|i: int|
            0 <= i < first_free(pool, description) && i < pool.len() implies !free(
            #[trigger] pool[i],
            description,
        ) by {
            if i > 0 {
                assert(pool[i] == rest[i - 1]);
            }
        }
    }
}

proof fn first_with_id_holds(pool: Seq<SessionView>, id: Seq<char>)
    ensures
        0 <= first_with_id(pool, id) <= pool.len(),
        first_with_id(pool, id) < pool.len() ==> pool[first_with_id(pool, id)].id == id,
        first_with_id(pool, id) == pool.len() ==> forall|i: int|
            0 <= i < pool.len() ==> (#[trigger] pool[i]).id != id,
    decreases pool.len(),
{
    if pool.len() > 0 && pool[0].id != id {
        let rest = pool.drop_first();
        first_with_id_holds(rest, id);
        if first_with_id(pool, id) == pool.len() {
            assert forall|i: int| 0 <= i < pool.len() implies (#[trigger] pool[i]).id != id by {
                if i > 0 {
                    assert(pool[i] == rest[i - 1]);
                }
            }
        }
    }
}

/// A session that is given back can be taken again; one that has ended leaves the pool.
/// The others stay as they are.
pub proof fn sessions_are_given_back(
    pool: Seq<SessionView>,
    id: Seq<char>,
    one: SessionView,
    i: int,
)
    ensures
        released(pool, id, true).len() == pool.len(),
        0 <= i < pool.len() ==> {
            &&& released(pool, id, true)[i].id == pool[i].id
            &&& released(pool, id, true)[i].description == pool[i].description
            &&& pool[i].id != id ==> released(pool, id, true)[i] == pool[i]
        },
        (exists|p: int| 0 <= p < pool.len() && (#[trigger] pool[p]).id == id) ==> exists|p: int|
            0 <= p < pool.len() && pool[p].id == id && !(#[trigger] released(pool, id, true)[p]).busy,
        released(Seq::empty(), id, false) == Seq::<SessionView>::empty(),
        one.id == id ==> released(pool.push(one), id, false) == released(pool, id, false),
        one.id != id ==> released(pool.push(one), id, false) == released(pool, id, false).push(one),
{
    first_with_id_holds(pool, id);
    assert(pool.push(one).drop_last() =~= pool);
    let p = first_with_id(pool, id);
    if p < pool.len() {
        assert(!released(pool, id, true)[p].busy);
    }
}

// ---------------------------------------------------------------------------
// Steps of a run
// ---------------------------------------------------------------------------

/// Code that is blank is not run. Other code runs in a session that is free, or in a new
/// one that ends after ten idle minutes.
pub proof fn a_run_begins(job: SparkJob, pool: Seq<SessionView>)
    ensures
        ({
            let step = next_step(job, StateView::New, pool, EventView::Begin);
            &&& trim(job.compiled_code@).len() == 0 ==> step.action == ActionView::Return(
                Ok("OK"@),
            ) && step.pool == pool
            &&& trim(job.compiled_code@).len() > 0 && taken_id(pool, job.description@) is None ==> {
                &&& step.state == StateView::StartingSession { attempts: 0 }
                &&& step.pool == pool
                &&& step.action matches ActionView::Call { request, starts_clock } && {
                    &&& request.operation == "athena.start_session"@
                    &&& text_at(request.payload, "Description"@) == Some(job.description@)
                    &&& text_at(request.payload, "WorkGroup"@) == Some(job.work_group@)
                    &&& member(request.payload, "EngineConfiguration"@) == job.engine_config@
                    &&& member(request.payload, "SessionIdleTimeoutInMinutes"@) == JsonView::Int(10)
                }
            }
            &&& trim(job.compiled_code@).len() > 0 ==> (taken_id(
                pool,
                job.description@,
            ) matches Some(session) ==> {
                &&& step.state == StateView::StartingCalculation { attempts: 0, session }
                &&& step.pool == taken(pool, job.description@)
                &&& step.action matches ActionView::Call { request, starts_clock } && {
                    &&& request.operation == "athena.start_calculation_execution"@
                    &&& text_at(request.payload, "SessionId"@) == Some(session)
                    &&& text_at(request.payload, "CodeBlock"@) == Some(
                        trim_start(job.compiled_code@),
                    )
                }
            })
        }),
{
    reveal_strlit("Description");
    reveal_strlit("WorkGroup");
    reveal_strlit("EngineConfiguration");
    reveal_strlit("SessionIdleTimeoutInMinutes");
    reveal_strlit("SessionId");
    reveal_strlit("CodeBlock");
    assert("Description"@.len() == 11 && "WorkGroup"@.len() == 9 && "EngineConfiguration"@.len()
        == 19 && "SessionIdleTimeoutInMinutes"@.len() == 27);
    assert("SessionId"@.len() == 9 && "CodeBlock"@.len() == 9 && "SessionId"@[0] == 'S'
        && "CodeBlock"@[0] == 'C');
    let f = Seq::<(Seq<char>, JsonView)>::empty().push(
        ("Description"@, text(job.description@)),
    ).push(("WorkGroup"@, text(job.work_group@))).push(
        ("EngineConfiguration"@, job.engine_config@),
    ).push(("SessionIdleTimeoutInMinutes"@, JsonView::Int(10)));
    place_is_unique(f, "Description"@, 0);
    place_is_unique(f, "WorkGroup"@, 1);
    place_is_unique(f, "EngineConfiguration"@, 2);
    place_is_unique(f, "SessionIdleTimeoutInMinutes"@, 3);
    if let Some(session) = taken_id(pool, job.description@) {
        let g = Seq::<(Seq<char>, JsonView)>::empty().push(("SessionId"@, text(session))).push(
            ("CodeBlock"@, text(trim_start(job.compiled_code@))),
        );
        place_is_unique(g, "SessionId"@, 0);
        place_is_unique(g, "CodeBlock"@, 1);
    }
}

/// A session that was started is used once it is idle; it is then in the pool, and busy.
/// Until then its status is asked for, and the clock runs from the first time.
pub proof fn a_session_is_awaited(
    job: SparkJob,
    pool: Seq<SessionView>,
    attempts: int,
    session: Seq<char>,
    reply: ReplyView,
    timed_out: bool,
)
    ensures
        ({
            let event = EventView::Answered { reply, timed_out };
            let started = next_step(job, StateView::StartingSession { attempts }, pool, event);
            let asked = next_step(
                job,
                StateView::AwaitingSession { attempts, session },
                pool,
                event,
            );
            &&& reply matches Err(e) ==> {
                &&& started.action == ActionView::Return(Err(e))
                &&& asked.action == ActionView::Return(Err(e))
                &&& started.pool == pool
                &&& asked.pool == pool
            }
            &&& reply matches Ok(v) ==> {
                let own = or_empty(text_at(v, "SessionId"@));
                let state = or_empty(text_at(member(v, "Status"@), "State"@));
                &&& text_at(v, "State"@) == Some("IDLE"@) ==> {
                    &&& started.state == StateView::StartingCalculation { attempts, session: own }
                    &&& started.pool == pool.push(
                        SessionView { id: own, description: job.description@, busy: true },
                    )
                }
                &&& text_at(v, "State"@) != Some("IDLE"@) ==> {
                    &&& started.state == StateView::AwaitingSession { attempts, session: own }
                    &&& started.pool == pool
                    &&& started.action matches ActionView::Call { request, starts_clock }
                        && starts_clock && request.operation == "athena.get_session_status"@
                        && text_at(request.payload, "SessionId"@) == Some(own)
                }
                &&& state == "IDLE"@ ==> {
                    &&& asked.state == StateView::StartingCalculation { attempts, session }
                    &&& asked.pool == pool.push(
                        SessionView { id: session, description: job.description@, busy: true },
                    )
                }
                &&& state == "FAILED"@ || state == "TERMINATED"@ || state == "DEGRADED"@ ==> {
                    &&& asked.action matches ActionView::Return(Err(e)) && e.kind
                        == OpsErrorKind::UnexpectedResult
                    &&& asked.pool == pool
                }
                &&& state != "IDLE"@ && state != "FAILED"@ && state != "TERMINATED"@ && state
                    != "DEGRADED"@ ==> {
                    &&& timed_out ==> (asked.action matches ActionView::Return(Err(_)))
                    &&& !timed_out ==> asked.action == ActionView::Wait && asked.state
                        == StateView::PausedForSession { attempts, session }
                    &&& asked.pool == pool
                }
            }
        }),
{
    reveal_strlit("IDLE");
    reveal_strlit("FAILED");
    reveal_strlit("TERMINATED");
    reveal_strlit("DEGRADED");
    assert("IDLE"@.len() == 4 && "FAILED"@.len() == 6 && "TERMINATED"@.len() == 10
        && "DEGRADED"@.len() == 8);
    if let Ok(v) = reply {
        let own = or_empty(text_at(v, "SessionId"@));
        place_is_unique(
            Seq::<(Seq<char>, JsonView)>::empty().push(("SessionId"@, text(own))),
            "SessionId"@,
            0,
        );
    }
}

/// Where the calculation cannot be started because its session has ended, the session
/// leaves the pool and another is tried, three times in all.
pub proof fn a_calculation_is_started_again(
    job: SparkJob,
    pool: Seq<SessionView>,
    attempts: int,
    session: Seq<char>,
    reply: ReplyView,
    timed_out: bool,
)
    requires
        trim(job.compiled_code@).len() > 0,
    ensures
        ({
            let step = next_step(
                job,
                StateView::StartingCalculation { attempts, session },
                pool,
                EventView::Answered { reply, timed_out },
            );
            &&& reply matches Ok(v) ==> {
                let calculation = or_empty(text_at(v, "CalculationExecutionId"@));
                &&& step.state == StateView::AwaitingCalculation { session, calculation }
                &&& step.pool == pool
                &&& step.action matches ActionView::Call { request, starts_clock } && starts_clock
                    && request.operation == "athena.get_calculation_execution"@ && text_at(
                    request.payload,
                    "CalculationExecutionId"@,
                ) == Some(calculation)
            }
            &&& reply matches Err(e) ==> {
                let gone = contains(e.message, "TERMINATED"@) || contains(
                    e.message,
                    "TERMINATING"@,
                ) || contains(e.message, "DEGRADED"@) || contains(e.message, "FAILED"@);
                &&& gone && attempts < 2 ==> {
                    let left = released(pool, session, false);
                    match taken_id(left, job.description@) {
                        Some(next) => step.state == StateView::StartingCalculation {
                            attempts: attempts + 1,
                            session: next,
                        } && step.pool == taken(left, job.description@),
                        None => step.state == StateView::StartingSession { attempts: attempts + 1 }
                            && step.pool == left,
                    }
                }
                &&& gone && attempts >= 2 ==> (step.action matches ActionView::Return(Err(_)))
                    && step.pool == released(pool, session, false)
                &&& !gone ==> (step.action matches ActionView::Return(Err(_))) && step.pool
                    == released(pool, session, true)
            }
        }),
{
    if let Ok(v) = reply {
        let calculation = or_empty(text_at(v, "CalculationExecutionId"@));
        place_is_unique(
            Seq::<(Seq<char>, JsonView)>::empty().push(
                ("CalculationExecutionId"@, text(calculation)),
            ),
            "CalculationExecutionId"@,
            0,
        );
    }
}

/// A calculation that has ended gives its session back; one that takes too long is stopped
/// first.
pub proof fn a_calculation_is_awaited(
    job: SparkJob,
    pool: Seq<SessionView>,
    session: Seq<char>,
    calculation: Seq<char>,
    reply: ReplyView,
    timed_out: bool,
)
    ensures
        ({
            let step = next_step(
                job,
                StateView::AwaitingCalculation { session, calculation },
                pool,
                EventView::Answered { reply, timed_out },
            );
            &&& reply matches Err(e) ==> step.action == ActionView::Return(Err(e)) && step.pool
                == released(pool, session, true)
            &&& reply matches Ok(v) ==> {
                let state = or_empty(text_at(member(v, "Status"@), "State"@));
                &&& state == "COMPLETED"@ ==> step.action == ActionView::Return(Ok("OK"@))
                    && step.pool == released(pool, session, true)
                &&& state == "FAILED"@ || state == "CANCELED"@ ==> (
                step.action matches ActionView::Return(Err(e)) && e.kind
                    == OpsErrorKind::UnexpectedResult) && step.pool == released(
                    pool,
                    session,
                    true,
                )
                &&& state != "COMPLETED"@ && state != "FAILED"@ && state != "CANCELED"@ ==> {
                    &&& step.pool == pool
                    &&& !timed_out ==> step.action == ActionView::Wait && step.state
                        == StateView::PausedForCalculation { session, calculation }
                    &&& timed_out ==> (step.action matches ActionView::Call { request, .. }
                        && request.operation == "athena.stop_calculation_execution"@ && text_at(
                        request.payload,
                        "CalculationExecutionId"@,
                    ) == Some(calculation)) && step.state is Stopping
                }
            }
        }),
{
    reveal_strlit("COMPLETED");
    reveal_strlit("FAILED");
    reveal_strlit("CANCELED");
    assert("COMPLETED"@.len() == 9 && "FAILED"@.len() == 6 && "CANCELED"@.len() == 8);
    place_is_unique(
        Seq::<(Seq<char>, JsonView)>::empty().push(("CalculationExecutionId"@, text(calculation))),
        "CalculationExecutionId"@,
        0,
    );
}

/// After a pause the status is asked for again without a new clock; a run that is cancelled
/// stops its calculation, and then ends as cancelled.
pub proof fn pauses_end(
    job: SparkJob,
    pool: Seq<SessionView>,
    attempts: int,
    session: Seq<char>,
    calculation: Seq<char>,
    error: OpsErrorView,
    reply: ReplyView,
    timed_out: bool,
)
    ensures
        next_step(
            job,
            StateView::PausedForSession { attempts, session },
            pool,
            EventView::Cancelled,
        ).action matches ActionView::Return(Err(e)) && e.kind == OpsErrorKind::Cancelled,
        ({
            let step = next_step(
                job,
                StateView::PausedForSession { attempts, session },
                pool,
                EventView::Waited,
            );
            &&& step.state == StateView::AwaitingSession { attempts, session }
            &&& step.action matches ActionView::Call { request, starts_clock } && !starts_clock
                && request.operation == "athena.get_session_status"@
        }),
        ({
            let step = next_step(
                job,
                StateView::PausedForCalculation { session, calculation },
                pool,
                EventView::Waited,
            );
            &&& step.state == StateView::AwaitingCalculation { session, calculation }
            &&& step.action matches ActionView::Call { request, starts_clock } && !starts_clock
                && request.operation == "athena.get_calculation_execution"@
        }),
        ({
            let step = next_step(
                job,
                StateView::PausedForCalculation { session, calculation },
                pool,
                EventView::Cancelled,
            );
            &&& step.state matches StateView::Stopping { session: own, error: e } && own == session
                && e.kind == OpsErrorKind::Cancelled
            &&& step.action matches ActionView::Call { request, .. } && request.operation
                == "athena.stop_calculation_execution"@
        }),
        next_step(
            job,
            StateView::Stopping { session, error },
            pool,
            EventView::Answered { reply, timed_out },
        ) == (StepView {
            state: StateView::Ended,
            pool: released(pool, session, true),
            action: ActionView::Return(Err(error)),
        }),
{
}

/// The properties that a configuration asks for: those of the format, and those of each
/// flag that is set.
pub proof fn flags_are_these(config: Value, format: Seq<char>)
    ensures
        ({
            let plain = with_properties(nil(), default_properties(format));
            let encryption = is_set(config, "spark_encryption"@);
            let account = is_set(config, "spark_cross_account_catalog"@);
            let pays = is_set(config, "spark_requester_pays"@);
            &&& !encryption && !account && !pays ==> base_properties(config, format) == plain
            &&& encryption && !account && !pays ==> base_properties(config, format)
                == with_properties(plain, default_properties("spark_encryption"@))
            &&& !encryption && account && !pays ==> base_properties(config, format)
                == with_properties(plain, default_properties("spark_cross_account_catalog"@))
            &&& !encryption && !account && pays ==> base_properties(config, format)
                == with_properties(plain, default_properties("spark_requester_pays"@))
        }),
{
}

/// The keys of an engine, and no others.
pub proof fn engines_have_five_keys(key: Seq<char>)
    ensures
        engine_key("CoordinatorDpuSize"@) && engine_key("MaxConcurrentDpus"@),
        engine_key("DefaultExecutorDpuSize"@) && engine_key("SparkProperties"@),
        engine_key("AdditionalConfigs"@),
        engine_key(key) ==> key == "CoordinatorDpuSize"@ || key == "MaxConcurrentDpus"@ || key
            == "DefaultExecutorDpuSize"@ || key == "SparkProperties"@ || key
            == "AdditionalConfigs"@,
        bad_interval(key).kind == OpsErrorKind::Configuration,
        bad_interval(key).message == "Polling_interval must be a positive number. Got: "@ + key,
{
}

/// A number as it is written is positive where it has no minus and a digit other than zero.
pub proof fn texts_that_are_positive(s: Seq<char>, i: int)
    requires
        0 <= i < s.len(),
    ensures
        s[0] == '-' ==> !positive_text(s),
        s[0] != '-' && '1' <= s[i] <= '9' ==> positive_text(s),
        (forall|j: int| 0 <= j < s.len() ==> #[trigger] s[j] == '0' || s[j] == '.')
            ==> !positive_text(s),
        !positive_text(Seq::empty()),
{
    if forall|j: int| 0 <= j < s.len() ==> #[trigger] s[j] == '0' || s[j] == '.' {
        assert(!positive_text(s)) by {
            if positive_text(s) {
                let j = choose|j: int| 0 <= j < s.len() && '1' <= #[trigger] s[j] <= '9';
                assert(s[j] == '0' || s[j] == '.');
            }
        }
    }
}

/// Code that is white space alone is not run.
pub proof fn white_space_is_no_code(code: Seq<char>)
    ensures
        blank(code) <==> all_spaces(code),
{
    trimming_drops_white_space_alone(code);
    let (a, b) = choose|a: Seq<char>, b: Seq<char>|
        all_spaces(a) && all_spaces(b) && code == #[trigger] (a + trim(code) + b);
    if trim(code).len() == 0 {
        assert(code =~= a + b);
    } else {
        trim_trims(code);
        assert(code[a.len() as int] == trim(code)[0]);
    }
}

/// What is said of a session that could not be created.
pub proof fn lost_sessions_are_told(
    job: SparkJob,
    pool: Seq<SessionView>,
    attempts: int,
    session: Seq<char>,
    status: JsonView,
    message: Seq<char>,
)
    ensures
        ({
            let state = status_text(status, "State"@);
            &&& state != "IDLE"@ && session_failed(state) ==> after_status(
                job,
                pool,
                attempts,
                session,
                status,
                false,
            ) == ended(
                pool,
                Err(
                    runtime_error(
                        "Unable to create session: "@ + session + ". Got status: "@ + state
                            + " with reason: "@ + status_text(status, "StateChangeReason"@)
                            + "."@,
                    ),
                ),
            )
            &&& state != "IDLE"@ && !session_failed(state) ==> after_status(
                job,
                pool,
                attempts,
                session,
                status,
                true,
            ) == ended(
                pool,
                Err(
                    runtime_error(
                        "Session "@ + session + " did not create within "@ + decimal(
                            job.timeout_secs as int,
                        ) + " seconds."@,
                    ),
                ),
            )
            &&& !tells_ended(message) ==> after_start_failure(job, pool, attempts, session, message)
                == ended(
                released(pool, session, true),
                Err(runtime_error("Unable to start spark python code execution. "@ + message)),
            )
        }),
{
}

} // verus!
