//! When a relation is refreshed: by a cron schedule, at fixed intervals, on updates of its
//! sources, or by hand.
//!
//! <https://github.com/databricks/dbt-databricks/blob/main/dbt/adapters/databricks/relation_configs/refresh.py>

use crate::databricks::schedule_text::{
    cron_captures, cron_match, cron_schedule, cron_schedule_is, every_captures, every_schedule,
    longest_cron, quantity, quantity_captures, trigger_captures, trigger_schedule,
};
use crate::json::{fields, nil, opt, opt_str, Json, JsonView};
use crate::number::{decimal, decimal_of, parse_u64, unsigned};
use crate::text::{
    ascii_lower, debug_str, debug_text, from_range, same, same_ignoring_case, to_chars,
    to_uppercase, unicode_upper,
};
use vstd::prelude::*;

verus! {

pub const TYPE_NAME: &'static str = "refresh";

#[derive(Debug, Clone, Copy, PartialEq, Eq, Structural)]
pub enum RefreshMode {
    Manual,
    Cron,
    Every,
    OnUpdate,
}

#[derive(Debug)]
pub struct Config {
    pub cron: Option<String>,
    pub time_zone_value: Option<String>,
    pub every: Option<String>,
    pub on_update: bool,
    pub at_most_every: Option<String>,
    pub auto_refreshed: bool,
    /// True when both the current and desired states are scheduled. The materialization uses
    /// this to choose between ADD SCHEDULE and ALTER SCHEDULE.
    pub is_altered: bool,
}

pub struct ConfigView {
    pub cron: Option<Seq<char>>,
    pub time_zone_value: Option<Seq<char>>,
    pub every: Option<Seq<char>>,
    pub on_update: bool,
    pub at_most_every: Option<Seq<char>>,
    pub auto_refreshed: bool,
    pub is_altered: bool,
}

impl View for Config {
    type V = ConfigView;

    open spec fn view(&self) -> ConfigView {
        ConfigView {
            cron: opt(self.cron),
            time_zone_value: opt(self.time_zone_value),
            every: opt(self.every),
            on_update: self.on_update,
            at_most_every: opt(self.at_most_every),
            auto_refreshed: self.auto_refreshed,
            is_altered: self.is_altered,
        }
    }
}

pub open spec fn unscheduled() -> ConfigView {
    ConfigView {
        cron: None,
        time_zone_value: None,
        every: None,
        on_update: false,
        at_most_every: None,
        auto_refreshed: false,
        is_altered: false,
    }
}

pub open spec fn mode(cfg: ConfigView) -> RefreshMode {
    if cfg.cron is Some {
        RefreshMode::Cron
    } else if cfg.every is Some {
        RefreshMode::Every
    } else if cfg.on_update {
        RefreshMode::OnUpdate
    } else {
        RefreshMode::Manual
    }
}

// ---------------------------------------------------------------------------
// Time zones and intervals
// ---------------------------------------------------------------------------

/// A time zone in the one form that zones are compared in.
pub open spec fn zone(time_zone: Option<Seq<char>>) -> Seq<char> {
    let given = match time_zone {
        Some(z) => z,
        None => "UTC"@,
    };
    if ascii_lower(given) == ascii_lower("UTC"@) || ascii_lower(given) == ascii_lower("ETC/UTC"@) {
        "UTC"@
    } else {
        unicode_upper(given)
    }
}

pub fn normalize_time_zone(time_zone: Option<&str>) -> (r: String)
    ensures
        r@ == zone(opt_str(time_zone)),
{
    let given = match time_zone {
        Some(z) => z,
        None => "UTC",
    };
    if same_ignoring_case(given, "UTC") || same_ignoring_case(given, "ETC/UTC") {
        "UTC".to_owned()
    } else {
        to_uppercase(given)
    }
}

/// A unit without the `s` at its end.
pub open spec fn singular(unit: Seq<char>) -> Seq<char> {
    if unit.len() > 0 && (unit.last() == 'S' || unit.last() == 's') {
        unit.drop_last()
    } else {
        unit
    }
}

fn singular_of(unit: &str) -> (r: String)
    ensures
        r@ == singular(unit@),
{
    let chars = to_chars(unit);
    let n = chars.len();
    if n > 0 && (chars[n - 1] == 'S' || chars[n - 1] == 's') {
        let r = from_range(&chars, 0, n - 1);
        assert(r@ =~= unit@.drop_last());
        r
    } else {
        unit.to_owned()
    }
}

/// A unit in the one form that units are compared in.
pub open spec fn canonical_unit(unit: Seq<char>) -> Seq<char> {
    let one = singular(unit);
    if ascii_lower(one) == ascii_lower("SECOND"@) {
        "SECOND"@
    } else if ascii_lower(one) == ascii_lower("MINUTE"@) {
        "MINUTE"@
    } else if ascii_lower(one) == ascii_lower("HOUR"@) {
        "HOUR"@
    } else if ascii_lower(one) == ascii_lower("DAY"@) {
        "DAY"@
    } else if ascii_lower(one) == ascii_lower("WEEK"@) {
        "WEEK"@
    } else {
        unicode_upper(one)
    }
}

fn canonical_unit_of(unit: &str) -> (r: String)
    ensures
        r@ == canonical_unit(unit@),
{
    let one = singular_of(unit);
    if same_ignoring_case(one.as_str(), "SECOND") {
        "SECOND".to_owned()
    } else if same_ignoring_case(one.as_str(), "MINUTE") {
        "MINUTE".to_owned()
    } else if same_ignoring_case(one.as_str(), "HOUR") {
        "HOUR".to_owned()
    } else if same_ignoring_case(one.as_str(), "DAY") {
        "DAY".to_owned()
    } else if same_ignoring_case(one.as_str(), "WEEK") {
        "WEEK".to_owned()
    } else {
        to_uppercase(one.as_str())
    }
}

/// The parts of an interval whose number and unit were captured.
pub open spec fn parts_of(
    value: Seq<char>,
    captured: Option<(Seq<char>, Seq<char>)>,
) -> Result<(int, Seq<char>), Seq<char>> {
    match captured {
        None => Err(
            "Cannot parse interval "@ + debug_text(value) + "; expected '<integer> <unit>'."@,
        ),
        Some((number, unit)) => match unsigned(number) {
            Some(n) if n <= u64::MAX => Ok((n, canonical_unit(unit))),
            _ => Err("Interval quantity is too large in "@ + debug_text(value) + "."@),
        },
    }
}

/// The parts of an interval: how many of which unit.
pub open spec fn interval_parts(value: Seq<char>) -> Result<(int, Seq<char>), Seq<char>> {
    parts_of(value, quantity(value))
}

pub open spec fn parts_view(r: Result<(u64, String), String>) -> Result<
    (int, Seq<char>),
    Seq<char>,
> {
    match r {
        Ok((n, unit)) => Ok((n as int, unit@)),
        Err(e) => Err(e@),
    }
}

/// The parts of an interval whose number and unit were captured.
pub fn captured_parts(value: &str, captured: Option<(String, String)>) -> (r: Result<
    (u64, String),
    String,
>)
    ensures
        parts_view(r) == parts_of(
            value@,
            match captured {
                Some((number, unit)) => Some((number@, unit@)),
                None => None,
            },
        ),
{
    match captured {
        None => Err(
            "Cannot parse interval ".to_owned().concat(debug_str(value).as_str()).concat(
                "; expected '<integer> <unit>'.",
            ),
        ),
        Some((number, unit)) => match parse_u64(number.as_str()) {
            Some(n) => Ok((n, canonical_unit_of(unit.as_str()))),
            None => Err(
                "Interval quantity is too large in ".to_owned().concat(
                    debug_str(value).as_str(),
                ).concat("."),
            ),
        },
    }
}

pub fn parse_interval_parts(value: &str) -> (r: Result<(u64, String), String>)
    ensures
        parts_view(r) == interval_parts(value@),
{
    captured_parts(value, quantity_captures(value))
}

/// How long a unit is.
pub open spec fn seconds_per(unit: Seq<char>) -> Option<int> {
    if unit == "SECOND"@ {
        Some(1)
    } else if unit == "MINUTE"@ {
        Some(60)
    } else if unit == "HOUR"@ {
        Some(3_600)
    } else if unit == "DAY"@ {
        Some(86_400)
    } else if unit == "WEEK"@ {
        Some(604_800)
    } else {
        None
    }
}

/// How long an interval is.
pub open spec fn interval_seconds(value: Seq<char>) -> Result<int, Seq<char>> {
    match interval_parts(value) {
        Err(e) => Err(e),
        Ok((n, unit)) => match seconds_per(unit) {
            None => Err(
                "Unknown interval unit in "@ + debug_text(value)
                    + "; supported: SECOND, MINUTE, HOUR, DAY, WEEK (singular or plural)."@,
            ),
            Some(s) => if n * s <= u64::MAX {
                Ok(n * s)
            } else {
                Err("Interval is too large in "@ + debug_text(value) + "."@)
            },
        },
    }
}

fn seconds_of(unit: &str) -> (r: Option<u64>)
    ensures
        match r {
            Some(s) => seconds_per(unit@) == Some(s as int) && s <= 604_800,
            None => seconds_per(unit@) is None,
        },
{
    if same(unit, "SECOND") {
        Some(1)
    } else if same(unit, "MINUTE") {
        Some(60)
    } else if same(unit, "HOUR") {
        Some(3_600)
    } else if same(unit, "DAY") {
        Some(86_400)
    } else if same(unit, "WEEK") {
        Some(604_800)
    } else {
        None
    }
}

pub fn parse_interval_seconds(value: &str) -> (r: Result<u64, String>)
    ensures
        match r {
            Ok(n) => interval_seconds(value@) == Ok::<int, Seq<char>>(n as int),
            Err(e) => interval_seconds(value@) == Err::<int, Seq<char>>(e@),
        },
{
    match parse_interval_parts(value) {
        Err(e) => Err(e),
        Ok((n, unit)) => match seconds_of(unit.as_str()) {
            None => Err(
                "Unknown interval unit in ".to_owned().concat(debug_str(value).as_str()).concat(
                    "; supported: SECOND, MINUTE, HOUR, DAY, WEEK (singular or plural).",
                ),
            ),
            Some(s) => match n.checked_mul(s) {
                Some(product) => Ok(product),
                None => Err(
                    "Interval is too large in ".to_owned().concat(
                        debug_str(value).as_str(),
                    ).concat("."),
                ),
            },
        },
    }
}

/// The parts of an interval at which a relation can be refreshed.
pub open spec fn every_interval(value: Seq<char>) -> Result<(int, Seq<char>), Seq<char>> {
    match interval_parts(value) {
        Err(e) => Err(e),
        Ok((n, unit)) => if unit == "HOUR"@ || unit == "DAY"@ || unit == "WEEK"@ {
            Ok((n, unit))
        } else {
            Err(
                "Cannot parse `every` value "@ + debug_text(value)
                    + "; expected '<integer> {HOURS|DAYS|WEEKS}'."@,
            )
        },
    }
}

pub fn normalize_every_interval(value: &str) -> (r: Result<(u64, String), String>)
    ensures
        parts_view(r) == every_interval(value@),
{
    match parse_interval_parts(value) {
        Err(e) => Err(e),
        Ok((n, unit)) => if same(unit.as_str(), "HOUR") || same(unit.as_str(), "DAY") || same(
            unit.as_str(),
            "WEEK",
        ) {
            Ok((n, unit))
        } else {
            Err(
                "Cannot parse `every` value ".to_owned().concat(
                    debug_str(value).as_str(),
                ).concat("; expected '<integer> {HOURS|DAYS|WEEKS}'."),
            )
        },
    }
}

// ---------------------------------------------------------------------------
// Comparing
// ---------------------------------------------------------------------------

/// Both intervals can be compared where both schedules run at intervals.
pub open spec fn comparable(a: ConfigView, b: ConfigView) -> bool {
    mode(a) == RefreshMode::Every && mode(b) == RefreshMode::Every ==> every_interval(a.every->0)
        is Ok && every_interval(b.every->0) is Ok
}

/// Two limits on how often updates refresh are the same.
pub open spec fn same_limit(a: Option<Seq<char>>, b: Option<Seq<char>>) -> bool {
    match (a, b) {
        (None, None) => true,
        (Some(x), Some(y)) => match (interval_seconds(x), interval_seconds(y)) {
            (Ok(m), Ok(n)) => m == n,
            _ => x == y,
        },
        _ => false,
    }
}

/// Two configurations refresh at the same times.
pub open spec fn same_schedule(a: ConfigView, b: ConfigView) -> bool {
    mode(a) == mode(b) && match mode(a) {
        RefreshMode::Manual => true,
        RefreshMode::Cron => a.cron == b.cron && zone(a.time_zone_value) == zone(b.time_zone_value),
        RefreshMode::Every => every_interval(a.every->0) == every_interval(b.every->0),
        RefreshMode::OnUpdate => same_limit(a.at_most_every, b.at_most_every),
    }
}

/// Every configuration refreshes when itself does.
pub proof fn same_schedule_is_reflexive(a: ConfigView)
    ensures
        same_schedule(a, a),
{
}

pub proof fn same_schedule_is_symmetric(a: ConfigView, b: ConfigView)
    requires
        same_schedule(a, b),
    ensures
        same_schedule(b, a),
{
}

pub proof fn same_schedule_is_transitive(a: ConfigView, b: ConfigView, c: ConfigView)
    requires
        same_schedule(a, b),
        same_schedule(b, c),
    ensures
        same_schedule(a, c),
{
}

/// What has to change to refresh as desired.
pub open spec fn change(desired: ConfigView, current: ConfigView) -> Option<ConfigView> {
    if same_schedule(desired, current) {
        None
    } else {
        Some(
            ConfigView {
                is_altered: mode(desired) != RefreshMode::Manual && mode(current)
                    != RefreshMode::Manual,
                ..desired
            },
        )
    }
}

/// Once a change is made nothing is left to change, and the change is marked as an
/// alteration exactly where a schedule replaces a schedule.
pub proof fn a_change_leads_to_the_desired_state(desired: ConfigView, current: ConfigView)
    ensures
        match change(desired, current) {
            None => same_schedule(desired, current),
            Some(made) => {
                &&& same_schedule(made, desired)
                &&& change(desired, made) is None
                &&& made.is_altered == (mode(desired) != RefreshMode::Manual && mode(current)
                    != RefreshMode::Manual)
                &&& made.auto_refreshed == desired.auto_refreshed
            },
        },
{
}

fn copied(s: &Option<String>) -> (r: Option<String>)
    ensures
        opt(r) == opt(*s),
{
    match s {
        Some(t) => Some(t.clone()),
        None => None,
    }
}

fn borrowed<'a>(s: &'a Option<String>) -> (r: Option<&'a str>)
    ensures
        opt_str(r) == opt(*s),
{
    match s {
        Some(t) => Some(t.as_str()),
        None => None,
    }
}

fn same_option(a: &Option<String>, b: &Option<String>) -> (r: bool)
    ensures
        r == (opt(*a) == opt(*b)),
{
    match (a, b) {
        (None, None) => true,
        (Some(x), Some(y)) => same(x.as_str(), y.as_str()),
        _ => false,
    }
}

impl Config {
    /// No schedule.
    pub fn none() -> (r: Config)
        ensures
            r@ == unscheduled(),
    {
        Config {
            cron: None,
            time_zone_value: None,
            every: None,
            on_update: false,
            at_most_every: None,
            auto_refreshed: false,
            is_altered: false,
        }
    }

    pub fn copy(&self) -> (r: Config)
        ensures
            r@ == self@,
    {
        Config {
            cron: copied(&self.cron),
            time_zone_value: copied(&self.time_zone_value),
            every: copied(&self.every),
            on_update: self.on_update,
            at_most_every: copied(&self.at_most_every),
            auto_refreshed: self.auto_refreshed,
            is_altered: self.is_altered,
        }
    }

    pub fn mode(&self) -> (r: RefreshMode)
        ensures
            r == mode(self@),
    {
        if self.cron.is_some() {
            RefreshMode::Cron
        } else if self.every.is_some() {
            RefreshMode::Every
        } else if self.on_update {
            RefreshMode::OnUpdate
        } else {
            RefreshMode::Manual
        }
    }

    /// Both refresh at the same times. Intervals have to be validated before.
    pub fn eq(&self, other: &Config) -> (r: bool)
        requires
            comparable(self@, other@),
        ensures
            r == same_schedule(self@, other@),
    {
        if self.mode() != other.mode() {
            return false;
        }
        match self.mode() {
            RefreshMode::Manual => true,
            RefreshMode::Cron => same_option(&self.cron, &other.cron) && same(
                normalize_time_zone(borrowed(&self.time_zone_value)).as_str(),
                normalize_time_zone(borrowed(&other.time_zone_value)).as_str(),
            ),
            RefreshMode::Every => match (&self.every, &other.every) {
                (Some(desired), Some(current)) => match (
                    normalize_every_interval(desired.as_str()),
                    normalize_every_interval(current.as_str()),
                ) {
                    (Ok((m, a)), Ok((n, b))) => m == n && same(a.as_str(), b.as_str()),
                    _ => false,
                },
                _ => false,
            },
            RefreshMode::OnUpdate => match (&self.at_most_every, &other.at_most_every) {
                (None, None) => true,
                (Some(desired), Some(current)) => match (
                    parse_interval_seconds(desired.as_str()),
                    parse_interval_seconds(current.as_str()),
                ) {
                    (Ok(m), Ok(n)) => m == n,
                    _ => same(desired.as_str(), current.as_str()),
                },
                _ => false,
            },
        }
    }
}

pub open spec fn config_option(c: Option<Config>) -> Option<ConfigView> {
    match c {
        Some(cfg) => Some(cfg@),
        None => None,
    }
}

/// What has to change to refresh as desired. Intervals have to be validated before.
pub fn diff(desired_state: &Config, current_state: &Config) -> (r: Option<Config>)
    requires
        comparable(desired_state@, current_state@),
    ensures
        config_option(r) == change(desired_state@, current_state@),
{
    if desired_state.eq(current_state) {
        None
    } else {
        let mut made = desired_state.copy();
        made.is_altered = desired_state.mode() != RefreshMode::Manual && current_state.mode()
            != RefreshMode::Manual;
        Some(made)
    }
}

// ---------------------------------------------------------------------------
// Validation
// ---------------------------------------------------------------------------

pub open spec fn count(b: bool) -> int {
    if b {
        1
    } else {
        0
    }
}

/// Why a configuration is refused, where it is.
pub open spec fn refusal(cfg: ConfigView) -> Option<Seq<char>> {
    if count(cfg.cron is Some) + count(cfg.every is Some) + count(cfg.on_update) > 1 {
        Some("Refresh schedule must specify at most one of cron / every / on_update."@)
    } else if cfg.time_zone_value is Some && cfg.cron is None {
        Some("`time_zone_value` is only valid when `cron` is set."@)
    } else if cfg.every is Some && every_interval(cfg.every->0) is Err {
        Some(every_interval(cfg.every->0)->Err_0)
    } else if cfg.at_most_every is Some {
        let most = cfg.at_most_every->0;
        if !cfg.on_update {
            Some("`at_most_every` is only valid when `on_update` is true."@)
        } else {
            match interval_seconds(most) {
                Err(e) => Some(e),
                Ok(n) => if n < 60 {
                    Some(
                        "`at_most_every` must be at least 60 seconds (1 minute); got "@
                            + debug_text(most) + " ("@ + decimal(n) + "s)."@,
                    )
                } else {
                    None
                },
            }
        }
    } else {
        None
    }
}

pub open spec fn valid(cfg: ConfigView) -> bool {
    refusal(cfg) is None
}

/// Valid configurations can be compared.
pub proof fn valid_configurations_are_comparable(a: ConfigView, b: ConfigView)
    requires
        valid(a),
        valid(b),
    ensures
        comparable(a, b),
{
}

pub fn validate(cfg: &Config) -> (r: Result<(), String>)
    ensures
        match r {
            Ok(_) => valid(cfg@),
            Err(e) => refusal(cfg@) == Some(e@),
        },
{
    let cron = cfg.cron.is_some();
    let every = cfg.every.is_some();
    if (cron && every) || (cron && cfg.on_update) || (every && cfg.on_update) {
        return Err(
            "Refresh schedule must specify at most one of cron / every / on_update.".to_owned(),
        );
    }
    if cfg.time_zone_value.is_some() && cfg.cron.is_none() {
        return Err("`time_zone_value` is only valid when `cron` is set.".to_owned());
    }
    if let Some(every) = &cfg.every {
        if let Err(e) = normalize_every_interval(every.as_str()) {
            return Err(e);
        }
    }
    if let Some(at_most_every) = &cfg.at_most_every {
        if !cfg.on_update {
            return Err("`at_most_every` is only valid when `on_update` is true.".to_owned());
        }
        match parse_interval_seconds(at_most_every.as_str()) {
            Err(e) => {
                return Err(e);
            },
            Ok(seconds) => {
                if seconds < 60 {
                    return Err(
                        "`at_most_every` must be at least 60 seconds (1 minute); got ".to_owned().concat(
                        debug_str(at_most_every.as_str()).as_str()).concat(" (").concat(
                            decimal_of(seconds as i128).as_str(),
                        ).concat("s)."),
                    );
                }
            },
        }
    }
    Ok(())
}

/// What has to change to refresh as desired, between two states that may not be valid.
pub fn checked_diff(desired_state: &Config, current_state: &Config) -> (r: Result<
    Option<Config>,
    String,
>)
    ensures
        match r {
            Ok(made) => valid(desired_state@) && valid(current_state@) && config_option(made)
                == change(desired_state@, current_state@),
            Err(e) => match refusal(desired_state@) {
                Some(refused) => e@ == refused,
                None => refusal(current_state@) == Some(e@),
            },
        },
{
    match (validate(desired_state), validate(current_state)) {
        (Err(e), _) => Err(e),
        (_, Err(e)) => Err(e),
        _ => Ok(diff(desired_state, current_state)),
    }
}

// ---------------------------------------------------------------------------
// The component
// ---------------------------------------------------------------------------

/// Component for Databricks refresh schedule.
#[derive(Debug)]
pub struct Refresh {
    pub kind: &'static str,
    pub value: Config,
}

/// A configuration with the mark of what refreshes by itself.
pub open spec fn marked(cfg: ConfigView) -> ConfigView {
    ConfigView {
        auto_refreshed: mode(cfg) == RefreshMode::Every || mode(cfg) == RefreshMode::OnUpdate,
        ..cfg
    }
}

/// The component holds this configuration, marked.
pub open spec fn holds(component: Refresh, cfg: ConfigView) -> bool {
    component.kind@ == "refresh"@ && component.value@ == marked(cfg)
}

pub fn new_component(cfg: Config) -> (r: Refresh)
    ensures
        holds(r, cfg@),
{
    let auto_refreshed = matches!(cfg.mode(), RefreshMode::Every | RefreshMode::OnUpdate);
    let mut value = cfg;
    value.auto_refreshed = auto_refreshed;
    Refresh { kind: TYPE_NAME, value }
}

pub open spec fn text_or_null(s: Option<Seq<char>>) -> JsonView {
    match s {
        Some(t) => JsonView::Text(t),
        None => JsonView::Null,
    }
}

fn text_json(s: &Option<String>) -> (r: Json)
    ensures
        r@ == text_or_null(opt(*s)),
{
    match s {
        Some(t) => Json::Text(t.clone()),
        None => Json::Null,
    }
}

/// The fields that templates see.
pub open spec fn template_fields(cfg: ConfigView) -> JsonView {
    JsonView::Object(
        nil().push(("cron"@, text_or_null(cfg.cron))).push(
            ("time_zone_value"@, text_or_null(cfg.time_zone_value)),
        ).push(("every"@, text_or_null(cfg.every))).push(
            ("on_update"@, JsonView::Bool(cfg.on_update)),
        ).push(("at_most_every"@, text_or_null(cfg.at_most_every))).push(
            ("auto_refreshed"@, JsonView::Bool(cfg.auto_refreshed)),
        ).push(("is_altered"@, JsonView::Bool(cfg.is_altered))),
    )
}

impl Refresh {
    pub fn to_jinja(&self) -> (r: Json)
        ensures
            r@ == template_fields(self.value@),
    {
        fields().with("cron", text_json(&self.value.cron)).with(
            "time_zone_value",
            text_json(&self.value.time_zone_value),
        ).with("every", text_json(&self.value.every)).with(
            "on_update",
            Json::Bool(self.value.on_update),
        ).with("at_most_every", text_json(&self.value.at_most_every)).with(
            "auto_refreshed",
            Json::Bool(self.value.auto_refreshed),
        ).with("is_altered", Json::Bool(self.value.is_altered)).object()
    }
}

/// The component of a configuration, or why it is refused.
pub open spec fn loaded(cfg: ConfigView) -> Result<ConfigView, Seq<char>> {
    match refusal(cfg) {
        Some(e) => Err(e),
        None => Ok(marked(cfg)),
    }
}

/// A component is what was loaded.
pub open spec fn is_loaded(
    r: Result<Refresh, String>,
    expected: Result<ConfigView, Seq<char>>,
) -> bool {
    match (r, expected) {
        (Ok(component), Ok(cfg)) => component.kind@ == "refresh"@ && component.value@ == cfg,
        (Err(e), Err(message)) => e@ == message,
        _ => false,
    }
}

fn load(cfg: Config) -> (r: Result<Refresh, String>)
    ensures
        is_loaded(r, loaded(cfg@)),
{
    match validate(&cfg) {
        Err(e) => Err(e),
        Ok(_) => Ok(new_component(cfg)),
    }
}

// ---------------------------------------------------------------------------
// The schedule of the warehouse
// ---------------------------------------------------------------------------

/// The configuration that the parts of a schedule's text tell of.
pub open spec fn captured_config(
    value: Seq<char>,
    cron: Option<(Seq<char>, Seq<char>)>,
    every: Option<Seq<char>>,
    trigger: Option<Option<Seq<char>>>,
) -> Result<ConfigView, Seq<char>> {
    if value == "MANUAL"@ {
        Ok(unscheduled())
    } else if cron is Some {
        let (expression, time_zone) = cron->0;
        Ok(
            ConfigView {
                cron: Some(expression),
                time_zone_value: Some(time_zone),
                ..unscheduled()
            },
        )
    } else if every is Some {
        Ok(ConfigView { every: Some(unicode_upper(every->0)), ..unscheduled() })
    } else if trigger is Some {
        Ok(
            ConfigView {
                on_update: true,
                at_most_every: match trigger->0 {
                    Some(seconds) => Some(seconds + " SECOND"@),
                    None => None,
                },
                ..unscheduled()
            },
        )
    } else {
        Err(
            "Could not parse refresh schedule from describe extended: "@ + debug_text(value)
                + ". Please file an issue at https://github.com/dbt-labs/dbt/issues."@,
        )
    }
}

/// The configuration that a schedule's text tells of.
pub open spec fn schedule_config(value: Seq<char>) -> Result<ConfigView, Seq<char>> {
    captured_config(value, cron_schedule(value), every_schedule(value), trigger_schedule(value))
}

fn config_of(value: &str) -> (r: Result<Config, String>)
    ensures
        match r {
            Ok(cfg) => schedule_config(value@) == Ok::<ConfigView, Seq<char>>(cfg@),
            Err(e) => schedule_config(value@) == Err::<ConfigView, Seq<char>>(e@),
        },
{
    let mut cfg = Config::none();
    if same(value, "MANUAL") {
        return Ok(cfg);
    }
    if let Some((cron, time_zone)) = cron_captures(value) {
        proof {
            cron_schedule_is(value@, cron@, time_zone@);
        }
        cfg.cron = Some(cron);
        cfg.time_zone_value = Some(time_zone);
        return Ok(cfg);
    }
    proof {
        assert(cron_schedule(value@) is None) by {
            if exists|c: Seq<char>, z: Seq<char>| longest_cron(value@, c, z) {
                let (c, z) = choose|c: Seq<char>, z: Seq<char>| longest_cron(value@, c, z);
                assert(cron_match(value@, c, z));
            }
        }
    }
    if let Some(every) = every_captures(value) {
        cfg.every = Some(to_uppercase(every.as_str()));
        return Ok(cfg);
    }
    if let Some(seconds) = trigger_captures(value) {
        cfg.on_update = true;
        cfg.at_most_every = match seconds {
            Some(s) => Some(s.concat(" SECOND")),
            None => None,
        };
        return Ok(cfg);
    }
    Err(
        "Could not parse refresh schedule from describe extended: ".to_owned().concat(
            debug_str(value).as_str(),
        ).concat(". Please file an issue at https://github.com/dbt-labs/dbt/issues."),
    )
}

/// A row of `describe extended`: its first two cells, where they hold text.
#[derive(Debug)]
pub struct DescribeRow {
    pub key: Option<String>,
    pub value: Option<String>,
}

pub open spec fn schedule_row(row: DescribeRow) -> bool {
    opt(row.key) == Some("Refresh Schedule"@) && row.value is Some
}

/// The schedule that rows tell of: that of the first row which holds one.
pub open spec fn remote_state(rows: Seq<DescribeRow>) -> Result<ConfigView, Seq<char>>
    decreases rows.len(),
{
    if rows.len() == 0 {
        Err(
            "Could not find Refresh Schedule in describe extended. Please file an issue at https://github.com/dbt-labs/dbt/issues."@,
        )
    } else if schedule_row(rows[0]) {
        match schedule_config(rows[0].value->0@) {
            Ok(cfg) => loaded(cfg),
            Err(e) => Err(e),
        }
    } else {
        remote_state(rows.drop_first())
    }
}

pub fn from_remote_state(describe_extended: Option<&Vec<DescribeRow>>) -> (r: Result<
    Refresh,
    String,
>)
    ensures
        is_loaded(
            r,
            match describe_extended {
                Some(rows) => remote_state(rows@),
                None => Err(
                    "Could not find describe extended results for refresh schedule."@,
                ),
            },
        ),
{
    let rows = match describe_extended {
        Some(rows) => rows,
        None => {
            return Err(
                "Could not find describe extended results for refresh schedule.".to_owned(),
            );
        },
    };
    let mut i: usize = 0;
    assert(rows@.skip(0) =~= rows@);
    while i < rows.len()
        invariant
            i <= rows.len(),
            describe_extended == Some(rows),
            remote_state(rows@) == remote_state(rows@.skip(i as int)),
        decreases rows.len() - i,
    {
        assert(rows@.skip(i as int)[0] == rows@[i as int]);
        assert(rows@.skip(i as int).drop_first() =~= rows@.skip(i + 1));
        if let (Some(key), Some(value)) = (&rows[i].key, &rows[i].value) {
            if same(key.as_str(), "Refresh Schedule") {
                return match config_of(value.as_str()) {
                    Ok(cfg) => load(cfg),
                    Err(e) => Err(e),
                };
            }
        }
        i += 1;
    }
    Err(
        "Could not find Refresh Schedule in describe extended. Please file an issue at https://github.com/dbt-labs/dbt/issues.".to_owned(),
    )
}

// ---------------------------------------------------------------------------
// The schedule of the project
// ---------------------------------------------------------------------------

/// The schedule that a model is configured with.
#[derive(Debug)]
pub struct Schedule {
    pub cron: Option<String>,
    pub time_zone_value: Option<String>,
    pub every: Option<String>,
    pub on_update: Option<bool>,
    pub at_most_every: Option<String>,
}

pub open spec fn local_config(schedule: Option<Schedule>) -> ConfigView {
    match schedule {
        None => unscheduled(),
        Some(s) => ConfigView {
            cron: opt(s.cron),
            time_zone_value: opt(s.time_zone_value),
            every: opt(s.every),
            on_update: s.on_update == Some(true),
            at_most_every: opt(s.at_most_every),
            ..unscheduled()
        },
    }
}

pub fn from_local_config(schedule: &Option<Schedule>) -> (r: Result<Refresh, String>)
    ensures
        is_loaded(r, loaded(local_config(*schedule))),
{
    let mut cfg = Config::none();
    if let Some(s) = schedule {
        cfg.cron = copied(&s.cron);
        cfg.time_zone_value = copied(&s.time_zone_value);
        cfg.every = copied(&s.every);
        cfg.on_update = match s.on_update {
            Some(b) => b,
            None => false,
        };
        cfg.at_most_every = copied(&s.at_most_every);
    }
    load(cfg)
}

/// What is loaded is valid, so that states of the warehouse and of the project can be
/// compared.
pub proof fn loaded_configurations_are_valid(cfg: ConfigView)
    ensures
        loaded(cfg) matches Ok(made) ==> valid(made),
{
}

/// Loads components that were recorded.
#[derive(Debug)]
pub struct RefreshLoader;

pub open spec fn recorded(
    cron: Option<String>,
    time_zone_value: Option<String>,
    every: Option<String>,
    on_update: bool,
    at_most_every: Option<String>,
) -> ConfigView {
    ConfigView {
        cron: opt(cron),
        time_zone_value: opt(time_zone_value),
        every: opt(every),
        on_update,
        at_most_every: opt(at_most_every),
        ..unscheduled()
    }
}

impl RefreshLoader {
    /// The component of a recorded configuration, which has to be valid.
    pub fn new_component_type_erased(
        cron: Option<String>,
        time_zone_value: Option<String>,
        every: Option<String>,
        on_update: bool,
        at_most_every: Option<String>,
    ) -> (r: Refresh)
        requires
            valid(recorded(cron, time_zone_value, every, on_update, at_most_every)),
        ensures
            holds(r, recorded(cron, time_zone_value, every, on_update, at_most_every)),
    {
        let mut cfg = Config::none();
        cfg.cron = cron;
        cfg.time_zone_value = time_zone_value;
        cfg.every = every;
        cfg.on_update = on_update;
        cfg.at_most_every = at_most_every;
        new_component(cfg)
    }

    /// The component of a recorded configuration that may not be valid.
    pub fn checked_component(
        cron: Option<String>,
        time_zone_value: Option<String>,
        every: Option<String>,
        on_update: bool,
        at_most_every: Option<String>,
    ) -> (r: Result<Refresh, String>)
        ensures
            is_loaded(
                r,
                loaded(recorded(cron, time_zone_value, every, on_update, at_most_every)),
            ),
    {
        let mut cfg = Config::none();
        cfg.cron = copied(&cron);
        cfg.time_zone_value = copied(&time_zone_value);
        cfg.every = copied(&every);
        cfg.on_update = on_update;
        cfg.at_most_every = copied(&at_most_every);
        match validate(&cfg) {
            Err(e) => Err(e),
            Ok(_) => Ok(
                RefreshLoader::new_component_type_erased(
                    cron,
                    time_zone_value,
                    every,
                    on_update,
                    at_most_every,
                ),
            ),
        }
    }
}

} // verus!
