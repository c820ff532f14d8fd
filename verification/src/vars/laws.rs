//! What templates see of the environment and of YAML.

use crate::json::opt;
use crate::ordered::{ascending, found, inserted_is_found};
use crate::text::starts_with;
use crate::value::{is_text, Value};
use crate::vars::env_var::{
    access_refusal, is_reserved, is_resolved, is_secret, placeholder, Resolved,
};
use crate::vars::yaml::{
    days_in, is_leap, mapping_view, timestamp_view, value_view, TemplateView, Timestamp, YmlNumber,
    YmlValue,
};
use vstd::prelude::*;

verus! {

// ---------------------------------------------------------------------------
// Variables of the environment
// ---------------------------------------------------------------------------

/// Which variables are secret, and which are dbt's own.
pub proof fn names_that_are_kept_back(var: Seq<char>)
    ensures
        is_secret(var) <==> var.len() >= 14 && var.take(14) == "DBT_ENV_SECRET"@,
        is_reserved(var) <==> var.len() >= 4 && var.take(4) == "_DBT"@,
        placeholder(var) == "$$$DBT_SECRET_START$$$"@ + var + "$$$DBT_SECRET_END$$$"@,
{
    reveal_strlit("DBT_ENV_SECRET");
    reveal_strlit("_DBT");
    assert("DBT_ENV_SECRET"@.len() == 14 && "_DBT"@.len() == 4);
    if var.len() >= 14 {
        assert(var.take(14) =~= var.subrange(0, 14));
    }
    if var.len() >= 4 {
        assert(var.take(4) =~= var.subrange(0, 4));
    }
}

/// A variable has the value of its scope, then of the process, then its default; without
/// any it is an error. What was read is recorded, but a default only as such.
pub proof fn variables_are_looked_up(
    r: Result<Resolved, String>,
    placeholders: bool,
    var: Seq<char>,
    scoped: Option<Value>,
    process: Option<String>,
    default: Option<Value>,
)
    requires
        is_resolved(r, placeholders, var, scoped, process, default),
        !(var.len() >= 4 && var.take(4) == "_DBT"@),
        !(var.len() >= 14 && var.take(14) == "DBT_ENV_SECRET"@),
    ensures
        scoped matches Some(s) ==> (r matches Ok(v) && v.value == s && opt(v.recorded) == Some(
            s.text@,
        )),
        scoped is None ==> (process matches Some(p) ==> (r matches Ok(v) && is_text(v.value, p@)
            && opt(v.recorded) == Some(p@))),
        scoped is None && process is None ==> (default matches Some(d) ==> (r matches Ok(v)
            && v.value == d && opt(v.recorded) == Some("__dbt_placeholder__"@))),
        scoped is None && process is None && default is None ==> (r matches Err(e) && e@
            == "'env_var': environment variable '"@ + var + "' not found"@),
{
    names_that_are_kept_back(var);
}

/// A secret is never seen: where secrets may be named, only its placeholder is.
pub proof fn secrets_are_replaced(
    r: Result<Resolved, String>,
    placeholders: bool,
    var: Seq<char>,
    scoped: Option<Value>,
    process: Option<String>,
    default: Option<Value>,
)
    requires
        is_resolved(r, placeholders, var, scoped, process, default),
        var.len() >= 14,
        var.take(14) == "DBT_ENV_SECRET"@,
    ensures
        !placeholders ==> r is Err,
        placeholders && (scoped is Some || process is Some) ==> (r matches Ok(v) && is_text(
            v.value,
            "$$$DBT_SECRET_START$$$"@ + var + "$$$DBT_SECRET_END$$$"@,
        ) && v.recorded is None),
{
    names_that_are_kept_back(var);
    reveal_strlit("DBT_ENV_SECRET");
    reveal_strlit("_DBT");
    assert(var.take(14)[0] == 'D');
    if var.len() >= 4 && var.take(4) == "_DBT"@ {
        assert(var.take(4)[0] == '_');
        assert(var.take(14)[0] == var[0] && var.take(4)[0] == var[0]);
    }
}

/// Only secrets and dbt's own variables are refused.
pub proof fn other_names_are_not_refused(placeholders: bool, var: Seq<char>)
    ensures
        access_refusal(placeholders, var) is Some <==> (var.len() >= 14 && var.take(14)
            == "DBT_ENV_SECRET"@ && !placeholders) || (var.len() >= 4 && var.take(4) == "_DBT"@),
{
    names_that_are_kept_back(var);
}

// ---------------------------------------------------------------------------
// YAML
// ---------------------------------------------------------------------------

/// The days of a month in the Gregorian calendar.
pub proof fn months_have_their_days(year: int, month: int)
    ensures
        is_leap(year) <==> year % 400 == 0 || (year % 4 == 0 && year % 100 != 0),
        month == 1 || month == 3 || month == 5 || month == 7 || month == 8 || month == 10 || month
            == 12 ==> days_in(year, month) == 31,
        month == 4 || month == 6 || month == 9 || month == 11 ==> days_in(year, month) == 30,
        days_in(year, 2) == (if is_leap(year) {
            29int
        } else {
            28
        }),
        days_in(year + 400, month) == days_in(year, month),
{
}

/// A timestamp keeps its date, its time and its zone in seconds; what is no timestamp of
/// the calendar keeps its text.
pub proof fn timestamps_keep_their_parts(t: Timestamp)
    ensures
        ({
            let (y, m, d) = (t.year as int, t.month as int, t.day as int);
            let dated = -262143 <= y <= 262142 && 1 <= m <= 12 && 1 <= d <= days_in(y, m);
            let timed = t.time matches Some(time) ==> time.hour < 24 && time.minute < 60
                && time.second < 60 && (time.nanosecond < 1_000_000_000 || time.second == 59
                && time.nanosecond < 2_000_000_000);
            let zoned = (t.time is Some && t.tz_minutes is Some) ==> -1440 < t.tz_minutes->0 < 1440;
            &&& !(dated && timed && zoned) ==> timestamp_view(t) == TemplateView::Text(t.text@)
            &&& dated && t.time is None ==> timestamp_view(t) == TemplateView::Date(y, m, d)
            &&& dated && timed && zoned && t.time is Some ==> timestamp_view(t)
                == TemplateView::DateTime(
                y,
                m,
                d,
                t.time->0,
                if t.tz_minutes is Some {
                    Some(t.tz_minutes->0 * 60)
                } else {
                    None
                },
            )
        }),
{
}

/// Plain values are seen as they are, a tag is not seen, and a number is an integer where
/// it is one.
pub proof fn plain_values_are_seen(b: bool, s: String, n: YmlNumber, inner: Box<YmlValue>)
    ensures
        value_view(YmlValue::Null) == TemplateView::Nothing,
        value_view(YmlValue::Boolean(b)) == TemplateView::Boolean(b),
        value_view(YmlValue::Text(s)) == TemplateView::Text(s@),
        value_view(YmlValue::Tagged(inner)) == value_view(*inner),
        n.integer matches Some(i) ==> value_view(YmlValue::Number(n)) == TemplateView::Integer(
            i as int,
        ),
        n.integer is None ==> (n.float matches Some(f) ==> value_view(YmlValue::Number(n))
            == TemplateView::Real(f@)),
        n.integer is None && n.float is None ==> value_view(YmlValue::Number(n))
            == TemplateView::Text(n.text@),
{
}

/// A list is seen item by item.
pub proof fn lists_are_seen(items: Vec<YmlValue>, i: int)
    ensures
        value_view(YmlValue::Sequence(items)) matches TemplateView::Sequence(all) && {
            &&& all.len() == items@.len()
            &&& 0 <= i < items@.len() ==> all[i] == value_view(items@[i])
        },
{
}

proof fn mappings_ascend(entries: Seq<(YmlValue, YmlValue)>)
    ensures
        ascending(mapping_view(entries)),
    decreases entries.len(),
{
    if entries.len() > 0 {
        let init = entries.drop_last();
        mappings_ascend(init);
        if let YmlValue::Text(key) = entries[entries.len() - 1].0 {
            inserted_is_found(
                mapping_view(init),
                key@,
                value_view(entries[entries.len() - 1].1),
                key@,
            );
        }
    }
}

/// A map is seen by its keys that are texts, and the last value for a key counts.
pub proof fn maps_are_seen_by_their_keys(
    entries: Seq<(YmlValue, YmlValue)>,
    key: YmlValue,
    value: YmlValue,
    other: Seq<char>,
)
    ensures
        mapping_view(Seq::empty()).len() == 0,
        !(key is Text) ==> mapping_view(entries.push((key, value))) == mapping_view(entries),
        key matches YmlValue::Text(k) ==> {
            &&& found(mapping_view(entries.push((key, value))), k@) == Some(value_view(value))
            &&& other != k@ ==> found(mapping_view(entries.push((key, value))), other) == found(
                mapping_view(entries),
                other,
            )
        },
{
    assert(entries.push((key, value)).drop_last() =~= entries);
    mappings_ascend(entries);
    if let YmlValue::Text(k) = key {
        inserted_is_found(mapping_view(entries), k@, value_view(value), other);
    }
}

/// What is said of names that are kept back.
pub proof fn kept_back_names_are_told(var: Seq<char>)
    ensures
        starts_with(var, "DBT_ENV_SECRET"@) ==> access_refusal(false, var) == Some(
            "Secret environment variables (starting with DBT_ENV_SECRET) cannot be accessed here"@,
        ),
        starts_with(var, "_DBT"@) ==> access_refusal(true, var) == Some(
            "Environment variables (starting with _DBT) cannot be accessed here"@,
        ),
{
}

} // verus!
