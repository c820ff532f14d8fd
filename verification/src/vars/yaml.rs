//! YAML values as templates see them.

use crate::ordered::{insert, inserted, keyed};
use vstd::prelude::*;

verus! {

// ---------------------------------------------------------------------------
// Timestamps
// ---------------------------------------------------------------------------

/// The time of day of a timestamp.
#[derive(Debug, Clone, Copy, PartialEq, Eq, Structural)]
pub struct TimeOfDay {
    pub hour: u8,
    pub minute: u8,
    pub second: u8,
    pub nanosecond: u32,
}

/// A YAML timestamp, resolved into its parts, with its canonical text.
#[derive(Debug)]
pub struct Timestamp {
    pub year: i32,
    pub month: u8,
    pub day: u8,
    pub time: Option<TimeOfDay>,
    pub tz_minutes: Option<i32>,
    pub text: String,
}

pub open spec fn is_leap(year: int) -> bool {
    year % 4 == 0 && (year % 100 != 0 || year % 400 == 0)
}

pub open spec fn days_in(year: int, month: int) -> int {
    if month == 2 {
        if is_leap(year) {
            29
        } else {
            28
        }
    } else if month == 4 || month == 6 || month == 9 || month == 11 {
        30
    } else {
        31
    }
}

/// The day exists, in the years that can be counted.
pub open spec fn valid_date(year: int, month: int, day: int) -> bool {
    -262143 <= year <= 262142 && 1 <= month <= 12 && 1 <= day <= days_in(year, month)
}

/// The time of day exists. A leap second is counted behind second 59.
pub open spec fn valid_time(t: TimeOfDay) -> bool {
    t.hour < 24 && t.minute < 60 && t.second < 60 && (t.nanosecond < 1_000_000_000 || t.second
        == 59 && t.nanosecond < 2_000_000_000)
}

pub open spec fn valid_offset(seconds: int) -> bool {
    -86_400 < seconds < 86_400
}

/// `chrono::NaiveDate::from_ymd_opt`: a date comes back exactly for the days of the
/// Gregorian calendar in the years -262143 to 262142.
#[verifier::external_body]
fn is_date(year: i32, month: u32, day: u32) -> (r: bool)
    ensures
        r == valid_date(year as int, month as int, day as int),
{
    chrono::NaiveDate::from_ymd_opt(year, month, day).is_some()
}

/// `chrono::NaiveTime::from_hms_nano_opt`: a time comes back exactly for the times of a
/// day, with a leap second as nanoseconds behind second 59.
#[verifier::external_body]
fn is_time(t: TimeOfDay) -> (r: bool)
    ensures
        r == valid_time(t),
{
    chrono::NaiveTime::from_hms_nano_opt(
        t.hour.into(),
        t.minute.into(),
        t.second.into(),
        t.nanosecond,
    ).is_some()
}

/// `chrono::FixedOffset::east_opt`: an offset comes back exactly for less than a day.
#[verifier::external_body]
fn is_offset(seconds: i32) -> (r: bool)
    ensures
        r == valid_offset(seconds as int),
{
    chrono::FixedOffset::east_opt(seconds).is_some()
}

// ---------------------------------------------------------------------------
// Values
// ---------------------------------------------------------------------------

/// A YAML number: the integer, the text of the floating-point number, and the text as it
/// is shown.
#[derive(Debug)]
pub struct YmlNumber {
    pub integer: Option<i64>,
    pub float: Option<String>,
    pub text: String,
}

/// A YAML value.
#[derive(Debug)]
pub enum YmlValue {
    Null,
    Boolean(bool),
    Text(String),
    Number(YmlNumber),
    Sequence(Vec<YmlValue>),
    Mapping(Vec<(YmlValue, YmlValue)>),
    Tagged(Box<YmlValue>),
    Timestamp(Timestamp),
}

/// A value of a template.
#[derive(Debug)]
pub enum TemplateValue {
    Nothing,
    Boolean(bool),
    Text(String),
    Integer(i64),
    /// A floating-point number, by its text.
    Real(String),
    Sequence(Vec<TemplateValue>),
    /// A map, in the order of its keys.
    Mapping(Vec<(String, TemplateValue)>),
    Date(i32, u8, u8),
    /// A date and a time, with the seconds east of UTC where a zone was given.
    DateTime(i32, u8, u8, TimeOfDay, Option<i32>),
}

pub enum TemplateView {
    Nothing,
    Boolean(bool),
    Text(Seq<char>),
    Integer(int),
    Real(Seq<char>),
    Sequence(Seq<TemplateView>),
    Mapping(Seq<(Seq<char>, TemplateView)>),
    Date(int, int, int),
    DateTime(int, int, int, TimeOfDay, Option<int>),
}

impl DeepView for TemplateValue {
    type V = TemplateView;

    open spec fn deep_view(&self) -> TemplateView {
        template_view(*self)
    }
}

pub open spec fn template_view(v: TemplateValue) -> TemplateView
    decreases v,
{
    match v {
        TemplateValue::Nothing => TemplateView::Nothing,
        TemplateValue::Boolean(b) => TemplateView::Boolean(b),
        TemplateValue::Text(s) => TemplateView::Text(s@),
        TemplateValue::Integer(n) => TemplateView::Integer(n as int),
        TemplateValue::Real(s) => TemplateView::Real(s@),
        TemplateValue::Sequence(items) => TemplateView::Sequence(
            Seq::new(
                items@.len(),
                |i: int|
                    if 0 <= i < items@.len() {
                        template_view(items@[i])
                    } else {
                        TemplateView::Nothing
                    },
            ),
        ),
        TemplateValue::Mapping(entries) => {
            let values = Seq::new(
                entries@.len(),
                |i: int|
                    if 0 <= i < entries@.len() {
                        template_view(entries@[i].1)
                    } else {
                        TemplateView::Nothing
                    },
            );
            TemplateView::Mapping(values.map(|i: int, v: TemplateView| (entries@[i].0@, v)))
        },
        TemplateValue::Date(y, m, d) => TemplateView::Date(y as int, m as int, d as int),
        TemplateValue::DateTime(y, m, d, t, offset) => TemplateView::DateTime(
            y as int,
            m as int,
            d as int,
            t,
            match offset {
                Some(s) => Some(s as int),
                None => None,
            },
        ),
    }
}

/// The moment that a time of a day in a zone stands for does not lie before the first day
/// that can be counted, nor behind the last.
pub open spec fn moment_fits(t: Timestamp, time: TimeOfDay, minutes: int) -> bool {
    let seconds = time.hour * 3600 + time.minute * 60 + time.second - minutes * 60;
    &&& seconds < 0 ==> !(t.year == -262143 && t.month == 1 && t.day == 1)
    &&& seconds >= 86_400 ==> !(t.year == 262142 && t.month == 12 && t.day == 31)
}

/// The seconds of a zone can be counted, and so can the moment in it.
pub open spec fn zone_fits(t: Timestamp) -> bool {
    t.tz_minutes matches Some(m) ==> {
        &&& i32::MIN <= m * 60 <= i32::MAX
        &&& t.time matches Some(time) ==> (valid_date(
            t.year as int,
            t.month as int,
            t.day as int,
        ) && valid_time(time) && valid_offset(m * 60) ==> moment_fits(t, time, m as int))
    }
}

/// A timestamp as templates see it: a date, a date and time with the zone where one was
/// given, and its text where a part is out of range.
pub open spec fn timestamp_view(t: Timestamp) -> TemplateView {
    let (y, m, d) = (t.year as int, t.month as int, t.day as int);
    if !valid_date(y, m, d) {
        TemplateView::Text(t.text@)
    } else {
        match t.time {
            None => TemplateView::Date(y, m, d),
            Some(time) => if !valid_time(time) {
                TemplateView::Text(t.text@)
            } else {
                match t.tz_minutes {
                    None => TemplateView::DateTime(y, m, d, time, None),
                    Some(minutes) => if valid_offset(minutes * 60) {
                        TemplateView::DateTime(y, m, d, time, Some(minutes * 60))
                    } else {
                        TemplateView::Text(t.text@)
                    },
                }
            },
        }
    }
}

/// A YAML timestamp as a date or a date and time.
pub fn yml_timestamp_to_minijinja(timestamp: &Timestamp) -> (r: TemplateValue)
    requires
        zone_fits(*timestamp),
    ensures
        r.deep_view() == timestamp_view(*timestamp),
{
    if !is_date(timestamp.year, timestamp.month as u32, timestamp.day as u32) {
        return TemplateValue::Text(timestamp.text.clone());
    }
    let time = match timestamp.time {
        Some(t) => t,
        None => {
            return TemplateValue::Date(timestamp.year, timestamp.month, timestamp.day);
        },
    };
    if !is_time(time) {
        return TemplateValue::Text(timestamp.text.clone());
    }
    match timestamp.tz_minutes {
        None => TemplateValue::DateTime(
            timestamp.year,
            timestamp.month,
            timestamp.day,
            time,
            None,
        ),
        Some(minutes) => {
            let seconds: i32 = minutes * 60;
            if is_offset(seconds) {
                TemplateValue::DateTime(
                    timestamp.year,
                    timestamp.month,
                    timestamp.day,
                    time,
                    Some(seconds),
                )
            } else {
                TemplateValue::Text(timestamp.text.clone())
            }
        },
    }
}

/// Every zone in a value can be counted, and every moment in one.
pub open spec fn zones_fit(value: YmlValue) -> bool
    decreases value,
{
    match value {
        YmlValue::Timestamp(t) => zone_fits(t),
        YmlValue::Tagged(inner) => zones_fit(*inner),
        YmlValue::Sequence(items) => forall|i: int|
            0 <= i < items@.len() ==> zones_fit(#[trigger] items@[i]),
        YmlValue::Mapping(entries) => forall|i: int|
            0 <= i < entries@.len() ==> zones_fit((#[trigger] entries@[i]).1),
        _ => true,
    }
}

/// A value as templates see it.
pub open spec fn value_view(value: YmlValue) -> TemplateView
    decreases value,
{
    match value {
        YmlValue::Null => TemplateView::Nothing,
        YmlValue::Boolean(b) => TemplateView::Boolean(b),
        YmlValue::Text(s) => TemplateView::Text(s@),
        YmlValue::Number(n) => match n.integer {
            Some(i) => TemplateView::Integer(i as int),
            None => match n.float {
                Some(f) => TemplateView::Real(f@),
                None => TemplateView::Text(n.text@),
            },
        },
        YmlValue::Sequence(items) => TemplateView::Sequence(
            Seq::new(
                items@.len(),
                |i: int|
                    if 0 <= i < items@.len() {
                        value_view(items@[i])
                    } else {
                        TemplateView::Nothing
                    },
            ),
        ),
        YmlValue::Mapping(entries) => {
            proof {
                assert(decreases_to!(value => value->Mapping_0));
                assert(decreases_to!(value->Mapping_0 => value->Mapping_0@));
            }
            TemplateView::Mapping(mapping_view(entries@))
        },
        YmlValue::Tagged(inner) => value_view(*inner),
        YmlValue::Timestamp(t) => timestamp_view(t),
    }
}

/// The entries that have text for a key, in the order of their keys; the last of equal keys
/// stays.
pub open spec fn mapping_view(entries: Seq<(YmlValue, YmlValue)>) -> Seq<
    (Seq<char>, TemplateView),
>
    decreases entries,
{
    if entries.len() == 0 {
        Seq::empty()
    } else {
        proof {
            assert(decreases_to!(entries => entries[entries.len() - 1]));
            assert(decreases_to!(entries[entries.len() - 1] => entries[entries.len() - 1].1));
            assert(entries.drop_last() == entries.subrange(0, entries.len() - 1));
            assert(decreases_to!(entries => entries.subrange(0, entries.len() - 1)));
        }
        let rest = mapping_view(entries.drop_last());
        match entries[entries.len() - 1].0 {
            YmlValue::Text(key) => inserted(
                rest,
                key@,
                value_view(entries[entries.len() - 1].1),
            ),
            _ => rest,
        }
    }
}

/// A YAML value as templates see it. Timestamps stay dates and times.
pub fn yml_value_to_minijinja(value: &YmlValue) -> (r: TemplateValue)
    requires
        zones_fit(*value),
    ensures
        r.deep_view() == value_view(*value),
    decreases value,
{
    match value {
        YmlValue::Null => TemplateValue::Nothing,
        YmlValue::Boolean(b) => TemplateValue::Boolean(*b),
        YmlValue::Text(s) => TemplateValue::Text(s.clone()),
        YmlValue::Number(n) => match n.integer {
            Some(i) => TemplateValue::Integer(i),
            None => match &n.float {
                Some(f) => TemplateValue::Real(f.clone()),
                None => TemplateValue::Text(n.text.clone()),
            },
        },
        YmlValue::Sequence(items) => {
            let mut converted: Vec<TemplateValue> = Vec::new();
            let mut i: usize = 0;
            while i < items.len()
                invariant
                    i <= items.len(),
                    *value == YmlValue::Sequence(*items),
                    zones_fit(*value),
                    converted.len() == i,
                    forall|k: int|
                        0 <= k < i ==> template_view(#[trigger] converted@[k]) == value_view(
                            items@[k],
                        ),
                decreases items.len() - i,
            {
                proof {
                    assert(decreases_to!(*value => value->Sequence_0));
                    assert(decreases_to!(value->Sequence_0 => value->Sequence_0@));
                    assert(decreases_to!(value->Sequence_0@ => value->Sequence_0@[i as int]));
                    assert(zones_fit(items@[i as int]));
                }
                let item = yml_value_to_minijinja(&items[i]);
                converted.push(item);
                i += 1;
            }
            let r = TemplateValue::Sequence(converted);
            proof {
                assert(template_view(r)->Sequence_0 =~= value_view(*value)->Sequence_0);
            }
            r
        },
        YmlValue::Mapping(entries) => {
            let ghost all = entries@;
            let mut converted: Vec<(String, TemplateValue)> = Vec::new();
            let mut i: usize = 0;
            assert(keyed(converted@) =~= mapping_view(all.take(0)));
            while i < entries.len()
                invariant
                    i <= entries.len(),
                    *value == YmlValue::Mapping(*entries),
                    zones_fit(*value),
                    all == entries@,
                    keyed(converted@) == mapping_view(all.take(i as int)),
                decreases entries.len() - i,
            {
                proof {
                    assert(decreases_to!(*value => value->Mapping_0));
                    assert(decreases_to!(value->Mapping_0 => value->Mapping_0@));
                    assert(decreases_to!(value->Mapping_0@ => value->Mapping_0@[i as int]));
                    assert(decreases_to!(value->Mapping_0@[i as int] => value->Mapping_0@[i as int].1));
                    assert(zones_fit(entries@[i as int].1));
                    assert(all.take(i + 1).drop_last() =~= all.take(i as int));
                    assert(all.take(i + 1)[i as int] == all[i as int]);
                }
                if let YmlValue::Text(key) = &entries[i].0 {
                    let item = yml_value_to_minijinja(&entries[i].1);
                    insert(&mut converted, key.clone(), item);
                }
                i += 1;
            }
            let r = TemplateValue::Mapping(converted);
            proof {
                assert(all.take(i as int) =~= all);
                assert(template_view(r)->Mapping_0 =~= keyed(converted@));
            }
            r
        },
        YmlValue::Tagged(inner) => {
            proof {
                assert(decreases_to!(*value => value->Tagged_0));
            }
            yml_value_to_minijinja(inner)
        },
        YmlValue::Timestamp(t) => yml_timestamp_to_minijinja(t),
    }
}

} // verus!
