//! What holds of refresh schedules, whatever they are.

use crate::databricks::refresh::{
    canonical_unit, captured_config, change, every_interval, holds, interval_parts,
    interval_seconds, loaded, local_config, marked, mode, parts_of, refusal, remote_state,
    schedule_config, template_fields, unscheduled, valid, zone, ConfigView, DescribeRow, Refresh,
    Schedule,
};
use crate::databricks::schedule_text::{
    cron_match, cron_schedule, cron_schedule_is, digits_before, folds, folds_text, longest_cron,
    one_line, pattern_digit, pattern_digits, pattern_letters, trigger_schedule, word_len,
};
use crate::json::{lookup, opt, place_is_unique, JsonView};
use crate::number::{all_digits, decimal, decimal_reads_back, digits_value, natural};
use crate::text::{
    ascii_lower, debug_text, is_digit, is_space, trim_start, trimmed_stays, unicode_upper,
};
use vstd::prelude::*;

verus! {

// ---------------------------------------------------------------------------
// What is changed
// ---------------------------------------------------------------------------

/// The zone that a schedule runs in where none is given.
pub open spec fn given_zone(time_zone: Option<Seq<char>>) -> Seq<char> {
    match time_zone {
        Some(z) => z,
        None => "UTC"@,
    }
}

/// One of the two names of coordinated universal time, whatever the case of its letters.
pub open spec fn names_utc(z: Seq<char>) -> bool {
    ascii_lower(z) == ascii_lower("utc"@) || ascii_lower(z) == ascii_lower("etc/utc"@)
}

/// The configuration has a schedule.
pub open spec fn has_schedule(cfg: ConfigView) -> bool {
    cfg.cron is Some || cfg.every is Some || cfg.on_update
}

proof fn utc_has_two_names(z: Seq<char>)
    ensures
        names_utc(z) ==> zone(Some(z)) == "UTC"@,
        !names_utc(z) ==> zone(Some(z)) == unicode_upper(z),
        zone(None) == "UTC"@,
{
    reveal_strlit("UTC");
    reveal_strlit("ETC/UTC");
    reveal_strlit("utc");
    reveal_strlit("etc/utc");
    assert(ascii_lower("UTC"@) =~= ascii_lower("utc"@));
    assert(ascii_lower("ETC/UTC"@) =~= ascii_lower("etc/utc"@));
}

/// Nothing is changed only where the schedule stays: the cron expression and its zone, or
/// the quantity and the unit of the interval, or how often updates refresh at most.
pub proof fn what_is_left_runs_as_desired(desired: ConfigView, current: ConfigView)
    requires
        change(desired, current) is None,
    ensures
        desired.cron == current.cron,
        desired.cron is Some ==> ({
            let a = given_zone(desired.time_zone_value);
            let b = given_zone(current.time_zone_value);
            ||| names_utc(a) && names_utc(b)
            ||| !names_utc(a) && !names_utc(b) && unicode_upper(a) == unicode_upper(b)
            ||| names_utc(a) && unicode_upper(b) == "UTC"@
            ||| names_utc(b) && unicode_upper(a) == "UTC"@
        }),
        desired.cron is None ==> (desired.every is Some <==> current.every is Some),
        desired.cron is None && desired.every is Some && every_interval(desired.every->0) is Ok
            ==> interval_parts(desired.every->0) is Ok && interval_parts(current.every->0)
            == interval_parts(desired.every->0),
        desired.cron is None && desired.every is None ==> desired.on_update == current.on_update,
        desired.cron is None && desired.every is None && desired.on_update ==> (
        desired.at_most_every is Some <==> current.at_most_every is Some),
        desired.cron is None && desired.every is None && desired.on_update
            && desired.at_most_every is Some ==> ({
            let a = desired.at_most_every->0;
            let b = current.at_most_every->0;
            a == b || (interval_seconds(a) is Ok && interval_seconds(a) == interval_seconds(b))
        }),
{
    utc_has_two_names(given_zone(desired.time_zone_value));
    utc_has_two_names(given_zone(current.time_zone_value));
    reveal_strlit("utc");
    reveal_strlit("UTC");
    assert(ascii_lower("UTC"@) =~= ascii_lower("utc"@));
}

/// Where the schedule stays nothing is changed, whatever else the two states say.
pub proof fn the_same_schedule_is_left(desired: ConfigView, current: ConfigView)
    ensures
        desired.cron is Some && desired.cron == current.cron && (desired.time_zone_value
            == current.time_zone_value || (names_utc(given_zone(desired.time_zone_value))
            && names_utc(given_zone(current.time_zone_value)))) ==> change(desired, current) is None,
        desired.cron is None && current.cron is None && desired.every is Some && current.every
            is Some && every_interval(desired.every->0) == every_interval(current.every->0)
            ==> change(desired, current) is None,
        desired.cron is None && current.cron is None && desired.every is None && current.every
            is None && desired.on_update && current.on_update && desired.at_most_every
            == current.at_most_every ==> change(desired, current) is None,
        desired.cron is None && current.cron is None && desired.every is None && current.every
            is None && desired.on_update && current.on_update && desired.at_most_every is Some
            && current.at_most_every is Some && interval_seconds(desired.at_most_every->0) is Ok
            && interval_seconds(desired.at_most_every->0) == interval_seconds(
            current.at_most_every->0,
        ) ==> change(desired, current) is None,
        !has_schedule(desired) && !has_schedule(current) ==> change(desired, current) is None,
{
    utc_has_two_names(given_zone(desired.time_zone_value));
    utc_has_two_names(given_zone(current.time_zone_value));
    reveal_strlit("utc");
    reveal_strlit("UTC");
    assert(ascii_lower("UTC"@) =~= ascii_lower("utc"@));
}

/// A change holds what is desired, field for field. It alters a schedule exactly where there
/// was one and there is one.
pub proof fn a_change_holds_what_is_desired(desired: ConfigView, current: ConfigView)
    ensures
        change(desired, current) matches Some(made) ==> {
            &&& made.cron == desired.cron
            &&& made.time_zone_value == desired.time_zone_value
            &&& made.every == desired.every
            &&& made.on_update == desired.on_update
            &&& made.at_most_every == desired.at_most_every
            &&& made.auto_refreshed == desired.auto_refreshed
            &&& made.is_altered <==> has_schedule(desired) && has_schedule(current)
        },
{
}

// ---------------------------------------------------------------------------
// Intervals
// ---------------------------------------------------------------------------

proof fn lowered_singular(unit: Seq<char>, word: Seq<char>)
    requires
        ascii_lower(unit) == word,
        word.len() > 0,
    ensures
        unit.len() == word.len(),
        word.last() == 's' <==> (unit.last() == 's' || unit.last() == 'S'),
        ascii_lower(unit.drop_last()) == word.drop_last(),
{
    assert(ascii_lower(unit).len() == unit.len());
    assert(ascii_lower(unit).last() == word.last());
    assert(ascii_lower(unit.drop_last()) =~= word.drop_last());
}

/// A unit is read in the singular and in the plural, whatever the case of its letters.
pub proof fn units_are_read_alike(unit: Seq<char>)
    ensures
        ascii_lower(unit) == "second"@ || ascii_lower(unit) == "seconds"@ ==> canonical_unit(unit)
            == "SECOND"@,
        ascii_lower(unit) == "minute"@ || ascii_lower(unit) == "minutes"@ ==> canonical_unit(unit)
            == "MINUTE"@,
        ascii_lower(unit) == "hour"@ || ascii_lower(unit) == "hours"@ ==> canonical_unit(unit)
            == "HOUR"@,
        ascii_lower(unit) == "day"@ || ascii_lower(unit) == "days"@ ==> canonical_unit(unit)
            == "DAY"@,
        ascii_lower(unit) == "week"@ || ascii_lower(unit) == "weeks"@ ==> canonical_unit(unit)
            == "WEEK"@,
{
    reveal_strlit("second");
    reveal_strlit("seconds");
    reveal_strlit("minute");
    reveal_strlit("minutes");
    reveal_strlit("hour");
    reveal_strlit("hours");
    reveal_strlit("day");
    reveal_strlit("days");
    reveal_strlit("week");
    reveal_strlit("weeks");
    reveal_strlit("SECOND");
    reveal_strlit("MINUTE");
    reveal_strlit("HOUR");
    reveal_strlit("DAY");
    reveal_strlit("WEEK");
    assert(ascii_lower("SECOND"@) =~= "second"@);
    assert(ascii_lower("MINUTE"@) =~= "minute"@);
    assert(ascii_lower("HOUR"@) =~= "hour"@);
    assert(ascii_lower("DAY"@) =~= "day"@);
    assert(ascii_lower("WEEK"@) =~= "week"@);
    assert("seconds"@.drop_last() =~= "second"@);
    assert("minutes"@.drop_last() =~= "minute"@);
    assert("hours"@.drop_last() =~= "hour"@);
    assert("days"@.drop_last() =~= "day"@);
    assert("weeks"@.drop_last() =~= "week"@);
    if ascii_lower(unit).len() > 0 {
        lowered_singular(unit, ascii_lower(unit));
    }
    assert("second"@.last() == 'd' && "minute"@.last() == 'e' && "hour"@.last() == 'r'
        && "day"@.last() == 'y' && "week"@.last() == 'k');
    assert("second"@.len() == 6 && "minute"@.len() == 6 && "hour"@.len() == 4 && "day"@.len() == 3
        && "week"@.len() == 4);
    assert("second"@[0] == 's' && "minute"@[0] == 'm' && "hour"@[0] == 'h' && "day"@[0] == 'd'
        && "week"@[0] == 'w');
}

/// The text is ASCII letters.
pub open spec fn letters(s: Seq<char>) -> bool {
    s.len() > 0 && forall|i: int|
        0 <= i < s.len() ==> ('a' <= #[trigger] s[i] && s[i] <= 'z') || ('A' <= s[i] && s[i] <= 'Z')
}

proof fn word_ends_at_the_space(word: Seq<char>, rest: Seq<char>)
    requires
        forall|i: int| 0 <= i < word.len() ==> !is_space(#[trigger] word[i]),
        rest.len() > 0,
        is_space(rest[0]),
    ensures
        word_len(word + rest) == word.len(),
    decreases word.len(),
{
    let all = word + rest;
    if word.len() == 0 {
        assert(all[0] == rest[0]);
    } else {
        assert(all[0] == word[0]);
        assert(all.drop_first() =~= word.drop_first() + rest);
        assert forall|i: int| 0 <= i < word.drop_first().len() implies !is_space(
            #[trigger] word.drop_first()[i],
        ) by {
            assert(word.drop_first()[i] == word[i + 1]);
        }
        word_ends_at_the_space(word.drop_first(), rest);
    }
}

/// An interval is read as it is written: a number, a space and a unit.
pub proof fn an_interval_is_read_as_written(number: Seq<char>, unit: Seq<char>)
    requires
        number.len() > 0,
        all_digits(number),
        digits_value(number) <= u64::MAX,
        letters(unit),
    ensures
        interval_parts(number + seq![' '] + unit) == Ok::<(int, Seq<char>), Seq<char>>(
            (digits_value(number) as int, canonical_unit(unit)),
        ),
{
    let value = number + seq![' '] + unit;
    let rest = seq![' '] + unit;
    assert(value =~= number + rest);
    assert forall|i: int| 0 <= i < number.len() implies !is_space(#[trigger] number[i]) by {
        assert(is_digit(number[i]));
    }
    assert(value[0] == number[0] && value.last() == unit.last());
    assert(is_digit(number[0]));
    assert(unit[unit.len() - 1] == unit.last());
    trimmed_stays(value);
    word_ends_at_the_space(number, rest);
    assert(value.take(number.len() as int) =~= number);
    assert(value.skip(number.len() as int) =~= rest);
    assert(rest.drop_first() =~= unit);
    assert(is_space(' '));
    assert(!is_space(unit[0]));
    assert(trim_start(rest) == unit) by {
        reveal_with_fuel(trim_start, 2);
    }
    assert forall|i: int| 0 <= i < number.len() implies pattern_digit(
        #[trigger] number[i],
    ) by {
        assert(is_digit(number[i]));
    }
    assert(pattern_digits(number));
    assert(pattern_letters(unit));
    assert(number[0] != '+');
    assert(natural(number) == Some(digits_value(number)));
}

/// Intervals are as long as their units say: a minute is 60 seconds, an hour 60 minutes, a
/// day 24 hours and a week 7 days. A relation is refreshed every so many hours, days or
/// weeks, and at no other intervals.
pub proof fn intervals_are_as_long_as_they_say(value: Seq<char>, n: int)
    ensures
        interval_parts(value) == Ok::<(int, Seq<char>), Seq<char>>((n, "SECOND"@)) ==> (
        interval_seconds(value) matches Ok(s) ==> s == n) && every_interval(value) is Err,
        interval_parts(value) == Ok::<(int, Seq<char>), Seq<char>>((n, "MINUTE"@)) ==> (
        interval_seconds(value) matches Ok(s) ==> s == 60 * n) && every_interval(value) is Err,
        interval_parts(value) == Ok::<(int, Seq<char>), Seq<char>>((n, "HOUR"@)) ==> (
        interval_seconds(value) matches Ok(s) ==> s == 60 * (60 * n)) && every_interval(value)
            == Ok::<(int, Seq<char>), Seq<char>>((n, "HOUR"@)),
        interval_parts(value) == Ok::<(int, Seq<char>), Seq<char>>((n, "DAY"@)) ==> (
        interval_seconds(value) matches Ok(s) ==> s == 24 * (3600 * n)) && every_interval(value)
            == Ok::<(int, Seq<char>), Seq<char>>((n, "DAY"@)),
        interval_parts(value) == Ok::<(int, Seq<char>), Seq<char>>((n, "WEEK"@)) ==> (
        interval_seconds(value) matches Ok(s) ==> s == 7 * (86400 * n)) && every_interval(value)
            == Ok::<(int, Seq<char>), Seq<char>>((n, "WEEK"@)),
        interval_parts(value) matches Ok((m, unit)) && (unit == "SECOND"@ || unit == "MINUTE"@
            || unit == "HOUR"@ || unit == "DAY"@ || unit == "WEEK"@) && 604800 * m <= u64::MAX
            && m >= 0 ==> interval_seconds(value) is Ok,
        interval_seconds(value) matches Ok(s) ==> s <= u64::MAX,
        every_interval(value) matches Ok((_, unit)) ==> unit == "HOUR"@ || unit == "DAY"@ || unit
            == "WEEK"@,
{
    reveal_strlit("SECOND");
    reveal_strlit("MINUTE");
    reveal_strlit("HOUR");
    reveal_strlit("DAY");
    reveal_strlit("WEEK");
    assert("SECOND"@.len() == 6 && "MINUTE"@.len() == 6 && "HOUR"@.len() == 4 && "DAY"@.len() == 3
        && "WEEK"@.len() == 4);
    assert("SECOND"@[0] == 'S' && "MINUTE"@[0] == 'M' && "HOUR"@[0] == 'H' && "WEEK"@[0] == 'W');
    if let Ok((m, unit)) = interval_parts(value) {
        assert(m >= 0 ==> m * 1 <= 604800 * m && m * 60 <= 604800 * m && m * 3600 <= 604800 * m
            && m * 86400 <= 604800 * m);
    }
}

// ---------------------------------------------------------------------------
// What is valid
// ---------------------------------------------------------------------------

/// A configuration is valid exactly where it has at most one schedule, a zone only beside a
/// cron expression, an interval of hours, days or weeks, and a limit of a minute or more
/// only beside updates.
pub proof fn a_valid_configuration_has_one_schedule(cfg: ConfigView)
    ensures
        valid(cfg) <==> {
            &&& !(cfg.cron is Some && cfg.every is Some)
            &&& !(cfg.cron is Some && cfg.on_update)
            &&& !(cfg.every is Some && cfg.on_update)
            &&& cfg.time_zone_value is Some ==> cfg.cron is Some
            &&& cfg.every matches Some(every) ==> every_interval(every) is Ok
            &&& cfg.at_most_every matches Some(most) ==> cfg.on_update && (interval_seconds(most)
                matches Ok(s) && s >= 60)
        },
{
}

/// What is loaded is as it was configured; only what runs at intervals or on updates is
/// marked as refreshing by itself.
pub proof fn loading_keeps_the_schedule(cfg: ConfigView)
    ensures
        loaded(cfg) is Ok <==> valid(cfg),
        loaded(cfg) matches Ok(made) ==> {
            &&& made.cron == cfg.cron
            &&& made.time_zone_value == cfg.time_zone_value
            &&& made.every == cfg.every
            &&& made.on_update == cfg.on_update
            &&& made.at_most_every == cfg.at_most_every
            &&& made.is_altered == cfg.is_altered
            &&& made.auto_refreshed <==> cfg.cron is None && (cfg.every is Some || cfg.on_update)
        },
        marked(marked(cfg)) == marked(cfg),
{
}

/// The schedule of a model is the one that it was configured with.
pub proof fn a_model_keeps_its_schedule(schedule: Schedule)
    ensures
        local_config(Some(schedule)).cron == opt(schedule.cron),
        local_config(Some(schedule)).time_zone_value == opt(schedule.time_zone_value),
        local_config(Some(schedule)).every == opt(schedule.every),
        local_config(Some(schedule)).on_update <==> schedule.on_update == Some(true),
        local_config(Some(schedule)).at_most_every == opt(schedule.at_most_every),
        !local_config(Some(schedule)).is_altered,
        !has_schedule(local_config(None)),
        local_config(None).time_zone_value is None,
        local_config(None).at_most_every is None,
{
}

// ---------------------------------------------------------------------------
// What the warehouse tells
// ---------------------------------------------------------------------------

/// A text without quotes and line ends.
pub open spec fn unquoted(s: Seq<char>) -> bool {
    forall|i: int| 0 <= i < s.len() ==> #[trigger] s[i] != '\'' && s[i] != '\n'
}

/// A cron schedule of the warehouse is read as its expression and its zone.
pub proof fn a_cron_schedule_is_read(cron: Seq<char>, time_zone: Seq<char>)
    requires
        unquoted(cron),
        unquoted(time_zone),
    ensures
        schedule_config("CRON '"@ + cron + "' AT TIME ZONE '"@ + time_zone + "'"@) matches Ok(cfg)
            && cfg.cron == Some(cron) && cfg.time_zone_value == Some(time_zone) && cfg.every is None
            && !cfg.on_update && cfg.at_most_every is None,
{
    let value = "CRON '"@ + cron + "' AT TIME ZONE '"@ + time_zone + "'"@;
    reveal_strlit("CRON '");
    reveal_strlit("' AT TIME ZONE '");
    reveal_strlit("'");
    reveal_strlit("MANUAL");
    let a: int = "CRON '"@.len() as int;
    let b: int = "' AT TIME ZONE '"@.len() as int;
    assert(a == 6 && b == 16 && "'"@.len() == 1);
    assert(value[0] == "CRON '"@[0]);
    assert("MANUAL"@[0] == 'M');
    assert(one_line(cron));
    assert(one_line(time_zone));
    assert(cron_match(value, cron, time_zone));
    assert forall|c: Seq<char>, z: Seq<char>| #[trigger] cron_match(value, c, z) implies c.len()
        <= cron.len() by {
        let other = "CRON '"@ + c + "' AT TIME ZONE '"@ + z + "'"@;
        assert(value == other);
        if c.len() > cron.len() {
            // the quote behind the longer expression stands where the zone or its end does
            let k = a + c.len();
            assert(other[k] == "' AT TIME ZONE '"@[0]);
            assert(other[k + 15] == "' AT TIME ZONE '"@[15]);
            assert(value.len() == other.len());
            assert(value.len() == a + cron.len() + b + time_zone.len() + 1);
            let start = a + cron.len();
            assert(value[start] == "' AT TIME ZONE '"@[0]);
            if k + 15 < start + b {
                assert(value[k + 15] == "' AT TIME ZONE '"@[k + 15 - start]);
                assert(value[k] == "' AT TIME ZONE '"@[k - start]);
                assert(false);
            } else if k + 15 < start + b + time_zone.len() {
                assert(value[k + 15] == time_zone[k + 15 - start - b]);
            }
            if start + b <= k && k < start + b + time_zone.len() {
                assert(value[k] == time_zone[k - start - b]);
            } else if k < start + b {
                assert(value[k] == "' AT TIME ZONE '"@[k - start]);
            }
        }
    }
    assert(longest_cron(value, cron, time_zone));
    cron_schedule_is(value, cron, time_zone);
}

proof fn no_cron_schedule(value: Seq<char>)
    requires
        value.len() > 0,
        value[0] != 'C',
    ensures
        cron_schedule(value) is None,
{
    reveal_strlit("CRON '");
    if exists|c: Seq<char>, z: Seq<char>| longest_cron(value, c, z) {
        let (c, z) = choose|c: Seq<char>, z: Seq<char>| longest_cron(value, c, z);
        assert(cron_match(value, c, z));
        assert(("CRON '"@ + c + "' AT TIME ZONE '"@ + z + "'"@)[0] == "CRON '"@[0]);
    }
}

/// The unit stands in the text of a schedule that runs at intervals.
pub open spec fn interval_unit(unit: Seq<char>) -> bool {
    unit == " HOUR"@ || unit == " HOURS"@ || unit == " DAY"@ || unit == " DAYS"@ || unit
        == " WEEK"@ || unit == " WEEKS"@
}

/// A schedule of the warehouse that runs at intervals is read as its interval.
pub proof fn an_interval_schedule_is_read(number: Seq<char>, unit: Seq<char>)
    requires
        number.len() > 0,
        all_digits(number),
        interval_unit(unit),
    ensures
        schedule_config("EVERY "@ + number + unit) matches Ok(cfg) && cfg.every == Some(
            unicode_upper(number + unit),
        ) && cfg.cron is None && cfg.time_zone_value is None && !cfg.on_update && cfg.at_most_every
            is None,
{
    let value = "EVERY "@ + number + unit;
    reveal_strlit("EVERY ");
    reveal_strlit("MANUAL");
    assert(value[0] == "EVERY "@[0]);
    assert("MANUAL"@[0] == 'M');
    assert("EVERY "@.len() == 6);
    no_cron_schedule(value);
    let rest = number + unit;
    assert(value.take(6) =~= "EVERY "@);
    assert(value.skip(6) =~= rest);
    assert(folds_text("EVERY "@, "EVERY "@));
    assert(rest.take(rest.len() - unit.len()) =~= number);
    assert(rest.skip(rest.len() - unit.len()) =~= unit);
    assert(folds_text(unit, unit));
    assert forall|i: int| 0 <= i < number.len() implies pattern_digit(#[trigger] number[i]) by {
        assert(is_digit(number[i]));
    }
    assert(digits_before(rest, unit));
}

/// A schedule of the warehouse that runs on updates is read with its limit in seconds.
pub proof fn an_update_schedule_is_read(number: Seq<char>)
    requires
        number.len() > 0,
        all_digits(number),
    ensures
        schedule_config(
            "TRIGGER ON UPDATE AT MOST EVERY INTERVAL "@ + number + " SECONDS"@,
        ) matches Ok(cfg) && cfg.on_update && cfg.at_most_every == Some(number + " SECOND"@)
            && cfg.cron is None && cfg.every is None && cfg.time_zone_value is None,
{
    let most = "TRIGGER ON UPDATE AT MOST EVERY INTERVAL "@;
    let value = most + number + " SECONDS"@;
    reveal_strlit("TRIGGER ON UPDATE AT MOST EVERY INTERVAL ");
    reveal_strlit("TRIGGER ON UPDATE");
    reveal_strlit("EVERY ");
    reveal_strlit("MANUAL");
    reveal_strlit(" SECONDS");
    assert(most.len() == 41 && "TRIGGER ON UPDATE"@.len() == 17 && " SECONDS"@.len() == 8);
    assert(value[0] == most[0] && most[0] == 'T');
    assert("MANUAL"@[0] == 'M' && "EVERY "@[0] == 'E');
    no_cron_schedule(value);
    let rest = number + " SECONDS"@;
    assert(value.take(6)[0] == 'T');
    assert(!folds_text(value.take(6), "EVERY "@)) by {
        assert("EVERY "@.len() == 6);
        assert(!folds(value.take(6)[0], "EVERY "@[0]));
    }
    assert(value.take(41) =~= most);
    assert(value.skip(41) =~= rest);
    assert(folds_text(most, most));
    assert(rest.take(rest.len() - 8) =~= number);
    assert(rest.skip(rest.len() - 8) =~= " SECONDS"@);
    assert(folds_text(" SECONDS"@, " SECONDS"@));
    assert forall|i: int| 0 <= i < number.len() implies pattern_digit(#[trigger] number[i]) by {
        assert(is_digit(number[i]));
    }
    assert(digits_before(rest, " SECONDS"@));
}

/// The fields that templates see are those of the configuration.
pub proof fn templates_see_every_field(cfg: ConfigView)
    ensures
        lookup(template_fields(cfg), "is_altered"@) == Some(JsonView::Bool(cfg.is_altered)),
        lookup(template_fields(cfg), "on_update"@) == Some(JsonView::Bool(cfg.on_update)),
        lookup(template_fields(cfg), "auto_refreshed"@) == Some(
            JsonView::Bool(cfg.auto_refreshed),
        ),
        lookup(template_fields(cfg), "cron"@) == Some(
            match cfg.cron {
                Some(s) => JsonView::Text(s),
                None => JsonView::Null,
            },
        ),
        lookup(template_fields(cfg), "time_zone_value"@) == Some(
            match cfg.time_zone_value {
                Some(s) => JsonView::Text(s),
                None => JsonView::Null,
            },
        ),
        lookup(template_fields(cfg), "every"@) == Some(
            match cfg.every {
                Some(s) => JsonView::Text(s),
                None => JsonView::Null,
            },
        ),
        lookup(template_fields(cfg), "at_most_every"@) == Some(
            match cfg.at_most_every {
                Some(s) => JsonView::Text(s),
                None => JsonView::Null,
            },
        ),
{
    reveal_strlit("cron");
    reveal_strlit("time_zone_value");
    reveal_strlit("every");
    reveal_strlit("on_update");
    reveal_strlit("at_most_every");
    reveal_strlit("auto_refreshed");
    reveal_strlit("is_altered");
    assert("cron"@.len() == 4 && "time_zone_value"@.len() == 15 && "every"@.len() == 5
        && "on_update"@.len() == 9 && "at_most_every"@.len() == 13 && "auto_refreshed"@.len() == 14
        && "is_altered"@.len() == 10);
    let f = template_fields(cfg)->Object_0;
    place_is_unique(f, "cron"@, 0);
    place_is_unique(f, "time_zone_value"@, 1);
    place_is_unique(f, "every"@, 2);
    place_is_unique(f, "on_update"@, 3);
    place_is_unique(f, "at_most_every"@, 4);
    place_is_unique(f, "auto_refreshed"@, 5);
    place_is_unique(f, "is_altered"@, 6);
}

/// The first row that tells a schedule is the one that counts, wherever it stands.
pub proof fn the_first_schedule_counts(
    before: Seq<DescribeRow>,
    row: DescribeRow,
    after: Seq<DescribeRow>,
)
    requires
        opt(row.key) == Some("Refresh Schedule"@),
        row.value is Some,
        forall|i: int|
            0 <= i < before.len() ==> opt((#[trigger] before[i]).key) != Some("Refresh Schedule"@)
                || before[i].value is None,
    ensures
        remote_state(before.push(row) + after) == (match schedule_config(row.value->0@) {
            Ok(cfg) => loaded(cfg),
            Err(e) => Err(e),
        }),
    decreases before.len(),
{
    let rows = before.push(row) + after;
    if before.len() == 0 {
        assert(rows[0] == row);
    } else {
        assert(rows[0] == before[0]);
        let less = before.drop_first();
        assert(rows.drop_first() =~= less.push(row) + after);
        assert forall|i: int| 0 <= i < less.len() implies opt((#[trigger] less[i]).key) != Some(
            "Refresh Schedule"@,
        ) || less[i].value is None by {
            assert(less[i] == before[i + 1]);
        }
        the_first_schedule_counts(less, row, after);
    }
}

/// A component is of the kind for refreshing, and holds its configuration, marked by
/// whether it refreshes by itself.
pub proof fn components_hold_their_configuration(component: Refresh, cfg: ConfigView)
    requires
        holds(component, cfg),
    ensures
        component.kind@ == "refresh"@,
        component.value@.cron == cfg.cron,
        component.value@.time_zone_value == cfg.time_zone_value,
        component.value@.every == cfg.every,
        component.value@.on_update == cfg.on_update,
        component.value@.at_most_every == cfg.at_most_every,
        component.value@.is_altered == cfg.is_altered,
        component.value@.auto_refreshed <==> (mode(cfg) is Every || mode(cfg) is OnUpdate),
        unscheduled() == (ConfigView {
            cron: None,
            time_zone_value: None,
            every: None,
            on_update: false,
            at_most_every: None,
            auto_refreshed: false,
            is_altered: false,
        }),
{
}

/// What is read of an interval: its number, where that fits, and its unit in one form.
pub proof fn captured_intervals_are_read(value: Seq<char>, n: u64, unit: Seq<char>)
    ensures
        parts_of(value, Some((decimal(n as int), unit))) == Ok::<(int, Seq<char>), Seq<char>>(
            (n as int, canonical_unit(unit)),
        ),
        parts_of(value, None) is Err,
        parts_of(value, Some((decimal(u64::MAX + 1), unit))) is Err,
{
    decimal_reads_back(n as int);
    decimal_reads_back(u64::MAX + 1);
}

/// A limit on updates is read in the singular too, and no limit as none.
pub proof fn limits_are_read_in_the_singular(number: Seq<char>)
    requires
        number.len() > 0,
        all_digits(number),
    ensures
        trigger_schedule("TRIGGER ON UPDATE AT MOST EVERY INTERVAL "@ + number + " SECOND"@)
            == Some(Some(number)),
        trigger_schedule("TRIGGER ON UPDATE"@) == Some(None::<Seq<char>>),
{
    let most = "TRIGGER ON UPDATE AT MOST EVERY INTERVAL "@;
    let value = most + number + " SECOND"@;
    reveal_strlit("TRIGGER ON UPDATE AT MOST EVERY INTERVAL ");
    reveal_strlit("TRIGGER ON UPDATE");
    reveal_strlit(" SECOND");
    reveal_strlit(" SECONDS");
    assert(most.len() == 41 && "TRIGGER ON UPDATE"@.len() == 17 && " SECONDS"@.len() == 8
        && " SECOND"@.len() == 7);
    assert(folds_text("TRIGGER ON UPDATE"@, "TRIGGER ON UPDATE"@));
    let rest = number + " SECOND"@;
    assert(value.take(41) =~= most);
    assert(value.skip(41) =~= rest);
    assert(folds_text(most, most));
    assert(rest.take(rest.len() - 7) =~= number);
    assert(rest.skip(rest.len() - 7) =~= " SECOND"@);
    assert(folds_text(" SECOND"@, " SECOND"@));
    assert forall|i: int| 0 <= i < number.len() implies pattern_digit(#[trigger] number[i]) by {
        assert(is_digit(number[i]));
    }
    assert(digits_before(rest, " SECOND"@));
    assert(!digits_before(rest, " SECONDS"@)) by {
        let end = rest.skip(rest.len() - 8);
        assert(rest.last() == 'D' && " SECONDS"@[7] == 'S');
        if rest.len() >= 8 {
            assert(end[7] == 'D');
            assert(!folds(end[7], " SECONDS"@[7]));
        }
    }
}

/// What is said of schedules that are refused.
pub proof fn refusals_are_told(cfg: ConfigView, value: Seq<char>)
    ensures
        cfg.cron is Some && cfg.every is Some ==> refusal(cfg) == Some(
            "Refresh schedule must specify at most one of cron / every / on_update."@,
        ),
        cfg.time_zone_value is Some && cfg.cron is None && cfg.every is None ==> refusal(cfg)
            == Some("`time_zone_value` is only valid when `cron` is set."@),
        cfg.at_most_every is Some && cfg.time_zone_value is None && cfg.every is None
            && !cfg.on_update ==> refusal(cfg) == Some(
            "`at_most_every` is only valid when `on_update` is true."@,
        ),
        cfg.at_most_every matches Some(most) ==> (cfg.on_update && cfg.cron is None && cfg.every
            is None && cfg.time_zone_value is None ==> (interval_seconds(most) matches Ok(n) ==> (n
            < 60 ==> refusal(cfg) == Some(
            "`at_most_every` must be at least 60 seconds (1 minute); got "@ + debug_text(most)
                + " ("@ + decimal(n) + "s)."@,
        )))),
        parts_of(value, None) == Err::<(int, Seq<char>), Seq<char>>(
            "Cannot parse interval "@ + debug_text(value) + "; expected '<integer> <unit>'."@,
        ),
        parts_of(value, Some(("x"@, value))) == Err::<(int, Seq<char>), Seq<char>>(
            "Interval quantity is too large in "@ + debug_text(value) + "."@,
        ),
        captured_config(value, None, None, None) matches Err(e) ==> e
            == "Could not parse refresh schedule from describe extended: "@ + debug_text(value)
            + ". Please file an issue at https://github.com/dbt-labs/dbt/issues."@,
{
    reveal_strlit("x");
    assert("x"@.len() == 1 && "x"@[0] == 'x');
    assert(!is_digit("x"@[0]));
}

} // verus!
