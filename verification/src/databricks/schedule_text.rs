//! How Databricks writes a refresh schedule, and how intervals are written.

use crate::text::{is_digit, is_space, trim, trim_start};
use vstd::prelude::*;

verus! {

/// The characters other than the ASCII digits that `\d` stands for.
pub uninterp spec fn unicode_digit(c: char) -> bool;

/// What `\d` stands for: a decimal digit, which is neither white space nor a letter.
pub open spec fn pattern_digit(c: char) -> bool {
    is_digit(c) || ((c as u32) >= 128 && !is_space(c) && !pattern_letter(c) && unicode_digit(c))
}

/// What `[A-Z]` stands for where case is ignored: besides the ASCII letters, the long s
/// and the Kelvin sign, which fold to `s` and `k`.
pub open spec fn pattern_letter(c: char) -> bool {
    ('a' <= c && c <= 'z') || ('A' <= c && c <= 'Z') || (c as u32) == 0x17f || (c as u32) == 0x212a
}

pub open spec fn pattern_digits(s: Seq<char>) -> bool {
    s.len() > 0 && forall|i: int| 0 <= i < s.len() ==> pattern_digit(#[trigger] s[i])
}

pub open spec fn pattern_letters(s: Seq<char>) -> bool {
    s.len() > 0 && forall|i: int| 0 <= i < s.len() ==> pattern_letter(#[trigger] s[i])
}

/// A character matches one of a pattern that ignores case, given in upper case.
pub open spec fn folds(c: char, upper: char) -> bool {
    ||| c == upper
    ||| 'A' <= upper && upper <= 'Z' && (c as int) == (upper as int) + 32
    ||| upper == 'S' && (c as u32) == 0x17f
    ||| upper == 'K' && (c as u32) == 0x212a
}

pub open spec fn folds_text(s: Seq<char>, upper: Seq<char>) -> bool {
    s.len() == upper.len() && forall|i: int|
        0 <= i < s.len() ==> folds(#[trigger] s[i], upper[i])
}

/// How many characters stand before the first white space.
pub open spec fn word_len(s: Seq<char>) -> int
    decreases s.len(),
{
    if s.len() == 0 || is_space(s[0]) {
        0
    } else {
        1 + word_len(s.drop_first())
    }
}

/// The quantity and the unit of an interval: digits, white space and letters, with white
/// space round them or not.
pub open spec fn quantity(value: Seq<char>) -> Option<(Seq<char>, Seq<char>)> {
    let text = trim(value);
    let number = text.take(word_len(text));
    let unit = trim_start(text.skip(word_len(text)));
    if pattern_digits(number) && pattern_letters(unit) {
        Some((number, unit))
    } else {
        None
    }
}

/// `Regex::captures` of `(?i)^\s*(\d+)\s+([A-Z]+)\s*$`: the two groups of the match. No
/// digit and no letter of the pattern is white space, so the groups are the two words of
/// the text. Which characters outside ASCII are digits is left to the name.
#[verifier::external_body]
pub(crate) fn quantity_captures(value: &str) -> (r: Option<(String, String)>)
    ensures
        match r {
            Some((number, unit)) => quantity(value@) == Some((number@, unit@)) && forall|i: int|
                0 <= i < number@.len() ==> is_digit(#[trigger] number@[i]) || unicode_digit(
                    number@[i],
                ),
            None => quantity(value@) is None,
        },
{
    let pattern = regex::Regex::new(r"(?i)^\s*(\d+)\s+([A-Z]+)\s*$").expect("valid regex");
    pattern.captures(value).map(|caps| (caps[1].to_string(), caps[2].to_string()))
}

pub open spec fn one_line(s: Seq<char>) -> bool {
    forall|i: int| 0 <= i < s.len() ==> #[trigger] s[i] != '\n'
}

/// The text is a cron schedule of these two parts.
pub open spec fn cron_match(value: Seq<char>, cron: Seq<char>, zone: Seq<char>) -> bool {
    value == "CRON '"@ + cron + "' AT TIME ZONE '"@ + zone + "'"@ && one_line(cron) && one_line(
        zone,
    )
}

/// The parts are those with the longest cron expression.
pub open spec fn longest_cron(value: Seq<char>, cron: Seq<char>, zone: Seq<char>) -> bool {
    cron_match(value, cron, zone) && forall|c: Seq<char>, z: Seq<char>| #[trigger]
        cron_match(value, c, z) ==> c.len() <= cron.len()
}

/// The cron expression and the time zone of a schedule.
pub open spec fn cron_schedule(value: Seq<char>) -> Option<(Seq<char>, Seq<char>)> {
    if exists|c: Seq<char>, z: Seq<char>| longest_cron(value, c, z) {
        let found = choose|c: Seq<char>, z: Seq<char>| longest_cron(value, c, z);
        Some(found)
    } else {
        None
    }
}

/// A text has at most one longest cron expression.
pub proof fn cron_schedule_is(value: Seq<char>, cron: Seq<char>, zone: Seq<char>)
    requires
        longest_cron(value, cron, zone),
    ensures
        cron_schedule(value) == Some((cron, zone)),
{
    let (c, z) = choose|c: Seq<char>, z: Seq<char>| longest_cron(value, c, z);
    assert(longest_cron(value, c, z));
    let head: int = "CRON '"@.len() as int;
    let middle: int = "' AT TIME ZONE '"@.len() as int;
    let n: int = c.len() as int;
    let m: int = z.len() as int;
    assert(n == cron.len());
    assert(cron_match(value, c, z) && cron_match(value, cron, zone));
    assert(value.len() == head + n + middle + m + "'"@.len());
    assert(value.len() == head + n + middle + zone.len() + "'"@.len());
    assert(c =~= value.subrange(head, head + n));
    assert(cron =~= value.subrange(head, head + n));
    assert(z =~= value.subrange(head + n + middle, head + n + middle + m));
    assert(zone =~= value.subrange(head + n + middle, head + n + middle + m));
}

/// `Regex::captures` of `^CRON '(.*)' AT TIME ZONE '(.*)'$`: the two groups of the match.
/// `.` stands for any character but a line feed, and the first repetition is greedy, so
/// its group is the longest that fits.
#[verifier::external_body]
pub(crate) fn cron_captures(value: &str) -> (r: Option<(String, String)>)
    ensures
        match r {
            Some((cron, zone)) => longest_cron(value@, cron@, zone@),
            None => forall|c: Seq<char>, z: Seq<char>| !#[trigger] cron_match(value@, c, z),
        },
{
    let pattern = regex::Regex::new(r"^CRON '(.*)' AT TIME ZONE '(.*)'$").expect("valid regex");
    pattern.captures(value).map(|caps| (caps[1].to_string(), caps[2].to_string()))
}

/// The text is digits behind which this text stands.
pub open spec fn digits_before(s: Seq<char>, unit: Seq<char>) -> bool {
    s.len() > unit.len() && pattern_digits(s.take(s.len() - unit.len())) && folds_text(
        s.skip(s.len() - unit.len()),
        unit,
    )
}

/// The interval of a schedule that runs at fixed times.
pub open spec fn every_schedule(value: Seq<char>) -> Option<Seq<char>> {
    let every = "EVERY "@;
    let rest = value.skip(every.len() as int);
    if value.len() > every.len() && folds_text(value.take(every.len() as int), every) && (
    digits_before(rest, " HOUR"@) || digits_before(rest, " HOURS"@) || digits_before(
        rest,
        " DAY"@,
    ) || digits_before(rest, " DAYS"@) || digits_before(rest, " WEEK"@) || digits_before(
        rest,
        " WEEKS"@,
    )) {
        Some(rest)
    } else {
        None
    }
}

/// `Regex::captures` of `(?i)^EVERY (\d+ (?:HOURS?|DAYS?|WEEKS?))$`: the group of the match.
#[verifier::external_body]
pub(crate) fn every_captures(value: &str) -> (r: Option<String>)
    ensures
        r.deep_view() == every_schedule(value@),
{
    let pattern = regex::Regex::new(r"(?i)^EVERY (\d+ (?:HOURS?|DAYS?|WEEKS?))$").expect("valid regex");
    pattern.captures(value).map(|caps| caps[1].to_string())
}

/// The seconds of a schedule that runs on updates, where it holds any.
pub open spec fn trigger_schedule(value: Seq<char>) -> Option<Option<Seq<char>>> {
    let most = "TRIGGER ON UPDATE AT MOST EVERY INTERVAL "@;
    let rest = value.skip(most.len() as int);
    if folds_text(value, "TRIGGER ON UPDATE"@) {
        Some(None)
    } else if value.len() > most.len() && folds_text(value.take(most.len() as int), most) {
        if digits_before(rest, " SECONDS"@) {
            Some(Some(rest.take(rest.len() - " SECONDS"@.len())))
        } else if digits_before(rest, " SECOND"@) {
            Some(Some(rest.take(rest.len() - " SECOND"@.len())))
        } else {
            None
        }
    } else {
        None
    }
}

/// `Regex::captures` of
/// `(?i)^TRIGGER ON UPDATE(?: AT MOST EVERY INTERVAL (\d+) SECONDS?)?$`: whether it matches,
/// and the group where it took part in the match.
#[verifier::external_body]
pub(crate) fn trigger_captures(value: &str) -> (r: Option<Option<String>>)
    ensures
        r.deep_view() == trigger_schedule(value@),
{
    let pattern = regex::Regex::new(
        r"(?i)^TRIGGER ON UPDATE(?: AT MOST EVERY INTERVAL (\d+) SECONDS?)?$",
    ).expect("valid regex");
    pattern.captures(value).map(|caps| caps.get(1).map(|seconds| seconds.as_str().to_string()))
}

} // verus!
