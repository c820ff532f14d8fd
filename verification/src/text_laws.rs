//! What the functions on texts, values and JSON keep.

use crate::json::{
    is_true, lookup, member, or_empty, place_is_unique, text_at, FieldsView, JsonView,
};
use crate::number::{
    all_digits, all_zeros, decimal, decimal_reads_back, plain, pointed, shown_number, zeros,
};
use crate::text::{
    ascii_lower, ascii_upper, contains, debug_list, debug_option, debug_text, first_at,
    first_place_exists, first_place_is_unique, head, is_digit, is_space, join, replace_char, split,
    split_is_not_empty, split_once, stands_at, starts_with, trim, trim_end, trim_end_char,
    trim_start, trim_start_char,
};
use crate::value::{attribute, entry_place, kind_name, walked, Value, ValueKind};
use vstd::prelude::*;

verus! {

// ---------------------------------------------------------------------------
// Characters
// ---------------------------------------------------------------------------

/// Case changes the letters of ASCII and nothing else, one character for one.
pub proof fn case_changes_letters_alone(s: Seq<char>, i: int)
    ensures
        ascii_lower(s).len() == s.len(),
        ascii_upper(s).len() == s.len(),
        0 <= i < s.len() ==> ascii_lower(s)[i] as int == (if 65 <= s[i] as int <= 90 {
            s[i] as int + 32
        } else {
            s[i] as int
        }),
        0 <= i < s.len() ==> ascii_upper(s)[i] as int == (if 97 <= s[i] as int <= 122 {
            s[i] as int - 32
        } else {
            s[i] as int
        }),
        ascii_lower(ascii_lower(s)) == ascii_lower(s),
        ascii_upper(ascii_upper(s)) == ascii_upper(s),
        ascii_lower(ascii_upper(s)) == ascii_lower(s),
        ascii_upper(ascii_lower(s)) == ascii_upper(s),
{
    assert(ascii_lower(ascii_lower(s)) =~= ascii_lower(s));
    assert(ascii_upper(ascii_upper(s)) =~= ascii_upper(s));
    assert(ascii_lower(ascii_upper(s)) =~= ascii_lower(s));
    assert(ascii_upper(ascii_lower(s)) =~= ascii_upper(s));
}

/// The white space of ASCII, and its digits.
pub proof fn white_space_and_digits(c: char)
    ensures
        (c as int) < 128 ==> (is_space(c) <==> 9 <= c as int <= 13 || c as int == 32),
        is_digit(c) <==> 48 <= c as int <= 57,
{
}

// ---------------------------------------------------------------------------
// Trimming
// ---------------------------------------------------------------------------

/// Only characters that are trimmed off go.
pub open spec fn all_spaces(s: Seq<char>) -> bool {
    forall|i: int| 0 <= i < s.len() ==> is_space(#[trigger] s[i])
}

proof fn start_is_space(s: Seq<char>)
    ensures
        trim_start(s).len() <= s.len(),
        s.skip(s.len() - trim_start(s).len()) == trim_start(s),
        all_spaces(s.take(s.len() - trim_start(s).len())),
    decreases s.len(),
{
    if s.len() > 0 && is_space(s[0]) {
        let rest = s.drop_first();
        start_is_space(rest);
        let n = trim_start(s).len();
        assert(rest.skip(rest.len() - n) =~= s.skip(s.len() - n));
        let cut = s.take(s.len() - n);
        assert forall|i: int| 0 <= i < cut.len() implies is_space(#[trigger] cut[i]) by {
            if i > 0 {
                assert(cut[i] == rest.take(rest.len() - n)[i - 1]);
            }
        }
    } else {
        assert(s.skip(0) =~= s);
    }
}

proof fn end_is_space(s: Seq<char>)
    ensures
        trim_end(s).len() <= s.len(),
        s.take(trim_end(s).len() as int) == trim_end(s),
        all_spaces(s.skip(trim_end(s).len() as int)),
    decreases s.len(),
{
    if s.len() > 0 && is_space(s.last()) {
        let rest = s.drop_last();
        end_is_space(rest);
        let n = trim_end(s).len() as int;
        assert(rest.take(n) =~= s.take(n));
        let cut = s.skip(n);
        assert forall|i: int| 0 <= i < cut.len() implies is_space(#[trigger] cut[i]) by {
            if i < cut.len() - 1 {
                assert(cut[i] == rest.skip(n)[i]);
            }
        }
    } else {
        assert(s.take(s.len() as int) =~= s);
    }
}

/// A text is what trimming leaves of it, between white space.
pub proof fn trimming_drops_white_space_alone(s: Seq<char>)
    ensures
        exists|a: Seq<char>, b: Seq<char>|
            all_spaces(a) && all_spaces(b) && s == #[trigger] (a + trim(s) + b),
{
    let t = trim_start(s);
    start_is_space(s);
    end_is_space(t);
    let a = s.take(s.len() - t.len());
    let b = t.skip(trim(s).len() as int);
    assert(a + t =~= s);
    assert(trim(s) + b =~= t);
    assert(a + trim(s) + b =~= s);
}

// ---------------------------------------------------------------------------
// Splitting and joining
// ---------------------------------------------------------------------------

proof fn last_piece_grows(pieces: Seq<Seq<char>>, sep: Seq<char>, c: char)
    requires
        pieces.len() > 0,
    ensures
        join(pieces.update(pieces.len() - 1, pieces.last().push(c)), sep) == join(
            pieces,
            sep,
        ).push(c),
{
    let more = pieces.update(pieces.len() - 1, pieces.last().push(c));
    if pieces.len() > 1 {
        assert(more.drop_last() =~= pieces.drop_last());
        assert(join(pieces.drop_last(), sep) + sep + pieces.last().push(c) =~= (join(
            pieces.drop_last(),
            sep,
        ) + sep + pieces.last()).push(c));
    }
}

/// The pieces of a text make up the text again, with the separator between them.
pub proof fn pieces_make_up_their_text(s: Seq<char>, sep: char)
    ensures
        join(split(s, sep), seq![sep]) == s,
    decreases s.len(),
{
    if s.len() > 0 {
        let rest = s.drop_last();
        let pieces = split(rest, sep);
        pieces_make_up_their_text(rest, sep);
        split_is_not_empty(rest, sep);
        if s.last() == sep {
            let all = pieces.push(Seq::empty());
            assert(all.drop_last() =~= pieces);
            assert(join(all, seq![sep]) =~= rest + seq![sep] + Seq::empty());
            assert(rest + seq![sep] + Seq::empty() =~= s);
        } else {
            last_piece_grows(pieces, seq![sep], s.last());
            assert(rest.push(s.last()) =~= s);
        }
    } else {
        assert(join(split(s, sep), seq![sep]) =~= s);
    }
}

/// A text is split at the first place where the pattern stands, and nothing is lost.
pub proof fn texts_are_split_once(s: Seq<char>, pat: Seq<char>)
    ensures
        split_once(s, pat) is Some <==> exists|i: int| stands_at(s, pat, i),
        split_once(s, pat) matches Some((a, b)) ==> {
            &&& s == a + pat + b
            &&& forall|j: int| 0 <= j < a.len() ==> !stands_at(s, pat, j)
        },
{
    if contains(s, pat) {
        first_place_exists(s, pat);
        let i = choose|i: int| first_at(s, pat, i);
        assert(first_at(s, pat, i));
        assert(s =~= s.take(i) + s.subrange(i, i + pat.len()) + s.skip(i + pat.len()));
    }
}

/// A pattern stands in a text where the text is it between two others.
pub proof fn patterns_stand_in_texts(a: Seq<char>, pat: Seq<char>, b: Seq<char>)
    ensures
        contains(a + pat + b, pat),
        starts_with(pat + b, pat),
        head(pat, pat.len() as int) == pat,
        head(pat + b, pat.len() as int) == pat,
{
    let s = a + pat + b;
    assert(s.subrange(a.len() as int, (a.len() + pat.len()) as int) =~= pat);
    assert(stands_at(s, pat, a.len() as int));
    assert((pat + b).subrange(0, pat.len() as int) =~= pat);
    if b.len() > 0 {
        assert((pat + b).take(pat.len() as int) =~= pat);
    } else {
        assert(pat + b =~= pat);
    }
}

/// A character is replaced everywhere, and nothing else is.
pub proof fn characters_are_replaced(a: Seq<char>, b: Seq<char>, c: char, from: char, to: Seq<char>)
    ensures
        replace_char(a + b, from, to) == replace_char(a, from, to) + replace_char(b, from, to),
        replace_char(seq![c], from, to) == (if c == from {
            to
        } else {
            seq![c]
        }),
    decreases b.len(),
{
    let one = seq![c];
    assert(one.drop_last() =~= Seq::empty());
    assert(replace_char(one.drop_last(), from, to) =~= Seq::empty());
    assert(replace_char(one, from, to) =~= (if c == from {
        to
    } else {
        seq![c]
    }));
    if b.len() == 0 {
        assert(a + b =~= a);
        assert(replace_char(a, from, to) + replace_char(b, from, to) =~= replace_char(a, from, to));
    } else {
        characters_are_replaced(a, b.drop_last(), c, from, to);
        assert((a + b).drop_last() =~= a + b.drop_last());
        assert((a + b).last() == b.last());
        assert(replace_char(a + b, from, to) =~= replace_char(a, from, to) + replace_char(
            b,
            from,
            to,
        ));
    }
}

/// Lists and options as they are shown.
pub proof fn lists_and_options_are_shown(items: Seq<Seq<char>>, t: Seq<char>)
    ensures
        debug_list(Seq::empty()) == seq!['[', ']'],
        debug_list(seq![t]) == seq!['['] + debug_text(t) + seq![']'],
        items.len() > 0 ==> debug_list(items.push(t)) == debug_list(items).drop_last() + seq![
            ',',
            ' ',
        ] + debug_text(t) + seq![']'],
        debug_option(Some(t)) == "Some("@ + debug_text(t) + seq![')'],
        debug_option(None) == "None"@,
{
    reveal_strlit("[");
    reveal_strlit("]");
    reveal_strlit(", ");
    reveal_strlit(")");
    assert("["@ =~= seq!['[']);
    assert("]"@ =~= seq![']']);
    assert(", "@ =~= seq![',', ' ']);
    assert(")"@ =~= seq![')']);
    let f = |s: Seq<char>| debug_text(s);
    assert(debug_list(Seq::empty()) =~= seq!['[', ']']);
    assert(seq![t].map_values(f) =~= seq![debug_text(t)]);
    assert(debug_list(seq![t]) =~= seq!['['] + debug_text(t) + seq![']']);
    if items.len() > 0 {
        assert(items.push(t).map_values(f).drop_last() =~= items.map_values(f));
        let inner = join(items.map_values(f), ", "@);
        assert(debug_list(items).drop_last() =~= "["@ + inner);
        assert(debug_list(items.push(t)) =~= debug_list(items).drop_last() + seq![',', ' ']
            + debug_text(t) + seq![']']);
    }
}

// ---------------------------------------------------------------------------
// JSON and values
// ---------------------------------------------------------------------------

/// A field is the first with its name; what has no fields has none.
pub proof fn fields_are_found_by_name(fields: FieldsView, key: Seq<char>, i: int)
    requires
        0 <= i < fields.len(),
        fields[i].0 == key,
        forall|j: int| 0 <= j < i ==> (#[trigger] fields[j]).0 != key,
    ensures
        lookup(JsonView::Object(fields), key) == Some(fields[i].1),
        member(JsonView::Object(fields), key) == fields[i].1,
        fields[i].1 matches JsonView::Text(t) ==> text_at(JsonView::Object(fields), key) == Some(t),
        !(fields[i].1 is Text) ==> text_at(JsonView::Object(fields), key) is None,
        lookup(JsonView::Null, key) is None,
        lookup(JsonView::List(seq![JsonView::Object(fields)]), key) is None,
{
    place_is_unique(fields, key, i);
}

/// What counts as true: everything but null, false, zero and what is empty.
pub proof fn what_is_true(n: int, s: Seq<char>, items: Seq<JsonView>, fields: FieldsView)
    ensures
        !is_true(JsonView::Null),
        is_true(JsonView::Bool(true)) && !is_true(JsonView::Bool(false)),
        is_true(JsonView::Int(n)) <==> n != 0,
        is_true(JsonView::Text(s)) <==> s.len() > 0,
        is_true(JsonView::List(items)) <==> items.len() > 0,
        is_true(JsonView::Object(fields)) <==> fields.len() > 0,
        or_empty(None).len() == 0,
        or_empty(Some(s)) == s,
{
}

proof fn entry_place_is(entries: Seq<(String, Value)>, key: Seq<char>, i: int)
    requires
        0 <= i <= entries.len(),
        i < entries.len() ==> entries[i].0@ == key,
        forall|j: int| 0 <= j < i ==> (#[trigger] entries[j]).0@ != key,
    ensures
        entry_place(entries, key) == i,
    decreases entries.len(),
{
    if entries.len() > 0 && i > 0 {
        let rest = entries.drop_first();
        assert(entries[0].0@ != key);
        assert forall|j: int| 0 <= j < i - 1 implies (#[trigger] rest[j]).0@ != key by {
            assert(entries[j + 1].0@ != key);
        }
        entry_place_is(rest, key, i - 1);
    }
}

/// An attribute of a map is its first entry with that key; nothing else has attributes.
pub proof fn attributes_are_entries(v: Value, key: Seq<char>, i: int)
    requires
        0 <= i <= v.entries@.len(),
        i < v.entries@.len() ==> v.entries@[i].0@ == key,
        forall|j: int| 0 <= j < i ==> (#[trigger] v.entries@[j]).0@ != key,
    ensures
        v.kind != ValueKind::Mapping ==> attribute(v, key) is None,
        v.kind == ValueKind::Mapping && i < v.entries@.len() ==> attribute(v, key) == Some(
            v.entries@[i].1,
        ),
        i == v.entries@.len() ==> attribute(v, key) is None,
{
    entry_place_is(v.entries@, key, i);
}

/// A string is walked character by character, another value item by item.
pub proof fn values_are_walked(v: Value, i: int)
    ensures
        v.string matches Some(s) ==> (walked(v) matches Ok(all) && all.len() == s@.len() && (0 <= i
            < s@.len() ==> all[i] == seq![s@[i]])),
        v.string is None ==> (v.items matches Some(items) ==> (walked(v) matches Ok(all)
            && all.len() == items@.len() && (0 <= i < items@.len() ==> all[i] == items@[i].text@))),
        v.string is None && v.items is None && (v.kind == ValueKind::Undefined || v.kind
            == ValueKind::Nothing) ==> walked(v) == Ok::<Seq<Seq<char>>, Seq<char>>(Seq::empty()),
        v.string is None && v.items is None && v.kind != ValueKind::Undefined && v.kind
            != ValueKind::Nothing ==> walked(v) is Err,
{
}

/// A text is the characters in question and then what trimming leaves, which begins with
/// another one.
pub proof fn leading_characters_go(s: Seq<char>, c: char, n: nat)
    requires
        s.len() == 0 || s[0] != c,
    ensures
        trim_start_char(Seq::new(n, |i: int| c) + s, c) == s,
    decreases n,
{
    let all = Seq::new(n, |i: int| c) + s;
    if n > 0 {
        leading_characters_go(s, c, (n - 1) as nat);
        assert(all.drop_first() =~= Seq::new((n - 1) as nat, |i: int| c) + s);
    } else {
        assert(all =~= s);
    }
}

/// The same behind a text.
pub proof fn trailing_characters_go(s: Seq<char>, c: char, n: nat)
    requires
        s.len() == 0 || s.last() != c,
    ensures
        trim_end_char(s + Seq::new(n, |i: int| c), c) == s,
    decreases n,
{
    let all = s + Seq::new(n, |i: int| c);
    if n > 0 {
        trailing_characters_go(s, c, (n - 1) as nat);
        assert(all.drop_last() =~= s + Seq::new((n - 1) as nat, |i: int| c));
    } else {
        assert(all =~= s);
    }
}

/// A pattern of one character that stands in no text before it parts a text from the rest.
pub proof fn texts_part_at_a_character(a: Seq<char>, c: char, b: Seq<char>)
    requires
        !a.contains(c),
    ensures
        split_once(a + seq![c] + b, seq![c]) == Some((a, b)),
        split_once(a, seq![c]) is None,
{
    let s = a + seq![c] + b;
    let n = a.len() as int;
    assert(s.subrange(n, n + 1) =~= seq![c]);
    assert forall|j: int| 0 <= j < n implies !stands_at(s, seq![c], j) by {
        if stands_at(s, seq![c], j) {
            assert(s.subrange(j, j + 1)[0] == a[j]);
        }
    }
    assert(first_at(s, seq![c], n));
    first_place_is_unique(s, seq![c], n);
    assert(s.take(n) =~= a);
    assert(s.skip(n + 1) =~= b);
    if contains(a, seq![c]) {
        let j = choose|j: int| stands_at(a, seq![c], j);
        assert(a.subrange(j, j + 1)[0] == a[j]);
    }
}

proof fn point_is_placed(whole: Seq<char>, fraction: Seq<char>, e: int)
    requires
        whole.len() > 0,
        all_digits(whole),
        all_digits(fraction),
        -400 <= e <= 400,
    ensures
        plain(whole + seq!['.'] + fraction + seq!['e'] + decimal(e)) == pointed(
            whole + fraction,
            whole.len() + e,
        ),
{
    reveal_strlit("e");
    reveal_strlit(".");
    assert("e"@ =~= seq!['e']);
    assert("."@ =~= seq!['.']);
    let mantissa = whole + seq!['.'] + fraction;
    assert(!mantissa.contains('e')) by {
        if mantissa.contains('e') {
            let k = mantissa.index_of('e');
            if k < whole.len() {
                assert(is_digit(whole[k]));
            } else if k > whole.len() {
                assert(is_digit(fraction[k - whole.len() - 1]));
            }
        }
    }
    assert(!whole.contains('.')) by {
        if whole.contains('.') {
            assert(is_digit(whole[whole.index_of('.')]));
        }
    }
    assert(is_digit(whole[0]));
    texts_part_at_a_character(whole, '.', fraction);
    texts_part_at_a_character(mantissa, 'e', decimal(e));
    decimal_reads_back(e);
    assert((mantissa + seq!['e'] + decimal(e))[0] == whole[0]);
}

/// A number with a positive exponent is the same digits with the point moved to the right,
/// and without a fraction that is zero.
pub proof fn exponents_move_the_point(whole: Seq<char>, fraction: Seq<char>, n: nat)
    requires
        whole.len() > 0,
        all_digits(whole),
        all_digits(fraction),
        n <= 400,
    ensures
        ({
            let shown = plain(whole + seq!['.'] + fraction + seq!['e'] + decimal(n as int));
            &&& n >= fraction.len() ==> shown == whole + fraction + Seq::new(
                (n - fraction.len()) as nat,
                |i: int| '0',
            )
            &&& n < fraction.len() ==> shown == (if all_zeros(fraction.skip(n as int)) {
                whole + fraction.take(n as int)
            } else {
                whole + fraction.take(n as int) + seq!['.'] + fraction.skip(n as int)
            })
        }),
{
    point_is_placed(whole, fraction, n as int);
    let all = whole + fraction;
    let right = whole.len() + n;
    if n > fraction.len() {
        assert(zeros(right - all.len()) =~= Seq::new((n - fraction.len()) as nat, |i: int| '0'));
    } else if n == fraction.len() {
        assert(all.take(right as int) =~= all + Seq::new(0, |i: int| '0'));
    } else {
        assert(all.take(right as int) =~= whole + fraction.take(n as int));
        assert(all.skip(right as int) =~= fraction.skip(n as int));
    }
}

/// One with a negative exponent has the point moved to the left, behind a zero where no
/// digit is left before it.
pub proof fn negative_exponents_move_the_point(whole: Seq<char>, fraction: Seq<char>, n: nat)
    requires
        whole.len() > 0,
        all_digits(whole),
        all_digits(fraction),
        n <= 400,
    ensures
        ({
            let shown = plain(whole + seq!['.'] + fraction + seq!['e'] + decimal(-n));
            let left = whole.len() - n;
            &&& n < whole.len() && !all_zeros(whole.skip(left) + fraction) ==> shown
                == whole.take(left) + seq!['.'] + (whole.skip(left) + fraction)
            &&& n < whole.len() && all_zeros(whole.skip(left) + fraction) ==> shown
                == whole.take(left)
            &&& n >= whole.len() && !all_zeros(whole + fraction) ==> shown == seq!['0']
                + seq!['.'] + (Seq::new((n - whole.len()) as nat, |i: int| '0') + (whole
                + fraction))
        }),
{
    point_is_placed(whole, fraction, -n);
    let all = whole + fraction;
    let left = whole.len() - n;
    if n < whole.len() {
        assert(all.take(left) =~= whole.take(left));
        assert(all.skip(left) =~= whole.skip(left) + fraction);
    } else {
        let gap = Seq::new((n - whole.len()) as nat, |i: int| '0');
        assert(zeros(-left) =~= gap);
        if !all_zeros(all) {
            let k = choose|k: int| 0 <= k < all.len() && #[trigger] all[k] != '0';
            assert((gap + all)[gap.len() + k] == all[k]);
        }
    }
}

/// A sign changes nothing else.
pub proof fn signs_are_kept(s: Seq<char>, n: int)
    ensures
        s.len() > 0 && s[0] != '-' ==> plain(seq!['-'] + s) == seq!['-'] + plain(s),
        0 < n <= i64::MAX ==> shown_number(-n) == seq!['-'] + shown_number(n),
        n > u64::MAX || n < i64::MIN ==> shown_number(n) == decimal(n),
{
    assert((seq!['-'] + s).drop_first() =~= s);
}

/// The kinds of values as they are named.
pub proof fn kinds_are_named(kind: ValueKind)
    ensures
        kind is Undefined ==> kind_name(kind) == "undefined"@,
        kind is Nothing ==> kind_name(kind) == "none"@,
        kind is Boolean ==> kind_name(kind) == "bool"@,
        kind is Number ==> kind_name(kind) == "number"@,
        kind is Str ==> kind_name(kind) == "string"@,
        kind is Bytes ==> kind_name(kind) == "bytes"@,
        kind is Sequence ==> kind_name(kind) == "sequence"@,
        kind is Mapping ==> kind_name(kind) == "map"@,
        kind is Iterable ==> kind_name(kind) == "iterator"@,
        kind is Plain ==> kind_name(kind) == "plain object"@,
        kind is Invalid ==> kind_name(kind) == "invalid value"@,
{
}

} // verus!
