//! JSON text as Python's `json.dumps(.., sort_keys=True)` writes it.

use crate::json::{
    fields_view, items_view, list_view_is, object_view_is, FieldsView, Json, JsonView,
};
use crate::number::{decimal, decimal_of};
use crate::ordered::{arranged, keyed, place};
use crate::text::{join, joined, to_chars, views};
use vstd::prelude::*;

verus! {

pub open spec fn hex_digit(d: int) -> char {
    if d < 10 {
        (d + '0' as int) as char
    } else {
        (d - 10 + 'a' as int) as char
    }
}

/// A 16-bit number as an escape of four hexadecimal digits.
pub open spec fn unicode_escape(n: int) -> Seq<char> {
    seq![
        '\\',
        'u',
        hex_digit(n / 4096 % 16),
        hex_digit(n / 256 % 16),
        hex_digit(n / 16 % 16),
        hex_digit(n % 16),
    ]
}

/// A character inside a string. What is not printable ASCII is escaped, beyond 16 bits as
/// a pair of surrogates.
pub open spec fn escaped(c: char) -> Seq<char> {
    let n = c as int;
    if c == '"' {
        seq!['\\', '"']
    } else if c == '\\' {
        seq!['\\', '\\']
    } else if n == 8 {
        seq!['\\', 'b']
    } else if n == 12 {
        seq!['\\', 'f']
    } else if n == 10 {
        seq!['\\', 'n']
    } else if n == 13 {
        seq!['\\', 'r']
    } else if n == 9 {
        seq!['\\', 't']
    } else if 0x20 <= n <= 0x7e {
        seq![c]
    } else if n <= 0xffff {
        unicode_escape(n)
    } else {
        unicode_escape(0xd800 + (n - 0x10000) / 1024) + unicode_escape(
            0xdc00 + (n - 0x10000) % 1024,
        )
    }
}

pub open spec fn escaped_text(s: Seq<char>) -> Seq<char>
    decreases s.len(),
{
    if s.len() == 0 {
        Seq::empty()
    } else {
        escaped_text(s.drop_last()) + escaped(s.last())
    }
}

/// A string in quotes.
pub open spec fn quoted(s: Seq<char>) -> Seq<char> {
    seq!['"'] + escaped_text(s) + seq!['"']
}

pub open spec fn is_printable(s: Seq<char>) -> bool {
    forall|i: int| 0 <= i < s.len() ==> 0x20 <= (#[trigger] s[i]) as int <= 0x7e
}

proof fn escaped_is_printable(c: char)
    ensures
        is_printable(escaped(c)),
        escaped(c).len() > 0,
{
    let n = c as int;
    assert(0 <= n <= 0x10ffff);
    if n > 0xffff {
        let high = unicode_escape(0xd800 + (n - 0x10000) / 1024);
        let low = unicode_escape(0xdc00 + (n - 0x10000) % 1024);
        assert forall|i: int| 0 <= i < escaped(c).len() implies 0x20 <= (#[trigger] escaped(
            c,
        )[i]) as int <= 0x7e by {
            if i < high.len() {
                assert(escaped(c)[i] == high[i]);
            } else {
                assert(escaped(c)[i] == low[i - high.len()]);
            }
        }
    }
}

/// A string is written in printable ASCII characters alone, whatever it holds.
pub proof fn quoted_is_printable(s: Seq<char>)
    ensures
        is_printable(quoted(s)),
{
    escaped_text_is_printable(s);
    let q = quoted(s);
    assert forall|i: int| 0 <= i < q.len() implies 0x20 <= (#[trigger] q[i]) as int <= 0x7e by {
        if 0 < i < q.len() - 1 {
            assert(q[i] == escaped_text(s)[i - 1]);
        }
    }
}

proof fn escaped_text_is_printable(s: Seq<char>)
    ensures
        is_printable(escaped_text(s)),
    decreases s.len(),
{
    if s.len() > 0 {
        let rest = escaped_text(s.drop_last());
        escaped_text_is_printable(s.drop_last());
        escaped_is_printable(s.last());
        let all = escaped_text(s);
        assert forall|i: int| 0 <= i < all.len() implies 0x20 <= (#[trigger] all[i]) as int
            <= 0x7e by {
            if i < rest.len() {
                assert(all[i] == rest[i]);
            } else {
                assert(all[i] == escaped(s.last())[i - rest.len()]);
            }
        }
    }
}

// ---------------------------------------------------------------------------
// Reading a string back
// ---------------------------------------------------------------------------

/// The number that a hexadecimal digit stands for.
pub open spec fn hex_value(c: char) -> Option<int> {
    if '0' <= c && c <= '9' {
        Some(c as int - '0' as int)
    } else if 'a' <= c && c <= 'f' {
        Some(c as int - 'a' as int + 10)
    } else if 'A' <= c && c <= 'F' {
        Some(c as int - 'A' as int + 10)
    } else {
        None
    }
}

/// The 16-bit number that an escape at the start of a text stands for.
pub open spec fn read_escape(s: Seq<char>) -> Option<int> {
    if s.len() < 6 || s[0] != '\\' || s[1] != 'u' {
        None
    } else {
        match (hex_value(s[2]), hex_value(s[3]), hex_value(s[4]), hex_value(s[5])) {
            (Some(a), Some(b), Some(c), Some(d)) => Some(a * 4096 + b * 256 + c * 16 + d),
            _ => None,
        }
    }
}

/// The character that a text starts with inside a JSON string, and how much of the text it
/// takes.
pub open spec fn read_char(s: Seq<char>) -> Option<(char, int)> {
    if s.len() == 0 || s[0] == '"' || (s[0] as int) < 0x20 {
        None
    } else if s[0] != '\\' {
        Some((s[0], 1))
    } else if s.len() == 1 {
        None
    } else if s[1] == '"' || s[1] == '\\' || s[1] == '/' {
        Some((s[1], 2))
    } else if s[1] == 'b' {
        Some((8u8 as char, 2))
    } else if s[1] == 'f' {
        Some((12u8 as char, 2))
    } else if s[1] == 'n' {
        Some(('\n', 2))
    } else if s[1] == 'r' {
        Some(('\r', 2))
    } else if s[1] == 't' {
        Some(('\t', 2))
    } else {
        match read_escape(s) {
            None => None,
            Some(n) => if 0xd800 <= n < 0xdc00 {
                match read_escape(s.skip(6)) {
                    Some(low) => if 0xdc00 <= low < 0xe000 {
                        Some(((0x10000 + (n - 0xd800) * 1024 + (low - 0xdc00)) as char, 12))
                    } else {
                        None
                    },
                    None => None,
                }
            } else if 0xdc00 <= n < 0xe000 {
                None
            } else {
                Some((n as char, 6))
            },
        }
    }
}

/// What a JSON string holds whose opening quote was read: it ends with its closing quote.
pub open spec fn read_rest(s: Seq<char>) -> Option<Seq<char>>
    decreases s.len(),
{
    if s.len() > 0 && s[0] == '"' {
        if s.len() == 1 {
            Some(Seq::empty())
        } else {
            None
        }
    } else {
        match read_char(s) {
            None => None,
            Some((c, taken)) => if 0 < taken <= s.len() {
                match read_rest(s.skip(taken)) {
                    Some(rest) => Some(seq![c] + rest),
                    None => None,
                }
            } else {
                None
            },
        }
    }
}

/// What a text holds that is a JSON string.
pub open spec fn read_string(s: Seq<char>) -> Option<Seq<char>> {
    if s.len() > 0 && s[0] == '"' {
        read_rest(s.skip(1))
    } else {
        None
    }
}

proof fn digits_read_back(d: int)
    requires
        0 <= d < 16,
    ensures
        hex_value(hex_digit(d)) == Some(d),
{
}

proof fn four_digits(n: int)
    requires
        0 <= n <= 0xffff,
    ensures
        n == (n / 4096 % 16) * 4096 + (n / 256 % 16) * 256 + (n / 16 % 16) * 16 + n % 16,
{
    let a = n / 16;
    let b = a / 16;
    let c = b / 16;
    assert(n == 16 * a + n % 16);
    assert(a == 16 * b + a % 16);
    assert(b == 16 * c + b % 16);
    assert(n / 256 == b);
    assert(n / 4096 == c);
    assert(c % 16 == c);
}

proof fn escape_reads_back(n: int, tail: Seq<char>)
    requires
        0 <= n <= 0xffff,
    ensures
        read_escape(unicode_escape(n) + tail) == Some(n),
{
    digits_read_back(n / 4096 % 16);
    digits_read_back(n / 256 % 16);
    digits_read_back(n / 16 % 16);
    digits_read_back(n % 16);
    let s = unicode_escape(n) + tail;
    assert(s[0] == '\\' && s[1] == 'u');
    assert(s[2] == hex_digit(n / 4096 % 16));
    assert(s[3] == hex_digit(n / 256 % 16));
    assert(s[4] == hex_digit(n / 16 % 16));
    assert(s[5] == hex_digit(n % 16));
    four_digits(n);
}

proof fn char_reads_back(c: char, tail: Seq<char>)
    ensures
        read_char(escaped(c) + tail) == Some((c, escaped(c).len() as int)),
        escaped(c)[0] != '"',
{
    let n = c as int;
    let s = escaped(c) + tail;
    assert(0 <= n <= 0x10ffff);
    assert(s[0] == escaped(c)[0]);
    if escaped(c).len() > 1 {
        assert(s[1] == escaped(c)[1]);
    }
    if !(0x20 <= n <= 0x7e) && n != 8 && n != 12 && n != 10 && n != 13 && n != 9 {
        if n <= 0xffff {
            escape_reads_back(n, tail);
        } else {
            let high = 0xd800 + (n - 0x10000) / 1024;
            let low = 0xdc00 + (n - 0x10000) % 1024;
            let rest = unicode_escape(low) + tail;
            assert(s =~= unicode_escape(high) + rest);
            escape_reads_back(high, rest);
            escape_reads_back(low, tail);
            assert(s.skip(6) =~= rest);
            assert(0x10000 + (high - 0xd800) * 1024 + (low - 0xdc00) == n);
        }
    }
}

proof fn escaped_text_from_the_front(s: Seq<char>)
    requires
        s.len() > 0,
    ensures
        escaped_text(s) == escaped(s[0]) + escaped_text(s.drop_first()),
    decreases s.len(),
{
    let front = s.drop_last();
    if s.len() == 1 {
        assert(front =~= Seq::empty());
        assert(s.drop_first() =~= Seq::empty());
        assert(escaped_text(front) =~= Seq::empty());
        assert(escaped_text(s) =~= escaped(s[0]) + escaped_text(s.drop_first()));
    } else {
        escaped_text_from_the_front(front);
        assert(front.drop_first() =~= s.drop_first().drop_last());
        assert(s.drop_first().last() == s.last());
        assert(escaped_text(s) =~= escaped(s[0]) + escaped_text(s.drop_first()));
    }
}

proof fn rest_reads_back(s: Seq<char>)
    ensures
        read_rest(escaped_text(s) + seq!['"']) == Some(s),
    decreases s.len(),
{
    let body = escaped_text(s) + seq!['"'];
    if s.len() == 0 {
        assert(body =~= seq!['"']);
        assert(s =~= Seq::empty());
    } else {
        let tail = escaped_text(s.drop_first()) + seq!['"'];
        escaped_text_from_the_front(s);
        assert(body =~= escaped(s[0]) + tail);
        char_reads_back(s[0], tail);
        escaped_is_printable(s[0]);
        rest_reads_back(s.drop_first());
        assert(body[0] == escaped(s[0])[0]);
        assert(body.skip(escaped(s[0]).len() as int) =~= tail);
        assert(seq![s[0]] + s.drop_first() =~= s);
    }
}

/// A string that is written reads back, as JSON, as what it was written from.
pub proof fn quoted_reads_back(s: Seq<char>)
    ensures
        read_string(quoted(s)) == Some(s),
        quoted(s)[0] == '"',
        quoted(s).last() == '"',
{
    rest_reads_back(s);
    assert(quoted(s).skip(1) =~= escaped_text(s) + seq!['"']);
}

fn hex_of(d: u16) -> (r: char)
    requires
        d < 16,
    ensures
        r == hex_digit(d as int),
{
    if d < 10 {
        (d as u8 + 48) as char
    } else {
        (d as u8 - 10 + 97) as char
    }
}

fn write_unicode_escape(result: &mut String, value: u16)
    ensures
        final(result)@ == old(result)@ + unicode_escape(value as int),
{
    let ghost start = result@;
    result.push('\\');
    result.push('u');
    result.push(hex_of(value / 4096 % 16));
    result.push(hex_of(value / 256 % 16));
    result.push(hex_of(value / 16 % 16));
    result.push(hex_of(value % 16));
    assert(result@ =~= start + unicode_escape(value as int));
}

fn write_escaped(result: &mut String, c: char)
    ensures
        final(result)@ == old(result)@ + escaped(c),
{
    let ghost start = result@;
    let n: u32 = c as u32;
    if c == '"' {
        result.push('\\');
        result.push('"');
    } else if c == '\\' {
        result.push('\\');
        result.push('\\');
    } else if n == 8 {
        result.push('\\');
        result.push('b');
    } else if n == 12 {
        result.push('\\');
        result.push('f');
    } else if n == 10 {
        result.push('\\');
        result.push('n');
    } else if n == 13 {
        result.push('\\');
        result.push('r');
    } else if n == 9 {
        result.push('\\');
        result.push('t');
    } else if 0x20 <= n && n <= 0x7e {
        result.push(c);
    } else if n <= 0xffff {
        write_unicode_escape(result, n as u16);
    } else {
        assert(n <= 0x10ffff);
        let codepoint: u32 = n - 0x10000;
        let high: u16 = (0xd800 + codepoint / 1024) as u16;
        let low: u16 = (0xdc00 + codepoint % 1024) as u16;
        write_unicode_escape(result, high);
        write_unicode_escape(result, low);
    }
    assert(result@ =~= start + escaped(c));
}

pub fn python_json_string(value: &str) -> (r: String)
    ensures
        r@ == quoted(value@),
{
    let chars = to_chars(value);
    let mut result = String::new();
    result.push('"');
    let mut i: usize = 0;
    assert(result@ =~= seq!['"'] + escaped_text(chars@.take(0)));
    while i < chars.len()
        invariant
            i <= chars.len(),
            result@ == seq!['"'] + escaped_text(chars@.take(i as int)),
        decreases chars.len() - i,
    {
        assert(chars@.take(i + 1).drop_last() =~= chars@.take(i as int));
        assert(chars@.take(i + 1).last() == chars@[i as int]);
        write_escaped(&mut result, chars[i]);
        assert(result@ =~= seq!['"'] + escaped_text(chars@.take(i + 1)));
        i += 1;
    }
    assert(chars@.take(i as int) =~= chars@);
    let ghost body = result@;
    result.push('"');
    assert(result@ =~= body + seq!['"']);
    result
}

// ---------------------------------------------------------------------------
// Values
// ---------------------------------------------------------------------------

/// A value as text. The fields of an object are in the order of their names.
pub open spec fn python(v: JsonView) -> Seq<char>
    decreases v,
{
    match v {
        JsonView::Null => "null"@,
        JsonView::Bool(b) => if b {
            "true"@
        } else {
            "false"@
        },
        JsonView::Int(n) => decimal(n),
        JsonView::Real(s) => s,
        JsonView::Text(s) => quoted(s),
        JsonView::List(items) => "["@ + join(python_items(items), ", "@) + "]"@,
        JsonView::Object(fields) => "{"@ + join(texts(arranged(python_fields(fields))), ", "@)
            + "}"@,
    }
}

pub open spec fn python_items(items: Seq<JsonView>) -> Seq<Seq<char>>
    decreases items,
{
    if items.len() == 0 {
        Seq::empty()
    } else {
        proof {
            assert(decreases_to!(items => items[items.len() - 1]));
            assert(items.drop_last() == items.subrange(0, items.len() - 1));
            assert(decreases_to!(items => items.subrange(0, items.len() - 1)));
        }
        python_items(items.drop_last()).push(python(items[items.len() - 1]))
    }
}

/// The fields as text, with their names.
pub open spec fn python_fields(fields: FieldsView) -> Seq<(Seq<char>, Seq<char>)>
    decreases fields,
{
    if fields.len() == 0 {
        Seq::empty()
    } else {
        proof {
            assert(decreases_to!(fields => fields[fields.len() - 1]));
            assert(decreases_to!(fields[fields.len() - 1] => fields[fields.len() - 1].1));
            assert(fields.drop_last() == fields.subrange(0, fields.len() - 1));
            assert(decreases_to!(fields => fields.subrange(0, fields.len() - 1)));
        }
        let last = fields[fields.len() - 1];
        python_fields(fields.drop_last()).push(
            (last.0, quoted(last.0) + ": "@ + python(last.1)),
        )
    }
}

pub open spec fn texts(entries: Seq<(Seq<char>, Seq<char>)>) -> Seq<Seq<char>> {
    entries.map_values(|e: (Seq<char>, Seq<char>)| e.1)
}

/// The text of an entry.
#[derive(Debug)]
pub struct EntryText {
    pub text: String,
}

impl DeepView for EntryText {
    type V = Seq<char>;

    open spec fn deep_view(&self) -> Seq<char> {
        self.text@
    }
}

fn texts_of(entries: &Vec<(String, EntryText)>) -> (r: Vec<String>)
    ensures
        views(r@) == texts(keyed(entries@)),
{
    let ghost all = texts(keyed(entries@));
    let mut r: Vec<String> = Vec::new();
    let mut i: usize = 0;
    while i < entries.len()
        invariant
            i <= entries.len(),
            all == texts(keyed(entries@)),
            views(r@) =~= all.take(i as int),
        decreases entries.len() - i,
    {
        let ghost prior = views(r@);
        r.push(entries[i].1.text.clone());
        assert(all[i as int] == entries@[i as int].1.text@);
        assert(views(r@) =~= prior.push(all[i as int]));
        assert(all.take(i + 1) =~= prior.push(all[i as int]));
        i += 1;
    }
    assert(all.take(i as int) =~= all);
    r
}

pub fn python_json(value: &Json) -> (r: String)
    ensures
        r@ == python(value@),
    decreases value,
{
    match value {
        Json::Null => "null".to_owned(),
        Json::Bool(b) => if *b {
            "true".to_owned()
        } else {
            "false".to_owned()
        },
        Json::Int(n) => decimal_of(*n),
        Json::Real(s) => s.clone(),
        Json::Text(s) => python_json_string(s.as_str()),
        Json::List(items) => {
            let ghost all = items_view(items@);
            proof {
                list_view_is(*items);
            }
            let mut pieces: Vec<String> = Vec::new();
            let mut i: usize = 0;
            assert(views(pieces@) =~= python_items(all.take(0)));
            while i < items.len()
                invariant
                    i <= items.len(),
                    *value == Json::List(*items),
                    all == items_view(items@),
                    views(pieces@) == python_items(all.take(i as int)),
                decreases items.len() - i,
            {
                proof {
                    assert(decreases_to!(*value => value->List_0));
                    assert(decreases_to!(value->List_0 => value->List_0@));
                    assert(decreases_to!(value->List_0@ => value->List_0@[i as int]));
                    assert(all.take(i + 1).drop_last() =~= all.take(i as int));
                    assert(all.take(i + 1)[i as int] == items@[i as int]@);
                }
                let ghost prior = views(pieces@);
                let piece = python_json(&items[i]);
                let ghost added = piece@;
                pieces.push(piece);
                assert(views(pieces@) =~= prior.push(added));
                i += 1;
            }
            assert(all.take(i as int) =~= all);
            "[".to_owned().concat(joined(&pieces, ", ").as_str()).concat("]")
        },
        Json::Object(fields) => {
            let ghost all = fields_view(fields@);
            proof {
                object_view_is(*fields);
            }
            let mut entries: Vec<(String, EntryText)> = Vec::new();
            let mut i: usize = 0;
            assert(keyed(entries@) =~= arranged(python_fields(all.take(0))));
            while i < fields.len()
                invariant
                    i <= fields.len(),
                    *value == Json::Object(*fields),
                    all == fields_view(fields@),
                    keyed(entries@) == arranged(python_fields(all.take(i as int))),
                decreases fields.len() - i,
            {
                proof {
                    assert(decreases_to!(*value => value->Object_0));
                    assert(decreases_to!(value->Object_0 => value->Object_0@));
                    assert(decreases_to!(value->Object_0@ => value->Object_0@[i as int]));
                    assert(decreases_to!(value->Object_0@[i as int] => value->Object_0@[i as int].1));
                    assert(all.take(i + 1).drop_last() =~= all.take(i as int));
                    assert(all.take(i + 1)[i as int] == (
                        fields@[i as int].0@,
                        fields@[i as int].1@,
                    ));
                }
                let key = &fields[i].0;
                let text = python_json_string(key.as_str()).concat(": ").concat(
                    python_json(&fields[i].1).as_str(),
                );
                proof {
                    let next = python_fields(all.take(i + 1));
                    assert(next.drop_last() =~= python_fields(all.take(i as int)));
                    assert(next.last() == (key@, text@));
                }
                place(&mut entries, key.clone(), EntryText { text });
                i += 1;
            }
            assert(all.take(i as int) =~= all);
            "{".to_owned().concat(joined(&texts_of(&entries), ", ").as_str()).concat("}")
        },
    }
}

} // verus!
