//! Values of the template language, as the adapter reads them.

use crate::json::{Json, JsonView};
use crate::text::{same, to_chars, views};
use vstd::prelude::*;

verus! {

/// The kind of a value.
#[derive(Debug, Clone, Copy, PartialEq, Eq, Structural)]
pub enum ValueKind {
    Undefined,
    Nothing,
    Boolean,
    Number,
    Str,
    Bytes,
    Sequence,
    Mapping,
    Iterable,
    Plain,
    Invalid,
}

/// What the template engine tells of a value: its kind and truth, the text that it renders
/// as, the string, the integer and the bytes that it is, its JSON value and text where it
/// has one, what it yields when it is walked where that is no string, and the entries of a
/// map with their keys rendered.
#[derive(Debug, PartialEq)]
pub struct Value {
    pub kind: ValueKind,
    pub truthy: bool,
    pub text: String,
    pub string: Option<String>,
    pub integer: Option<i64>,
    pub bytes: Option<Vec<u8>>,
    pub data: Option<Json>,
    pub json: Option<String>,
    pub items: Option<Vec<Value>>,
    pub entries: Vec<(String, Value)>,
}

/// The name of a kind in messages.
pub open spec fn kind_name(kind: ValueKind) -> Seq<char> {
    match kind {
        ValueKind::Undefined => "undefined"@,
        ValueKind::Nothing => "none"@,
        ValueKind::Boolean => "bool"@,
        ValueKind::Number => "number"@,
        ValueKind::Str => "string"@,
        ValueKind::Bytes => "bytes"@,
        ValueKind::Sequence => "sequence"@,
        ValueKind::Mapping => "map"@,
        ValueKind::Iterable => "iterator"@,
        ValueKind::Plain => "plain object"@,
        ValueKind::Invalid => "invalid value"@,
    }
}

/// The value is missing: undefined or none.
pub open spec fn missing(v: Value) -> bool {
    v.kind == ValueKind::Undefined || v.kind == ValueKind::Nothing
}

/// The place of the first entry with a key; the number of entries where there is none.
pub open spec fn entry_place(entries: Seq<(String, Value)>, key: Seq<char>) -> int
    decreases entries.len(),
{
    if entries.len() == 0 {
        0
    } else if entries[0].0@ == key {
        0
    } else {
        1 + entry_place(entries.drop_first(), key)
    }
}

/// The attribute of a value: the entry of a map with that key.
pub open spec fn attribute(v: Value, key: Seq<char>) -> Option<Value> {
    let p = entry_place(v.entries@, key);
    if v.kind == ValueKind::Mapping && 0 <= p < v.entries@.len() {
        Some(v.entries@[p].1)
    } else {
        None
    }
}

impl ValueKind {
    /// The name of the kind in messages.
    pub fn name(self) -> (r: &'static str)
        ensures
            r@ == kind_name(self),
    {
        match self {
            ValueKind::Undefined => "undefined",
            ValueKind::Nothing => "none",
            ValueKind::Boolean => "bool",
            ValueKind::Number => "number",
            ValueKind::Str => "string",
            ValueKind::Bytes => "bytes",
            ValueKind::Sequence => "sequence",
            ValueKind::Mapping => "map",
            ValueKind::Iterable => "iterator",
            ValueKind::Plain => "plain object",
            ValueKind::Invalid => "invalid value",
        }
    }
}

impl Value {
    pub fn is_missing(&self) -> (r: bool)
        ensures
            r == missing(*self),
    {
        match self.kind {
            ValueKind::Undefined | ValueKind::Nothing => true,
            _ => false,
        }
    }

    /// The attribute of a map with the given name.
    pub fn attr<'a>(&'a self, key: &str) -> (r: Option<&'a Value>)
        ensures
            match (r, attribute(*self, key@)) {
                (Some(v), Some(w)) => *v == w,
                (None, None) => true,
                _ => false,
            },
    {
        let mut i: usize = 0;
        assert(self.entries@.skip(0) =~= self.entries@);
        while i < self.entries.len()
            invariant
                i <= self.entries.len(),
                entry_place(self.entries@, key@) == i + entry_place(
                    self.entries@.skip(i as int),
                    key@,
                ),
            decreases self.entries.len() - i,
        {
            if same(self.entries[i].0.as_str(), key) {
                return match self.kind {
                    ValueKind::Mapping => Some(&self.entries[i].1),
                    _ => None,
                };
            }
            assert(self.entries@.skip(i as int).drop_first() =~= self.entries@.skip(i + 1));
            i += 1;
        }
        None
    }
}

impl Value {
    /// A string.
    pub fn of_text(s: &str) -> (r: Value)
        ensures
            is_text(r, s@),
    {
        Value {
            kind: ValueKind::Str,
            truthy: !s.is_empty(),
            text: s.to_owned(),
            string: Some(s.to_owned()),
            integer: None,
            bytes: Some(s.as_bytes_vec()),
            data: Some(Json::Text(s.to_owned())),
            json: None,
            items: None,
            entries: Vec::new(),
        }
    }
}

/// The value is a string.
pub open spec fn is_text(v: Value, s: Seq<char>) -> bool {
    &&& v.kind == ValueKind::Str
    &&& v.truthy == (s.len() > 0)
    &&& v.text@ == s
    &&& v.string matches Some(t) && t@ == s
    &&& v.integer is None
    &&& v.bytes matches Some(b) && b@ == vstd::utf8::encode_utf8(s)
    &&& v.data matches Some(d) && d@ == JsonView::Text(s)
    &&& v.items is None
    &&& v.entries@.len() == 0
}

/// The texts that what a value yields renders as: a string yields its characters. A value
/// that cannot be walked is an error.
pub open spec fn walked(v: Value) -> Result<Seq<Seq<char>>, Seq<char>> {
    match v.string {
        Some(s) => Ok(s@.map_values(|c: char| seq![c])),
        None => match v.items {
            Some(items) => Ok(items@.map_values(|i: Value| i.text@)),
            None => if missing(v) {
                Ok(Seq::empty())
            } else {
                Err(kind_name(v.kind) + " is not iterable"@)
            },
        },
    }
}

pub open spec fn walk_view(r: Result<Vec<String>, String>) -> Result<Seq<Seq<char>>, Seq<char>> {
    match r {
        Ok(texts) => Ok(views(texts@)),
        Err(e) => Err(e@),
    }
}

fn characters(s: &str) -> (r: Vec<String>)
    ensures
        views(r@) == s@.map_values(|c: char| seq![c]),
{
    let chars = to_chars(s);
    let mut r: Vec<String> = Vec::new();
    let mut i: usize = 0;
    while i < chars.len()
        invariant
            i <= chars.len(),
            chars@ == s@,
            r.len() == i,
            forall|j: int| 0 <= j < i ==> (#[trigger] r@[j])@ == seq![chars@[j]],
        decreases chars.len() - i,
    {
        let mut text = String::new();
        text.push(chars[i]);
        assert(text@ =~= seq![chars@[i as int]]);
        r.push(text);
        i += 1;
    }
    assert(views(r@) =~= s@.map_values(|c: char| seq![c]));
    r
}

impl Value {
    /// The texts that what the value yields renders as.
    pub fn walk(&self) -> (r: Result<Vec<String>, String>)
        ensures
            walk_view(r) == walked(*self),
    {
        if let Some(s) = &self.string {
            return Ok(characters(s.as_str()));
        }
        let items = match &self.items {
            Some(items) => items,
            None => {
                if self.is_missing() {
                    let none: Vec<String> = Vec::new();
                    assert(views(none@) =~= Seq::empty());
                    return Ok(none);
                }
                return Err(self.kind.name().to_owned().concat(" is not iterable"));
            },
        };
        let mut r: Vec<String> = Vec::new();
        let mut i: usize = 0;
        while i < items.len()
            invariant
                i <= items.len(),
                r.len() == i,
                forall|j: int| 0 <= j < i ==> (#[trigger] r@[j])@ == items@[j].text@,
            decreases items.len() - i,
        {
            r.push(items[i].text.clone());
            i += 1;
        }
        assert(views(r@) =~= items@.map_values(|i: Value| i.text@));
        Ok(r)
    }
}

} // verus!
