//! JSON values: what the warehouse driver is sent and what it answers with.

use crate::text::{same, to_chars, views};
use vstd::prelude::*;

verus! {

/// A JSON value. The fields of an object keep the order in which they were written; a
/// number that is no integer is kept as its text.
#[derive(Debug, PartialEq)]
pub enum Json {
    Null,
    Bool(bool),
    Int(i128),
    Real(String),
    Text(String),
    List(Vec<Json>),
    Object(Vec<(String, Json)>),
}

/// The mathematical JSON value.
pub enum JsonView {
    Null,
    Bool(bool),
    Int(int),
    Real(Seq<char>),
    Text(Seq<char>),
    List(Seq<JsonView>),
    Object(Seq<(Seq<char>, JsonView)>),
}

impl View for Json {
    type V = JsonView;

    open spec fn view(&self) -> JsonView
        decreases self,
    {
        match self {
            Json::Null => JsonView::Null,
            Json::Bool(b) => JsonView::Bool(*b),
            Json::Int(n) => JsonView::Int(*n as int),
            Json::Real(s) => JsonView::Real(s@),
            Json::Text(s) => JsonView::Text(s@),
            Json::List(items) => JsonView::List(
                Seq::new(
                    items@.len(),
                    |i: int|
                        if 0 <= i < items@.len() {
                            items@[i].view()
                        } else {
                            JsonView::Null
                        },
                ),
            ),
            Json::Object(fields) => {
                let values = Seq::new(
                    fields@.len(),
                    |i: int|
                        if 0 <= i < fields@.len() {
                            fields@[i].1.view()
                        } else {
                            JsonView::Null
                        },
                );
                JsonView::Object(values.map(|i: int, v: JsonView| (fields@[i].0@, v)))
            },
        }
    }
}

impl DeepView for Json {
    type V = JsonView;

    open spec fn deep_view(&self) -> JsonView {
        self@
    }
}

pub type FieldsView = Seq<(Seq<char>, JsonView)>;

/// An object without fields.
pub open spec fn nil() -> FieldsView {
    Seq::empty()
}

/// The views of a sequence of values.
pub open spec fn items_view(items: Seq<Json>) -> Seq<JsonView> {
    items.map_values(|j: Json| j@)
}

/// The views of a sequence of fields.
pub open spec fn fields_view(fields: Seq<(String, Json)>) -> FieldsView {
    fields.map_values(|f: (String, Json)| (f.0@, f.1@))
}

pub proof fn list_view_is(items: Vec<Json>)
    ensures
        Json::List(items)@ == JsonView::List(items_view(items@)),
{
    match Json::List(items)@ {
        JsonView::List(v) => assert(v =~= items_view(items@)),
        _ => {},
    }
}

pub proof fn object_view_is(fields: Vec<(String, Json)>)
    ensures
        Json::Object(fields)@ == JsonView::Object(fields_view(fields@)),
{
    let whole = Json::Object(fields);
    assert(whole is Object);
    assert(whole@ is Object);
    let v = whole@->Object_0;
    let w = fields_view(fields@);
    assert(v.len() == fields@.len());
    assert forall|i: int| 0 <= i < v.len() implies v[i] == w[i] by {
        assert(w[i] == (fields@[i].0@, fields@[i].1@));
    }
    assert(v =~= w);
}

// ---------------------------------------------------------------------------
// Reading
// ---------------------------------------------------------------------------

/// The index of the first field named `key`; the number of fields where there is none.
pub open spec fn place(fields: FieldsView, key: Seq<char>) -> int
    decreases fields.len(),
{
    if fields.len() == 0 {
        0
    } else if fields[0].0 == key {
        0
    } else {
        1 + place(fields.drop_first(), key)
    }
}

pub proof fn place_is_first(fields: FieldsView, key: Seq<char>)
    ensures
        0 <= place(fields, key) <= fields.len(),
        place(fields, key) < fields.len() ==> fields[place(fields, key)].0 == key,
        forall|i: int| 0 <= i < place(fields, key) ==> (#[trigger] fields[i]).0 != key,
    decreases fields.len(),
{
    if fields.len() > 0 && fields[0].0 != key {
        let rest = fields.drop_first();
        place_is_first(rest, key);
        let p = place(fields, key);
        assert(p < fields.len() ==> fields[p] == rest[p - 1]);
        assert forall|i: int| 0 <= i < p implies (#[trigger] fields[i]).0 != key by {
            if i > 0 {
                assert(fields[i] == rest[i - 1]);
            }
        }
    }
}

/// An index that satisfies what `place_is_first` says is the place.
pub proof fn place_is_unique(fields: FieldsView, key: Seq<char>, p: int)
    requires
        0 <= p <= fields.len(),
        p < fields.len() ==> fields[p].0 == key,
        forall|i: int| 0 <= i < p ==> (#[trigger] fields[i]).0 != key,
    ensures
        p == place(fields, key),
{
    place_is_first(fields, key);
    let q = place(fields, key);
    if q < p {
        assert(fields[q].0 != key);
    }
    if p < q {
        assert(fields[p].0 != key);
    }
}

/// The value of the field named `key`.
pub open spec fn field(fields: FieldsView, key: Seq<char>) -> Option<JsonView> {
    let p = place(fields, key);
    if p < fields.len() {
        Some(fields[p].1)
    } else {
        None
    }
}

/// The value of a field of an object; nothing where the value is no object.
pub open spec fn lookup(v: JsonView, key: Seq<char>) -> Option<JsonView> {
    match v {
        JsonView::Object(fields) => field(fields, key),
        _ => None,
    }
}

/// The value of a field of an object, and null where there is none.
pub open spec fn member(v: JsonView, key: Seq<char>) -> JsonView {
    match lookup(v, key) {
        Some(found) => found,
        None => JsonView::Null,
    }
}

pub open spec fn text_of(v: JsonView) -> Option<Seq<char>> {
    match v {
        JsonView::Text(s) => Some(s),
        _ => None,
    }
}

/// The text of a field that holds a text.
pub open spec fn text_at(v: JsonView, key: Seq<char>) -> Option<Seq<char>> {
    text_of(member(v, key))
}

/// The items of a list; none where the value is no list.
pub open spec fn items_of(v: JsonView) -> Seq<JsonView> {
    match v {
        JsonView::List(items) => items,
        _ => Seq::empty(),
    }
}

/// The text of a number that is not zero.
pub open spec fn is_nonzero(s: Seq<char>) -> bool {
    exists|i: int| 0 <= i < s.len() && '1' <= #[trigger] s[i] <= '9'
}

/// A value counts as true: it is true, a number that is not zero, or not empty.
pub open spec fn is_true(v: JsonView) -> bool {
    match v {
        JsonView::Null => false,
        JsonView::Bool(b) => b,
        JsonView::Int(n) => n != 0,
        JsonView::Real(s) => is_nonzero(s),
        JsonView::Text(s) => s.len() > 0,
        JsonView::List(items) => items.len() > 0,
        JsonView::Object(fields) => fields.len() > 0,
    }
}

pub open spec fn or_empty(s: Option<Seq<char>>) -> Seq<char> {
    match s {
        Some(t) => t,
        None => Seq::empty(),
    }
}

/// The view of an optional string.
pub open spec fn opt(s: Option<String>) -> Option<Seq<char>> {
    match s {
        Some(t) => Some(t@),
        None => None,
    }
}

/// The view of an optional string slice.
pub open spec fn opt_str(s: Option<&str>) -> Option<Seq<char>> {
    match s {
        Some(t) => Some(t@),
        None => None,
    }
}

pub open spec fn opt_json(j: Option<&Json>) -> Option<JsonView> {
    match j {
        Some(v) => Some(v@),
        None => None,
    }
}

/// The index of the first field named `key`.
pub fn place_of(fields: &Vec<(String, Json)>, key: &str) -> (p: usize)
    ensures
        p == place(fields_view(fields@), key@),
        p <= fields.len(),
{
    let mut i: usize = 0;
    let ghost view = fields_view(fields@);
    while i < fields.len()
        invariant
            i <= fields.len(),
            view == fields_view(fields@),
            forall|j: int| 0 <= j < i ==> (#[trigger] view[j]).0 != key@,
        decreases fields.len() - i,
    {
        if same(fields[i].0.as_str(), key) {
            proof {
                assert(view[i as int].0 == key@);
                place_is_unique(view, key@, i as int);
            }
            return i;
        }
        i += 1;
    }
    proof {
        place_is_unique(view, key@, i as int);
    }
    i
}

/// The value of the field named `key`.
pub fn field_of<'a>(fields: &'a Vec<(String, Json)>, key: &str) -> (r: Option<&'a Json>)
    ensures
        opt_json(r) == field(fields_view(fields@), key@),
{
    let p = place_of(fields, key);
    if p < fields.len() {
        Some(&fields[p].1)
    } else {
        None
    }
}

fn has_nonzero_digit(s: &str) -> (r: bool)
    ensures
        r == is_nonzero(s@),
{
    let chars = to_chars(s);
    let mut i: usize = 0;
    while i < chars.len()
        invariant
            i <= chars.len(),
            chars@ == s@,
            forall|j: int| 0 <= j < i ==> !('1' <= #[trigger] s@[j] <= '9'),
        decreases chars.len() - i,
    {
        if '1' <= chars[i] && chars[i] <= '9' {
            assert('1' <= s@[i as int] <= '9');
            return true;
        }
        i += 1;
    }
    false
}

impl Json {
    pub fn copy(&self) -> (r: Json)
        ensures
            r@ == self@,
        decreases self,
    {
        match self {
            Json::Null => Json::Null,
            Json::Bool(b) => Json::Bool(*b),
            Json::Int(n) => Json::Int(*n),
            Json::Real(s) => Json::Real(s.clone()),
            Json::Text(s) => Json::Text(s.clone()),
            Json::List(items) => {
                let mut out: Vec<Json> = Vec::new();
                let mut i: usize = 0;
                while i < items.len()
                    invariant
                        i <= items.len(),
                        self == Json::List(*items),
                        out.len() == i,
                        forall|j: int| 0 <= j < i ==> (#[trigger] out@[j])@ == items@[j]@,
                    decreases items.len() - i,
                {
                    proof {
                        assert(decreases_to!(*self => self->List_0));
                        assert(decreases_to!(self->List_0 => self->List_0@));
                        assert(decreases_to!(self->List_0@ => self->List_0@[i as int]));
                    }
                    out.push(items[i].copy());
                    i += 1;
                }
                proof {
                    list_view_is(out);
                    list_view_is(*items);
                    assert(items_view(out@) =~= items_view(items@));
                }
                Json::List(out)
            },
            Json::Object(fields) => {
                let mut out: Vec<(String, Json)> = Vec::new();
                let mut i: usize = 0;
                while i < fields.len()
                    invariant
                        i <= fields.len(),
                        self == Json::Object(*fields),
                        out.len() == i,
                        forall|j: int|
                            0 <= j < i ==> (#[trigger] out@[j]).0@ == fields@[j].0@ && out@[j].1@
                                == fields@[j].1@,
                    decreases fields.len() - i,
                {
                    proof {
                        assert(decreases_to!(*self => self->Object_0));
                        assert(decreases_to!(self->Object_0 => self->Object_0@));
                        assert(decreases_to!(self->Object_0@ => self->Object_0@[i as int]));
                        assert(decreases_to!(
                            self->Object_0@[i as int] => self->Object_0@[i as int].1
                        ));
                    }
                    out.push((fields[i].0.clone(), fields[i].1.copy()));
                    i += 1;
                }
                proof {
                    object_view_is(out);
                    object_view_is(*fields);
                    assert(fields_view(out@) =~= fields_view(fields@));
                }
                Json::Object(out)
            },
        }
    }

    /// The value of a field, where the value is an object that has it.
    pub fn get<'a>(&'a self, key: &str) -> (r: Option<&'a Json>)
        ensures
            opt_json(r) == lookup(self@, key@),
    {
        match self {
            Json::Object(fields) => {
                proof {
                    object_view_is(*fields);
                }
                field_of(fields, key)
            },
            _ => None,
        }
    }

    pub fn as_str<'a>(&'a self) -> (r: Option<&'a str>)
        ensures
            opt_str(r) == text_of(self@),
    {
        match self {
            Json::Text(s) => Some(s.as_str()),
            _ => None,
        }
    }

    /// The text of a field that holds a text.
    pub fn str_at<'a>(&'a self, key: &str) -> (r: Option<&'a str>)
        ensures
            opt_str(r) == text_at(self@, key@),
    {
        match self.get(key) {
            Some(found) => found.as_str(),
            None => None,
        }
    }

    pub fn as_bool(&self) -> (r: Option<bool>)
        ensures
            r == match self@ {
                JsonView::Bool(b) => Some(b),
                _ => None,
            },
    {
        match self {
            Json::Bool(b) => Some(*b),
            _ => None,
        }
    }

    /// The value counts as true.
    pub fn truth(&self) -> (r: bool)
        ensures
            r == is_true(self@),
    {
        match self {
            Json::Null => false,
            Json::Bool(b) => *b,
            Json::Int(n) => *n != 0,
            Json::Real(s) => has_nonzero_digit(s.as_str()),
            Json::Text(s) => !s.as_str().is_empty(),
            Json::List(items) => {
                proof {
                    list_view_is(*items);
                }
                items.len() > 0
            },
            Json::Object(fields) => {
                proof {
                    object_view_is(*fields);
                }
                fields.len() > 0
            },
        }
    }

    pub fn is_null(&self) -> (r: bool)
        ensures
            r == (self@ == JsonView::Null),
    {
        match self {
            Json::Null => true,
            _ => false,
        }
    }

    /// A copy of the items of a list; none where the value is no list.
    pub fn items(&self) -> (r: Vec<Json>)
        ensures
            items_view(r@) == items_of(self@),
    {
        let copied = self.copy();
        match copied {
            Json::List(items) => {
                proof {
                    list_view_is(items);
                }
                items
            },
            _ => {
                let none: Vec<Json> = Vec::new();
                assert(items_view(none@) =~= items_of(self@));
                none
            },
        }
    }
}

/// The text of an optional slice, empty where there is none.
pub fn text_or_empty(s: Option<&str>) -> (r: String)
    ensures
        r@ == or_empty(opt_str(s)),
{
    match s {
        Some(t) => t.to_owned(),
        None => String::new(),
    }
}

/// An owned copy of an optional slice.
pub fn owned(s: Option<&str>) -> (r: Option<String>)
    ensures
        opt(r) == opt_str(s),
{
    match s {
        Some(t) => Some(t.to_owned()),
        None => None,
    }
}

// ---------------------------------------------------------------------------
// Building
// ---------------------------------------------------------------------------

/// The fields after `key` was set to `value`: in its place where the field was there, at
/// the end where it was not.
pub open spec fn put(fields: FieldsView, key: Seq<char>, value: JsonView) -> FieldsView {
    let p = place(fields, key);
    if p < fields.len() {
        fields.update(p, (key, value))
    } else {
        fields.push((key, value))
    }
}

/// What is put into an object is found there, and every other field is as it was.
pub proof fn put_then_field(fields: FieldsView, key: Seq<char>, value: JsonView, other: Seq<char>)
    ensures
        field(put(fields, key, value), key) == Some(value),
        other != key ==> field(put(fields, key, value), other) == field(fields, other),
{
    let after = put(fields, key, value);
    place_is_first(fields, key);
    let p = place(fields, key);
    place_is_unique(after, key, p);
    if other != key {
        place_is_first(fields, other);
        let q = place(fields, other);
        if q < fields.len() {
            assert forall|i: int| 0 <= i < q implies (#[trigger] after[i]).0 != other by {
                assert(fields[i].0 != other);
            }
            place_is_unique(after, other, q);
        } else {
            assert forall|i: int| 0 <= i < after.len() implies (#[trigger] after[i]).0
                != other by {
                if i < fields.len() {
                    assert(fields[i].0 != other);
                }
            }
            place_is_unique(after, other, after.len() as int);
        }
    }
}

/// An object under construction.
pub struct Fields {
    pub pairs: Vec<(String, Json)>,
}

impl View for Fields {
    type V = FieldsView;

    open spec fn view(&self) -> FieldsView {
        fields_view(self.pairs@)
    }
}

impl Fields {
    pub fn new() -> (r: Fields)
        ensures
            r@ == Seq::<(Seq<char>, JsonView)>::empty(),
    {
        let r = Fields { pairs: Vec::new() };
        assert(r@ =~= Seq::<(Seq<char>, JsonView)>::empty());
        r
    }

    /// The fields and one more at the end.
    pub fn with(self, key: &str, value: Json) -> (r: Fields)
        ensures
            r@ == self@.push((key@, value@)),
    {
        let mut pairs = self.pairs;
        pairs.push((key.to_owned(), value));
        let r = Fields { pairs };
        assert(r@ =~= self@.push((key@, value@)));
        r
    }

    /// The fields and one more text at the end.
    pub fn text(self, key: &str, value: &str) -> (r: Fields)
        ensures
            r@ == self@.push((key@, JsonView::Text(value@))),
    {
        self.with(key, Json::Text(value.to_owned()))
    }

    /// The fields with `key` set to `value`.
    pub fn set(self, key: &str, value: Json) -> (r: Fields)
        ensures
            r@ == put(self@, key@, value@),
    {
        let mut pairs = self.pairs;
        let p = place_of(&pairs, key);
        if p < pairs.len() {
            pairs.set(p, (key.to_owned(), value));
        } else {
            pairs.push((key.to_owned(), value));
        }
        let r = Fields { pairs };
        assert(r@ =~= put(self@, key@, value@));
        r
    }

    pub fn copy(&self) -> (r: Fields)
        ensures
            r@ == self@,
    {
        let mut pairs: Vec<(String, Json)> = Vec::new();
        let mut i: usize = 0;
        while i < self.pairs.len()
            invariant
                i <= self.pairs.len(),
                pairs.len() == i,
                forall|j: int|
                    0 <= j < i ==> (#[trigger] pairs@[j]).0@ == self.pairs@[j].0@ && pairs@[j].1@
                        == self.pairs@[j].1@,
            decreases self.pairs.len() - i,
        {
            pairs.push((self.pairs[i].0.clone(), self.pairs[i].1.copy()));
            i += 1;
        }
        let r = Fields { pairs };
        assert(r@ =~= self@);
        r
    }

    /// The value of the field named `key`.
    pub fn get<'a>(&'a self, key: &str) -> (r: Option<&'a Json>)
        ensures
            opt_json(r) == field(self@, key@),
    {
        field_of(&self.pairs, key)
    }

    pub fn object(self) -> (r: Json)
        ensures
            r@ == JsonView::Object(self@),
    {
        proof {
            object_view_is(self.pairs);
        }
        Json::Object(self.pairs)
    }
}

/// An object without fields.
pub fn fields() -> (r: Fields)
    ensures
        r@ == Seq::<(Seq<char>, JsonView)>::empty(),
{
    Fields::new()
}

/// A list of JSON values.
pub fn list(items: Vec<Json>) -> (r: Json)
    ensures
        r@ == JsonView::List(items_view(items@)),
{
    proof {
        list_view_is(items);
    }
    Json::List(items)
}

/// A list with one item.
pub fn single(item: Json) -> (r: Json)
    ensures
        r@ == JsonView::List(seq![item@]),
{
    let mut items: Vec<Json> = Vec::new();
    items.push(item);
    assert(items_view(items@) =~= seq![item@]);
    list(items)
}

pub open spec fn texts_view(texts: Seq<Seq<char>>) -> JsonView {
    JsonView::List(texts.map_values(|t: Seq<char>| JsonView::Text(t)))
}

/// A list of texts.
pub fn texts(items: &Vec<String>) -> (r: Json)
    ensures
        r@ == texts_view(views(items@)),
{
    let mut out: Vec<Json> = Vec::new();
    let mut i: usize = 0;
    while i < items.len()
        invariant
            i <= items.len(),
            out.len() == i,
            forall|j: int| 0 <= j < i ==> (#[trigger] out@[j])@ == JsonView::Text(items@[j]@),
        decreases items.len() - i,
    {
        out.push(Json::Text(items[i].clone()));
        i += 1;
    }
    assert(items_view(out@) =~= views(items@).map_values(|t: Seq<char>| JsonView::Text(t)));
    list(out)
}

} // verus!
