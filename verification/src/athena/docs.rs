//! The documentation of a model, as Glue is to hold it.

use crate::number::{decimal, decimal_of, parse_usize, unsigned};
use crate::text::{
    head, head_of, is_trimmed, join, joined, one_piece, pieces_hold_no_separator, split, splitted,
    to_chars, trim, trim_trims, trimmed, trimmed_stays, views,
};
use crate::value::{attribute, kind_name, missing, Value, ValueKind};
use vstd::prelude::*;

verus! {

/// The longest key of a Glue table parameter.
pub const TABLE_PARAMETER_KEY_MAX_LENGTH: usize = 255;

/// The longest value of a Glue table parameter.
pub const TABLE_PARAMETER_VALUE_MAX_LENGTH: usize = 512_000;

/// The longest description of a table.
pub const TABLE_DESCRIPTION_MAX_LENGTH: usize = 2048;

/// The longest comment of a column.
pub const COLUMN_COMMENT_MAX_LENGTH: usize = 255;

// ---------------------------------------------------------------------------
// Texts
// ---------------------------------------------------------------------------

/// The lines of a text, trimmed, without the empty ones.
pub open spec fn filled_lines(lines: Seq<Seq<char>>) -> Seq<Seq<char>>
    decreases lines.len(),
{
    if lines.len() == 0 {
        Seq::empty()
    } else {
        let rest = filled_lines(lines.drop_last());
        let line = trim(lines.last());
        if line.len() == 0 {
            rest
        } else {
            rest.push(line)
        }
    }
}

/// A comment on one line: its lines trimmed, the empty ones left out, with a space between.
pub open spec fn clean_comment(comment: Seq<char>) -> Seq<char> {
    join(filled_lines(split(comment, '\n')), " "@)
}

proof fn filled_lines_are_trimmed(lines: Seq<Seq<char>>)
    requires
        forall|i: int| 0 <= i < lines.len() ==> !(#[trigger] lines[i]).contains('\n'),
    ensures
        forall|i: int|
            #![trigger filled_lines(lines)[i]]
            0 <= i < filled_lines(lines).len() ==> filled_lines(lines)[i].len() > 0 && is_trimmed(
                filled_lines(lines)[i],
            ) && !filled_lines(lines)[i].contains('\n'),
    decreases lines.len(),
{
    if lines.len() > 0 {
        let front = lines.drop_last();
        assert forall|i: int| 0 <= i < front.len() implies !(#[trigger] front[i]).contains(
            '\n',
        ) by {
            assert(front[i] == lines[i]);
        }
        filled_lines_are_trimmed(front);
        let line = trim(lines.last());
        trim_trims(lines.last());
        assert(lines[lines.len() - 1] == lines.last());
        if line.contains('\n') {
            let k = choose|k: int| 0 <= k < line.len() && line[k] == '\n';
            assert(lines.last().contains(line[k]));
        }
        let rest = filled_lines(front);
        let all = filled_lines(lines);
        assert forall|i: int|
            #![trigger all[i]]
            0 <= i < all.len() implies all[i].len() > 0 && is_trimmed(all[i]) && !all[i].contains(
            '\n',
        ) by {
            if i < rest.len() {
                assert(all[i] == rest[i]);
            } else {
                assert(all[i] == line);
            }
        }
    }
}

proof fn joined_lines_are_one(lines: Seq<Seq<char>>)
    requires
        forall|i: int|
            #![trigger lines[i]]
            0 <= i < lines.len() ==> lines[i].len() > 0 && is_trimmed(lines[i])
                && !lines[i].contains('\n'),
    ensures
        is_trimmed(join(lines, " "@)),
        !join(lines, " "@).contains('\n'),
        lines.len() > 0 ==> join(lines, " "@).len() > 0 && join(lines, " "@)[0] == lines[0][0],
    decreases lines.len(),
{
    let all = join(lines, " "@);
    if lines.len() == 1 {
        assert(!lines[0].contains('\n'));
    } else if lines.len() > 1 {
        let front = lines.drop_last();
        let last = lines.last();
        assert forall|i: int|
            #![trigger front[i]]
            0 <= i < front.len() implies front[i].len() > 0 && is_trimmed(front[i])
            && !front[i].contains('\n') by {
            assert(front[i] == lines[i]);
        }
        joined_lines_are_one(front);
        assert(lines[lines.len() - 1] == last);
        assert(lines[0] == front[0]);
        reveal_strlit(" ");
        let before = join(front, " "@);
        assert(all == before + " "@ + last);
        assert(all.last() == last.last());
        if all.contains('\n') {
            let k = choose|k: int| 0 <= k < all.len() && all[k] == '\n';
            if k < before.len() {
                assert(before[k] == '\n');
            } else if k > before.len() {
                assert(last[k - before.len() - 1] == '\n');
            } else {
                assert(" "@[0] == '\n');
            }
        }
    }
}

/// A cleaned comment is one line without white space at its ends, and cleaning it again
/// changes nothing.
pub proof fn a_clean_comment_stays(comment: Seq<char>)
    ensures
        !clean_comment(comment).contains('\n'),
        trim(clean_comment(comment)) == clean_comment(comment),
        clean_comment(clean_comment(comment)) == clean_comment(comment),
{
    let cleaned = clean_comment(comment);
    let lines = filled_lines(split(comment, '\n'));
    pieces_hold_no_separator(comment, '\n');
    filled_lines_are_trimmed(split(comment, '\n'));
    joined_lines_are_one(lines);
    trimmed_stays(cleaned);
    one_piece(cleaned, '\n');
    let again = seq![cleaned];
    assert(again.drop_last() =~= Seq::empty());
    assert(filled_lines(again.drop_last()) =~= Seq::empty());
    if cleaned.len() == 0 {
        assert(filled_lines(again) =~= Seq::empty());
        assert(join(filled_lines(again), " "@) =~= cleaned);
    } else {
        assert(filled_lines(again) =~= seq![cleaned]);
    }
}

pub fn clean_sql_comment(comment: &str) -> (r: String)
    ensures
        r@ == clean_comment(comment@),
{
    let lines = splitted(comment, '\n');
    let mut kept: Vec<String> = Vec::new();
    let mut i: usize = 0;
    while i < lines.len()
        invariant
            i <= lines.len(),
            views(kept@) == filled_lines(views(lines@).take(i as int)),
        decreases lines.len() - i,
    {
        assert(views(lines@).take(i + 1).drop_last() =~= views(lines@).take(i as int));
        let line = trimmed(lines[i].as_str());
        if !line.as_str().is_empty() {
            let ghost before = views(kept@);
            kept.push(line);
            assert(views(kept@) =~= before.push(line@));
        }
        i += 1;
    }
    assert(views(lines@).take(i as int) =~= views(lines@));
    joined(&kept, " ")
}

/// A text cut to a length, with an ellipsis in place of what was cut off. Where the length
/// leaves no room for the ellipsis, the ellipsis alone.
pub open spec fn cut(s: Seq<char>, max_len: int) -> Seq<char> {
    if s.len() > max_len {
        s.take(if max_len >= 3 {
            max_len - 3
        } else {
            0
        }) + "..."@
    } else {
        s
    }
}

pub fn ellipsis_comment(s: &str, max_len: usize) -> (r: String)
    ensures
        r@ == cut(s@, max_len as int),
{
    if to_chars(s).len() > max_len {
        let n: usize = if max_len >= 3 {
            max_len - 3
        } else {
            0
        };
        head_of(s, n).concat("...")
    } else {
        s.to_owned()
    }
}

/// A cut text is no longer than the length, where that leaves room for the ellipsis.
pub proof fn cut_fits(s: Seq<char>, max_len: int)
    requires
        max_len >= 3,
    ensures
        cut(s, max_len).len() <= max_len,
{
    reveal_strlit("...");
}

/// A character that a table parameter key may hold.
pub open spec fn key_char(c: char) -> bool {
    c == '\t' || 0x20 <= c as u32 <= 0xD7FF || 0xE000 <= c as u32 <= 0xFFFD
}

/// A key that Glue accepts for a table parameter.
pub open spec fn valid_key(key: Seq<char>) -> bool {
    key.len() <= TABLE_PARAMETER_KEY_MAX_LENGTH && forall|i: int|
        0 <= i < key.len() ==> key_char(#[trigger] key[i])
}

pub fn is_valid_table_parameter_key(key: &str) -> (r: bool)
    ensures
        r == valid_key(key@),
{
    let chars = to_chars(key);
    if chars.len() > TABLE_PARAMETER_KEY_MAX_LENGTH {
        return false;
    }
    let mut i: usize = 0;
    while i < chars.len()
        invariant
            i <= chars.len(),
            chars@ == key@,
            forall|j: int| 0 <= j < i ==> key_char(#[trigger] key@[j]),
        decreases chars.len() - i,
    {
        let c = chars[i];
        let n: u32 = c as u32;
        if !(c == '\t' || (0x20 <= n && n <= 0xD7FF) || (0xE000 <= n && n <= 0xFFFD)) {
            assert(!key_char(key@[i as int]));
            return false;
        }
        i += 1;
    }
    true
}

/// A value as a table parameter: maps and lists as JSON, truth and absence as Python
/// writes them, everything else as it renders; at most the longest value that Glue takes.
pub open spec fn parameter_value(value: Value) -> Option<Seq<char>> {
    let rendered = match value.kind {
        ValueKind::Mapping | ValueKind::Sequence | ValueKind::Iterable => match value.json {
            Some(json) => Some(json@),
            None => None,
        },
        ValueKind::Undefined | ValueKind::Nothing => Some("None"@),
        ValueKind::Boolean => Some(
            if value.truthy {
                "True"@
            } else {
                "False"@
            },
        ),
        _ => Some(value.text@),
    };
    match rendered {
        Some(text) => Some(head(text, TABLE_PARAMETER_VALUE_MAX_LENGTH as int)),
        None => None,
    }
}

pub fn stringify_table_parameter_value(value: &Value) -> (r: Option<String>)
    ensures
        crate::json::opt(r) == parameter_value(*value),
{
    let rendered = match value.kind {
        ValueKind::Mapping | ValueKind::Sequence | ValueKind::Iterable => match &value.json {
            Some(json) => json.clone(),
            None => {
                return None;
            },
        },
        ValueKind::Undefined | ValueKind::Nothing => "None".to_owned(),
        ValueKind::Boolean => if value.truthy {
            "True".to_owned()
        } else {
            "False".to_owned()
        },
        _ => value.text.clone(),
    };
    Some(head_of(rendered.as_str(), TABLE_PARAMETER_VALUE_MAX_LENGTH))
}

// ---------------------------------------------------------------------------
// Arguments
// ---------------------------------------------------------------------------

/// The text of an argument that is there and not empty.
pub open spec fn argument_text(value: Option<Value>) -> Option<Seq<char>> {
    match value {
        Some(v) => if missing(v) || v.text@.len() == 0 {
            None
        } else {
            Some(v.text@)
        },
        None => None,
    }
}

pub open spec fn deref(v: Option<&Value>) -> Option<Value> {
    match v {
        Some(w) => Some(*w),
        None => None,
    }
}

pub fn optional_str(value: Option<&Value>) -> (r: Option<String>)
    ensures
        crate::json::opt(r) == argument_text(deref(value)),
{
    match value {
        Some(v) => if v.is_missing() || v.text.as_str().is_empty() {
            None
        } else {
            Some(v.text.clone())
        },
        None => None,
    }
}

/// The truth of an argument; an absent one is false.
pub open spec fn flag(value: Option<Value>) -> bool {
    match value {
        Some(v) => v.truthy,
        None => false,
    }
}

pub fn truth(value: Option<&Value>) -> (r: bool)
    ensures
        r == flag(deref(value)),
{
    match value {
        Some(v) => v.truthy,
        None => false,
    }
}

/// The entries of a map; none of an absent value. Anything else is refused.
pub open spec fn entries_of(value: Option<Value>) -> Result<Seq<(String, Value)>, Seq<char>> {
    match value {
        Some(v) => if missing(v) {
            Ok(Seq::empty())
        } else if v.kind == ValueKind::Mapping {
            Ok(v.entries@)
        } else {
            Err("expected a mapping, got "@ + kind_name(v.kind))
        },
        None => Ok(Seq::empty()),
    }
}

/// What is wrong with a value that should be a map.
pub fn map_error(value: Option<&Value>) -> (r: Option<String>)
    ensures
        match (r, entries_of(deref(value))) {
            (Some(e), Err(f)) => e@ == f,
            (None, Ok(entries)) => entries == (if value is Some && !missing(*value->0) {
                value->0.entries@
            } else {
                Seq::<(String, Value)>::empty()
            }),
            _ => false,
        },
{
    match value {
        Some(v) => if v.is_missing() {
            None
        } else {
            match v.kind {
                ValueKind::Mapping => None,
                _ => Some("expected a mapping, got ".to_owned().concat(v.kind.name())),
            }
        },
        None => None,
    }
}

/// A count that a macro hands over as a number or as text.
pub open spec fn count_of(value: Value, name: Seq<char>) -> Result<int, Seq<char>> {
    match value.integer {
        Some(n) => if 0 <= n <= usize::MAX {
            Ok(n as int)
        } else {
            Err(name + " must be >= 0, got "@ + decimal(n as int))
        },
        None => match value.string {
            Some(s) => match unsigned(trim(s@)) {
                Some(n) => if n <= usize::MAX {
                    Ok(n)
                } else {
                    Err(name + " must be an integer, got '"@ + s@ + "'"@)
                },
                None => Err(name + " must be an integer, got '"@ + s@ + "'"@),
            },
            None => Err(name + " must be an integer, got "@ + kind_name(value.kind)),
        },
    }
}

pub fn to_usize(value: &Value, name: &str) -> (r: Result<usize, String>)
    ensures
        match (r, count_of(*value, name@)) {
            (Ok(n), Ok(m)) => n == m,
            (Err(e), Err(f)) => e@ == f,
            _ => false,
        },
{
    if let Some(n) = value.integer {
        if n >= 0 && n as u64 <= usize::MAX as u64 {
            return Ok(n as usize);
        }
        return Err(
            name.to_owned().concat(" must be >= 0, got ").concat(decimal_of(n as i128).as_str()),
        );
    }
    match &value.string {
        Some(s) => match parse_usize(trimmed(s.as_str()).as_str()) {
            Some(n) => Ok(n),
            None => Err(
                name.to_owned().concat(" must be an integer, got '").concat(s.as_str()).concat(
                    "'",
                ),
            ),
        },
        None => Err(name.to_owned().concat(" must be an integer, got ").concat(value.kind.name())),
    }
}

// ---------------------------------------------------------------------------
// The documentation of a model
// ---------------------------------------------------------------------------

/// A parameter of a column.
#[derive(Debug, PartialEq)]
pub struct ColumnParameter {
    pub column: String,
    pub key: String,
    pub value: String,
}

/// What is to be written of a model: the description and parameters of its table where the
/// relation is documented, the descriptions and parameters of its columns where they are.
#[derive(Debug, PartialEq)]
pub struct Docs {
    pub table_description: Option<String>,
    pub table_parameters: Vec<(String, String)>,
    pub column_descriptions: Vec<(String, String)>,
    pub column_parameters: Vec<ColumnParameter>,
    pub skip_archive_table_version: bool,
}

pub type Pairs = Seq<(Seq<char>, Seq<char>)>;

pub type Triples = Seq<(Seq<char>, Seq<char>, Seq<char>)>;

pub open spec fn pairs(v: Seq<(String, String)>) -> Pairs {
    v.map_values(|p: (String, String)| (p.0@, p.1@))
}

pub open spec fn triples(v: Seq<ColumnParameter>) -> Triples {
    v.map_values(|p: ColumnParameter| (p.column@, p.key@, p.value@))
}

/// The parameter that a `meta` entry becomes, where its key and value can be written. A
/// value that is not there is written as `None`.
pub open spec fn parameter(key: Seq<char>, value: Option<Value>) -> Option<(Seq<char>, Seq<char>)> {
    if valid_key(key) {
        match value {
            Some(v) => match parameter_value(v) {
                Some(text) => Some((key, text)),
                None => None,
            },
            None => Some((key, "None"@)),
        }
    } else {
        None
    }
}

pub open spec fn with_parameter(
    before: Pairs,
    parameter: Option<(Seq<char>, Seq<char>)>,
) -> Pairs {
    match parameter {
        Some(p) => before.push(p),
        None => before,
    }
}

pub open spec fn meta_parameters(entries: Seq<(String, Value)>) -> Pairs
    decreases entries.len(),
{
    if entries.len() == 0 {
        Seq::empty()
    } else {
        with_parameter(
            meta_parameters(entries.drop_last()),
            parameter(entries.last().0@, Some(entries.last().1)),
        )
    }
}

pub open spec fn attribute_of(value: Option<Value>, key: Seq<char>) -> Option<Value> {
    match value {
        Some(v) => attribute(v, key),
        None => None,
    }
}

/// A description on one line, cut to a length.
pub open spec fn description(value: Option<Value>, max_len: int) -> Seq<char> {
    let text = match argument_text(value) {
        Some(t) => t,
        None => Seq::empty(),
    };
    cut(clean_comment(text), max_len)
}

/// The parameters of a documented table: its `meta`, then what identifies the model.
pub open spec fn table_parameters(model: Value, project_name: Option<Value>) -> Result<
    Pairs,
    Seq<char>,
> {
    let config = attribute(model, "config"@);
    match entries_of(attribute_of(config, "meta"@)) {
        Ok(meta) => {
            let a = with_parameter(
                meta_parameters(meta),
                parameter("unique_id"@, attribute(model, "unique_id"@)),
            );
            let b = with_parameter(
                a,
                parameter("materialized"@, attribute_of(config, "materialized"@)),
            );
            Ok(
                if project_name is Some {
                    with_parameter(b, parameter("dbt_project_name"@, project_name))
                } else {
                    b
                },
            )
        },
        Err(e) => Err(e),
    }
}

/// The parameters of one column.
pub open spec fn column_meta(name: Seq<char>, meta: Seq<(String, Value)>) -> Triples {
    meta_parameters(meta).map_values(|p: (Seq<char>, Seq<char>)| (name, p.0, p.1))
}

/// The comments and the parameters of documented columns.
pub open spec fn column_docs(columns: Seq<(String, Value)>) -> Result<(Pairs, Triples), Seq<char>>
    decreases columns.len(),
{
    if columns.len() == 0 {
        Ok((Seq::empty(), Seq::empty()))
    } else {
        match column_docs(columns.drop_last()) {
            Ok((comments, parameters)) => {
                let name = columns.last().0@;
                let column = columns.last().1;
                match entries_of(attribute(column, "meta"@)) {
                    Ok(meta) => Ok(
                        (
                            comments.push(
                                (
                                    name,
                                    description(
                                        attribute(column, "description"@),
                                        COLUMN_COMMENT_MAX_LENGTH as int,
                                    ),
                                ),
                            ),
                            parameters + column_meta(name, meta),
                        ),
                    ),
                    Err(e) => Err(e),
                }
            },
            Err(e) => Err(e),
        }
    }
}

pub struct DocsView {
    pub table_description: Option<Seq<char>>,
    pub table_parameters: Pairs,
    pub column_descriptions: Pairs,
    pub column_parameters: Triples,
    pub skip_archive_table_version: bool,
}

impl View for Docs {
    type V = DocsView;

    open spec fn view(&self) -> DocsView {
        DocsView {
            table_description: crate::json::opt(self.table_description),
            table_parameters: pairs(self.table_parameters@),
            column_descriptions: pairs(self.column_descriptions@),
            column_parameters: triples(self.column_parameters@),
            skip_archive_table_version: self.skip_archive_table_version,
        }
    }
}

/// What is to be written of a model. The flags are read as truth values.
pub open spec fn model_docs(
    model: Value,
    persist_relation_docs: Option<Value>,
    persist_column_docs: Option<Value>,
    skip_archive_table_version: Option<Value>,
    project_name: Option<Value>,
) -> Result<DocsView, Seq<char>> {
    let relation = flag(persist_relation_docs);
    let table = if relation {
        table_parameters(model, project_name)
    } else {
        Ok(Seq::empty())
    };
    let columns = if flag(persist_column_docs) {
        match entries_of(attribute(model, "columns"@)) {
            Ok(entries) => column_docs(entries),
            Err(e) => Err(e),
        }
    } else {
        Ok((Seq::empty(), Seq::empty()))
    };
    match table {
        Err(e) => Err(e),
        Ok(parameters) => match columns {
            Err(e) => Err(e),
            Ok((comments, column_parameters)) => Ok(
                DocsView {
                    table_description: if relation {
                        Some(
                            description(
                                attribute(model, "description"@),
                                TABLE_DESCRIPTION_MAX_LENGTH as int,
                            ),
                        )
                    } else {
                        None
                    },
                    table_parameters: parameters,
                    column_descriptions: comments,
                    column_parameters,
                    skip_archive_table_version: flag(skip_archive_table_version),
                },
            ),
        },
    }
}

fn described(value: Option<&Value>, max_len: usize) -> (r: String)
    ensures
        r@ == description(deref(value), max_len as int),
{
    let text = match optional_str(value) {
        Some(t) => t,
        None => String::new(),
    };
    ellipsis_comment(clean_sql_comment(text.as_str()).as_str(), max_len)
}

/// Adds the parameter that a `meta` entry becomes.
fn add_parameter(parameters: &mut Vec<(String, String)>, key: &str, value: Option<&Value>)
    ensures
        pairs(final(parameters)@) == with_parameter(
            pairs(old(parameters)@),
            parameter(key@, deref(value)),
        ),
{
    if !is_valid_table_parameter_key(key) {
        return;
    }
    let text = match value {
        Some(v) => stringify_table_parameter_value(v),
        None => Some("None".to_owned()),
    };
    if let Some(t) = text {
        let ghost before = pairs(parameters@);
        parameters.push((key.to_owned(), t));
        assert(pairs(parameters@) =~= before.push((key@, t@)));
    }
}

fn parameters_of(entries: &Vec<(String, Value)>) -> (r: Vec<(String, String)>)
    ensures
        pairs(r@) == meta_parameters(entries@),
{
    let mut r: Vec<(String, String)> = Vec::new();
    let mut i: usize = 0;
    assert(pairs(r@) =~= meta_parameters(entries@.take(0)));
    while i < entries.len()
        invariant
            i <= entries.len(),
            pairs(r@) == meta_parameters(entries@.take(i as int)),
        decreases entries.len() - i,
    {
        assert(entries@.take(i + 1).drop_last() =~= entries@.take(i as int));
        add_parameter(&mut r, entries[i].0.as_str(), Some(&entries[i].1));
        i += 1;
    }
    assert(entries@.take(i as int) =~= entries@);
    r
}

/// The parameters of the entries of a value that should be a map.
fn meta_of(value: Option<&Value>) -> (r: Result<Vec<(String, String)>, String>)
    ensures
        match (r, entries_of(deref(value))) {
            (Ok(p), Ok(entries)) => pairs(p@) == meta_parameters(entries),
            (Err(e), Err(f)) => e@ == f,
            _ => false,
        },
{
    if let Some(e) = map_error(value) {
        return Err(e);
    }
    match value {
        Some(v) => if v.is_missing() {
            let none: Vec<(String, String)> = Vec::new();
            assert(pairs(none@) =~= Seq::empty());
            Ok(none)
        } else {
            Ok(parameters_of(&v.entries))
        },
        None => {
            let none: Vec<(String, String)> = Vec::new();
            assert(pairs(none@) =~= Seq::empty());
            Ok(none)
        },
    }
}

fn attr_of<'a>(value: Option<&'a Value>, key: &str) -> (r: Option<&'a Value>)
    ensures
        deref(r) == attribute_of(deref(value), key@),
{
    match value {
        Some(v) => v.attr(key),
        None => None,
    }
}

fn documented_table(model: &Value, project_name: Option<&Value>) -> (r: Result<
    Vec<(String, String)>,
    String,
>)
    ensures
        match (r, table_parameters(*model, deref(project_name))) {
            (Ok(p), Ok(q)) => pairs(p@) == q,
            (Err(e), Err(f)) => e@ == f,
            _ => false,
        },
{
    let config = model.attr("config");
    let mut parameters = match meta_of(attr_of(config, "meta")) {
        Ok(p) => p,
        Err(e) => {
            return Err(e);
        },
    };
    add_parameter(&mut parameters, "unique_id", model.attr("unique_id"));
    add_parameter(&mut parameters, "materialized", attr_of(config, "materialized"));
    if project_name.is_some() {
        add_parameter(&mut parameters, "dbt_project_name", project_name);
    }
    Ok(parameters)
}

fn documented_columns(columns: &Vec<(String, Value)>) -> (r: Result<
    (Vec<(String, String)>, Vec<ColumnParameter>),
    String,
>)
    ensures
        match (r, column_docs(columns@)) {
            (Ok((c, p)), Ok((d, q))) => pairs(c@) == d && triples(p@) == q,
            (Err(e), Err(f)) => e@ == f,
            _ => false,
        },
{
    let mut comments: Vec<(String, String)> = Vec::new();
    let mut parameters: Vec<ColumnParameter> = Vec::new();
    let mut i: usize = 0;
    assert(pairs(comments@) =~= Seq::empty());
    assert(triples(parameters@) =~= Seq::empty());
    while i < columns.len()
        invariant
            i <= columns.len(),
            column_docs(columns@.take(i as int)) == Ok::<(Pairs, Triples), Seq<char>>(
                (pairs(comments@), triples(parameters@)),
            ),
        decreases columns.len() - i,
    {
        assert(columns@.take(i + 1).drop_last() =~= columns@.take(i as int));
        let name = &columns[i].0;
        let column = &columns[i].1;
        let meta = match meta_of(column.attr("meta")) {
            Ok(p) => p,
            Err(e) => {
                proof {
                    errors_stay(columns@, i + 1);
                }
                return Err(e);
            },
        };
        let comment = described(column.attr("description"), COLUMN_COMMENT_MAX_LENGTH);
        let ghost before = pairs(comments@);
        comments.push((name.clone(), comment));
        assert(pairs(comments@) =~= before.push((name@, comment@)));
        let ghost kept = triples(parameters@);
        let ghost added = pairs(meta@).map_values(
            |p: (Seq<char>, Seq<char>)| (name@, p.0, p.1),
        );
        let mut k: usize = 0;
        assert(triples(parameters@) =~= kept + added.take(0));
        while k < meta.len()
            invariant
                k <= meta.len(),
                added == pairs(meta@).map_values(|p: (Seq<char>, Seq<char>)| (name@, p.0, p.1)),
                triples(parameters@) == kept + added.take(k as int),
            decreases meta.len() - k,
        {
            let ghost prior = triples(parameters@);
            parameters.push(
                ColumnParameter {
                    column: name.clone(),
                    key: meta[k].0.clone(),
                    value: meta[k].1.clone(),
                },
            );
            assert(triples(parameters@) =~= prior.push((name@, meta@[k as int].0@, meta@[k as int].1@)));
            assert(triples(parameters@) =~= kept + added.take(k + 1));
            k += 1;
        }
        assert(added.take(k as int) =~= added);
        i += 1;
    }
    assert(columns@.take(i as int) =~= columns@);
    Ok((comments, parameters))
}

/// A fault in the first columns is the fault of all of them.
proof fn errors_stay(columns: Seq<(String, Value)>, n: int)
    requires
        0 <= n <= columns.len(),
        column_docs(columns.take(n)) is Err,
    ensures
        column_docs(columns) == column_docs(columns.take(n)),
    decreases columns.len() - n,
{
    if n < columns.len() {
        assert(columns.take(n + 1).drop_last() =~= columns.take(n));
        errors_stay(columns, n + 1);
    } else {
        assert(columns.take(n) =~= columns);
    }
}

/// What is to be written of a model: the part of persisting documentation that decides
/// what Glue is to hold.
pub fn prepare_docs(
    model: &Value,
    persist_relation_docs: Option<&Value>,
    persist_column_docs: Option<&Value>,
    skip_archive_table_version: Option<&Value>,
    project_name: Option<&Value>,
) -> (r: Result<Docs, String>)
    ensures
        match (
            r,
            model_docs(
                *model,
                deref(persist_relation_docs),
                deref(persist_column_docs),
                deref(skip_archive_table_version),
                deref(project_name),
            ),
        ) {
            (Ok(d), Ok(e)) => d@ == e,
            (Err(e), Err(f)) => e@ == f,
            _ => false,
        },
{
    let relation = truth(persist_relation_docs);
    let mut table_description: Option<String> = None;
    let mut table_parameters: Vec<(String, String)> = Vec::new();
    assert(pairs(table_parameters@) =~= Seq::empty());
    if relation {
        table_description =
        Some(described(model.attr("description"), TABLE_DESCRIPTION_MAX_LENGTH));
        table_parameters =
        match documented_table(model, project_name) {
            Ok(p) => p,
            Err(e) => {
                return Err(e);
            },
        };
    }
    let mut column_descriptions: Vec<(String, String)> = Vec::new();
    let mut column_parameters: Vec<ColumnParameter> = Vec::new();
    assert(pairs(column_descriptions@) =~= Seq::empty());
    assert(triples(column_parameters@) =~= Seq::empty());
    if truth(persist_column_docs) {
        let columns = model.attr("columns");
        if let Some(e) = map_error(columns) {
            return Err(e);
        }
        if let Some(v) = columns {
            if !v.is_missing() {
                match documented_columns(&v.entries) {
                    Ok((c, p)) => {
                        column_descriptions = c;
                        column_parameters = p;
                    },
                    Err(e) => {
                        return Err(e);
                    },
                }
            }
        }
    }
    Ok(
        Docs {
            table_description,
            table_parameters,
            column_descriptions,
            column_parameters,
            skip_archive_table_version: truth(skip_archive_table_version),
        },
    )
}

} // verus!
