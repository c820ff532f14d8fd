//! Relations of a warehouse: their names, how they are written in SQL and when two of
//! them are the same one.

use crate::text::{ascii_upper, replace_char, replaced, same, to_ascii_upper};
use vstd::prelude::*;

verus! {

#[derive(Debug, Clone, Copy, PartialEq, Eq, Structural)]
pub enum AdapterType {
    Athena,
    Bigquery,
    Databricks,
    DuckDB,
    LakeCompute,
    Postgres,
    Redshift,
    Snowflake,
    Spark,
}

#[derive(Debug, Clone, Copy, PartialEq, Eq, Structural)]
pub enum RelationType {
    Table,
    View,
}

/// Which parts of a name are quoted.
#[derive(Debug, Clone, Copy, PartialEq, Eq, Structural)]
pub struct ResolvedQuoting {
    pub database: bool,
    pub schema: bool,
    pub identifier: bool,
}

impl ResolvedQuoting {
    pub fn trues() -> (r: ResolvedQuoting)
        ensures
            r == (ResolvedQuoting { database: true, schema: true, identifier: true }),
    {
        ResolvedQuoting { database: true, schema: true, identifier: true }
    }

    pub fn falses() -> (r: ResolvedQuoting)
        ensures
            r == (ResolvedQuoting { database: false, schema: false, identifier: false }),
    {
        ResolvedQuoting { database: false, schema: false, identifier: false }
    }
}

/// A relation of a warehouse, named by its three parts.
#[derive(Debug)]
pub struct Relation {
    pub adapter_type: AdapterType,
    pub database: String,
    pub schema: String,
    pub identifier: String,
    pub relation_type: Option<RelationType>,
    pub quoting: ResolvedQuoting,
}

pub struct RelationView {
    pub adapter_type: AdapterType,
    pub database: Seq<char>,
    pub schema: Seq<char>,
    pub identifier: Seq<char>,
    pub relation_type: Option<RelationType>,
    pub quoting: ResolvedQuoting,
}

impl View for Relation {
    type V = RelationView;

    open spec fn view(&self) -> RelationView {
        RelationView {
            adapter_type: self.adapter_type,
            database: self.database@,
            schema: self.schema@,
            identifier: self.identifier@,
            relation_type: self.relation_type,
            quoting: self.quoting,
        }
    }
}

impl DeepView for Relation {
    type V = RelationView;

    open spec fn deep_view(&self) -> RelationView {
        self@
    }
}

/// One part of a name as SQL writes it: in double quotes, which are doubled inside, or as
/// it stands.
pub open spec fn written(part: Seq<char>, quoted: bool) -> Seq<char> {
    if quoted {
        "\""@ + replace_char(part, '"', "\"\""@) + "\""@
    } else {
        part
    }
}

/// The name of a relation as SQL writes it.
pub open spec fn rendered(r: RelationView) -> Seq<char> {
    written(r.database, r.quoting.database) + "."@ + written(r.schema, r.quoting.schema) + "."@
        + written(r.identifier, r.quoting.identifier)
}

/// One part of a name as the warehouse resolves it: what is not quoted is folded to
/// upper case.
pub open spec fn resolved(part: Seq<char>, quoted: bool) -> Seq<char> {
    if quoted {
        part
    } else {
        ascii_upper(part)
    }
}

/// The three parts of a relation's name as the warehouse resolves them.
pub open spec fn identity(r: RelationView) -> (Seq<char>, Seq<char>, Seq<char>) {
    (
        resolved(r.database, r.quoting.database),
        resolved(r.schema, r.quoting.schema),
        resolved(r.identifier, r.quoting.identifier),
    )
}

/// Two parts that resolve alike are alike when both are quoted.
pub proof fn quoted_parts_are_exact(a: Seq<char>, b: Seq<char>)
    ensures
        resolved(a, true) == resolved(b, true) <==> a == b,
{
}

/// The resolved parts of a name.
#[derive(Debug)]
pub struct Identity {
    pub database: String,
    pub schema: String,
    pub identifier: String,
}

impl View for Identity {
    type V = (Seq<char>, Seq<char>, Seq<char>);

    open spec fn view(&self) -> (Seq<char>, Seq<char>, Seq<char>) {
        (self.database@, self.schema@, self.identifier@)
    }
}

impl Identity {
    /// Both names resolve to one relation.
    pub fn is(&self, other: &Identity) -> (r: bool)
        ensures
            r == (self@ == other@),
    {
        same(self.database.as_str(), other.database.as_str()) && same(
            self.schema.as_str(),
            other.schema.as_str(),
        ) && same(self.identifier.as_str(), other.identifier.as_str())
    }
}

fn write_part(part: &str, quoted: bool) -> (r: String)
    ensures
        r@ == written(part@, quoted),
{
    if quoted {
        "\"".to_owned().concat(replaced(part, '"', "\"\"").as_str()).concat("\"")
    } else {
        part.to_owned()
    }
}

fn resolve_part(part: &str, quoted: bool) -> (r: String)
    ensures
        r@ == resolved(part@, quoted),
{
    if quoted {
        part.to_owned()
    } else {
        to_ascii_upper(part)
    }
}

impl Relation {
    pub fn new(
        adapter_type: AdapterType,
        database: &str,
        schema: &str,
        identifier: &str,
        relation_type: Option<RelationType>,
        quoting: ResolvedQuoting,
    ) -> (r: Relation)
        ensures
            r@ == (RelationView {
                adapter_type,
                database: database@,
                schema: schema@,
                identifier: identifier@,
                relation_type,
                quoting,
            }),
    {
        Relation {
            adapter_type,
            database: database.to_owned(),
            schema: schema.to_owned(),
            identifier: identifier.to_owned(),
            relation_type,
            quoting,
        }
    }

    /// The name as SQL writes it.
    pub fn render_self_as_str(&self) -> (r: String)
        ensures
            r@ == rendered(self@),
    {
        write_part(self.database.as_str(), self.quoting.database).concat(".").concat(
            write_part(self.schema.as_str(), self.quoting.schema).as_str(),
        ).concat(".").concat(
            write_part(self.identifier.as_str(), self.quoting.identifier).as_str(),
        )
    }

    /// The parts of the name as the warehouse resolves them. They are kept apart, so that
    /// a dot inside a quoted part does not move into another one.
    pub fn relation_identity(&self) -> (r: Identity)
        ensures
            r@ == identity(self@),
    {
        Identity {
            database: resolve_part(self.database.as_str(), self.quoting.database),
            schema: resolve_part(self.schema.as_str(), self.quoting.schema),
            identifier: resolve_part(self.identifier.as_str(), self.quoting.identifier),
        }
    }
}

} // verus!
