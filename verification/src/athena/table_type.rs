//! What a Glue table is to dbt.

use crate::json::{fields, opt_str, JsonView};
use crate::text::{ascii_lower, same, same_ignoring_case};
use crate::value::{attribute, is_text, Value, ValueKind};
use vstd::prelude::*;

verus! {

/// The kind of a relation in the Athena catalog.
#[derive(Debug, Clone, Copy, PartialEq, Eq, Structural)]
pub enum TableType {
    Table,
    View,
    Cte,
    MaterializedView,
    Iceberg,
}

impl DeepView for TableType {
    type V = TableType;

    open spec fn deep_view(&self) -> TableType {
        *self
    }
}

/// The name under which macros compare a table type.
pub open spec fn value_of(t: TableType) -> Seq<char> {
    match t {
        TableType::Table => "table"@,
        TableType::View => "view"@,
        TableType::Cte => "cte"@,
        TableType::MaterializedView => "materializedview"@,
        TableType::Iceberg => "iceberg_table"@,
    }
}

/// The table type that Glue's own name for it stands for.
pub open spec fn named_type(name: Seq<char>) -> Option<TableType> {
    if name == "EXTERNAL_TABLE"@ || name == "EXTERNAL"@ || name == "GOVERNED"@ || name
        == "MANAGED_TABLE"@ || name == "table"@ {
        Some(TableType::Table)
    } else if name == "VIRTUAL_VIEW"@ || name == "view"@ {
        Some(TableType::View)
    } else if name == "cte"@ {
        Some(TableType::Cte)
    } else if name == "materializedview"@ {
        Some(TableType::MaterializedView)
    } else {
        None
    }
}

/// The `table_type` parameter marks an Iceberg table.
pub open spec fn marks_iceberg(parameter: Option<Seq<char>>) -> bool {
    match parameter {
        Some(p) => ascii_lower(p) == ascii_lower("iceberg"@),
        None => false,
    }
}

/// The type of a Glue table: the Iceberg parameter wins over Glue's own type, which S3
/// Tables report as "customer".
pub open spec fn glue_type(
    glue_table_type: Option<Seq<char>>,
    parameter_table_type: Option<Seq<char>>,
    table_full_name: Seq<char>,
) -> Result<TableType, Seq<char>> {
    if marks_iceberg(parameter_table_type) {
        Ok(TableType::Iceberg)
    } else {
        match glue_table_type {
            Some(name) => match named_type(name) {
                Some(t) => Ok(t),
                None => Err(
                    "Table type "@ + name + " is not supported for table "@ + table_full_name,
                ),
            },
            None => Err("Table type cannot be None for table "@ + table_full_name),
        }
    }
}

/// A result whose error is a text, by its view.
pub open spec fn outcome<T>(r: Result<T, String>) -> Result<T, Seq<char>> {
    match r {
        Ok(t) => Ok(t),
        Err(e) => Err(e@),
    }
}

fn type_named(name: &str) -> (r: Option<TableType>)
    ensures
        r == named_type(name@),
{
    if same(name, "EXTERNAL_TABLE") || same(name, "EXTERNAL") || same(name, "GOVERNED") || same(
        name,
        "MANAGED_TABLE",
    ) || same(name, "table") {
        Some(TableType::Table)
    } else if same(name, "VIRTUAL_VIEW") || same(name, "view") {
        Some(TableType::View)
    } else if same(name, "cte") {
        Some(TableType::Cte)
    } else if same(name, "materializedview") {
        Some(TableType::MaterializedView)
    } else {
        None
    }
}

impl TableType {
    /// The name under which macros compare this type.
    pub fn value(self) -> (r: &'static str)
        ensures
            r@ == value_of(self),
    {
        match self {
            TableType::Table => "table",
            TableType::View => "view",
            TableType::Cte => "cte",
            TableType::MaterializedView => "materializedview",
            TableType::Iceberg => "iceberg_table",
        }
    }

    /// Whether relations of this type have data of their own in S3.
    pub fn is_physical(self) -> (r: bool)
        ensures
            r == (self == TableType::Table || self == TableType::Iceberg),
    {
        match self {
            TableType::Table | TableType::Iceberg => true,
            _ => false,
        }
    }

    /// The type of a Glue table, from its `TableType` and its `table_type` parameter.
    pub fn from_glue(
        glue_table_type: Option<&str>,
        parameter_table_type: Option<&str>,
        table_full_name: &str,
    ) -> (r: Result<TableType, String>)
        ensures
            outcome(r) == glue_type(
                opt_str(glue_table_type),
                opt_str(parameter_table_type),
                table_full_name@,
            ),
    {
        let iceberg = match parameter_table_type {
            Some(p) => same_ignoring_case(p, "iceberg"),
            None => false,
        };
        if iceberg {
            return Ok(TableType::Iceberg);
        }
        match glue_table_type {
            Some(name) => match type_named(name) {
                Some(t) => Ok(t),
                None => Err(
                    "Table type ".to_owned().concat(name).concat(
                        " is not supported for table ",
                    ).concat(table_full_name),
                ),
            },
            None => Err("Table type cannot be None for table ".to_owned().concat(table_full_name)),
        }
    }
}

impl TableType {
    /// The type as macros see it: a map whose entry `value` is its name.
    pub fn to_jinja(self) -> (r: Value)
        ensures
            r.kind == ValueKind::Mapping,
            r.truthy,
            r.text@ == "{\"value\": \""@ + value_of(self) + "\"}"@,
            r.json matches Some(j) && j@ == "{\"value\":\""@ + value_of(self) + "\"}"@,
            r.data matches Some(d) && d@ == JsonView::Object(
                Seq::empty().push(("value"@, JsonView::Text(value_of(self)))),
            ),
            r.string is None,
            r.integer is None,
            r.bytes is None,
            attribute(r, "value"@) matches Some(v) && is_text(v, value_of(self)),
            r.entries@.len() == 1,
            r.items matches Some(items) && items@.len() == 1 && is_text(items@[0], "value"@),
    {
        let value = self.value();
        let mut entries: Vec<(String, Value)> = Vec::new();
        entries.push(("value".to_owned(), Value::of_text(value)));
        let mut items: Vec<Value> = Vec::new();
        items.push(Value::of_text("value"));
        let text = "{\"value\": \"".to_owned().concat(value).concat("\"}");
        let json = "{\"value\":\"".to_owned().concat(value).concat("\"}");
        Value {
            kind: ValueKind::Mapping,
            truthy: true,
            text,
            string: None,
            integer: None,
            bytes: None,
            data: Some(fields().text("value", value).object()),
            json: Some(json),
            items: Some(items),
            entries,
        }
    }
}

/// Distinct table types have distinct names.
pub proof fn values_are_distinct(a: TableType, b: TableType)
    ensures
        value_of(a) == value_of(b) ==> a == b,
{
    reveal_strlit("table");
    reveal_strlit("view");
    reveal_strlit("cte");
    reveal_strlit("materializedview");
    reveal_strlit("iceberg_table");
    assert("table"@.len() == 5);
    assert("view"@.len() == 4);
    assert("cte"@.len() == 3);
    assert("materializedview"@.len() == 16);
    assert("iceberg_table"@.len() == 13);
}

} // verus!
