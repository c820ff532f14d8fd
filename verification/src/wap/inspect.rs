//! What the warehouse shows of the tables that a publication touches.

use crate::json::opt;
use crate::text::{ascii_lower, same, same_ignoring_case};
use crate::wap::nodes::{checked, invalid, invalid_config, ErrorCode, FsError, FsErrorView};
use vstd::prelude::*;

verus! {

/// A column of what was shown: text, or nothing, for each row.
#[derive(Debug)]
pub struct Column {
    pub name: String,
    pub values: Vec<Option<String>>,
}

/// Rows that were shown. Every column holds a value for each of them.
#[derive(Debug)]
pub struct ShownRows {
    pub columns: Vec<Column>,
    pub rows: usize,
}

pub open spec fn well_formed(batch: ShownRows) -> bool {
    forall|i: int|
        0 <= i < batch.columns@.len() ==> (#[trigger] batch.columns@[i]).values@.len()
            == batch.rows
}

/// The column with a name, from a place on.
pub open spec fn column_from(columns: Seq<Column>, name: Seq<char>, i: int) -> Option<Column>
    decreases columns.len() - i,
{
    if i < 0 || i >= columns.len() {
        None
    } else if columns[i].name@ == name {
        Some(columns[i])
    } else {
        column_from(columns, name, i + 1)
    }
}

pub open spec fn column(batch: ShownRows, name: Seq<char>) -> Option<Column> {
    column_from(batch.columns@, name, 0)
}

pub open spec fn cell(c: Column, row: int) -> Option<Seq<char>> {
    opt(c.values@[row])
}

pub open spec fn no_column(name: Seq<char>) -> FsErrorView {
    FsErrorView {
        code: ErrorCode::Unexpected,
        message: "WAP relation inspection did not return the column '"@ + name + "'"@,
    }
}

impl ShownRows {
    pub fn column<'a>(&'a self, name: &str) -> (r: Option<&'a Column>)
        requires
            well_formed(*self),
        ensures
            match (r, column(*self, name@)) {
                (Some(c), Some(d)) => *c == d && c.values@.len() == self.rows,
                (None, None) => true,
                _ => false,
            },
    {
        let mut i: usize = 0;
        while i < self.columns.len()
            invariant
                i <= self.columns.len(),
                well_formed(*self),
                column(*self, name@) == column_from(self.columns@, name@, i as int),
            decreases self.columns.len() - i,
        {
            if same(self.columns[i].name.as_str(), name) {
                return Some(&self.columns[i]);
            }
            i += 1;
        }
        None
    }

    fn need<'a>(&'a self, name: &str) -> (r: Result<&'a Column, FsError>)
        requires
            well_formed(*self),
        ensures
            match (r, column(*self, name@)) {
                (Ok(c), Some(d)) => *c == d && c.values@.len() == self.rows,
                (Err(e), None) => e@ == no_column(name@),
                _ => false,
            },
    {
        match self.column(name) {
            Some(c) => Ok(c),
            None => Err(
                FsError::new(
                    ErrorCode::Unexpected,
                    "WAP relation inspection did not return the column '".to_owned().concat(
                        name,
                    ).concat("'"),
                ),
            ),
        }
    }
}

// ---------------------------------------------------------------------------
// The row of a relation
// ---------------------------------------------------------------------------

/// The only row with a name, from a place on, given the one before it.
pub open spec fn row_from(
    names: Column,
    rows: int,
    identifier: Seq<char>,
    i: int,
    matched: Option<int>,
) -> Result<Option<int>, FsErrorView>
    decreases rows - i,
{
    if i < 0 || i >= rows {
        Ok(matched)
    } else {
        match cell(names, i) {
            None => Err(
                FsErrorView {
                    code: ErrorCode::Unexpected,
                    message: "WAP cannot inspect '"@ + identifier
                        + "': SHOW returned a NULL relation name"@,
                },
            ),
            Some(name) => if name != identifier {
                row_from(names, rows, identifier, i + 1, matched)
            } else if matched is Some {
                Err(
                    invalid(
                        "WAP found shadowing relations for '"@ + identifier
                            + "'; remove temporary name collisions first"@,
                    ),
                )
            } else {
                row_from(names, rows, identifier, i + 1, Some(i))
            },
        }
    }
}

/// The row of a relation, where it has one.
pub open spec fn exact_row(batch: ShownRows, identifier: Seq<char>) -> Result<
    Option<int>,
    FsErrorView,
> {
    match column(batch, "name"@) {
        None => Err(no_column("name"@)),
        Some(names) => row_from(names, batch.rows as int, identifier, 0, None),
    }
}

pub open spec fn row_is(
    r: Result<Option<usize>, FsError>,
    expected: Result<Option<int>, FsErrorView>,
    rows: int,
) -> bool {
    match (r, expected) {
        (Ok(Some(i)), Ok(Some(j))) => i == j && i < rows,
        (Ok(None), Ok(None)) => true,
        (Err(e), Err(f)) => e@ == f,
        _ => false,
    }
}

pub fn exact_relation_row(batch: &ShownRows, identifier: &str) -> (r: Result<
    Option<usize>,
    FsError,
>)
    requires
        well_formed(*batch),
    ensures
        row_is(r, exact_row(*batch, identifier@), batch.rows as int),
{
    let names = match batch.need("name") {
        Ok(c) => c,
        Err(e) => {
            return Err(e);
        },
    };
    let mut matched: Option<usize> = None;
    let mut row: usize = 0;
    while row < batch.rows
        invariant
            row <= batch.rows,
            names.values@.len() == batch.rows,
            exact_row(*batch, identifier@) == row_from(
                *names,
                batch.rows as int,
                identifier@,
                row as int,
                match matched {
                    Some(m) => Some(m as int),
                    None => None,
                },
            ),
            matched matches Some(m) ==> m < batch.rows,
        decreases batch.rows - row,
    {
        match &names.values[row] {
            None => {
                return Err(
                    FsError::new(
                        ErrorCode::Unexpected,
                        "WAP cannot inspect '".to_owned().concat(identifier).concat(
                            "': SHOW returned a NULL relation name",
                        ),
                    ),
                );
            },
            Some(name) => {
                if same(name.as_str(), identifier) {
                    if matched.is_some() {
                        return Err(
                            invalid_config(
                                "WAP found shadowing relations for '".to_owned().concat(
                                    identifier,
                                ).concat("'; remove temporary name collisions first"),
                            ),
                        );
                    }
                    matched = Some(row);
                }
            },
        }
        row += 1;
    }
    Ok(matched)
}

// ---------------------------------------------------------------------------
// What a relation has to be
// ---------------------------------------------------------------------------

pub open spec fn or_null(s: Option<Seq<char>>) -> Seq<char> {
    match s {
        Some(t) => t,
        None => "NULL"@,
    }
}

pub open spec fn is_kind(kind: Option<Seq<char>>, transient_too: bool) -> bool {
    kind is Some && (ascii_lower(kind->0) == ascii_lower("TABLE"@) || transient_too && ascii_lower(
        kind->0,
    ) == ascii_lower("TRANSIENT"@))
}

/// Why the kind of a relation is refused, where it is.
pub open spec fn kind_refusal(
    batch: ShownRows,
    row: int,
    identifier: Seq<char>,
    transient_too: bool,
) -> Option<FsErrorView> {
    match column(batch, "kind"@) {
        None => Some(no_column("kind"@)),
        Some(kinds) => if is_kind(cell(kinds, row), transient_too) {
            None
        } else {
            Some(
                invalid(
                    "WAP requires an ordinary native table; '"@ + identifier
                        + "' has unsupported or unknown kind: "@ + or_null(cell(kinds, row)),
                ),
            )
        },
    }
}

pub open spec fn is_disabled(value: Option<Seq<char>>) -> bool {
    value is Some && (ascii_lower(value->0) == ascii_lower("n"@) || ascii_lower(value->0)
        == ascii_lower("false"@))
}

/// Why a flag of a relation is refused, where it is.
pub open spec fn flag_refusal(
    batch: ShownRows,
    row: int,
    identifier: Seq<char>,
    flag: Seq<char>,
) -> Option<FsErrorView> {
    match column(batch, flag) {
        None => Some(no_column(flag)),
        Some(values) => if is_disabled(cell(values, row)) {
            None
        } else {
            Some(
                invalid(
                    "WAP does not support '"@ + identifier + "' with "@ + flag + "="@ + or_null(
                        cell(values, row),
                    ),
                ),
            )
        },
    }
}

/// Why a flag is refused that need not be there at all.
pub open spec fn optional_flag_refusal(
    batch: ShownRows,
    row: int,
    identifier: Seq<char>,
    flag: Seq<char>,
) -> Option<FsErrorView> {
    if column(batch, flag) is None {
        None
    } else {
        flag_refusal(batch, row, identifier, flag)
    }
}

fn require_relation_kind(
    batch: &ShownRows,
    row: usize,
    identifier: &str,
    transient_too: bool,
) -> (r: Result<(), FsError>)
    requires
        well_formed(*batch),
        row < batch.rows,
    ensures
        checked(r, kind_refusal(*batch, row as int, identifier@, transient_too)),
{
    let kinds = match batch.need("kind") {
        Ok(c) => c,
        Err(e) => {
            return Err(e);
        },
    };
    let fits = match &kinds.values[row] {
        Some(kind) => same_ignoring_case(kind.as_str(), "TABLE") || (transient_too
            && same_ignoring_case(kind.as_str(), "TRANSIENT")),
        None => false,
    };
    if !fits {
        let shown = match &kinds.values[row] {
            Some(kind) => kind.as_str(),
            None => "NULL",
        };
        return Err(
            invalid_config(
                "WAP requires an ordinary native table; '".to_owned().concat(identifier).concat(
                    "' has unsupported or unknown kind: ",
                ).concat(shown),
            ),
        );
    }
    Ok(())
}

fn require_disabled_flag(batch: &ShownRows, row: usize, identifier: &str, flag: &str) -> (r: Result<
    (),
    FsError,
>)
    requires
        well_formed(*batch),
        row < batch.rows,
    ensures
        checked(r, flag_refusal(*batch, row as int, identifier@, flag@)),
{
    let values = match batch.need(flag) {
        Ok(c) => c,
        Err(e) => {
            return Err(e);
        },
    };
    let disabled = match &values.values[row] {
        Some(value) => same_ignoring_case(value.as_str(), "n") || same_ignoring_case(
            value.as_str(),
            "false",
        ),
        None => false,
    };
    if !disabled {
        let shown = match &values.values[row] {
            Some(value) => value.as_str(),
            None => "NULL",
        };
        return Err(
            invalid_config(
                "WAP does not support '".to_owned().concat(identifier).concat("' with ").concat(
                    flag,
                ).concat("=").concat(shown),
            ),
        );
    }
    Ok(())
}

/// What a relation is expected to be.
#[derive(Debug, Clone, Copy, PartialEq, Eq, Structural)]
pub enum RelationExpectation {
    Absent,
    OptionalTable,
    ExistingTable,
}

/// Whether a relation exists as expected.
pub open spec fn existence(
    batch: ShownRows,
    identifier: Seq<char>,
    expectation: RelationExpectation,
) -> Result<bool, FsErrorView> {
    match exact_row(batch, identifier) {
        Err(e) => Err(e),
        Ok(None) => if expectation == RelationExpectation::ExistingTable {
            Err(
                FsErrorView {
                    code: ErrorCode::ExecutionError,
                    message: "WAP audited working table '"@ + identifier
                        + "' is missing; table not published"@,
                },
            )
        } else {
            Ok(false)
        },
        Ok(Some(row)) => if expectation == RelationExpectation::Absent {
            Err(
                invalid(
                    "WAP working relation '"@ + identifier
                        + "' already exists; it will not be overwritten"@,
                ),
            )
        } else {
            match kind_refusal(batch, row, identifier, false) {
                Some(e) => Err(e),
                None => match flag_refusal(batch, row, identifier, "is_dynamic"@) {
                    Some(e) => Err(e),
                    // Accounts without interactive tables do not show the column. A present
                    // but unknown value cannot establish safety.
                    None => match optional_flag_refusal(
                        batch,
                        row,
                        identifier,
                        "is_interactive"@,
                    ) {
                        Some(e) => Err(e),
                        None => Ok(true),
                    },
                },
            }
        },
    }
}

pub open spec fn answer_is(r: Result<bool, FsError>, expected: Result<bool, FsErrorView>) -> bool {
    match (r, expected) {
        (Ok(a), Ok(b)) => a == b,
        (Err(e), Err(f)) => e@ == f,
        _ => false,
    }
}

/// A working table is never overwritten: where its name has to be free, what stands there
/// is refused, whatever it is.
pub proof fn nothing_is_overwritten(batch: ShownRows, identifier: Seq<char>)
    ensures
        existence(batch, identifier, RelationExpectation::Absent) is Ok ==> exact_row(
            batch,
            identifier,
        ) == Ok::<Option<int>, FsErrorView>(None),
{
}

pub fn inspect_relation_rows(
    batch: &ShownRows,
    identifier: &str,
    expectation: RelationExpectation,
) -> (r: Result<bool, FsError>)
    requires
        well_formed(*batch),
    ensures
        answer_is(r, existence(*batch, identifier@, expectation)),
{
    let row = match exact_relation_row(batch, identifier) {
        Ok(found) => found,
        Err(e) => {
            return Err(e);
        },
    };
    match row {
        Some(row) => {
            if expectation == RelationExpectation::Absent {
                return Err(
                    invalid_config(
                        "WAP working relation '".to_owned().concat(identifier).concat(
                            "' already exists; it will not be overwritten",
                        ),
                    ),
                );
            }
            if let Err(e) = require_relation_kind(batch, row, identifier, false) {
                return Err(e);
            }
            if let Err(e) = require_disabled_flag(batch, row, identifier, "is_dynamic") {
                return Err(e);
            }
            if batch.column("is_interactive").is_some() {
                if let Err(e) = require_disabled_flag(batch, row, identifier, "is_interactive") {
                    return Err(e);
                }
            }
            Ok(true)
        },
        None => {
            if expectation == RelationExpectation::ExistingTable {
                return Err(
                    FsError::new(
                        ErrorCode::ExecutionError,
                        "WAP audited working table '".to_owned().concat(identifier).concat(
                            "' is missing; table not published",
                        ),
                    ),
                );
            }
            Ok(false)
        },
    }
}

/// How long a table is kept by the warehouse.
#[derive(Debug, Clone, Copy, PartialEq, Eq, Structural)]
pub enum TableLifecycle {
    Permanent,
    Transient,
}

/// Why the details of a table are refused, where they are.
pub open spec fn table_refusal(batch: ShownRows, identifier: Seq<char>) -> Option<FsErrorView> {
    match exact_row(batch, identifier) {
        Err(e) => Some(e),
        Ok(None) => Some(
            FsErrorView {
                code: ErrorCode::ExecutionError,
                message: "WAP table '"@ + identifier
                    + "' disappeared during inspection; table not published"@,
            },
        ),
        Ok(Some(row)) => match kind_refusal(batch, row, identifier, true) {
            Some(e) => Some(e),
            None => match flag_refusal(batch, row, identifier, "is_external"@) {
                Some(e) => Some(e),
                None => match flag_refusal(batch, row, identifier, "is_event"@) {
                    Some(e) => Some(e),
                    None => match flag_refusal(batch, row, identifier, "is_hybrid"@) {
                        Some(e) => Some(e),
                        None => match flag_refusal(batch, row, identifier, "is_iceberg"@) {
                            Some(e) => Some(e),
                            None => optional_flag_refusal(
                                batch,
                                row,
                                identifier,
                                "is_immutable"@,
                            ),
                        },
                    },
                },
            },
        },
    }
}

pub fn inspect_table_rows(batch: &ShownRows, identifier: &str) -> (r: Result<(), FsError>)
    requires
        well_formed(*batch),
    ensures
        checked(r, table_refusal(*batch, identifier@)),
{
    let row = match exact_relation_row(batch, identifier) {
        Ok(Some(row)) => row,
        Ok(None) => {
            return Err(
                FsError::new(
                    ErrorCode::ExecutionError,
                    "WAP table '".to_owned().concat(identifier).concat(
                        "' disappeared during inspection; table not published",
                    ),
                ),
            );
        },
        Err(e) => {
            return Err(e);
        },
    };
    if let Err(e) = require_relation_kind(batch, row, identifier, true) {
        return Err(e);
    }
    if let Err(e) = require_disabled_flag(batch, row, identifier, "is_external") {
        return Err(e);
    }
    if let Err(e) = require_disabled_flag(batch, row, identifier, "is_event") {
        return Err(e);
    }
    if let Err(e) = require_disabled_flag(batch, row, identifier, "is_hybrid") {
        return Err(e);
    }
    if let Err(e) = require_disabled_flag(batch, row, identifier, "is_iceberg") {
        return Err(e);
    }
    if batch.column("is_immutable").is_some() {
        return require_disabled_flag(batch, row, identifier, "is_immutable");
    }
    Ok(())
}

/// The table is kept like this. Its kind has been inspected.
pub open spec fn lifecycle_shown(batch: ShownRows, identifier: Seq<char>) -> Option<
    TableLifecycle,
> {
    match exact_row(batch, identifier) {
        Ok(Some(row)) => match column(batch, "kind"@) {
            Some(kinds) => if cell(kinds, row) is Some && ascii_lower(cell(kinds, row)->0)
                == ascii_lower("TRANSIENT"@) {
                Some(TableLifecycle::Transient)
            } else {
                Some(TableLifecycle::Permanent)
            },
            None => None,
        },
        _ => None,
    }
}

/// How long the warehouse keeps a table that was shown.
pub fn table_lifecycle(batch: &ShownRows, identifier: &str) -> (r: Option<TableLifecycle>)
    requires
        well_formed(*batch),
    ensures
        r == lifecycle_shown(*batch, identifier@),
{
    match exact_relation_row(batch, identifier) {
        Ok(Some(row)) => match batch.column("kind") {
            Some(kinds) => match &kinds.values[row] {
                Some(kind) => if same_ignoring_case(kind.as_str(), "TRANSIENT") {
                    Some(TableLifecycle::Transient)
                } else {
                    Some(TableLifecycle::Permanent)
                },
                None => Some(TableLifecycle::Permanent),
            },
            None => None,
        },
        _ => None,
    }
}

} // verus!
