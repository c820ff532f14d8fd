//! Operations of the warehouse driver.
//!
//! An operation of the adapter is a conversation with the driver. Each is written as a
//! function of what the driver has answered so far: it says what to ask next, or what has
//! come of it. Whoever runs an operation puts the question, adds the answer to the replies
//! and asks again.

use crate::json::{opt, Json, JsonView};
use crate::number::{decimal, decimal_of};
use crate::text::{debug_list, debug_strings, same, views};
use vstd::prelude::*;

verus! {

#[derive(Debug, Clone, Copy, PartialEq, Eq, Structural)]
pub enum OpsErrorKind {
    /// The driver itself failed; the message is the driver's.
    Driver,
    UnexpectedResult,
    NotFound,
    Configuration,
    NotSupported,
    Cancelled,
}

#[derive(Debug, PartialEq)]
pub struct OpsError {
    pub kind: OpsErrorKind,
    pub message: String,
}

pub struct OpsErrorView {
    pub kind: OpsErrorKind,
    pub message: Seq<char>,
}

impl View for OpsError {
    type V = OpsErrorView;

    open spec fn view(&self) -> OpsErrorView {
        OpsErrorView { kind: self.kind, message: self.message@ }
    }
}

impl OpsError {
    pub fn copy(&self) -> (r: OpsError)
        ensures
            r@ == self@,
    {
        OpsError { kind: self.kind, message: self.message.clone() }
    }
}

/// A question to the driver: the operation and its payload.
#[derive(Debug, PartialEq)]
pub struct Request {
    pub operation: String,
    pub payload: Json,
}

pub struct RequestView {
    pub operation: Seq<char>,
    pub payload: JsonView,
}

impl View for Request {
    type V = RequestView;

    open spec fn view(&self) -> RequestView {
        RequestView { operation: self.operation@, payload: self.payload@ }
    }
}

/// What the driver answered: its response, or how the operation failed.
pub type Reply = Result<Json, OpsError>;

pub type ReplyView = Result<JsonView, OpsErrorView>;

pub open spec fn reply_view(reply: Reply) -> ReplyView {
    match reply {
        Ok(j) => Ok(j@),
        Err(e) => Err(e@),
    }
}

pub open spec fn replies_view(replies: Seq<Reply>) -> Seq<ReplyView> {
    replies.map_values(|r: Reply| reply_view(r))
}

/// How far an operation has come: a question that is open, or its result and the number
/// of replies that it took, or its failure and the number of replies that it took.
#[derive(Debug, PartialEq)]
pub enum Progress<T> {
    Ask(Request),
    Got(T, usize),
    Fail(OpsError, usize),
}

pub enum ProgressView<T> {
    Ask(RequestView),
    Got(T, int),
    Fail(OpsErrorView, int),
}

impl<T: DeepView> View for Progress<T> {
    type V = ProgressView<T::V>;

    open spec fn view(&self) -> ProgressView<T::V> {
        match self {
            Progress::Ask(r) => ProgressView::Ask(r@),
            Progress::Got(t, n) => ProgressView::Got(t.deep_view(), *n as int),
            Progress::Fail(e, n) => ProgressView::Fail(e@, *n as int),
        }
    }
}

pub open spec fn ask<T>(operation: Seq<char>, payload: JsonView) -> ProgressView<T> {
    ProgressView::Ask(RequestView { operation, payload })
}

pub open spec fn failed<T>(kind: OpsErrorKind, message: Seq<char>, at: int) -> ProgressView<T> {
    ProgressView::Fail(OpsErrorView { kind, message }, at)
}

/// What comes of an operation whose result is handed on to another one.
pub open spec fn then_do<T, U>(
    p: ProgressView<T>,
    f: spec_fn(T, int) -> ProgressView<U>,
) -> ProgressView<U> {
    match p {
        ProgressView::Ask(r) => ProgressView::Ask(r),
        ProgressView::Got(t, n) => f(t, n),
        ProgressView::Fail(e, n) => ProgressView::Fail(e, n),
    }
}

/// The answer at an index to a question; where it is not there yet, the question.
pub open spec fn called(
    replies: Seq<ReplyView>,
    at: int,
    operation: Seq<char>,
    payload: JsonView,
) -> ProgressView<JsonView> {
    if at < replies.len() {
        match replies[at] {
            Ok(response) => ProgressView::Got(response, at + 1),
            Err(e) => ProgressView::Fail(e, at + 1),
        }
    } else {
        ask(operation, payload)
    }
}

/// The replies that an operation took lie within the replies.
pub open spec fn within<T>(p: Progress<T>, at: usize, replies: Seq<Reply>) -> bool {
    match p {
        Progress::Ask(_) => true,
        Progress::Got(_, n) => at <= n <= replies.len(),
        Progress::Fail(_, n) => at <= n <= replies.len(),
    }
}

pub fn call(replies: &Vec<Reply>, at: usize, operation: &str, payload: Json) -> (r: Progress<Json>)
    requires
        at <= replies.len(),
    ensures
        r@ == called(replies_view(replies@), at as int, operation@, payload@),
        within(r, at, replies@),
{
    if at < replies.len() {
        match &replies[at] {
            Ok(response) => Progress::Got(response.copy(), at + 1),
            Err(e) => Progress::Fail(e.copy(), at + 1),
        }
    } else {
        Progress::Ask(Request { operation: operation.to_owned(), payload })
    }
}

pub fn fail<T: DeepView>(kind: OpsErrorKind, message: String, at: usize) -> (r: Progress<T>)
    ensures
        r@ == failed::<T::V>(kind, message@, at as int),
        r is Fail,
        r->Fail_1 == at,
{
    Progress::Fail(OpsError { kind, message }, at)
}

// ---------------------------------------------------------------------------
// What the driver hands back
// ---------------------------------------------------------------------------

/// The cells of a column of texts.
pub open spec fn cells_view(cells: Seq<Option<String>>) -> Seq<Option<Seq<char>>> {
    cells.map_values(|c: Option<String>| opt(c))
}

pub open spec fn unexpected(operation: Seq<char>, what: Seq<char>) -> OpsErrorView {
    OpsErrorView {
        kind: OpsErrorKind::UnexpectedResult,
        message: "[athena] "@ + operation + ": "@ + what,
    }
}

/// The text that an operation answers with: the driver hands back a table with a column
/// `result`, and in it one row that is not null.
pub open spec fn cell(
    operation: Seq<char>,
    columns: Seq<Seq<char>>,
    cells: Seq<Option<Seq<char>>>,
) -> Result<Seq<char>, OpsErrorView> {
    if !columns.contains("result"@) {
        Err(
            unexpected(
                operation,
                "the driver returned no result column (columns "@ + debug_list(columns) + ")"@,
            ),
        )
    } else if cells.len() == 1 && cells[0] is Some {
        Ok(cells[0]->0)
    } else {
        Err(
            unexpected(
                operation,
                "the driver returned no result cell ("@ + decimal(cells.len() as int) + " rows)"@,
            ),
        )
    }
}

fn unexpected_result(operation: &str, what: String) -> (r: OpsError)
    ensures
        r@ == unexpected(operation@, what@),
{
    OpsError {
        kind: OpsErrorKind::UnexpectedResult,
        message: "[athena] ".to_owned().concat(operation).concat(": ").concat(what.as_str()),
    }
}

fn names(columns: &Vec<String>, name: &str) -> (r: bool)
    ensures
        r == views(columns@).contains(name@),
{
    let ghost all = views(columns@);
    let mut i: usize = 0;
    while i < columns.len()
        invariant
            i <= columns.len(),
            all == views(columns@),
            forall|j: int| 0 <= j < i ==> all[j] != name@,
        decreases columns.len() - i,
    {
        assert(all[i as int] == columns@[i as int]@);
        if same(columns[i].as_str(), name) {
            return true;
        }
        i += 1;
    }
    false
}

/// The text that an operation answers with, by the columns of the table that the driver
/// hands back and the cells of its column `result`.
pub fn result_cell(operation: &str, columns: &Vec<String>, cells: &Vec<Option<String>>) -> (r:
    Result<String, OpsError>)
    ensures
        match (r, cell(operation@, views(columns@), cells_view(cells@))) {
            (Ok(text), Ok(expected)) => text@ == expected,
            (Err(e), Err(f)) => e@ == f,
            _ => false,
        },
{
    if !names(columns, "result") {
        return Err(
            unexpected_result(
                operation,
                "the driver returned no result column (columns ".to_owned().concat(
                    debug_strings(columns).as_str(),
                ).concat(")"),
            ),
        );
    }
    if cells.len() == 1 {
        assert(cells_view(cells@)[0] == opt(cells@[0]));
        if let Some(text) = &cells[0] {
            return Ok(text.clone());
        }
    }
    Err(
        unexpected_result(
            operation,
            "the driver returned no result cell (".to_owned().concat(
                decimal_of(cells.len() as i128).as_str(),
            ).concat(" rows)"),
        ),
    )
}

/// The error where the column `result` cannot be read as text.
pub fn unreadable_column(operation: &str, cause: &str) -> (r: OpsError)
    ensures
        r@ == unexpected(operation@, "result column: "@ + cause@),
{
    unexpected_result(operation, "result column: ".to_owned().concat(cause))
}

/// The error where the text that an operation answers with is no JSON.
pub fn invalid_json(operation: &str, cause: &str) -> (r: OpsError)
    ensures
        r@ == unexpected(operation@, "the driver returned invalid JSON: "@ + cause@),
{
    unexpected_result(operation, "the driver returned invalid JSON: ".to_owned().concat(cause))
}

} // verus!
