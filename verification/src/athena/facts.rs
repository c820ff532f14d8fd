//! What does not change while an engine lives: the account that its credentials belong to
//! and the settings of its work group. Each is asked for once.

use crate::athena::driver::{reply_view, ProgressView, Reply, ReplyView, Request};
use crate::athena::glue::account_id;
use crate::athena::methods::{enforces_location, location_enforced};
use crate::json::{text_at, Json, JsonView};
use crate::text::same;
use vstd::prelude::*;

verus! {

pub const IDENTITY: &'static str = "sts.get_caller_identity";

pub const WORK_GROUP: &'static str = "athena.get_work_group";

/// The answers of the driver that hold as long as the engine lives.
#[derive(Debug)]
pub struct EngineFacts {
    pub identity: Option<Json>,
    pub work_group: Option<Json>,
}

pub struct FactsView {
    pub identity: Option<JsonView>,
    pub work_group: Option<JsonView>,
}

pub open spec fn kept(j: Option<Json>) -> Option<JsonView> {
    match j {
        Some(j) => Some(j@),
        None => None,
    }
}

impl View for EngineFacts {
    type V = FactsView;

    open spec fn view(&self) -> FactsView {
        FactsView { identity: kept(self.identity), work_group: kept(self.work_group) }
    }
}

/// The answer to an operation that need not be asked for again.
pub open spec fn known(facts: FactsView, operation: Seq<char>) -> Option<JsonView> {
    if operation == IDENTITY@ {
        facts.identity
    } else if operation == WORK_GROUP@ {
        facts.work_group
    } else {
        None
    }
}

/// The answer gives what is asked for: an identity names the account, and the settings of
/// a work group are read as they are.
pub open spec fn gives(operation: Seq<char>, reply: ReplyView) -> bool {
    match reply {
        Ok(response) => if operation == IDENTITY@ {
            text_at(response, "Account"@) is Some
        } else {
            operation == WORK_GROUP@
        },
        Err(_) => false,
    }
}

/// What is known once the driver has answered. The first answer stays.
pub open spec fn learned(facts: FactsView, operation: Seq<char>, reply: ReplyView) -> FactsView {
    if known(facts, operation) is Some || !gives(operation, reply) {
        facts
    } else if operation == IDENTITY@ {
        FactsView { identity: Some(reply->Ok_0), ..facts }
    } else {
        FactsView { work_group: Some(reply->Ok_0), ..facts }
    }
}

impl EngineFacts {
    /// Nothing is known yet.
    pub fn new() -> (r: EngineFacts)
        ensures
            r@ == (FactsView { identity: None, work_group: None }),
    {
        EngineFacts { identity: None, work_group: None }
    }

    /// The answer to a question that need not be put to the driver.
    pub fn answer(&self, request: &Request) -> (r: Option<Json>)
        ensures
            kept(r) == known(self@, request@.operation),
    {
        let found = if same(request.operation.as_str(), IDENTITY) {
            &self.identity
        } else if same(request.operation.as_str(), WORK_GROUP) {
            &self.work_group
        } else {
            return None;
        };
        match found {
            Some(j) => Some(j.copy()),
            None => None,
        }
    }

    /// Takes note of what the driver answered.
    pub fn learn(&mut self, request: &Request, reply: &Reply)
        ensures
            final(self)@ == learned(old(self)@, request@.operation, reply_view(*reply)),
    {
        proof {
            operations_differ();
        }
        let response = match reply {
            Ok(response) => response,
            Err(_) => {
                return;
            },
        };
        if same(request.operation.as_str(), IDENTITY) {
            if self.identity.is_none() && response.str_at("Account").is_some() {
                self.identity = Some(response.copy());
            }
        } else if same(request.operation.as_str(), WORK_GROUP) {
            if self.work_group.is_none() {
                self.work_group = Some(response.copy());
            }
        }
    }
}

proof fn operations_differ()
    ensures
        IDENTITY@ != WORK_GROUP@,
{
    reveal_strlit("sts.get_caller_identity");
    reveal_strlit("athena.get_work_group");
    assert(IDENTITY@.len() == 23);
    assert(WORK_GROUP@.len() == 21);
}

/// What is known after the driver was put the questions whose answers were not known, and
/// answered them.
pub open spec fn after(facts: FactsView, history: Seq<(Seq<char>, ReplyView)>) -> FactsView
    decreases history.len(),
{
    if history.len() == 0 {
        facts
    } else {
        let (operation, reply) = history.last();
        let so_far = after(facts, history.drop_last());
        if known(so_far, operation) is Some {
            so_far
        } else {
            learned(so_far, operation, reply)
        }
    }
}

/// How often the driver is put a question, of the questions that come up in turn.
pub open spec fn times_put(
    facts: FactsView,
    history: Seq<(Seq<char>, ReplyView)>,
    operation: Seq<char>,
) -> nat
    decreases history.len(),
{
    if history.len() == 0 {
        0
    } else {
        let before = times_put(facts, history.drop_last(), operation);
        if history.last().0 == operation && known(
            after(facts, history.drop_last()),
            operation,
        ) is None {
            before + 1
        } else {
            before
        }
    }
}

/// What is known stays known, whatever is learned after it.
pub proof fn known_stays_known(
    facts: FactsView,
    operation: Seq<char>,
    reply: ReplyView,
    other: Seq<char>,
)
    ensures
        known(facts, other) is Some ==> known(learned(facts, operation, reply), other) == known(
            facts,
            other,
        ),
{
    operations_differ();
}

proof fn one_answer_is_enough(
    facts: FactsView,
    history: Seq<(Seq<char>, ReplyView)>,
    operation: Seq<char>,
)
    requires
        operation == IDENTITY@ || operation == WORK_GROUP@,
        forall|i: int|
            0 <= i < history.len() && (#[trigger] history[i]).0 == operation ==> gives(
                operation,
                history[i].1,
            ),
    ensures
        times_put(facts, history, operation) <= 1,
        times_put(facts, history, operation) == 1 ==> known(after(facts, history), operation) is Some,
        known(facts, operation) is Some ==> times_put(facts, history, operation) == 0 && known(
            after(facts, history),
            operation,
        ) == known(facts, operation),
    decreases history.len(),
{
    operations_differ();
    if history.len() > 0 {
        let earlier = history.drop_last();
        assert forall|i: int| 0 <= i < earlier.len() && (#[trigger] earlier[i]).0 == operation implies gives(
            operation,
            earlier[i].1,
        ) by {
            assert(earlier[i] == history[i]);
        }
        one_answer_is_enough(facts, earlier, operation);
        let so_far = after(facts, earlier);
        let (last, reply) = history.last();
        assert(history[history.len() - 1] == (last, reply));
        known_stays_known(so_far, last, reply, operation);
    }
}

/// The account and the settings of the work group are each asked for at most once, where
/// the driver's answers give them; where they are known from the start, not at all.
pub proof fn facts_are_asked_for_once(
    facts: FactsView,
    history: Seq<(Seq<char>, ReplyView)>,
    operation: Seq<char>,
)
    requires
        operation == IDENTITY@ || operation == WORK_GROUP@,
        forall|i: int|
            0 <= i < history.len() && (#[trigger] history[i]).0 == operation ==> gives(
                operation,
                history[i].1,
            ),
    ensures
        times_put(facts, history, operation) <= 1,
        known(facts, operation) is Some ==> times_put(facts, history, operation) == 0,
{
    one_answer_is_enough(facts, history, operation);
}

/// An answer that names no account is not kept: the account is asked for again.
pub proof fn an_answer_without_an_account_is_not_kept(facts: FactsView, response: JsonView)
    requires
        text_at(response, "Account"@) is None,
    ensures
        learned(facts, IDENTITY@, Ok(response)) == facts,
{
}

/// A kept answer stands for the driver's: the account and the settings that are read off
/// it are those that the driver's answer gave.
pub proof fn a_kept_answer_gives_the_same(
    facts: FactsView,
    operation: Seq<char>,
    response: JsonView,
    work_group: Seq<char>,
)
    requires
        known(facts, operation) is None,
        gives(operation, Ok(response)),
    ensures
        ({
            let again = known(learned(facts, operation, Ok(response)), operation);
            &&& again == Some(response)
            &&& operation == IDENTITY@ ==> account_id(seq![Ok(again->0)], 0)
                == ProgressView::Got(text_at(response, "Account"@)->0, 1int)
            &&& operation == WORK_GROUP@ ==> location_enforced(work_group, seq![Ok(again->0)], 0)
                == ProgressView::Got(enforces_location(response), 1int)
        }),
{
    operations_differ();
}

} // verus!
