//! The steps of a publication, in the order that lets a failure be told apart from a
//! table that was published.

use crate::wap::audit::{audits_failure, require_passing_audits, Audit};
use crate::wap::nodes::{FsError, FsErrorView};
use vstd::prelude::*;

verus! {

/// Only these operations may surround the public clone.
#[derive(Debug, Clone, Copy, PartialEq, Eq, Structural)]
pub enum PublicationStep {
    Prepare,
    SetQueryTag,
    Clone,
    Finalize,
    ResetQueryTag,
    ResetOverrides,
    DropCandidate,
}

/// How the step of a publication ended.
pub open spec fn outcome_view(r: Result<(), FsError>) -> Option<FsErrorView> {
    match r {
        Ok(_) => None,
        Err(e) => Some(e@),
    }
}

// ---------------------------------------------------------------------------
// A publication as a whole
// ---------------------------------------------------------------------------

/// The error of the work, and where there is none that of what restores the session.
pub open spec fn first_of(a: Option<FsErrorView>, b: Option<FsErrorView>) -> Option<FsErrorView> {
    match a {
        Some(e) => Some(e),
        None => b,
    }
}

/// A step that is run ends in an error or not, as its outcome says.
pub type Outcomes = spec_fn(PublicationStep) -> Option<FsErrorView>;

/// The public table was replaced, and that is known.
pub open spec fn is_published(f: Outcomes) -> bool {
    f(PublicationStep::Prepare) is None && f(PublicationStep::SetQueryTag) is None && f(
        PublicationStep::Clone,
    ) is None
}

/// The steps that a publication runs, by what becomes of them.
pub open spec fn steps(f: Outcomes) -> Seq<PublicationStep> {
    let work = if f(PublicationStep::Prepare) is Some {
        seq![PublicationStep::Prepare]
    } else if f(PublicationStep::SetQueryTag) is Some {
        seq![PublicationStep::Prepare, PublicationStep::SetQueryTag]
    } else if f(PublicationStep::Clone) is Some {
        seq![
            PublicationStep::Prepare,
            PublicationStep::SetQueryTag,
            PublicationStep::Clone,
            PublicationStep::ResetQueryTag,
        ]
    } else {
        seq![
            PublicationStep::Prepare,
            PublicationStep::SetQueryTag,
            PublicationStep::Clone,
            PublicationStep::Finalize,
            PublicationStep::ResetQueryTag,
        ]
    };
    let restored = work.push(PublicationStep::ResetOverrides);
    if failure(f) is Some {
        restored
    } else {
        restored.push(PublicationStep::DropCandidate)
    }
}

/// The error that a publication ends in, before it is told where it happened.
pub open spec fn failure(f: Outcomes) -> Option<FsErrorView> {
    let work = if f(PublicationStep::Prepare) is Some {
        f(PublicationStep::Prepare)
    } else if f(PublicationStep::SetQueryTag) is Some {
        f(PublicationStep::SetQueryTag)
    } else if f(PublicationStep::Clone) is Some {
        first_of(f(PublicationStep::Clone), f(PublicationStep::ResetQueryTag))
    } else {
        first_of(f(PublicationStep::Finalize), f(PublicationStep::ResetQueryTag))
    };
    first_of(work, f(PublicationStep::ResetOverrides))
}

/// The error behind a publication: the public table stands, what came after failed.
pub open spec fn after_publication(
    target: Seq<char>,
    candidate: Seq<char>,
    e: FsErrorView,
) -> FsErrorView {
    FsErrorView {
        code: e.code,
        message: "WAP: "@ + target + " was published; finalization failed: "@ + e.message
            + ". Working table at failure: "@ + candidate,
    }
}

/// What a publication comes to.
pub open spec fn result(f: Outcomes, target: Seq<char>, candidate: Seq<char>) -> Option<
    FsErrorView,
> {
    match failure(f) {
        None => None,
        Some(e) => if is_published(f) {
            Some(after_publication(target, candidate, e))
        } else {
            Some(e)
        },
    }
}

/// What is warned of when the working table could not be removed.
pub open spec fn not_removed(target: Seq<char>, candidate: Seq<char>, e: FsErrorView) -> Seq<char> {
    "WAP published "@ + target + "; could not remove working table "@ + candidate + ": "@
        + e.message
}

/// Whatever fails, the session's overrides are reset, and its query tag where it was set.
/// The working table is dropped only when the public one is known to be published and all
/// that follows succeeded; that it cannot be dropped fails nothing.
pub proof fn publication_cleans_up(f: Outcomes, target: Seq<char>, candidate: Seq<char>)
    ensures
        steps(f).contains(PublicationStep::ResetOverrides),
        steps(f).contains(PublicationStep::Clone) ==> steps(f).contains(
            PublicationStep::ResetQueryTag,
        ),
        steps(f).contains(PublicationStep::Finalize) <==> is_published(f),
        steps(f).contains(PublicationStep::DropCandidate) <==> result(f, target, candidate) is None,
        result(f, target, candidate) is None ==> is_published(f) && steps(f) == seq![
            PublicationStep::Prepare,
            PublicationStep::SetQueryTag,
            PublicationStep::Clone,
            PublicationStep::Finalize,
            PublicationStep::ResetQueryTag,
            PublicationStep::ResetOverrides,
            PublicationStep::DropCandidate,
        ],
{
    let s = steps(f);
    let all = failure(f) is None;
    let n = s.len() - if all {
        2int
    } else {
        1
    };
    assert(s[n] == PublicationStep::ResetOverrides);
    if f(PublicationStep::Prepare) is None && f(PublicationStep::SetQueryTag) is None {
        if f(PublicationStep::Clone) is Some {
            assert(s[3] == PublicationStep::ResetQueryTag);
        } else {
            assert(s[3] == PublicationStep::Finalize);
            assert(s[4] == PublicationStep::ResetQueryTag);
        }
    }
    if all {
        assert(s[s.len() - 1] == PublicationStep::DropCandidate);
        assert(s =~= seq![
            PublicationStep::Prepare,
            PublicationStep::SetQueryTag,
            PublicationStep::Clone,
            PublicationStep::Finalize,
            PublicationStep::ResetQueryTag,
            PublicationStep::ResetOverrides,
            PublicationStep::DropCandidate,
        ]);
    }
}

/// What restores the session does not hide why the work failed.
pub proof fn the_primary_error_is_kept(f: Outcomes)
    ensures
        f(PublicationStep::Prepare) is Some ==> failure(f) == f(PublicationStep::Prepare),
        f(PublicationStep::Prepare) is None && f(PublicationStep::SetQueryTag) is Some
            ==> failure(f) == f(PublicationStep::SetQueryTag),
        f(PublicationStep::Prepare) is None && f(PublicationStep::SetQueryTag) is None && f(
            PublicationStep::Clone,
        ) is Some ==> failure(f) == f(PublicationStep::Clone),
        is_published(f) && f(PublicationStep::Finalize) is Some ==> failure(f) == f(
            PublicationStep::Finalize,
        ),
{
}

// ---------------------------------------------------------------------------
// The publication step by step
// ---------------------------------------------------------------------------

/// A publication under way: the step to run, whether the public table is known to be
/// replaced, and the error so far.
#[derive(Debug)]
pub struct Publication {
    pub target_name: String,
    pub candidate_name: String,
    pub step: PublicationStep,
    pub published: bool,
    pub failure: Option<FsError>,
}

/// What follows a step.
#[derive(Debug)]
pub enum Next {
    /// The next step is to be run.
    Run(Publication),
    /// The publication succeeded, with a warning or without one.
    Published(Option<String>),
    /// The publication failed.
    Failed(FsError),
}

/// The place in a publication by what became of the steps before.
pub open spec fn at_step(p: Publication, f: Outcomes) -> bool {
    let error = match p.failure {
        Some(e) => Some(e@),
        None => None,
    };
    match p.step {
        PublicationStep::Prepare => error is None && !p.published,
        PublicationStep::SetQueryTag => error is None && !p.published && f(
            PublicationStep::Prepare,
        ) is None,
        PublicationStep::Clone => error is None && !p.published && f(PublicationStep::Prepare)
            is None && f(PublicationStep::SetQueryTag) is None,
        PublicationStep::Finalize => error is None && p.published && is_published(f),
        PublicationStep::ResetQueryTag => f(PublicationStep::Prepare) is None && f(
            PublicationStep::SetQueryTag,
        ) is None && p.published == is_published(f) && error == (if p.published {
            f(PublicationStep::Finalize)
        } else {
            f(PublicationStep::Clone)
        }),
        PublicationStep::ResetOverrides => p.published == is_published(f) && first_of(
            error,
            f(PublicationStep::ResetOverrides),
        ) == failure(f),
        PublicationStep::DropCandidate => p.published && is_published(f) && failure(f) is None,
    }
}

/// The steps that are run before a step.
pub open spec fn steps_before(p: Publication, f: Outcomes) -> Seq<PublicationStep> {
    let n: int = match p.step {
        PublicationStep::Prepare => 0,
        PublicationStep::SetQueryTag => 1,
        PublicationStep::Clone => 2,
        PublicationStep::Finalize => 3,
        PublicationStep::ResetQueryTag => if p.published {
            4
        } else {
            3
        },
        PublicationStep::ResetOverrides => steps(f).len() - if failure(f) is None {
            2int
        } else {
            1
        },
        PublicationStep::DropCandidate => steps(f).len() - 1,
    };
    steps(f).take(n)
}

/// The publication is at the step that its order has at this place.
pub proof fn steps_are_run_in_order(p: Publication, f: Outcomes)
    requires
        at_step(p, f),
    ensures
        steps_before(p, f).len() < steps(f).len(),
        steps(f)[steps_before(p, f).len() as int] == p.step,
{
}

/// The publication and what becomes of its steps from here on give the same result.
pub open spec fn follows(next: Next, p: Publication, f: Outcomes) -> bool {
    match next {
        Next::Run(q) => {
            &&& at_step(q, f)
            &&& q.target_name@ == p.target_name@
            &&& q.candidate_name@ == p.candidate_name@
            &&& steps_before(q, f) == steps_before(p, f).push(p.step)
        },
        Next::Published(warning) => {
            &&& result(f, p.target_name@, p.candidate_name@) is None
            &&& steps(f) == steps_before(p, f).push(p.step)
            &&& match (warning, f(PublicationStep::DropCandidate)) {
                (None, None) => true,
                (Some(w), Some(e)) => w@ == not_removed(p.target_name@, p.candidate_name@, e),
                _ => false,
            }
        },
        Next::Failed(e) => {
            &&& result(f, p.target_name@, p.candidate_name@) == Some(e@)
            &&& steps(f) == steps_before(p, f).push(p.step)
        },
    }
}

/// Starts a publication. Nothing is run unless every audit passed.
pub fn run_publication_steps(
    audits: &Vec<Audit>,
    target_name: &str,
    candidate_name: &str,
) -> (r: Result<Publication, FsError>)
    ensures
        match r {
            Ok(p) => {
                &&& audits_failure(audits@) is None
                &&& p.step == PublicationStep::Prepare
                &&& !p.published
                &&& p.failure is None
                &&& p.target_name@ == target_name@
                &&& p.candidate_name@ == candidate_name@
                &&& forall|f: Outcomes| at_step(p, f) && #[trigger] steps_before(p, f).len() == 0
            },
            Err(e) => audits_failure(audits@) == Some(e@),
        },
{
    if let Err(e) = require_passing_audits(audits) {
        return Err(e);
    }
    Ok(
        Publication {
            target_name: target_name.to_owned(),
            candidate_name: candidate_name.to_owned(),
            step: PublicationStep::Prepare,
            published: false,
            failure: None,
        },
    )
}

impl Publication {
    fn at(self, step: PublicationStep, published: bool, failure: Option<FsError>) -> (r: Next)
        ensures
            r == Next::Run(
                Publication {
                    target_name: self.target_name,
                    candidate_name: self.candidate_name,
                    step,
                    published,
                    failure,
                },
            ),
    {
        Next::Run(
            Publication {
                target_name: self.target_name,
                candidate_name: self.candidate_name,
                step,
                published,
                failure,
            },
        )
    }

    /// What follows when the step ended like this.
    pub fn done(self, outcome: Result<(), FsError>) -> (r: Next)
        ensures
            forall|f: Outcomes| #[trigger]
                at_step(self, f) && f(self.step) == outcome_view(outcome) ==> follows(r, self, f),
    {
        let ghost start = self;
        let ghost ended = outcome_view(outcome);
        let failed = match outcome {
            Ok(_) => None,
            Err(e) => Some(e),
        };
        let published = self.published;
        let r = match self.step {
            PublicationStep::Prepare => match failed {
                None => self.at(PublicationStep::SetQueryTag, false, None),
                Some(e) => self.at(PublicationStep::ResetOverrides, false, Some(e)),
            },
            PublicationStep::SetQueryTag => match failed {
                None => self.at(PublicationStep::Clone, false, None),
                Some(e) => self.at(PublicationStep::ResetOverrides, false, Some(e)),
            },
            PublicationStep::Clone => match failed {
                None => self.at(PublicationStep::Finalize, true, None),
                Some(e) => self.at(PublicationStep::ResetQueryTag, false, Some(e)),
            },
            PublicationStep::Finalize => self.at(PublicationStep::ResetQueryTag, true, failed),
            PublicationStep::ResetQueryTag => {
                // Reset even when cloning or finalization failed; preserve that error.
                let kept = match self.failure {
                    Some(e) => Some(e),
                    None => failed,
                };
                Next::Run(
                    Publication {
                        target_name: self.target_name,
                        candidate_name: self.candidate_name,
                        step: PublicationStep::ResetOverrides,
                        published,
                        failure: kept,
                    },
                )
            },
            PublicationStep::ResetOverrides => {
                let kept = match self.failure {
                    Some(e) => Some(e),
                    None => failed,
                };
                match kept {
                    None => Next::Run(
                        Publication {
                            target_name: self.target_name,
                            candidate_name: self.candidate_name,
                            step: PublicationStep::DropCandidate,
                            published,
                            failure: None,
                        },
                    ),
                    Some(e) => if published {
                        let message = "WAP: ".to_owned().concat(self.target_name.as_str()).concat(
                            " was published; finalization failed: ",
                        ).concat(e.message.as_str()).concat(". Working table at failure: ").concat(
                            self.candidate_name.as_str(),
                        );
                        Next::Failed(FsError { code: e.code, message })
                    } else {
                        Next::Failed(e)
                    },
                }
            },
            // A cleanup error cannot undo a successful publication.
            PublicationStep::DropCandidate => match failed {
                None => Next::Published(None),
                Some(e) => Next::Published(
                    Some(
                        "WAP published ".to_owned().concat(self.target_name.as_str()).concat(
                            "; could not remove working table ",
                        ).concat(self.candidate_name.as_str()).concat(": ").concat(
                            e.message.as_str(),
                        ),
                    ),
                ),
            },
        };
        proof {
            assert forall|f: Outcomes| #[trigger]
                at_step(start, f) && f(start.step) == ended implies follows(r, start, f) by {
                steps_are_run_in_order(start, f);
                let all = steps(f);
                let n = steps_before(start, f).len() as int;
                assert(all.take(n + 1) =~= all.take(n).push(all[n]));
                assert(all.take(all.len() as int) =~= all);
            }
        }
        r
    }
}

} // verus!
