//! Building the working table: the statements that are submitted, in their order.

use crate::json::opt;
use crate::relation::{rendered, Relation, RelationView};
use crate::snowflake::{
    build_sql, claim_sql, clone_sql, create_table_as_sql, create_table_claim_sql,
    create_table_clone_sql,
};
use crate::text::{trim, trimmed, views};
use crate::value::{missing, Value};
use crate::wap::inspect::TableLifecycle;
use crate::wap::nodes::{invalid, invalid_config, FsError, FsErrorView};
use crate::wap::plan::{candidate, public, WapCandidateState, WapModel, WapModelView};
use vstd::prelude::*;

verus! {

// ---------------------------------------------------------------------------
// Creating the working table
// ---------------------------------------------------------------------------

/// The statement that creates the working table: a clone of the public one, or a claim of
/// its name. A permanent table cannot be cloned from a transient one.
pub open spec fn creation(
    target: RelationView,
    working: RelationView,
    source: Option<TableLifecycle>,
    transient: bool,
) -> Result<Seq<char>, FsErrorView> {
    match source {
        None => Ok(claim_sql(working, transient)),
        Some(kept) => if kept == TableLifecycle::Transient && !transient {
            Err(
                invalid(
                    "WAP cannot clone transient public table "@ + rendered(target)
                        + " to a permanent working table"@,
                ),
            )
        } else {
            Ok(clone_sql(working, target, transient))
        },
    }
}

pub fn initialize_candidate(
    target: &Relation,
    working: &Relation,
    source: Option<TableLifecycle>,
    transient: bool,
) -> (r: Result<String, FsError>)
    ensures
        match (r, creation(target@, working@, source, transient)) {
            (Ok(sql), Ok(expected)) => sql@ == expected,
            (Err(e), Err(f)) => e@ == f,
            _ => false,
        },
{
    match source {
        None => Ok(create_table_claim_sql(working, transient)),
        Some(kept) => if kept == TableLifecycle::Transient && !transient {
            Err(
                invalid_config(
                    "WAP cannot clone transient public table ".to_owned().concat(
                        target.render_self_as_str().as_str(),
                    ).concat(" to a permanent working table"),
                ),
            )
        } else {
            Ok(create_table_clone_sql(working, target, transient))
        },
    }
}

/// The error where the working table could not be created: the public one stands, and
/// whether the working one does is unknown.
pub open spec fn not_created(
    target: RelationView,
    working: RelationView,
    e: FsErrorView,
) -> FsErrorView {
    FsErrorView {
        code: e.code,
        message: "WAP could not create working table "@ + rendered(working) + ": "@ + e.message
            + ". Public table "@ + rendered(target)
            + " was not replaced; the working table may have been created"@,
    }
}

pub fn candidate_not_created(target: &Relation, working: &Relation, e: &FsError) -> (r: FsError)
    ensures
        r@ == not_created(target@, working@, e@),
{
    FsError::new(
        e.code,
        "WAP could not create working table ".to_owned().concat(
            working.render_self_as_str().as_str(),
        ).concat(": ").concat(e.message.as_str()).concat(". Public table ").concat(
            target.render_self_as_str().as_str(),
        ).concat(" was not replaced; the working table may have been created"),
    )
}

// ---------------------------------------------------------------------------
// The header
// ---------------------------------------------------------------------------

/// The statements that run before the table is built: those set while rendering, or those
/// of the model's configuration. Blank text is none.
pub open spec fn header(parsed: Option<Seq<char>>, runtime: Option<Value>) -> Option<Seq<char>> {
    let given = match runtime {
        Some(v) => if missing(v) {
            parsed
        } else {
            Some(v.text@)
        },
        None => parsed,
    };
    match given {
        Some(text) => if trim(text).len() == 0 {
            None
        } else {
            Some(text)
        },
        None => None,
    }
}

pub fn sql_header(parsed: &Option<String>, runtime: &Option<Value>) -> (r: Option<String>)
    ensures
        opt(r) == header(opt(*parsed), *runtime),
{
    let given: Option<String> = match runtime {
        Some(v) => if v.is_missing() {
            match parsed {
                Some(text) => Some(text.clone()),
                None => None,
            }
        } else {
            Some(v.text.clone())
        },
        None => match parsed {
            Some(text) => Some(text.clone()),
            None => None,
        },
    };
    match given {
        Some(text) => {
            let t = trimmed(text.as_str());
            if t.as_str().is_empty() {
                None
            } else {
                Some(text)
            }
        },
        None => None,
    }
}

// ---------------------------------------------------------------------------
// The stage
// ---------------------------------------------------------------------------

/// One submission of the stage.
#[derive(Debug)]
pub enum Piece {
    /// SQL as it stands.
    Sql(String),
    /// A hook, rendered when its turn comes.
    Hook(String),
}

pub enum PieceView {
    Sql(Seq<char>),
    Hook(Seq<char>),
}

impl View for Piece {
    type V = PieceView;

    open spec fn view(&self) -> PieceView {
        match self {
            Piece::Sql(s) => PieceView::Sql(s@),
            Piece::Hook(s) => PieceView::Hook(s@),
        }
    }
}

pub open spec fn pieces_view(pieces: Seq<Piece>) -> Seq<PieceView> {
    pieces.map_values(|p: Piece| p@)
}

pub open spec fn hooks(templates: Seq<Seq<char>>) -> Seq<PieceView> {
    templates.map_values(|t: Seq<char>| PieceView::Hook(t))
}

/// The statement that builds the working table, behind its header.
pub open spec fn transformation_sql(
    working: RelationView,
    query: Seq<char>,
    transient: bool,
    header: Option<Seq<char>>,
) -> Seq<char> {
    match header {
        Some(h) => h + " "@ + build_sql(working, query, transient),
        None => build_sql(working, query, transient),
    }
}

/// The submissions of a stage: the creation, the hooks before, the transformation, the
/// hooks after.
pub open spec fn submissions(
    m: WapModelView,
    created: Seq<char>,
    query: Seq<char>,
    transient: bool,
    header: Option<Seq<char>>,
) -> Seq<PieceView> {
    seq![PieceView::Sql(created)] + hooks(m.model.config.pre_hooks) + seq![
        PieceView::Sql(transformation_sql(candidate(m), query, transient, header)),
    ] + hooks(m.model.config.post_hooks)
}

/// A stage under way.
#[derive(Debug)]
pub struct Stage {
    pub target: Relation,
    pub working: Relation,
    pub pieces: Vec<Piece>,
    /// How many submissions succeeded.
    pub done: usize,
    /// The text of the hook whose turn it is, once it is rendered.
    pub hook: Option<String>,
}

/// What a stage does next.
#[derive(Debug)]
pub enum Turn {
    /// Render a hook in the model's environment, where `this` is the given relation.
    Render { template: String, this: String },
    /// Submit a statement.
    Submit(String),
}

pub enum TurnView {
    Render { template: Seq<char>, this: Seq<char> },
    Submit(Seq<char>),
}

impl View for Turn {
    type V = TurnView;

    open spec fn view(&self) -> TurnView {
        match self {
            Turn::Render { template, this } => TurnView::Render {
                template: template@,
                this: this@,
            },
            Turn::Submit(sql) => TurnView::Submit(sql@),
        }
    }
}

/// What a stage does next, where something is left. A hook sees the working table.
pub open spec fn turn_of(stage: Stage) -> Option<TurnView> {
    let pieces = pieces_view(stage.pieces@);
    if stage.done >= pieces.len() {
        None
    } else {
        match pieces[stage.done as int] {
            PieceView::Sql(sql) => Some(TurnView::Submit(sql)),
            PieceView::Hook(template) => match stage.hook {
                Some(text) => Some(TurnView::Submit(text@)),
                None => Some(TurnView::Render { template, this: rendered(stage.working@) }),
            },
        }
    }
}

fn push_hooks(pieces: &mut Vec<Piece>, templates: &Vec<String>)
    ensures
        pieces_view(final(pieces)@) == pieces_view(old(pieces)@) + hooks(views(templates@)),
{
    let ghost start = pieces_view(pieces@);
    let ghost all = hooks(views(templates@));
    let mut i: usize = 0;
    assert(start + all.take(0) =~= start);
    while i < templates.len()
        invariant
            i <= templates.len(),
            all == hooks(views(templates@)),
            pieces_view(pieces@) == start + all.take(i as int),
        decreases templates.len() - i,
    {
        let ghost prior = pieces_view(pieces@);
        pieces.push(Piece::Hook(templates[i].clone()));
        assert(pieces_view(pieces@) =~= prior.push(all[i as int]));
        assert(start + all.take(i + 1) =~= prior.push(all[i as int]));
        i += 1;
    }
    assert(all.take(i as int) =~= all);
}

impl Stage {
    /// Starts the stage of a model, where its working table can be created.
    pub fn start(
        wap: &WapModel,
        source: Option<TableLifecycle>,
        query: &str,
        transient: bool,
        header: &Option<String>,
    ) -> (r: Result<Stage, FsError>)
        ensures
            match (r, creation(public(wap@), candidate(wap@), source, transient)) {
                (Ok(stage), Ok(created)) => {
                    &&& stage.target@ == public(wap@)
                    &&& stage.working@ == candidate(wap@)
                    &&& stage.done == 0
                    &&& stage.hook is None
                    &&& pieces_view(stage.pieces@) == submissions(
                        wap@,
                        created,
                        query@,
                        transient,
                        opt(*header),
                    )
                },
                (Err(e), Err(f)) => e@ == f,
                _ => false,
            },
    {
        let target = wap.public_relation();
        let working = wap.candidate_relation();
        let created = match initialize_candidate(&target, &working, source, transient) {
            Ok(sql) => sql,
            Err(e) => {
                return Err(e);
            },
        };
        let build = create_table_as_sql(&working, query, transient);
        let transformation = match header {
            Some(h) => h.clone().concat(" ").concat(build.as_str()),
            None => build,
        };
        let mut pieces: Vec<Piece> = Vec::new();
        pieces.push(Piece::Sql(created));
        assert(pieces_view(pieces@) =~= seq![PieceView::Sql(created@)]);
        push_hooks(&mut pieces, &wap.model.config.pre_hooks);
        let ghost prior = pieces_view(pieces@);
        pieces.push(Piece::Sql(transformation));
        assert(pieces_view(pieces@) =~= prior + seq![PieceView::Sql(transformation@)]);
        push_hooks(&mut pieces, &wap.model.config.post_hooks);
        Ok(Stage { target, working, pieces, done: 0, hook: None })
    }

    /// What is done next, where something is left.
    pub fn turn(&self) -> (r: Option<Turn>)
        ensures
            match (r, turn_of(*self)) {
                (None, None) => true,
                (Some(turn), Some(expected)) => turn@ == expected,
                _ => false,
            },
    {
        if self.done >= self.pieces.len() {
            return None;
        }
        assert(pieces_view(self.pieces@)[self.done as int] == self.pieces@[self.done as int]@);
        match &self.pieces[self.done] {
            Piece::Sql(sql) => Some(Turn::Submit(sql.clone())),
            Piece::Hook(template) => match &self.hook {
                Some(text) => Some(Turn::Submit(text.clone())),
                None => Some(
                    Turn::Render {
                        template: template.clone(),
                        this: self.working.render_self_as_str(),
                    },
                ),
            },
        }
    }

    /// What follows when a hook was rendered: its text is submitted in its turn. A failure
    /// ends the stage.
    pub fn hook_rendered(self, outcome: Result<String, FsError>) -> (r: Result<Stage, FsError>)
        requires
            turn_of(self) matches Some(TurnView::Render { .. }),
        ensures
            match (r, outcome) {
                (Ok(next), Ok(text)) => next == (Stage { hook: Some(text), ..self }) && turn_of(
                    next,
                ) == Some(TurnView::Submit(text@)),
                (Err(e), Err(cause)) => e == cause,
                _ => false,
            },
    {
        match outcome {
            Ok(text) => Ok(
                Stage {
                    target: self.target,
                    working: self.working,
                    pieces: self.pieces,
                    done: self.done,
                    hook: Some(text),
                },
            ),
            Err(e) => Err(e),
        }
    }

    /// What follows when the statement was submitted. A failure ends the stage: nothing is
    /// left that could be submitted.
    pub fn submitted(self, outcome: Result<(), FsError>) -> (r: Result<Stage, FsError>)
        requires
            turn_of(self) matches Some(TurnView::Submit(_)),
        ensures
            match (r, outcome) {
                (Ok(next), Ok(_)) => next == (Stage {
                    done: (self.done + 1) as usize,
                    hook: None,
                    ..self
                }),
                (Err(e), Err(cause)) => e@ == (if self.done == 0 {
                    not_created(self.target@, self.working@, cause@)
                } else {
                    cause@
                }),
                _ => false,
            },
    {
        assert(self.done < self.pieces.len());
        match outcome {
            Ok(_) => Ok(
                Stage {
                    target: self.target,
                    working: self.working,
                    pieces: self.pieces,
                    done: self.done + 1,
                    hook: None,
                },
            ),
            Err(e) => if self.done == 0 {
                Err(candidate_not_created(&self.target, &self.working, &e))
            } else {
                Err(e)
            },
        }
    }

    /// What is known of the working table: it is this invocation's own once it was created.
    pub fn candidate_state(&self) -> (r: Option<WapCandidateState>)
        ensures
            r == (if self.done > 0 {
                Some(WapCandidateState::Created)
            } else {
                None
            }),
    {
        if self.done > 0 {
            Some(WapCandidateState::Created)
        } else {
            None
        }
    }
}

/// The first statement of a stage creates the working table, and never replaces anything.
pub proof fn the_first_statement_creates(
    m: WapModelView,
    created: Seq<char>,
    query: Seq<char>,
    transient: bool,
    header: Option<Seq<char>>,
)
    ensures
        submissions(m, created, query, transient, header)[0] == PieceView::Sql(created),
        submissions(m, created, query, transient, header).len() == m.model.config.pre_hooks.len()
            + m.model.config.post_hooks.len() + 2,
        submissions(m, created, query, transient, header)[m.model.config.pre_hooks.len() as int + 1]
            == PieceView::Sql(transformation_sql(candidate(m), query, transient, header)),
{
}

} // verus!
