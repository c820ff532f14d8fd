//! Re-running failed nodes from previous executions.

use crate::json::{opt, Json, JsonView};
use crate::ordered::{
    ascending, found, found_is_there, has_key, insert, inserted, inserted_is_found, keyed, members,
    one_set_is_ascending, set_holds_all, set_of, to_set,
};
use crate::text::{
    from_range, has_prefix, same, split_once, splitted_once, starts_with, to_chars, views,
};
use crate::wap::invocation::WapPlan;
use crate::wap::nodes::{ErrorCode, FsError, FsErrorView, Nodes};
use crate::wap::plan::required_audits;
use vstd::prelude::*;

verus! {

// ---------------------------------------------------------------------------
// What is retried
// ---------------------------------------------------------------------------

/// Statuses that are always retried.
pub open spec fn retryable(status: Seq<char>) -> bool {
    status == "error"@ || status == "fail"@ || status == "skipped"@
}

/// The additional status that is retried only when the retry itself turns warnings into
/// errors.
pub open spec fn warn_retryable(status: Seq<char>) -> bool {
    status == "warn"@
}

pub fn is_retryable_status(status: &str) -> (r: bool)
    ensures
        r == retryable(status@),
{
    same(status, "error") || same(status, "fail") || same(status, "skipped")
}

pub fn is_warn_error_retryable_status(status: &str) -> (r: bool)
    ensures
        r == warn_retryable(status@),
{
    same(status, "warn")
}

#[derive(Debug, Clone, Copy, PartialEq, Eq, Structural)]
pub enum StaticAnalysisKind {
    On,
    Strict,
    Off,
    Unsafe,
    Baseline,
}

pub open spec fn analysis_kind(s: Seq<char>) -> Option<StaticAnalysisKind> {
    if s == "on"@ {
        Some(StaticAnalysisKind::On)
    } else if s == "strict"@ {
        Some(StaticAnalysisKind::Strict)
    } else if s == "off"@ {
        Some(StaticAnalysisKind::Off)
    } else if s == "unsafe"@ {
        Some(StaticAnalysisKind::Unsafe)
    } else if s == "baseline"@ {
        Some(StaticAnalysisKind::Baseline)
    } else {
        None
    }
}

impl StaticAnalysisKind {
    pub fn parse(s: &str) -> (r: Option<StaticAnalysisKind>)
        ensures
            r == analysis_kind(s@),
    {
        if same(s, "on") {
            Some(StaticAnalysisKind::On)
        } else if same(s, "strict") {
            Some(StaticAnalysisKind::Strict)
        } else if same(s, "off") {
            Some(StaticAnalysisKind::Off)
        } else if same(s, "unsafe") {
            Some(StaticAnalysisKind::Unsafe)
        } else if same(s, "baseline") {
            Some(StaticAnalysisKind::Baseline)
        } else {
            None
        }
    }
}

/// How one node ended.
#[derive(Debug)]
pub struct RunResult {
    pub unique_id: String,
    pub status: String,
    pub batch_results: Option<Json>,
}

/// The results of a run, with what it was invoked with.
#[derive(Debug)]
pub struct RunResults {
    pub which: String,
    /// The setting, where it was recorded as text.
    pub static_analysis: Option<String>,
    /// The setting, where it was recorded as a boolean.
    pub full_refresh: Option<bool>,
    pub results: Vec<RunResult>,
}

/// The result is one to retry. Operations are part of the command that runs them and run
/// again with it, so they are retried only behind `run-operation`.
pub open spec fn is_retried(which: Seq<char>, warn_error: bool, result: RunResult) -> bool {
    (retryable(result.status@) || (warn_error && warn_retryable(result.status@))) && (which
        == "run-operation"@ || !starts_with(result.unique_id@, "operation."@))
}

/// The ids of the results to retry, in their order.
pub open spec fn retried(which: Seq<char>, warn_error: bool, results: Seq<RunResult>) -> Seq<
    Seq<char>,
>
    decreases results.len(),
{
    if results.len() == 0 {
        Seq::empty()
    } else {
        let rest = retried(which, warn_error, results.drop_last());
        if is_retried(which, warn_error, results.last()) {
            rest.push(results.last().unique_id@)
        } else {
            rest
        }
    }
}

/// The batches of the results that ran in batches, by the ids of their nodes.
pub open spec fn batches(results: Seq<RunResult>) -> Seq<(Seq<char>, JsonView)>
    decreases results.len(),
{
    if results.len() == 0 {
        Seq::empty()
    } else {
        let rest = batches(results.drop_last());
        match results.last().batch_results {
            Some(b) => inserted(rest, results.last().unique_id@, b@),
            None => rest,
        }
    }
}

/// What is retried is exactly what ended in a status that is retried.
pub proof fn retried_are_the_failed(
    which: Seq<char>,
    warn_error: bool,
    results: Seq<RunResult>,
    id: Seq<char>,
)
    ensures
        retried(which, warn_error, results).contains(id) <==> exists|i: int|
            0 <= i < results.len() && (#[trigger] results[i]).unique_id@ == id && is_retried(
                which,
                warn_error,
                results[i],
            ),
    decreases results.len(),
{
    if results.len() > 0 {
        let rest = results.drop_last();
        let before = retried(which, warn_error, rest);
        let all = retried(which, warn_error, results);
        retried_are_the_failed(which, warn_error, rest, id);
        if all.contains(id) {
            let k = choose|k: int| 0 <= k < all.len() && all[k] == id;
            if k < before.len() {
                assert(before[k] == id);
                let i = choose|i: int|
                    0 <= i < rest.len() && (#[trigger] rest[i]).unique_id@ == id && is_retried(
                        which,
                        warn_error,
                        rest[i],
                    );
                assert(results[i] == rest[i]);
            } else {
                assert(results[results.len() - 1].unique_id@ == id);
            }
        }
        if exists|i: int|
            0 <= i < results.len() && (#[trigger] results[i]).unique_id@ == id && is_retried(
                which,
                warn_error,
                results[i],
            ) {
            let i = choose|i: int|
                0 <= i < results.len() && (#[trigger] results[i]).unique_id@ == id && is_retried(
                    which,
                    warn_error,
                    results[i],
                );
            if i < rest.len() {
                assert(rest[i] == results[i]);
                let k = choose|k: int| 0 <= k < before.len() && before[k] == id;
                assert(all[k] == id);
            } else {
                assert(all[all.len() - 1] == id);
            }
        }
    }
}

/// Holds the state extracted from a previous run's results that is needed to execute a
/// retry command.
#[derive(Debug)]
pub struct RetryState {
    /// The original command type that was run (e.g., "run", "build", "test")
    pub original_command: String,
    /// List of unique_ids for nodes that should be retried
    pub retryable_node_ids: Vec<String>,
    /// The static analysis setting from the original run, if present
    pub original_static_analysis: Option<StaticAnalysisKind>,
    /// Per-node batch results from the previous run (for overload retry skip)
    pub previous_batch_results: Vec<(String, Json)>,
    /// Whether the original run was invoked with --full-refresh
    pub original_full_refresh: bool,
}

/// The name of a check behind `check.<package>.`; a name may hold dots.
pub open spec fn check_name(id: Seq<char>) -> Option<Seq<char>> {
    if starts_with(id, "check."@) {
        match split_once(id.skip("check."@.len() as int), "."@) {
            Some((_, name)) => Some(name),
            None => None,
        }
    } else {
        None
    }
}

/// The names of the checks among ids, in their order.
pub open spec fn check_names(ids: Seq<Seq<char>>) -> Seq<Seq<char>>
    decreases ids.len(),
{
    if ids.len() == 0 {
        Seq::empty()
    } else {
        let rest = check_names(ids.drop_last());
        match check_name(ids.last()) {
            Some(name) => rest.push(name),
            None => rest,
        }
    }
}

fn check_name_of(id: &str) -> (r: Option<String>)
    ensures
        opt(r) == check_name(id@),
{
    if !has_prefix(id, "check.") {
        return None;
    }
    proof {
        reveal_strlit("check.");
    }
    assert("check."@.len() == 6);
    let chars = to_chars(id);
    let rest = from_range(&chars, 6, chars.len());
    assert(rest@ =~= id@.skip(6));
    match splitted_once(rest.as_str(), ".") {
        Some((_, name)) => Some(name),
        None => None,
    }
}

/// Decode check names from `check.<package>.<name>` unique_ids.
///
/// Everything after the second `.` is the name, so a name containing a
/// dot survives. Keys that don't fit drop out; an empty result means "run
/// every discovered check".
pub fn check_names_from_retry_ids(ids: &Vec<String>) -> (r: Vec<String>)
    ensures
        views(r@) == check_names(views(ids@)),
{
    let ghost all = views(ids@);
    let mut r: Vec<String> = Vec::new();
    let mut i: usize = 0;
    assert(views(r@) =~= check_names(all.take(0)));
    while i < ids.len()
        invariant
            i <= ids.len(),
            all == views(ids@),
            views(r@) == check_names(all.take(i as int)),
        decreases ids.len() - i,
    {
        assert(all.take(i + 1).drop_last() =~= all.take(i as int));
        assert(all.take(i + 1).last() == ids@[i as int]@);
        if let Some(name) = check_name_of(ids[i].as_str()) {
            let ghost prior = views(r@);
            let ghost added = name@;
            r.push(name);
            assert(views(r@) =~= prior.push(added));
        }
        i += 1;
    }
    assert(all.take(i as int) =~= all);
    r
}

/// What a retry is invoked with: the arguments that every command takes, and the setting of
/// the static analysis.
#[derive(Debug)]
pub struct RetryArgs<C> {
    pub common_args: C,
    pub static_analysis: Option<StaticAnalysisKind>,
}

/// The command that a retry runs.
#[derive(Debug)]
pub enum CoreCommand<C> {
    Run { common_args: C, static_analysis: Option<StaticAnalysisKind>, full_refresh: bool },
    Build { common_args: C, static_analysis: Option<StaticAnalysisKind>, full_refresh: bool },
    Test { common_args: C, static_analysis: Option<StaticAnalysisKind> },
    Seed { common_args: C, static_analysis: Option<StaticAnalysisKind>, full_refresh: bool },
    Snapshot { common_args: C, static_analysis: Option<StaticAnalysisKind> },
    Compile { common_args: C, static_analysis: Option<StaticAnalysisKind>, full_refresh: bool },
    Check {
        common_args: C,
        static_analysis: Option<StaticAnalysisKind>,
        check_names: Vec<String>,
    },
}

/// The arguments of a command that every command takes.
pub open spec fn command_common<C>(c: CoreCommand<C>) -> C {
    match c {
        CoreCommand::Run { common_args, .. } => common_args,
        CoreCommand::Build { common_args, .. } => common_args,
        CoreCommand::Test { common_args, .. } => common_args,
        CoreCommand::Seed { common_args, .. } => common_args,
        CoreCommand::Snapshot { common_args, .. } => common_args,
        CoreCommand::Compile { common_args, .. } => common_args,
        CoreCommand::Check { common_args, .. } => common_args,
    }
}

pub open spec fn command_name<C>(c: CoreCommand<C>) -> Seq<char> {
    match c {
        CoreCommand::Run { .. } => "run"@,
        CoreCommand::Build { .. } => "build"@,
        CoreCommand::Test { .. } => "test"@,
        CoreCommand::Seed { .. } => "seed"@,
        CoreCommand::Snapshot { .. } => "snapshot"@,
        CoreCommand::Compile { .. } => "compile"@,
        CoreCommand::Check { .. } => "check"@,
    }
}

pub open spec fn command_analysis<C>(c: CoreCommand<C>) -> Option<StaticAnalysisKind> {
    match c {
        CoreCommand::Run { static_analysis, .. } => static_analysis,
        CoreCommand::Build { static_analysis, .. } => static_analysis,
        CoreCommand::Test { static_analysis, .. } => static_analysis,
        CoreCommand::Seed { static_analysis, .. } => static_analysis,
        CoreCommand::Snapshot { static_analysis, .. } => static_analysis,
        CoreCommand::Compile { static_analysis, .. } => static_analysis,
        CoreCommand::Check { static_analysis, .. } => static_analysis,
    }
}

pub open spec fn command_refresh<C>(c: CoreCommand<C>) -> bool {
    match c {
        CoreCommand::Run { full_refresh, .. } => full_refresh,
        CoreCommand::Build { full_refresh, .. } => full_refresh,
        CoreCommand::Seed { full_refresh, .. } => full_refresh,
        CoreCommand::Compile { full_refresh, .. } => full_refresh,
        _ => false,
    }
}

/// Commands that can be retried.
pub open spec fn retriable(command: Seq<char>) -> bool {
    command == "run"@ || command == "build"@ || command == "test"@ || command == "seed"@ || command
        == "snapshot"@ || command == "compile"@ || command == "check"@
}

/// Commands that know a full refresh.
pub open spec fn refreshes(command: Seq<char>) -> bool {
    command == "run"@ || command == "build"@ || command == "seed"@ || command == "compile"@
}

impl<C> CoreCommand<C> {
    /// The arguments that every command takes.
    pub fn common_args(&self) -> (r: &C)
        ensures
            *r == command_common(*self),
    {
        match self {
            CoreCommand::Run { common_args, .. } => common_args,
            CoreCommand::Build { common_args, .. } => common_args,
            CoreCommand::Test { common_args, .. } => common_args,
            CoreCommand::Seed { common_args, .. } => common_args,
            CoreCommand::Snapshot { common_args, .. } => common_args,
            CoreCommand::Compile { common_args, .. } => common_args,
            CoreCommand::Check { common_args, .. } => common_args,
        }
    }

    pub fn name(&self) -> (r: &'static str)
        ensures
            r@ == command_name(*self),
    {
        match self {
            CoreCommand::Run { .. } => "run",
            CoreCommand::Build { .. } => "build",
            CoreCommand::Test { .. } => "test",
            CoreCommand::Seed { .. } => "seed",
            CoreCommand::Snapshot { .. } => "snapshot",
            CoreCommand::Compile { .. } => "compile",
            CoreCommand::Check { .. } => "check",
        }
    }

    pub fn static_analysis(&self) -> (r: Option<StaticAnalysisKind>)
        ensures
            r == command_analysis(*self),
    {
        match self {
            CoreCommand::Run { static_analysis, .. } => *static_analysis,
            CoreCommand::Build { static_analysis, .. } => *static_analysis,
            CoreCommand::Test { static_analysis, .. } => *static_analysis,
            CoreCommand::Seed { static_analysis, .. } => *static_analysis,
            CoreCommand::Snapshot { static_analysis, .. } => *static_analysis,
            CoreCommand::Compile { static_analysis, .. } => *static_analysis,
            CoreCommand::Check { static_analysis, .. } => *static_analysis,
        }
    }

    pub fn full_refresh(&self) -> (r: bool)
        ensures
            r == command_refresh(*self),
    {
        match self {
            CoreCommand::Run { full_refresh, .. } => *full_refresh,
            CoreCommand::Build { full_refresh, .. } => *full_refresh,
            CoreCommand::Seed { full_refresh, .. } => *full_refresh,
            CoreCommand::Compile { full_refresh, .. } => *full_refresh,
            _ => false,
        }
    }
}

/// What a previous run leaves to retry, or that it leaves nothing.
pub open spec fn is_state(r: Result<RetryState, FsError>, artifact: RunResults, warn_error: bool) -> bool {
    let ids = retried(artifact.which@, warn_error, artifact.results@);
    match r {
        Err(e) => ids.len() == 0 && e@ == (FsErrorView {
            code: ErrorCode::Generic,
            message: "No failed nodes found in run_results.json - nothing to retry"@,
        }),
        Ok(state) => {
            &&& ids.len() > 0
            &&& state.original_command@ == artifact.which@
            &&& views(state.retryable_node_ids@) == ids
            &&& state.original_static_analysis == (match artifact.static_analysis {
                Some(s) => analysis_kind(s@),
                None => None,
            })
            &&& keyed(state.previous_batch_results@) == batches(artifact.results@)
            &&& state.original_full_refresh == (artifact.full_refresh == Some(true))
        },
    }
}

impl RetryState {
    /// The state of a retry by the results of a previous run.
    ///
    /// With `warn_error`, which the retry itself was invoked with, nodes recorded as `warn`
    /// are also retried (and will be escalated to failures during execution).
    pub fn from_run_results(artifact: &RunResults, warn_error: bool) -> (r: Result<
        RetryState,
        FsError,
    >)
        ensures
            is_state(r, *artifact, warn_error),
    {
        let ghost all = artifact.results@;
        let which = artifact.which.as_str();
        let operations = same(which, "run-operation");
        let mut ids: Vec<String> = Vec::new();
        let mut previous: Vec<(String, Json)> = Vec::new();
        let mut i: usize = 0;
        assert(views(ids@) =~= retried(which@, warn_error, all.take(0)));
        assert(keyed(previous@) =~= batches(all.take(0)));
        while i < artifact.results.len()
            invariant
                i <= artifact.results.len(),
                all == artifact.results@,
                which@ == artifact.which@,
                operations == (which@ == "run-operation"@),
                views(ids@) == retried(which@, warn_error, all.take(i as int)),
                keyed(previous@) == batches(all.take(i as int)),
            decreases artifact.results.len() - i,
        {
            assert(all.take(i + 1).drop_last() =~= all.take(i as int));
            assert(all.take(i + 1).last() == all[i as int]);
            let result = &artifact.results[i];
            let status = result.status.as_str();
            if (is_retryable_status(status) || (warn_error && is_warn_error_retryable_status(
                status,
            ))) && (operations || !has_prefix(result.unique_id.as_str(), "operation.")) {
                let ghost prior = views(ids@);
                ids.push(result.unique_id.clone());
                assert(views(ids@) =~= prior.push(result.unique_id@));
            }
            if let Some(b) = &result.batch_results {
                insert(&mut previous, result.unique_id.clone(), b.copy());
            }
            i += 1;
        }
        assert(all.take(i as int) =~= all);
        assert(views(ids@).len() == ids@.len());
        if ids.len() == 0 {
            return Err(
                FsError::new(
                    ErrorCode::Generic,
                    "No failed nodes found in run_results.json - nothing to retry".to_owned(),
                ),
            );
        }
        Ok(
            RetryState {
                original_command: artifact.which.clone(),
                retryable_node_ids: ids,
                original_static_analysis: match &artifact.static_analysis {
                    Some(s) => StaticAnalysisKind::parse(s.as_str()),
                    None => None,
                },
                previous_batch_results: previous,
                original_full_refresh: match artifact.full_refresh {
                    Some(b) => b,
                    None => false,
                },
            },
        )
    }

    /// The command that retries what the original one left.
    ///
    /// It takes the common arguments of the retry. An explicit setting of the retry wins over
    /// that of the original run. A command that cannot be retried is returned as the error.
    pub fn to_command<'a, C>(&self, retry_args: &'a RetryArgs<C>) -> (r: Result<
        CoreCommand<&'a C>,
        String,
    >)
        ensures
            match r {
                Ok(c) => {
                    &&& retriable(self.original_command@)
                    &&& command_name(c) == self.original_command@
                    &&& *command_common(c) == retry_args.common_args
                    &&& command_analysis(c) == (if retry_args.static_analysis is Some {
                        retry_args.static_analysis
                    } else {
                        self.original_static_analysis
                    })
                    &&& command_refresh(c) == (refreshes(self.original_command@)
                        && self.original_full_refresh)
                    &&& c matches CoreCommand::Check { check_names: names, .. } ==> views(names@)
                        == check_names(views(self.retryable_node_ids@))
                },
                Err(other) => !retriable(self.original_command@) && other@
                    == self.original_command@,
            },
            self.original_command@ == "run"@ ==> (r matches Ok(CoreCommand::Run { .. })),
            self.original_command@ == "build"@ ==> (r matches Ok(CoreCommand::Build { .. })),
            self.original_command@ == "test"@ ==> (r matches Ok(CoreCommand::Test { .. })),
            self.original_command@ == "seed"@ ==> (r matches Ok(CoreCommand::Seed { .. })),
            self.original_command@ == "snapshot"@ ==> (r matches Ok(CoreCommand::Snapshot { .. })),
            self.original_command@ == "compile"@ ==> (r matches Ok(CoreCommand::Compile { .. })),
            self.original_command@ == "check"@ ==> (r matches Ok(CoreCommand::Check { .. })),
            r matches Ok(
                CoreCommand::Run { common_args, static_analysis, full_refresh },
            ) ==> *common_args == retry_args.common_args && (static_analysis
                == retry_args.static_analysis || retry_args.static_analysis is None
                && static_analysis == self.original_static_analysis) && full_refresh
                == self.original_full_refresh,
            r matches Ok(
                CoreCommand::Build { common_args, static_analysis, full_refresh },
            ) ==> *common_args == retry_args.common_args && (static_analysis
                == retry_args.static_analysis || retry_args.static_analysis is None
                && static_analysis == self.original_static_analysis) && full_refresh
                == self.original_full_refresh,
            r matches Ok(
                CoreCommand::Seed { common_args, static_analysis, full_refresh },
            ) ==> *common_args == retry_args.common_args && (static_analysis
                == retry_args.static_analysis || retry_args.static_analysis is None
                && static_analysis == self.original_static_analysis) && full_refresh
                == self.original_full_refresh,
            r matches Ok(
                CoreCommand::Compile { common_args, static_analysis, full_refresh },
            ) ==> *common_args == retry_args.common_args && (static_analysis
                == retry_args.static_analysis || retry_args.static_analysis is None
                && static_analysis == self.original_static_analysis) && full_refresh
                == self.original_full_refresh,
            r matches Ok(CoreCommand::Test { common_args, static_analysis }) ==> *common_args
                == retry_args.common_args && (static_analysis == retry_args.static_analysis
                || retry_args.static_analysis is None && static_analysis
                == self.original_static_analysis),
            r matches Ok(CoreCommand::Snapshot { common_args, static_analysis }) ==> *common_args
                == retry_args.common_args && (static_analysis == retry_args.static_analysis
                || retry_args.static_analysis is None && static_analysis
                == self.original_static_analysis),
            r matches Ok(CoreCommand::Check { common_args, static_analysis, .. }) ==> *common_args
                == retry_args.common_args && (static_analysis == retry_args.static_analysis
                || retry_args.static_analysis is None && static_analysis
                == self.original_static_analysis),
    {
        let common_args = &retry_args.common_args;
        let static_analysis = match retry_args.static_analysis {
            Some(k) => Some(k),
            None => self.original_static_analysis,
        };
        // Preserve the original run's --full-refresh for commands that support it.
        let full_refresh = self.original_full_refresh;
        let command = self.original_command.as_str();
        proof {
            names_differ();
        }
        if same(command, "run") {
            Ok(CoreCommand::Run { common_args, static_analysis, full_refresh })
        } else if same(command, "build") {
            Ok(CoreCommand::Build { common_args, static_analysis, full_refresh })
        } else if same(command, "test") {
            Ok(CoreCommand::Test { common_args, static_analysis })
        } else if same(command, "seed") {
            Ok(CoreCommand::Seed { common_args, static_analysis, full_refresh })
        } else if same(command, "snapshot") {
            Ok(CoreCommand::Snapshot { common_args, static_analysis })
        } else if same(command, "compile") {
            Ok(CoreCommand::Compile { common_args, static_analysis, full_refresh })
        } else if same(command, "check") {
            // Re-run exactly the checks that failed, by name.
            Ok(
                CoreCommand::Check {
                    common_args,
                    static_analysis,
                    check_names: check_names_from_retry_ids(&self.retryable_node_ids),
                },
            )
        } else {
            Err(command.to_owned())
        }
    }
}

proof fn names_differ()
    ensures
        "run"@.len() == 3,
        "build"@.len() == 5 && "build"@[0] == 'b',
        "test"@.len() == 4 && "test"@[0] == 't',
        "seed"@.len() == 4 && "seed"@[0] == 's',
        "snapshot"@.len() == 8,
        "compile"@.len() == 7,
        "check"@.len() == 5 && "check"@[0] == 'c',
        !refreshes("test"@),
        !refreshes("snapshot"@),
        !refreshes("check"@),
{
    reveal_strlit("run");
    reveal_strlit("build");
    reveal_strlit("seed");
    reveal_strlit("compile");
    reveal_strlit("test");
    reveal_strlit("snapshot");
    reveal_strlit("check");
    assert("test"@.len() == 4 && "snapshot"@.len() == 8 && "check"@.len() == 5);
    assert("run"@.len() == 3 && "build"@.len() == 5 && "seed"@.len() == 4 && "compile"@.len()
        == 7);
    assert("test"@[0] == 't' && "seed"@[0] == 's');
    assert("check"@[0] == 'c' && "build"@[0] == 'b');
}

// ---------------------------------------------------------------------------
// Audits of retried models
// ---------------------------------------------------------------------------

/// A unit test, as far as it belongs to a model.
#[derive(Debug)]
pub struct UnitTest {
    pub enabled: bool,
    pub config_enabled: Option<bool>,
    pub depends_on: Vec<String>,
}

/// The unit test runs and tests the model.
pub open spec fn tests_model(test: UnitTest, owner: Seq<char>) -> bool {
    test.enabled && test.config_enabled != Some(false) && test.depends_on@.len() > 0
        && test.depends_on@[0]@ == owner
}

/// One set with the members of another one.
pub open spec fn union(a: Seq<(Seq<char>, ())>, b: Seq<(Seq<char>, ())>) -> Seq<(Seq<char>, ())>
    decreases b.len(),
{
    if b.len() == 0 {
        a
    } else {
        inserted(union(a, b.drop_last()), b.last().0, ())
    }
}

/// A set with the unit tests of a model.
pub open spec fn with_units(
    a: Seq<(Seq<char>, ())>,
    units: Seq<(String, UnitTest)>,
    owner: Seq<char>,
) -> Seq<(Seq<char>, ())>
    decreases units.len(),
{
    if units.len() == 0 {
        a
    } else {
        let rest = with_units(a, units.drop_last(), owner);
        if tests_model(units.last().1, owner) {
            inserted(rest, units.last().0@, ())
        } else {
            rest
        }
    }
}

pub open spec fn is_wap(nodes: Nodes, id: Seq<char>) -> bool {
    found(keyed(nodes.models@), id) matches Some(m) && m.config.wap == Some(true)
}

/// What is selected to retry ids, from a place among them on.
pub open spec fn expanded_from(
    ids: Seq<Seq<char>>,
    nodes: Nodes,
    units: Seq<(String, UnitTest)>,
    i: int,
    selected: Seq<(Seq<char>, ())>,
) -> Result<Seq<(Seq<char>, ())>, FsErrorView>
    decreases ids.len() - i,
{
    if i < 0 || i >= ids.len() {
        Ok(selected)
    } else if !is_wap(nodes, ids[i]) {
        expanded_from(ids, nodes, units, i + 1, selected)
    } else {
        match required_audits(nodes.tests@, ids[i]) {
            Err(e) => Err(e),
            Ok(audits) => expanded_from(
                ids,
                nodes,
                units,
                i + 1,
                with_units(union(selected, audits), units, ids[i]),
            ),
        }
    }
}

/// What is selected to retry ids.
pub open spec fn expanded(
    ids: Seq<Seq<char>>,
    nodes: Nodes,
    units: Seq<(String, UnitTest)>,
) -> Result<Seq<(Seq<char>, ())>, FsErrorView> {
    expanded_from(ids, nodes, units, 0, set_of(ids))
}

fn unite(selected: &mut Vec<(String, ())>, others: &Vec<(String, ())>)
    ensures
        keyed(final(selected)@) == union(keyed(old(selected)@), keyed(others@)),
{
    let ghost start = keyed(selected@);
    let ghost all = keyed(others@);
    let mut i: usize = 0;
    assert(union(start, all.take(0)) =~= start);
    while i < others.len()
        invariant
            i <= others.len(),
            all == keyed(others@),
            keyed(selected@) == union(start, all.take(i as int)),
        decreases others.len() - i,
    {
        assert(all.take(i + 1).drop_last() =~= all.take(i as int));
        assert(all.take(i + 1).last().0 == others@[i as int].0@);
        insert(selected, others[i].0.clone(), ());
        i += 1;
    }
    assert(all.take(i as int) =~= all);
}

fn add_units(selected: &mut Vec<(String, ())>, units: &Vec<(String, UnitTest)>, owner: &str)
    ensures
        keyed(final(selected)@) == with_units(keyed(old(selected)@), units@, owner@),
{
    let ghost start = keyed(selected@);
    let ghost all = units@;
    let mut i: usize = 0;
    assert(with_units(start, all.take(0), owner@) =~= start);
    while i < units.len()
        invariant
            i <= units.len(),
            all == units@,
            keyed(selected@) == with_units(start, all.take(i as int), owner@),
        decreases units.len() - i,
    {
        assert(all.take(i + 1).drop_last() =~= all.take(i as int));
        assert(all.take(i + 1).last() == all[i as int]);
        let (id, test) = &units[i];
        let runs = test.enabled && match test.config_enabled {
            Some(b) => b,
            None => true,
        };
        if runs && test.depends_on.len() > 0 && same(test.depends_on[0].as_str(), owner) {
            insert(selected, id.clone(), ());
        }
        i += 1;
    }
    assert(all.take(i as int) =~= all);
}

fn texts_of(set: &Vec<(String, ())>) -> (r: Vec<String>)
    ensures
        views(r@) == members(keyed(set@)),
{
    let ghost all = members(keyed(set@));
    let mut r: Vec<String> = Vec::new();
    let mut i: usize = 0;
    while i < set.len()
        invariant
            i <= set.len(),
            all == members(keyed(set@)),
            views(r@) =~= all.take(i as int),
        decreases set.len() - i,
    {
        let ghost prior = views(r@);
        r.push(set[i].0.clone());
        assert(all[i as int] == set@[i as int].0@);
        assert(views(r@) =~= prior.push(all[i as int]));
        assert(all.take(i + 1) =~= prior.push(all[i as int]));
        i += 1;
    }
    assert(all.take(i as int) =~= all);
    r
}

/// A retried WAP model creates a new candidate, so previously passed audits must rerun.
/// Test-only retries do not rebuild their owners or create new candidates.
pub fn expand_wap_retry_ids(
    ids: &Vec<String>,
    nodes: &Nodes,
    unit_tests: &Vec<(String, UnitTest)>,
) -> (r: Result<Vec<String>, FsError>)
    ensures
        match (r, expanded(views(ids@), *nodes, unit_tests@)) {
            (Ok(all), Ok(set)) => views(all@) == members(set),
            (Err(e), Err(f)) => e@ == f,
            _ => false,
        },
{
    let ghost all = views(ids@);
    let mut selected = to_set(ids);
    let mut i: usize = 0;
    while i < ids.len()
        invariant
            i <= ids.len(),
            all == views(ids@),
            expanded(all, *nodes, unit_tests@) == expanded_from(
                all,
                *nodes,
                unit_tests@,
                i as int,
                keyed(selected@),
            ),
        decreases ids.len() - i,
    {
        let owner = ids[i].as_str();
        assert(all[i as int] == owner@);
        let wap = match nodes.model(owner) {
            Some(m) => match m.config.wap {
                Some(b) => b,
                None => false,
            },
            None => false,
        };
        if wap {
            match WapPlan::required_audit_ids(owner, nodes) {
                Err(e) => {
                    return Err(e);
                },
                Ok(audits) => {
                    unite(&mut selected, &audits);
                    add_units(&mut selected, unit_tests, owner);
                },
            }
        }
        i += 1;
    }
    Ok(texts_of(&selected))
}

proof fn union_holds(a: Seq<(Seq<char>, ())>, b: Seq<(Seq<char>, ())>, t: Seq<char>)
    requires
        ascending(a),
    ensures
        ascending(union(a, b)),
        has_key(union(a, b), t) <==> has_key(a, t) || has_key(b, t),
    decreases b.len(),
{
    if b.len() > 0 {
        let rest = b.drop_last();
        union_holds(a, rest, t);
        inserted_is_found(union(a, rest), b.last().0, (), t);
        found_is_there(union(a, rest), t);
        found_is_there(union(a, b), t);
        if has_key(b, t) {
            let i = choose|i: int| 0 <= i < b.len() && (#[trigger] b[i]).0 == t;
            if i < rest.len() {
                assert(rest[i] == b[i]);
            }
        }
        if has_key(rest, t) {
            let i = choose|i: int| 0 <= i < rest.len() && (#[trigger] rest[i]).0 == t;
            assert(b[i] == rest[i]);
        }
        assert(b[b.len() - 1].0 == b.last().0);
    }
}

/// A unit test with this id runs and tests the model.
pub open spec fn has_unit(units: Seq<(String, UnitTest)>, owner: Seq<char>, t: Seq<char>) -> bool {
    exists|k: int|
        0 <= k < units.len() && (#[trigger] units[k]).0@ == t && tests_model(units[k].1, owner)
}

/// The model brings a test with it: its publication is audited, and the test is one of its
/// audits or of its unit tests.
pub open spec fn brings(
    nodes: Nodes,
    units: Seq<(String, UnitTest)>,
    owner: Seq<char>,
    t: Seq<char>,
) -> bool {
    is_wap(nodes, owner) && ((required_audits(nodes.tests@, owner) matches Ok(audits) && has_key(
        audits,
        t,
    )) || has_unit(units, owner, t))
}

/// One of the ids from a place on brings a test with it.
pub open spec fn brought_from(
    ids: Seq<Seq<char>>,
    nodes: Nodes,
    units: Seq<(String, UnitTest)>,
    i: int,
    t: Seq<char>,
) -> bool {
    exists|j: int| i <= j < ids.len() && brings(nodes, units, #[trigger] ids[j], t)
}

proof fn units_hold(
    a: Seq<(Seq<char>, ())>,
    units: Seq<(String, UnitTest)>,
    owner: Seq<char>,
    t: Seq<char>,
)
    requires
        ascending(a),
    ensures
        ascending(with_units(a, units, owner)),
        has_key(with_units(a, units, owner), t) <==> has_key(a, t) || has_unit(units, owner, t),
    decreases units.len(),
{
    if units.len() > 0 {
        let earlier = units.drop_last();
        let rest = with_units(a, earlier, owner);
        units_hold(a, earlier, owner, t);
        inserted_is_found(rest, units.last().0@, (), t);
        found_is_there(rest, t);
        found_is_there(with_units(a, units, owner), t);
        if has_unit(units, owner, t) {
            let k = choose|k: int|
                0 <= k < units.len() && (#[trigger] units[k]).0@ == t && tests_model(
                    units[k].1,
                    owner,
                );
            if k < earlier.len() {
                assert(earlier[k] == units[k]);
            }
        }
        if has_unit(earlier, owner, t) {
            let k = choose|k: int|
                0 <= k < earlier.len() && (#[trigger] earlier[k]).0@ == t && tests_model(
                    earlier[k].1,
                    owner,
                );
            assert(units[k] == earlier[k]);
        }
        assert(units[units.len() - 1] == units.last());
    }
}

proof fn expansion_holds(
    ids: Seq<Seq<char>>,
    nodes: Nodes,
    units: Seq<(String, UnitTest)>,
    i: int,
    selected: Seq<(Seq<char>, ())>,
    t: Seq<char>,
)
    requires
        0 <= i,
        ascending(selected),
    ensures
        expanded_from(ids, nodes, units, i, selected) matches Ok(all) ==> {
            &&& ascending(all)
            &&& has_key(all, t) <==> has_key(selected, t) || brought_from(ids, nodes, units, i, t)
            &&& forall|j: int|
                i <= j < ids.len() && is_wap(nodes, #[trigger] ids[j]) ==> required_audits(
                    nodes.tests@,
                    ids[j],
                ) is Ok
        },
    decreases ids.len() - i,
{
    if i < ids.len() {
        let here = brings(nodes, units, ids[i], t);
        let later = brought_from(ids, nodes, units, i + 1, t);
        assert(brought_from(ids, nodes, units, i, t) <==> here || later) by {
            if brought_from(ids, nodes, units, i, t) {
                let j = choose|j: int|
                    i <= j < ids.len() && brings(nodes, units, #[trigger] ids[j], t);
                if j > i {
                    assert(i + 1 <= j < ids.len() && brings(nodes, units, ids[j], t));
                }
            }
            if later {
                let j = choose|j: int|
                    i + 1 <= j < ids.len() && brings(nodes, units, #[trigger] ids[j], t);
                assert(i <= j < ids.len() && brings(nodes, units, ids[j], t));
            }
        }
        if !is_wap(nodes, ids[i]) {
            expansion_holds(ids, nodes, units, i + 1, selected, t);
        } else if let Ok(audits) = required_audits(nodes.tests@, ids[i]) {
            union_holds(selected, audits, t);
            units_hold(union(selected, audits), units, ids[i], t);
            expansion_holds(
                ids,
                nodes,
                units,
                i + 1,
                with_units(union(selected, audits), units, ids[i]),
                t,
            );
        }
    }
}

/// A retry selects, in ascending order, what is retried and what the models among it bring
/// with them: every audit and every unit test of a model whose publication is audited,
/// whether it passed before or not. Nothing else is selected.
pub proof fn a_retry_selects_exactly(
    ids: Seq<Seq<char>>,
    nodes: Nodes,
    units: Seq<(String, UnitTest)>,
    t: Seq<char>,
)
    ensures
        expanded(ids, nodes, units) matches Ok(all) ==> {
            &&& ascending(all)
            &&& has_key(all, t) <==> ids.contains(t) || brought_from(ids, nodes, units, 0, t)
        },
{
    set_holds_all(ids, t);
    expansion_holds(ids, nodes, units, 0, set_of(ids), t);
}

/// No test has the id of a model.
pub open spec fn tests_are_no_models(nodes: Nodes, units: Seq<(String, UnitTest)>) -> bool {
    forall|owner: Seq<char>, t: Seq<char>| #[trigger]
        brings(nodes, units, owner, t) ==> found(keyed(nodes.models@), t) is None
}

proof fn nothing_more_is_brought(
    ids: Seq<Seq<char>>,
    nodes: Nodes,
    units: Seq<(String, UnitTest)>,
    again: Seq<Seq<char>>,
    all: Seq<(Seq<char>, ())>,
    i: int,
)
    requires
        0 <= i,
        expanded(ids, nodes, units) == Ok::<Seq<(Seq<char>, ())>, FsErrorView>(all),
        again == members(all),
        tests_are_no_models(nodes, units),
    ensures
        expanded_from(again, nodes, units, i, all) == Ok::<Seq<(Seq<char>, ())>, FsErrorView>(all),
    decreases again.len() - i,
{
    if i < again.len() {
        let owner = again[i];
        a_retry_selects_exactly(ids, nodes, units, owner);
        if is_wap(nodes, owner) {
            assert(all[i].0 == owner);
            assert(has_key(all, owner));
            if !ids.contains(owner) {
                let j = choose|j: int|
                    0 <= j < ids.len() && brings(nodes, units, #[trigger] ids[j], owner);
                assert(brings(nodes, units, ids[j], owner));
            }
            let k = choose|k: int| 0 <= k < ids.len() && ids[k] == owner;
            set_holds_all(ids, owner);
            expansion_holds(ids, nodes, units, 0, set_of(ids), owner);
            assert(is_wap(nodes, ids[k]));
            let audits = required_audits(nodes.tests@, owner)->Ok_0;
            let next = with_units(union(all, audits), units, owner);
            union_holds(all, audits, owner);
            units_hold(union(all, audits), units, owner, owner);
            assert forall|t: Seq<char>| #[trigger] has_key(all, t) <==> has_key(next, t) by {
                a_retry_selects_exactly(ids, nodes, units, t);
                union_holds(all, audits, t);
                units_hold(union(all, audits), units, owner, t);
                if has_key(next, t) && !has_key(all, t) {
                    assert(brings(nodes, units, ids[k], t));
                }
            }
            one_set_is_ascending(all, next);
        }
        nothing_more_is_brought(ids, nodes, units, again, all, i + 1);
    }
}

/// Retrying what a retry selects selects the same: where no test has the id of a model,
/// nothing is brought a second time.
pub proof fn a_retry_is_complete(
    ids: Seq<Seq<char>>,
    nodes: Nodes,
    units: Seq<(String, UnitTest)>,
)
    requires
        tests_are_no_models(nodes, units),
    ensures
        expanded(ids, nodes, units) matches Ok(all) ==> expanded(members(all), nodes, units)
            == Ok::<Seq<(Seq<char>, ())>, FsErrorView>(all),
{
    if let Ok(all) = expanded(ids, nodes, units) {
        let again = members(all);
        set_holds_all(again, Seq::empty());
        a_retry_selects_exactly(ids, nodes, units, Seq::empty());
        assert forall|t: Seq<char>| #[trigger] has_key(set_of(again), t) <==> has_key(all, t) by {
            set_holds_all(again, t);
            if again.contains(t) {
                let i = choose|i: int| 0 <= i < again.len() && again[i] == t;
                assert(all[i].0 == t);
            }
            if has_key(all, t) {
                let i = choose|i: int| 0 <= i < all.len() && (#[trigger] all[i]).0 == t;
                assert(again[i] == t);
            }
        }
        one_set_is_ascending(set_of(again), all);
        nothing_more_is_brought(ids, nodes, units, again, all, 0);
    }
}

proof fn nothing_is_added(
    ids: Seq<Seq<char>>,
    nodes: Nodes,
    units: Seq<(String, UnitTest)>,
    i: int,
    selected: Seq<(Seq<char>, ())>,
)
    requires
        0 <= i,
        forall|j: int| 0 <= j < ids.len() ==> !is_wap(nodes, #[trigger] ids[j]),
    ensures
        expanded_from(ids, nodes, units, i, selected) == Ok::<
            Seq<(Seq<char>, ())>,
            FsErrorView,
        >(selected),
    decreases ids.len() - i,
{
    if i < ids.len() {
        nothing_is_added(ids, nodes, units, i + 1, selected);
    }
}

/// A retry without such a model selects what is retried and nothing more: no failed test
/// brings its owner with it.
pub proof fn tests_are_retried_without_their_owner(
    ids: Seq<Seq<char>>,
    nodes: Nodes,
    units: Seq<(String, UnitTest)>,
)
    requires
        forall|j: int| 0 <= j < ids.len() ==> !is_wap(nodes, #[trigger] ids[j]),
    ensures
        expanded(ids, nodes, units) == Ok::<Seq<(Seq<char>, ())>, FsErrorView>(set_of(ids)),
{
    nothing_is_added(ids, nodes, units, 0, set_of(ids));
}

// ---------------------------------------------------------------------------
// What a retry is for
// ---------------------------------------------------------------------------

/// The node ended in a status that asks for a retry.
pub open spec fn has_failed(status: Seq<char>, warn_error: bool) -> bool {
    status == "error"@ || status == "fail"@ || status == "skipped"@ || (warn_error && status
        == "warn"@)
}

/// The id of an operation, which begins with its kind.
pub open spec fn names_operation(id: Seq<char>) -> bool {
    id.len() >= 10 && id.take(10) == "operation."@
}

/// The result is taken up by a retry of the command.
pub open spec fn takes_up(which: Seq<char>, warn_error: bool, result: RunResult) -> bool {
    has_failed(result.status@, warn_error) && (names_operation(result.unique_id@) ==> which
        == "run-operation"@)
}

proof fn taken_up_is_retried(which: Seq<char>, warn_error: bool, result: RunResult)
    ensures
        takes_up(which, warn_error, result) <==> is_retried(which, warn_error, result),
{
    reveal_strlit("operation.");
    assert("operation."@.len() == 10);
    let id = result.unique_id@;
    if id.len() >= 10 {
        assert(id.take(10) =~= id.subrange(0, 10));
    }
}

/// Every node that ended in an error, failed or was skipped is retried, and with warnings
/// as errors every node that warned; nothing else is. Operations are retried behind
/// `run-operation` alone. Where nothing is left to retry, there is no retry.
pub proof fn what_failed_is_retried(
    r: Result<RetryState, FsError>,
    artifact: RunResults,
    warn_error: bool,
    id: Seq<char>,
)
    requires
        is_state(r, artifact, warn_error),
    ensures
        r matches Ok(state) ==> (views(state.retryable_node_ids@).contains(id) <==> exists|i: int|
            0 <= i < artifact.results@.len() && (#[trigger] artifact.results@[i]).unique_id@ == id
                && takes_up(artifact.which@, warn_error, artifact.results@[i])),
        r matches Ok(state) ==> (!(id.len() >= 10 && id.take(10) == "operation."@) ==> (views(
            state.retryable_node_ids@,
        ).contains(id) <==> exists|i: int|
            0 <= i < artifact.results@.len() && (#[trigger] artifact.results@[i]).unique_id@ == id
                && (artifact.results@[i].status@ == "error"@ || artifact.results@[i].status@
                == "fail"@ || artifact.results@[i].status@ == "skipped"@
                || artifact.results@[i].status@ == "warn"@ && warn_error))),
        r is Ok <==> exists|i: int|
            0 <= i < artifact.results@.len() && takes_up(
                artifact.which@,
                warn_error,
                #[trigger] artifact.results@[i],
            ),
        r matches Err(e) ==> e.message@
            == "No failed nodes found in run_results.json - nothing to retry"@,
{
    let all = artifact.results@;
    let which = artifact.which@;
    let ids = retried(which, warn_error, all);
    retried_are_the_failed(which, warn_error, all, id);
    assert forall|i: int| 0 <= i < all.len() implies (takes_up(
        which,
        warn_error,
        #[trigger] all[i],
    ) <==> is_retried(which, warn_error, all[i])) by {
        taken_up_is_retried(which, warn_error, all[i]);
    }
    if r is Ok {
        assert(ids.contains(ids[0]));
        retried_are_the_failed(which, warn_error, all, ids[0]);
    }
    if exists|i: int| 0 <= i < all.len() && takes_up(which, warn_error, #[trigger] all[i]) {
        let i = choose|i: int| 0 <= i < all.len() && takes_up(which, warn_error, #[trigger] all[i]);
        retried_are_the_failed(which, warn_error, all, all[i].unique_id@);
        assert(ids.contains(all[i].unique_id@));
    }
}

/// What is retried keeps the order of the results, each result for itself: what follows in
/// the results follows in the retry.
pub proof fn a_retry_keeps_the_order(
    which: Seq<char>,
    warn_error: bool,
    earlier: Seq<RunResult>,
    later: Seq<RunResult>,
    one: RunResult,
)
    ensures
        retried(which, warn_error, earlier + later) == retried(which, warn_error, earlier)
            + retried(which, warn_error, later),
        retried(which, warn_error, seq![one]) == (if takes_up(which, warn_error, one) {
            seq![one.unique_id@]
        } else {
            Seq::empty()
        }),
    decreases later.len(),
{
    taken_up_is_retried(which, warn_error, one);
    assert(seq![one].drop_last() =~= Seq::empty());
    assert(retried(which, warn_error, seq![one].drop_last()) =~= Seq::empty());
    assert(retried(which, warn_error, seq![one]) =~= (if takes_up(which, warn_error, one) {
        seq![one.unique_id@]
    } else {
        Seq::empty()
    }));
    if later.len() == 0 {
        assert(earlier + later =~= earlier);
        assert(retried(which, warn_error, later) =~= Seq::empty());
        assert(retried(which, warn_error, earlier) + retried(which, warn_error, later) =~= retried(
            which,
            warn_error,
            earlier,
        ));
    } else {
        a_retry_keeps_the_order(which, warn_error, earlier, later.drop_last(), one);
        assert((earlier + later).drop_last() =~= earlier + later.drop_last());
        assert((earlier + later).last() == later.last());
        assert(retried(which, warn_error, earlier + later) =~= retried(which, warn_error, earlier)
            + retried(which, warn_error, later));
    }
}

/// A retry runs the command of the run, with its settings: the kind of static analysis by
/// its name, and a full refresh only where one was asked for.
pub proof fn a_retry_keeps_the_settings(
    r: Result<RetryState, FsError>,
    artifact: RunResults,
    warn_error: bool,
)
    requires
        is_state(r, artifact, warn_error),
    ensures
        r matches Ok(state) ==> {
            &&& state.original_command@ == artifact.which@
            &&& state.original_full_refresh <==> artifact.full_refresh == Some(true)
            &&& opt(artifact.static_analysis) == Some("on"@) ==> state.original_static_analysis
                == Some(StaticAnalysisKind::On)
            &&& opt(artifact.static_analysis) == Some("strict"@) ==> state.original_static_analysis
                == Some(StaticAnalysisKind::Strict)
            &&& opt(artifact.static_analysis) == Some("off"@) ==> state.original_static_analysis
                == Some(StaticAnalysisKind::Off)
            &&& opt(artifact.static_analysis) == Some("unsafe"@) ==> state.original_static_analysis
                == Some(StaticAnalysisKind::Unsafe)
            &&& opt(artifact.static_analysis) == Some("baseline"@)
                ==> state.original_static_analysis == Some(StaticAnalysisKind::Baseline)
            &&& artifact.static_analysis is None ==> state.original_static_analysis is None
        },
{
    reveal_strlit("on");
    reveal_strlit("strict");
    reveal_strlit("off");
    reveal_strlit("unsafe");
    reveal_strlit("baseline");
    assert("on"@.len() == 2 && "strict"@.len() == 6 && "off"@.len() == 3 && "unsafe"@.len() == 6
        && "baseline"@.len() == 8);
    assert("strict"@[0] == 's' && "unsafe"@[0] == 'u');
}

/// The batches of a node are those of the last result that has any.
pub proof fn the_last_batches_are_kept(results: Seq<RunResult>, one: RunResult, id: Seq<char>)
    ensures
        ascending(batches(results)),
        one.batch_results matches Some(b) ==> found(batches(results.push(one)), one.unique_id@)
            == Some(b@),
        one.unique_id@ != id || one.batch_results is None ==> found(batches(results.push(one)), id)
            == found(batches(results), id),
        found(batches(Seq::empty()), id) is None,
    decreases results.len(),
{
    if results.len() > 0 {
        the_last_batches_are_kept(results.drop_last(), results.last(), id);
        assert(results.drop_last().push(results.last()) =~= results);
        let last = results.last();
        if last.batch_results is Some {
            inserted_is_found(batches(results.drop_last()), last.unique_id@, last.batch_results->0@, id);
        }
    }
    assert(results.push(one).drop_last() =~= results);
    if one.batch_results is Some {
        inserted_is_found(batches(results), one.unique_id@, one.batch_results->0@, id);
    }
}

/// The name of a check is what stands behind its package, dots included.
pub proof fn checks_are_named_behind_their_package(package: Seq<char>, name: Seq<char>)
    requires
        forall|i: int| 0 <= i < package.len() ==> #[trigger] package[i] != '.',
    ensures
        check_name("check."@ + package + seq!['.'] + name) == Some(name),
{
    let id = "check."@ + package + seq!['.'] + name;
    reveal_strlit("check.");
    reveal_strlit(".");
    assert("check."@.len() == 6 && "."@.len() == 1);
    assert(id.subrange(0, 6) =~= "check."@);
    let rest = id.skip(6);
    assert(rest =~= package + seq!['.'] + name);
    let n = package.len() as int;
    assert(rest.subrange(n, n + 1) =~= "."@);
    assert forall|j: int| 0 <= j < n implies !crate::text::stands_at(rest, "."@, j) by {
        if crate::text::stands_at(rest, "."@, j) {
            assert(rest.subrange(j, j + 1)[0] == "."@[0]);
            assert(rest[j] == package[j]);
        }
    }
    assert(crate::text::first_at(rest, "."@, n));
    crate::text::first_place_is_unique(rest, "."@, n);
    assert(rest.skip(n + 1) =~= name);
}

/// Only what begins with `check.` names a check, and the checks of a retry keep their order.
pub proof fn only_checks_have_names(id: Seq<char>, earlier: Seq<Seq<char>>, later: Seq<Seq<char>>)
    ensures
        !(id.len() >= 6 && id.take(6) == "check."@) ==> check_name(id) is None,
        check_names(earlier + later) == check_names(earlier) + check_names(later),
        check_names(seq![id]) == (match check_name(id) {
            Some(name) => seq![name],
            None => Seq::empty(),
        }),
    decreases later.len(),
{
    reveal_strlit("check.");
    assert("check."@.len() == 6);
    if id.len() >= 6 {
        assert(id.take(6) =~= id.subrange(0, 6));
    }
    assert(seq![id].drop_last() =~= Seq::empty());
    assert(check_names(seq![id].drop_last()) =~= Seq::empty());
    assert(check_names(seq![id]) =~= (match check_name(id) {
        Some(name) => seq![name],
        None => Seq::empty(),
    }));
    if later.len() == 0 {
        assert(earlier + later =~= earlier);
        assert(check_names(earlier) + check_names(later) =~= check_names(earlier));
    } else {
        only_checks_have_names(id, earlier, later.drop_last());
        assert((earlier + later).drop_last() =~= earlier + later.drop_last());
        assert((earlier + later).last() == later.last());
        assert(check_names(earlier + later) =~= check_names(earlier) + check_names(later));
    }
}

/// A unit test is brought by the model that it depends on first, where it is enabled.
pub proof fn a_model_brings_its_enabled_unit_tests(
    nodes: Nodes,
    units: Seq<(String, UnitTest)>,
    owner: Seq<char>,
    t: Seq<char>,
)
    requires
        found(keyed(nodes.models@), owner) matches Some(m) && m.config.wap == Some(true),
    ensures
        brings(nodes, units, owner, t) <==> (required_audits(nodes.tests@, owner) matches Ok(
            audits,
        ) && has_key(audits, t)) || exists|k: int|
            0 <= k < units.len() && (#[trigger] units[k]).0@ == t && units[k].1.enabled
                && units[k].1.config_enabled != Some(false) && units[k].1.depends_on@.len() > 0
                && units[k].1.depends_on@[0]@ == owner,
{
}

/// A model whose publication is not audited brings nothing.
pub proof fn other_models_bring_nothing(
    nodes: Nodes,
    units: Seq<(String, UnitTest)>,
    owner: Seq<char>,
    t: Seq<char>,
)
    requires
        !(found(keyed(nodes.models@), owner) matches Some(m) && m.config.wap == Some(true)),
    ensures
        !brings(nodes, units, owner, t),
{
}

/// A command has its own name, and every command keeps what it was given.
pub proof fn commands_are_told_apart<C>(
    c: C,
    analysis: Option<StaticAnalysisKind>,
    refresh: bool,
    names: Vec<String>,
)
    ensures
        ({
            let run = CoreCommand::Run {
                common_args: c,
                static_analysis: analysis,
                full_refresh: refresh,
            };
            let build = CoreCommand::Build {
                common_args: c,
                static_analysis: analysis,
                full_refresh: refresh,
            };
            let test = CoreCommand::Test { common_args: c, static_analysis: analysis };
            let seed = CoreCommand::Seed {
                common_args: c,
                static_analysis: analysis,
                full_refresh: refresh,
            };
            let snapshot = CoreCommand::Snapshot { common_args: c, static_analysis: analysis };
            let compile = CoreCommand::Compile {
                common_args: c,
                static_analysis: analysis,
                full_refresh: refresh,
            };
            let check = CoreCommand::Check {
                common_args: c,
                static_analysis: analysis,
                check_names: names,
            };
            &&& command_name(run) == "run"@ && command_name(build) == "build"@
            &&& command_name(test) == "test"@ && command_name(seed) == "seed"@
            &&& command_name(snapshot) == "snapshot"@ && command_name(compile) == "compile"@
            &&& command_name(check) == "check"@
            &&& command_common(run) == c && command_common(build) == c && command_common(test) == c
            &&& command_common(seed) == c && command_common(snapshot) == c
            &&& command_common(compile) == c && command_common(check) == c
            &&& command_analysis(run) == analysis && command_analysis(build) == analysis
            &&& command_analysis(test) == analysis && command_analysis(seed) == analysis
            &&& command_analysis(snapshot) == analysis && command_analysis(compile) == analysis
            &&& command_analysis(check) == analysis
            &&& command_refresh(run) == refresh && command_refresh(build) == refresh
            &&& command_refresh(seed) == refresh && command_refresh(compile) == refresh
            &&& !command_refresh(test) && !command_refresh(snapshot) && !command_refresh(check)
        }),
{
}

/// The ways to analyse, by their names.
pub proof fn analyses_are_named(s: Seq<char>)
    ensures
        s == "on"@ ==> analysis_kind(s) == Some(StaticAnalysisKind::On),
        s == "strict"@ ==> analysis_kind(s) == Some(StaticAnalysisKind::Strict),
        s == "off"@ ==> analysis_kind(s) == Some(StaticAnalysisKind::Off),
        s == "unsafe"@ ==> analysis_kind(s) == Some(StaticAnalysisKind::Unsafe),
        s == "baseline"@ ==> analysis_kind(s) == Some(StaticAnalysisKind::Baseline),
        analysis_kind(s) is Some ==> s == "on"@ || s == "strict"@ || s == "off"@ || s == "unsafe"@
            || s == "baseline"@,
{
    reveal_strlit("on");
    reveal_strlit("strict");
    reveal_strlit("off");
    reveal_strlit("unsafe");
    reveal_strlit("baseline");
    assert("on"@.len() == 2 && "strict"@.len() == 6 && "off"@.len() == 3 && "unsafe"@.len() == 6
        && "baseline"@.len() == 8);
    assert("strict"@[0] == 's' && "unsafe"@[0] == 'u');
}

} // verus!
