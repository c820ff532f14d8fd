//! The tasks of a build, what each of them waits for, and what a failure keeps from
//! running.

use crate::ordered::{find, found, keyed};
use crate::text::{same, views};
use crate::wap::audit::NodeStatus;
use crate::wap::invocation::WapPlan;
use crate::wap::plan::WapModelView;
use vstd::prelude::*;

verus! {

#[derive(Debug, Clone, Copy, PartialEq, Eq, Structural)]
pub enum TaskKind {
    Render,
    Run,
    /// The working table of a planned model becomes the public one.
    Publish,
}

impl TaskKind {
    pub fn name(self) -> (r: &'static str)
        ensures
            r@ == (match self {
                TaskKind::Render => "render"@,
                TaskKind::Run => "run"@,
                TaskKind::Publish => "wap_publish_run"@,
            }),
    {
        match self {
            TaskKind::Render => "render",
            TaskKind::Run => "run",
            TaskKind::Publish => "wap_publish_run",
        }
    }
}

/// A task is named by its node and its kind.
#[derive(Debug)]
pub struct TaskKey {
    pub node: String,
    pub kind: TaskKind,
}

impl View for TaskKey {
    type V = (Seq<char>, TaskKind);

    open spec fn view(&self) -> (Seq<char>, TaskKind) {
        (self.node@, self.kind)
    }
}

impl TaskKey {
    pub fn new(node: &str, kind: TaskKind) -> (r: TaskKey)
        ensures
            r@ == (node@, kind),
    {
        TaskKey { node: node.to_owned(), kind }
    }

    pub fn is(&self, other: &TaskKey) -> (r: bool)
        ensures
            r == (self@ == other@),
    {
        same(self.node.as_str(), other.node.as_str()) && self.kind == other.kind
    }
}

pub open spec fn keys_view(keys: Seq<TaskKey>) -> Seq<(Seq<char>, TaskKind)> {
    keys.map_values(|k: TaskKey| k@)
}

/// A task and the tasks that have to end before it starts.
#[derive(Debug)]
pub struct Task {
    pub key: TaskKey,
    pub after: Vec<TaskKey>,
}

pub struct TaskView {
    pub key: (Seq<char>, TaskKind),
    pub after: Seq<(Seq<char>, TaskKind)>,
}

impl View for Task {
    type V = TaskView;

    open spec fn view(&self) -> TaskView {
        TaskView { key: self.key@, after: keys_view(self.after@) }
    }
}

pub open spec fn tasks_view(tasks: Seq<Task>) -> Seq<TaskView> {
    tasks.map_values(|t: Task| t@)
}

// ---------------------------------------------------------------------------
// The tasks of a build
// ---------------------------------------------------------------------------

/// A node that is built, and the nodes that it depends on.
#[derive(Debug)]
pub struct ScheduledNode {
    pub id: String,
    pub is_test: bool,
    pub depends_on: Vec<String>,
}

pub struct ScheduledView {
    pub id: Seq<char>,
    pub is_test: bool,
    pub depends_on: Seq<Seq<char>>,
}

impl View for ScheduledNode {
    type V = ScheduledView;

    open spec fn view(&self) -> ScheduledView {
        ScheduledView {
            id: self.id@,
            is_test: self.is_test,
            depends_on: views(self.depends_on@),
        }
    }
}

pub open spec fn scheduled_view(nodes: Seq<ScheduledNode>) -> Seq<ScheduledView> {
    nodes.map_values(|n: ScheduledNode| n@)
}

/// The last task of a node: a planned model is published.
pub open spec fn terminal(plan: Seq<(Seq<char>, WapModelView)>, id: Seq<char>) -> (
    Seq<char>,
    TaskKind,
) {
    (
        id,
        if found(plan, id) is Some {
            TaskKind::Publish
        } else {
            TaskKind::Run
        },
    )
}

/// The node is an audit of the model.
pub open spec fn audits(
    plan: Seq<(Seq<char>, WapModelView)>,
    id: Seq<char>,
    model: Seq<char>,
) -> bool {
    found(plan, model) is Some && found(found(plan, model)->0.audit_ids, id) is Some
}

pub open spec fn tests_node(node: ScheduledView, id: Seq<char>) -> bool {
    node.is_test && node.depends_on.contains(id)
}

/// The runs of the tests of a node, up to a place among the nodes.
pub open spec fn test_runs(nodes: Seq<ScheduledView>, id: Seq<char>, to: int) -> Seq<
    (Seq<char>, TaskKind),
>
    decreases to,
{
    if to <= 0 || to > nodes.len() {
        Seq::empty()
    } else if tests_node(nodes[to - 1], id) {
        test_runs(nodes, id, to - 1).push((nodes[to - 1].id, TaskKind::Run))
    } else {
        test_runs(nodes, id, to - 1)
    }
}

/// What a node waits for because of one that it depends on. An audit waits for the working
/// table; any other node waits for what is published and, unless it is a test itself, for
/// the tests.
pub open spec fn waits_for(
    nodes: Seq<ScheduledView>,
    plan: Seq<(Seq<char>, WapModelView)>,
    node: ScheduledView,
    dependency: Seq<char>,
) -> Seq<(Seq<char>, TaskKind)> {
    if audits(plan, node.id, dependency) {
        Seq::empty().push((dependency, TaskKind::Run))
    } else if node.is_test {
        Seq::empty().push(terminal(plan, dependency))
    } else {
        Seq::empty().push(terminal(plan, dependency)) + test_runs(
            nodes,
            dependency,
            nodes.len() as int,
        )
    }
}

/// What a node waits for, by its dependencies up to a place.
pub open spec fn render_after(
    nodes: Seq<ScheduledView>,
    plan: Seq<(Seq<char>, WapModelView)>,
    node: ScheduledView,
    to: int,
) -> Seq<(Seq<char>, TaskKind)>
    decreases to,
{
    if to <= 0 || to > node.depends_on.len() {
        Seq::empty()
    } else {
        render_after(nodes, plan, node, to - 1) + waits_for(
            nodes,
            plan,
            node,
            node.depends_on[to - 1],
        )
    }
}

/// The runs of audits.
pub open spec fn audit_runs(ids: Seq<(Seq<char>, ())>) -> Seq<(Seq<char>, TaskKind)> {
    ids.map_values(|e: (Seq<char>, ())| (e.0, TaskKind::Run))
}

/// The tasks of a node.
pub open spec fn node_tasks(
    nodes: Seq<ScheduledView>,
    plan: Seq<(Seq<char>, WapModelView)>,
    node: ScheduledView,
) -> Seq<TaskView> {
    let built = Seq::empty().push(
        TaskView {
            key: (node.id, TaskKind::Render),
            after: render_after(nodes, plan, node, node.depends_on.len() as int),
        },
    ).push(
        TaskView {
            key: (node.id, TaskKind::Run),
            after: Seq::empty().push((node.id, TaskKind::Render)),
        },
    );
    match found(plan, node.id) {
        Some(m) => built.push(
            TaskView {
                key: (node.id, TaskKind::Publish),
                after: Seq::empty().push((node.id, TaskKind::Run)) + audit_runs(m.audit_ids),
            },
        ),
        None => built,
    }
}

/// The tasks of the nodes up to a place.
pub open spec fn graph(
    nodes: Seq<ScheduledView>,
    plan: Seq<(Seq<char>, WapModelView)>,
    to: int,
) -> Seq<TaskView>
    decreases to,
{
    if to <= 0 || to > nodes.len() {
        Seq::empty()
    } else {
        graph(nodes, plan, to - 1) + node_tasks(nodes, plan, nodes[to - 1])
    }
}

/// The publication of a planned model waits for the runs of all its audits.
pub proof fn publication_waits_for_every_audit(
    nodes: Seq<ScheduledView>,
    plan: Seq<(Seq<char>, WapModelView)>,
    node: ScheduledView,
    i: int,
)
    requires
        found(plan, node.id) matches Some(m) && 0 <= i < m.audit_ids.len(),
    ensures
        ({
            let task = node_tasks(nodes, plan, node)[2];
            let m = found(plan, node.id)->0;
            &&& task.key == (node.id, TaskKind::Publish)
            &&& task.after.contains((m.audit_ids[i].0, TaskKind::Run))
            &&& task.after.contains((node.id, TaskKind::Run))
        }),
{
    let m = found(plan, node.id)->0;
    let task = node_tasks(nodes, plan, node)[2];
    assert(task.after[0] == (node.id, TaskKind::Run));
    assert(task.after[i + 1] == (m.audit_ids[i].0, TaskKind::Run));
}

fn push_test_runs(after: &mut Vec<TaskKey>, nodes: &Vec<ScheduledNode>, id: &str)
    ensures
        keys_view(final(after)@) == keys_view(old(after)@) + test_runs(
            scheduled_view(nodes@),
            id@,
            nodes.len() as int,
        ),
{
    let ghost start = keys_view(after@);
    let ghost all = scheduled_view(nodes@);
    let mut i: usize = 0;
    assert(start + test_runs(all, id@, 0) =~= start);
    while i < nodes.len()
        invariant
            i <= nodes.len(),
            all == scheduled_view(nodes@),
            keys_view(after@) == start + test_runs(all, id@, i as int),
        decreases nodes.len() - i,
    {
        assert(all[i as int] == nodes@[i as int]@);
        let node = &nodes[i];
        if node.is_test && holds(&node.depends_on, id) {
            let ghost prior = keys_view(after@);
            after.push(TaskKey::new(node.id.as_str(), TaskKind::Run));
            assert(keys_view(after@) =~= prior.push((node.id@, TaskKind::Run)));
            assert(start + test_runs(all, id@, i + 1) =~= prior.push((node.id@, TaskKind::Run)));
        } else {
            assert(start + test_runs(all, id@, i + 1) =~= start + test_runs(all, id@, i as int));
        }
        i += 1;
    }
}

fn holds(items: &Vec<String>, id: &str) -> (r: bool)
    ensures
        r == views(items@).contains(id@),
{
    let mut i: usize = 0;
    while i < items.len()
        invariant
            i <= items.len(),
            forall|k: int| 0 <= k < i ==> (#[trigger] views(items@)[k]) != id@,
        decreases items.len() - i,
    {
        assert(views(items@)[i as int] == items@[i as int]@);
        if same(items[i].as_str(), id) {
            return true;
        }
        i += 1;
    }
    assert(forall|k: int| 0 <= k < views(items@).len() ==> (#[trigger] views(items@)[k]) != id@);
    false
}

fn is_audit(plan: &WapPlan, id: &str, model: &str) -> (r: bool)
    ensures
        r == audits(plan@, id@, model@),
{
    match plan.model(model) {
        Some(m) => find(&m.audit_ids, id).is_some(),
        None => false,
    }
}

fn terminal_of(plan: &WapPlan, id: &str) -> (r: TaskKey)
    ensures
        r@ == terminal(plan@, id@),
{
    TaskKey::new(
        id,
        if plan.model(id).is_some() {
            TaskKind::Publish
        } else {
            TaskKind::Run
        },
    )
}

fn render_waits(nodes: &Vec<ScheduledNode>, plan: &WapPlan, node: &ScheduledNode) -> (r: Vec<TaskKey>)
    ensures
        keys_view(r@) == render_after(
            scheduled_view(nodes@),
            plan@,
            node@,
            node.depends_on.len() as int,
        ),
{
    let ghost all = scheduled_view(nodes@);
    let mut after: Vec<TaskKey> = Vec::new();
    let mut i: usize = 0;
    assert(keys_view(after@) =~= render_after(all, plan@, node@, 0));
    while i < node.depends_on.len()
        invariant
            i <= node.depends_on.len(),
            all == scheduled_view(nodes@),
            keys_view(after@) == render_after(all, plan@, node@, i as int),
        decreases node.depends_on.len() - i,
    {
        assert(node@.depends_on[i as int] == node.depends_on@[i as int]@);
        let dependency = node.depends_on[i].as_str();
        let ghost prior = keys_view(after@);
        if is_audit(plan, node.id.as_str(), dependency) {
            after.push(TaskKey::new(dependency, TaskKind::Run));
            assert(keys_view(after@) =~= prior + waits_for(all, plan@, node@, dependency@));
        } else {
            let last = terminal_of(plan, dependency);
            let ghost waited = terminal(plan@, dependency@);
            after.push(last);
            assert(keys_view(after@) =~= prior.push(waited));
            if !node.is_test {
                push_test_runs(&mut after, nodes, dependency);
            }
            assert(keys_view(after@) =~= prior + waits_for(all, plan@, node@, dependency@));
        }
        i += 1;
    }
    after
}

fn publish_waits(node: &str, ids: &Vec<(String, ())>) -> (r: Vec<TaskKey>)
    ensures
        keys_view(r@) == Seq::empty().push((node@, TaskKind::Run)) + audit_runs(keyed(ids@)),
{
    let ghost first = Seq::<(Seq<char>, TaskKind)>::empty().push((node@, TaskKind::Run));
    let ghost all = audit_runs(keyed(ids@));
    let mut after: Vec<TaskKey> = Vec::new();
    after.push(TaskKey::new(node, TaskKind::Run));
    let mut i: usize = 0;
    assert(keys_view(after@) =~= first + all.take(0));
    while i < ids.len()
        invariant
            i <= ids.len(),
            all == audit_runs(keyed(ids@)),
            keys_view(after@) == first + all.take(i as int),
        decreases ids.len() - i,
    {
        let ghost prior = keys_view(after@);
        after.push(TaskKey::new(ids[i].0.as_str(), TaskKind::Run));
        assert(all[i as int] == (ids@[i as int].0@, TaskKind::Run));
        assert(keys_view(after@) =~= prior.push(all[i as int]));
        assert(first + all.take(i + 1) =~= prior.push(all[i as int]));
        i += 1;
    }
    assert(all.take(i as int) =~= all);
    after
}

/// The tasks that build the nodes.
pub fn build_task_graph(nodes: &Vec<ScheduledNode>, plan: &WapPlan) -> (r: Vec<Task>)
    ensures
        tasks_view(r@) == graph(scheduled_view(nodes@), plan@, nodes.len() as int),
{
    let ghost all = scheduled_view(nodes@);
    let mut tasks: Vec<Task> = Vec::new();
    let mut i: usize = 0;
    assert(tasks_view(tasks@) =~= graph(all, plan@, 0));
    while i < nodes.len()
        invariant
            i <= nodes.len(),
            all == scheduled_view(nodes@),
            tasks_view(tasks@) == graph(all, plan@, i as int),
        decreases nodes.len() - i,
    {
        let node = &nodes[i];
        assert(all[i as int] == node@);
        let id = node.id.as_str();
        let ghost prior = tasks_view(tasks@);
        let after = render_waits(nodes, plan, node);
        let render = Task { key: TaskKey::new(id, TaskKind::Render), after };
        let ghost rendered = render@;
        tasks.push(render);
        assert(tasks_view(tasks@) =~= prior.push(rendered));
        let mut after_render: Vec<TaskKey> = Vec::new();
        after_render.push(TaskKey::new(id, TaskKind::Render));
        assert(keys_view(after_render@) =~= Seq::empty().push((id@, TaskKind::Render)));
        let run = Task { key: TaskKey::new(id, TaskKind::Run), after: after_render };
        let ghost ran = run@;
        tasks.push(run);
        assert(tasks_view(tasks@) =~= prior.push(rendered).push(ran));
        if let Some(m) = plan.model(id) {
            let publish = Task {
                key: TaskKey::new(id, TaskKind::Publish),
                after: publish_waits(id, &m.audit_ids),
            };
            let ghost published = publish@;
            tasks.push(publish);
            assert(tasks_view(tasks@) =~= prior.push(rendered).push(ran).push(published));
        }
        assert(tasks_view(tasks@) =~= prior + node_tasks(all, plan@, node@));
        i += 1;
    }
    tasks
}

// ---------------------------------------------------------------------------
// Running the tasks
// ---------------------------------------------------------------------------

/// Why a task is skipped.
#[derive(Debug, PartialEq)]
pub enum SkipReason {
    /// An earlier task of its own node failed.
    FailedPhase,
    /// A task of this node failed.
    FailedUpstream(String),
}

#[derive(Debug)]
pub enum TaskState {
    Waiting,
    Running,
    Ended,
    Skipped(SkipReason),
}

/// Nothing waits for the task any more.
pub open spec fn released(state: TaskState) -> bool {
    state is Ended || state is Skipped
}

/// A task waits for another one.
pub open spec fn waits(tasks: Seq<TaskView>, i: int, j: int) -> bool {
    tasks[i].after.contains(tasks[j].key)
}

/// Everything that a task waits for is released.
pub open spec fn ready(tasks: Seq<TaskView>, states: Seq<TaskState>, i: int) -> bool {
    forall|j: int| 0 <= j < tasks.len() && #[trigger] waits(tasks, i, j) ==> released(states[j])
}

/// The tasks of a build, and how far each of them is.
#[derive(Debug)]
pub struct Schedule {
    pub tasks: Vec<Task>,
    pub states: Vec<TaskState>,
}

pub open spec fn is_schedule(s: Schedule) -> bool {
    s.tasks@.len() == s.states@.len()
}

/// A task waits for another one over so many steps.
pub open spec fn waits_over(tasks: Seq<TaskView>, i: int, j: int, steps: nat) -> bool
    decreases steps,
{
    if steps == 0 {
        i == j
    } else {
        exists|k: int|
            0 <= k < tasks.len() && #[trigger] waits(tasks, i, k) && waits_over(
                tasks,
                k,
                j,
                (steps - 1) as nat,
            )
    }
}

/// A task waits for another one, over whatever steps.
pub open spec fn depends(tasks: Seq<TaskView>, i: int, j: int) -> bool {
    exists|steps: nat| #[trigger] waits_over(tasks, i, j, steps)
}

fn waits_on(tasks: &Vec<Task>, i: usize, j: usize) -> (r: bool)
    requires
        i < tasks.len(),
        j < tasks.len(),
    ensures
        r == waits(tasks_view(tasks@), i as int, j as int),
{
    let ghost after = keys_view(tasks@[i as int].after@);
    assert(tasks_view(tasks@)[i as int].after == after);
    let mut k: usize = 0;
    while k < tasks[i].after.len()
        invariant
            i < tasks.len(),
            j < tasks.len(),
            k <= tasks[i as int].after.len(),
            after == keys_view(tasks@[i as int].after@),
            forall|m: int| 0 <= m < k ==> (#[trigger] after[m]) != tasks@[j as int].key@,
        decreases tasks[i as int].after.len() - k,
    {
        assert(after[k as int] == tasks@[i as int].after@[k as int]@);
        if tasks[i].after[k].is(&tasks[j].key) {
            return true;
        }
        k += 1;
    }
    assert(!after.contains(tasks@[j as int].key@));
    false
}

/// How many tasks are not marked.
spec fn unmarked(marks: Seq<bool>) -> nat
    decreases marks.len(),
{
    if marks.len() == 0 {
        0
    } else {
        unmarked(marks.drop_last()) + if marks.last() {
            0nat
        } else {
            1nat
        }
    }
}

spec fn passes_left(changed: bool) -> nat {
    if changed {
        1
    } else {
        0
    }
}

proof fn marking_leaves_fewer(marks: Seq<bool>, i: int)
    requires
        0 <= i < marks.len(),
        !marks[i],
    ensures
        unmarked(marks.update(i, true)) < unmarked(marks),
    decreases marks.len(),
{
    let after = marks.update(i, true);
    if i < marks.len() - 1 {
        marking_leaves_fewer(marks.drop_last(), i);
        assert(after.drop_last() =~= marks.drop_last().update(i, true));
    } else {
        assert(after.drop_last() =~= marks.drop_last());
    }
}

/// The marks are those of the tasks that depend on one task.
pub open spec fn marks_dependents(tasks: Seq<TaskView>, of: int, marks: Seq<bool>) -> bool {
    marks.len() == tasks.len() && forall|i: int|
        0 <= i < marks.len() ==> (#[trigger] marks[i] <==> depends(tasks, i, of))
}

proof fn marked_is_all(tasks: Seq<TaskView>, of: int, marks: Seq<bool>, i: int, steps: nat)
    requires
        marks.len() == tasks.len(),
        0 <= of < tasks.len(),
        0 <= i < tasks.len(),
        marks[of],
        forall|a: int, b: int|
            0 <= a < tasks.len() && 0 <= b < tasks.len() && #[trigger] waits(tasks, a, b)
                && marks[b] ==> marks[a],
        waits_over(tasks, i, of, steps),
    ensures
        marks[i],
    decreases steps,
{
    if steps > 0 {
        let k = choose|k: int|
            0 <= k < tasks.len() && #[trigger] waits(tasks, i, k) && waits_over(
                tasks,
                k,
                of,
                (steps - 1) as nat,
            );
        marked_is_all(tasks, of, marks, k, (steps - 1) as nat);
    }
}

/// Marks the task and every one that depends on it.
fn mark_dependents(tasks: &Vec<Task>, of: usize) -> (marks: Vec<bool>)
    requires
        of < tasks.len(),
    ensures
        marks_dependents(tasks_view(tasks@), of as int, marks@),
{
    let ghost all = tasks_view(tasks@);
    let mut marks: Vec<bool> = Vec::new();
    let mut i: usize = 0;
    while i < tasks.len()
        invariant
            i <= tasks.len(),
            marks.len() == i,
            forall|k: int| 0 <= k < i ==> (#[trigger] marks@[k] <==> k == of),
        decreases tasks.len() - i,
    {
        marks.push(i == of);
        i += 1;
    }
    proof {
        assert(waits_over(all, of as int, of as int, 0));
        assert forall|k: int| 0 <= k < marks.len() && #[trigger] marks@[k] implies depends(
            all,
            k,
            of as int,
        ) by {
            assert(waits_over(all, of as int, of as int, 0));
        }
    }
    let mut changed = true;
    while changed
        invariant
            of < tasks.len(),
            all == tasks_view(tasks@),
            marks.len() == tasks.len(),
            marks@[of as int],
            forall|k: int|
                0 <= k < marks.len() && #[trigger] marks@[k] ==> depends(all, k, of as int),
            !changed ==> forall|a: int, b: int|
                0 <= a < all.len() && 0 <= b < all.len() && #[trigger] waits(all, a, b)
                    && marks@[b] ==> marks@[a],
        decreases unmarked(marks@), passes_left(changed),
    {
        let ghost before = unmarked(marks@);
        changed = false;
        let mut a: usize = 0;
        while a < tasks.len()
            invariant
                a <= tasks.len(),
                of < tasks.len(),
                all == tasks_view(tasks@),
                marks.len() == tasks.len(),
                marks@[of as int],
                forall|k: int|
                    0 <= k < marks.len() && #[trigger] marks@[k] ==> depends(all, k, of as int),
                changed ==> unmarked(marks@) < before,
                !changed ==> unmarked(marks@) == before,
                !changed ==> forall|x: int, y: int|
                    0 <= x < a && 0 <= y < all.len() && #[trigger] waits(all, x, y) && marks@[y]
                        ==> marks@[x],
            decreases tasks.len() - a,
        {
            let mut b: usize = 0;
            while b < tasks.len()
                invariant
                    a < tasks.len(),
                    b <= tasks.len(),
                    of < tasks.len(),
                    all == tasks_view(tasks@),
                    marks.len() == tasks.len(),
                    marks@[of as int],
                    forall|k: int|
                        0 <= k < marks.len() && #[trigger] marks@[k] ==> depends(
                            all,
                            k,
                            of as int,
                        ),
                    changed ==> unmarked(marks@) < before,
                    !changed ==> unmarked(marks@) == before,
                    !changed ==> forall|x: int, y: int|
                        0 <= x < a && 0 <= y < all.len() && #[trigger] waits(all, x, y)
                            && marks@[y] ==> marks@[x],
                    !changed ==> forall|y: int|
                        0 <= y < b && #[trigger] waits(all, a as int, y) && marks@[y]
                            ==> marks@[a as int],
                decreases tasks.len() - b,
            {
                if !marks[a] && marks[b] && waits_on(tasks, a, b) {
                    proof {
                        marking_leaves_fewer(marks@, a as int);
                        let steps = choose|steps: nat| #[trigger]
                            waits_over(all, b as int, of as int, steps);
                        assert(waits(all, a as int, b as int) && waits_over(
                            all,
                            b as int,
                            of as int,
                            ((steps + 1) - 1) as nat,
                        ));
                        assert(waits_over(all, a as int, of as int, steps + 1));
                    }
                    marks.set(a, true);
                    changed = true;
                }
                b += 1;
            }
            a += 1;
        }
    }
    proof {
        assert forall|k: int| 0 <= k < marks.len() implies (#[trigger] marks@[k] <==> depends(
            all,
            k,
            of as int,
        )) by {
            if depends(all, k, of as int) {
                let steps = choose|steps: nat| #[trigger] waits_over(all, k, of as int, steps);
                marked_is_all(all, of as int, marks@, k, steps);
            }
        }
    }
    marks
}

/// Why a task is skipped when a task of a node failed.
pub open spec fn reason(task: TaskView, failed: Seq<char>) -> SkipReasonView {
    if task.key.0 == failed {
        SkipReasonView::FailedPhase
    } else {
        SkipReasonView::FailedUpstream(failed)
    }
}

pub enum SkipReasonView {
    FailedPhase,
    FailedUpstream(Seq<char>),
}

impl View for SkipReason {
    type V = SkipReasonView;

    open spec fn view(&self) -> SkipReasonView {
        match self {
            SkipReason::FailedPhase => SkipReasonView::FailedPhase,
            SkipReason::FailedUpstream(s) => SkipReasonView::FailedUpstream(s@),
        }
    }
}

/// A status that keeps what depends on the task from running.
pub open spec fn is_failure(status: NodeStatus) -> bool {
    status is Errored || status is SkippedUpstreamFailed
}

/// What ended a task: an error, or a status.
pub fn task_failed<E>(result: &Result<NodeStatus, E>) -> (r: bool)
    ensures
        r == match result {
            Err(_) => true,
            Ok(status) => is_failure(*status),
        },
{
    match result {
        Err(_) => true,
        Ok(NodeStatus::Errored) => true,
        Ok(NodeStatus::SkippedUpstreamFailed) => true,
        Ok(_) => false,
    }
}

/// The state of a task behind the end of another one.
pub open spec fn after_end(
    tasks: Seq<TaskView>,
    before: Seq<TaskState>,
    ended: int,
    failed: bool,
    i: int,
    now: TaskState,
) -> bool {
    if i == ended {
        now is Ended
    } else if failed && before[i] is Waiting && depends(tasks, i, ended) {
        now matches TaskState::Skipped(r) && r@ == reason(tasks[i], tasks[ended].key.0)
    } else {
        now == before[i]
    }
}

impl Schedule {
    pub fn new(tasks: Vec<Task>) -> (r: Schedule)
        ensures
            r.tasks == tasks,
            is_schedule(r),
            forall|i: int| 0 <= i < r.states@.len() ==> (#[trigger] r.states@[i]) is Waiting,
    {
        let mut states: Vec<TaskState> = Vec::new();
        let mut i: usize = 0;
        while i < tasks.len()
            invariant
                i <= tasks.len(),
                states.len() == i,
                forall|k: int| 0 <= k < i ==> (#[trigger] states@[k]) is Waiting,
            decreases tasks.len() - i,
        {
            states.push(TaskState::Waiting);
            i += 1;
        }
        Schedule { tasks, states }
    }

    fn is_ready(&self, i: usize) -> (r: bool)
        requires
            is_schedule(*self),
            i < self.tasks.len(),
        ensures
            r == ready(tasks_view(self.tasks@), self.states@, i as int),
    {
        let ghost all = tasks_view(self.tasks@);
        let mut j: usize = 0;
        while j < self.tasks.len()
            invariant
                j <= self.tasks.len(),
                i < self.tasks.len(),
                is_schedule(*self),
                all == tasks_view(self.tasks@),
                forall|k: int|
                    0 <= k < j && #[trigger] waits(all, i as int, k) ==> released(self.states@[k]),
            decreases self.tasks.len() - j,
        {
            if waits_on(&self.tasks, i, j) {
                let open = match &self.states[j] {
                    TaskState::Waiting => true,
                    TaskState::Running => true,
                    _ => false,
                };
                if open {
                    assert(waits(all, i as int, j as int) && !released(self.states@[j as int]));
                    return false;
                }
            }
            j += 1;
        }
        true
    }

    /// Starts every task that waits for nothing any more, and says which.
    pub fn start_ready(&mut self) -> (started: Vec<usize>)
        requires
            is_schedule(*old(self)),
        ensures
            is_schedule(*final(self)),
            final(self).tasks == old(self).tasks,
            forall|i: int|
                0 <= i < final(self).states@.len() ==> #[trigger] final(self).states@[i] == (
                if old(self).states@[i] is Waiting && ready(
                    tasks_view(old(self).tasks@),
                    old(self).states@,
                    i,
                ) {
                    TaskState::Running
                } else {
                    old(self).states@[i]
                }),
            forall|i: int|
                0 <= i < started@.len() ==> (#[trigger] started@[i]) < old(self).states@.len()
                    && old(self).states@[started@[i] as int] is Waiting && ready(
                    tasks_view(old(self).tasks@),
                    old(self).states@,
                    started@[i] as int,
                ),
            forall|i: int|
                0 <= i < old(self).states@.len() && #[trigger] old(self).states@[i] is Waiting
                    && ready(tasks_view(old(self).tasks@), old(self).states@, i)
                    ==> started@.contains(i as usize),
            forall|i: int, j: int| 0 <= i < j < started@.len() ==> started@[i] < started@[j],
    {
        let ghost start = self.states@;
        let ghost all = tasks_view(self.tasks@);
        let mut started: Vec<usize> = Vec::new();
        let mut i: usize = 0;
        while i < self.tasks.len()
            invariant
                i <= self.tasks.len(),
                is_schedule(*self),
                self.states@ == start,
                self.tasks == old(self).tasks,
                all == tasks_view(self.tasks@),
                forall|k: int|
                    0 <= k < started@.len() ==> (#[trigger] started@[k]) < i
                        && start[started@[k] as int] is Waiting && ready(
                        all,
                        start,
                        started@[k] as int,
                    ),
                forall|k: int|
                    0 <= k < i && #[trigger] start[k] is Waiting && ready(all, start, k)
                        ==> started@.contains(k as usize),
                forall|k: int, j: int| 0 <= k < j < started@.len() ==> started@[k] < started@[j],
            decreases self.tasks.len() - i,
        {
            let waiting = match &self.states[i] {
                TaskState::Waiting => true,
                _ => false,
            };
            let ghost prior = started@;
            if waiting && self.is_ready(i) {
                started.push(i);
                assert(started@[started@.len() - 1] == i);
                assert forall|k: int|
                    0 <= k < i + 1 && #[trigger] start[k] is Waiting && ready(
                        all,
                        start,
                        k,
                    ) implies started@.contains(k as usize) by {
                    if k < i {
                        let m = choose|m: int| 0 <= m < prior.len() && prior[m] == k as usize;
                        assert(started@[m] == k as usize);
                    }
                }
            }
            i += 1;
        }
        let mut k: usize = 0;
        while k < started.len()
            invariant
                k <= started.len(),
                is_schedule(*self),
                self.tasks == old(self).tasks,
                all == tasks_view(self.tasks@),
                start.len() == self.states@.len(),
                forall|m: int|
                    0 <= m < started@.len() ==> (#[trigger] started@[m]) < start.len()
                        && start[started@[m] as int] is Waiting && ready(
                        all,
                        start,
                        started@[m] as int,
                    ),
                forall|m: int, j: int| 0 <= m < j < started@.len() ==> started@[m] < started@[j],
                forall|i: int|
                    #![trigger self.states@[i]]
                    0 <= i < self.states@.len() ==> self.states@[i] == (if exists|m: int|
                        0 <= m < k && started@[m] == i {
                        TaskState::Running
                    } else {
                        start[i]
                    }),
            decreases started.len() - k,
        {
            let ghost prior = self.states@;
            self.states.set(started[k], TaskState::Running);
            assert forall|i: int|
                #![trigger self.states@[i]]
                0 <= i < self.states@.len() implies self.states@[i] == (if exists|m: int|
                0 <= m < k + 1 && started@[m] == i {
                TaskState::Running
            } else {
                start[i]
            }) by {
                if i == started@[k as int] {
                    assert(started@[k as int] == i);
                } else {
                    assert(self.states@[i] == prior[i]);
                    if exists|m: int| 0 <= m < k + 1 && started@[m] == i {
                        let m = choose|m: int| 0 <= m < k + 1 && started@[m] == i;
                        assert(m < k);
                    }
                }
            }
            k += 1;
        }
        assert forall|i: int|
            0 <= i < self.states@.len() implies #[trigger] self.states@[i] == (
        if start[i] is Waiting && ready(all, start, i) {
            TaskState::Running
        } else {
            start[i]
        }) by {
            if start[i] is Waiting && ready(all, start, i) {
                let m = choose|m: int| 0 <= m < started@.len() && started@[m] == i as usize;
                assert(started@[m] == i);
            }
        }
        started
    }

    /// Ends a task. Where it failed, whatever depends on it and has not started is skipped.
    pub fn complete(&mut self, index: usize, failed: bool)
        requires
            is_schedule(*old(self)),
            index < old(self).tasks.len(),
            old(self).states@[index as int] is Running,
        ensures
            is_schedule(*final(self)),
            final(self).tasks == old(self).tasks,
            forall|i: int|
                0 <= i < final(self).states@.len() ==> after_end(
                    tasks_view(old(self).tasks@),
                    old(self).states@,
                    index as int,
                    failed,
                    i,
                    #[trigger] final(self).states@[i],
                ),
    {
        let ghost start = self.states@;
        let ghost all = tasks_view(self.tasks@);
        self.states.set(index, TaskState::Ended);
        if !failed {
            return;
        }
        let marks = mark_dependents(&self.tasks, index);
        let mut i: usize = 0;
        while i < self.tasks.len()
            invariant
                i <= self.tasks.len(),
                index < self.tasks.len(),
                is_schedule(*self),
                self.tasks == old(self).tasks,
                all == tasks_view(self.tasks@),
                start.len() == self.states@.len(),
                start[index as int] is Running,
                marks_dependents(all, index as int, marks@),
                forall|k: int|
                    0 <= k < i ==> after_end(
                        all,
                        start,
                        index as int,
                        true,
                        k,
                        #[trigger] self.states@[k],
                    ),
                forall|k: int|
                    i <= k < start.len() ==> #[trigger] self.states@[k] == (if k == index {
                        TaskState::Ended
                    } else {
                        start[k]
                    }),
            decreases self.tasks.len() - i,
        {
            assert(self.states@[i as int] == (if i == index {
                TaskState::Ended
            } else {
                start[i as int]
            }));
            let waiting = match &self.states[i] {
                TaskState::Waiting => true,
                _ => false,
            };
            let ghost prior = self.states@;
            if waiting && marks[i] {
                let why = if same(
                    self.tasks[i].key.node.as_str(),
                    self.tasks[index].key.node.as_str(),
                ) {
                    SkipReason::FailedPhase
                } else {
                    SkipReason::FailedUpstream(self.tasks[index].key.node.clone())
                };
                assert(all[i as int].key.0 == self.tasks@[i as int].key.node@);
                assert(all[index as int].key.0 == self.tasks@[index as int].key.node@);
                assert(why@ == reason(all[i as int], all[index as int].key.0));
                self.states.set(i, TaskState::Skipped(why));
                assert forall|k: int| 0 <= k < i + 1 implies after_end(
                    all,
                    start,
                    index as int,
                    true,
                    k,
                    #[trigger] self.states@[k],
                ) by {
                    if k < i {
                        assert(self.states@[k] == prior[k]);
                    }
                }
            }
            i += 1;
        }
    }

    /// No task waits or runs.
    pub fn is_finished(&self) -> (r: bool)
        ensures
            r == forall|i: int| 0 <= i < self.states@.len() ==> released(#[trigger] self.states@[i]),
    {
        let mut i: usize = 0;
        while i < self.states.len()
            invariant
                i <= self.states.len(),
                forall|k: int| 0 <= k < i ==> released(#[trigger] self.states@[k]),
            decreases self.states.len() - i,
        {
            let open = match &self.states[i] {
                TaskState::Waiting => true,
                TaskState::Running => true,
                _ => false,
            };
            if open {
                assert(!released(self.states@[i as int]));
                return false;
            }
            i += 1;
        }
        true
    }

    /// Why a task is skipped, where it is.
    pub fn skip_reason<'a>(&'a self, index: usize) -> (r: Option<&'a SkipReason>)
        requires
            index < self.states.len(),
        ensures
            match (r, self.states@[index as int]) {
                (Some(a), TaskState::Skipped(b)) => *a == b,
                (None, TaskState::Skipped(_)) => false,
                (None, _) => true,
                _ => false,
            },
    {
        match &self.states[index] {
            TaskState::Skipped(why) => Some(why),
            _ => None,
        }
    }

    /// The place of a task.
    pub fn index_of(&self, node: &str, kind: TaskKind) -> (r: Option<usize>)
        ensures
            match r {
                Some(i) => i < self.tasks.len() && self.tasks@[i as int].key@ == (node@, kind),
                None => forall|i: int|
                    0 <= i < self.tasks@.len() ==> (#[trigger] self.tasks@[i]).key@ != (node@, kind),
            },
    {
        let key = TaskKey::new(node, kind);
        let mut i: usize = 0;
        while i < self.tasks.len()
            invariant
                i <= self.tasks.len(),
                key@ == (node@, kind),
                forall|k: int|
                    0 <= k < i ==> (#[trigger] self.tasks@[k]).key@ != (node@, kind),
            decreases self.tasks.len() - i,
        {
            if self.tasks[i].key.is(&key) {
                return Some(i);
            }
            i += 1;
        }
        None
    }
}

/// A task that waits for a failed one is skipped and so never runs: in particular no
/// working table is published behind an audit that failed.
pub proof fn nothing_runs_behind_a_failure(
    tasks: Seq<TaskView>,
    before: Seq<TaskState>,
    ended: int,
    i: int,
    now: TaskState,
)
    requires
        0 <= i < tasks.len(),
        0 <= ended < tasks.len(),
        i != ended,
        before[i] is Waiting,
        waits(tasks, i, ended),
        after_end(tasks, before, ended, true, i, now),
    ensures
        now is Skipped,
{
    assert(waits_over(tasks, ended, ended, 0));
    assert(waits(tasks, i, ended) && waits_over(tasks, ended, ended, (1nat - 1) as nat));
    assert(waits_over(tasks, i, ended, 1));
}

} // verus!
