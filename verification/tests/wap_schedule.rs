//! The order in which models, their audits and their publications run.

use std::collections::BTreeSet;

use dbt_fusion::relation::{AdapterType, ResolvedQuoting};
use dbt_fusion::wap::audit::{require_passing_audits, Audit, NodeStatus};
use dbt_fusion::wap::invocation::WapPlan;
use dbt_fusion::wap::nodes::{DbtMaterialization, DbtModel, ErrorCode, FsError, ModelConfig};
use dbt_fusion::wap::plan::WapModel;
use dbt_fusion::wap::schedule::{
    build_task_graph, task_failed, Schedule, ScheduledNode, SkipReason, Task, TaskKind,
};

const MODEL: &str = "model.pkg.orders";
const AUDIT: &str = "test.pkg.orders_not_null";
const SECOND_AUDIT: &str = "test.pkg.orders_nonnegative";
const DOWNSTREAM: &str = "model.pkg.downstream";
const DOWNSTREAM_AUDIT: &str = "test.pkg.downstream_not_null";
const INDEPENDENT: &str = "model.pkg.independent";

fn entry(id: &str, audits: &[&str]) -> WapModel {
    WapModel {
        model: DbtModel {
            unique_id: id.to_string(),
            adapter: AdapterType::Snowflake,
            enabled: true,
            materialized: DbtMaterialization::Table,
            database: "DB".to_string(),
            schema: "SCHEMA".to_string(),
            alias: id.to_string(),
            relation_name: None,
            quoting: ResolvedQuoting::trues(),
            compute: None,
            propagates: false,
            id_hash: String::new(),
            settings_error: None,
            config: ModelConfig::none(),
            snowflake: None,
        },
        candidate_identifier: format!("__DBT_WAP_{id}"),
        audit_ids: audits.iter().map(|a| (a.to_string(), ())).collect(),
    }
}

struct Fixture {
    tasks: fn() -> Vec<Task>,
    wap: bool,
    chained: bool,
}

fn tasks(wap: bool, chained: bool) -> Vec<Task> {
    let node = |id: &str, is_test: bool, upstream: &[&str]| ScheduledNode {
        id: id.to_string(),
        is_test,
        depends_on: upstream.iter().map(|u| u.to_string()).collect(),
    };
    let mut nodes = vec![
        node(MODEL, false, &[]),
        node(DOWNSTREAM, false, &[MODEL]),
        node(INDEPENDENT, false, &[]),
        node(AUDIT, true, &[MODEL]),
        node(SECOND_AUDIT, true, &[MODEL]),
    ];
    if chained {
        nodes.push(node(DOWNSTREAM_AUDIT, true, &[DOWNSTREAM]));
    }
    nodes.sort_by(|a, b| a.id.cmp(&b.id));
    let mut plan = WapPlan::none();
    if chained {
        plan.models
            .push((DOWNSTREAM.to_string(), entry(DOWNSTREAM, &[DOWNSTREAM_AUDIT])));
    }
    if wap {
        plan.models
            .push((MODEL.to_string(), entry(MODEL, &[SECOND_AUDIT, AUDIT])));
    }
    build_task_graph(&nodes, &plan)
}

fn wap_tasks() -> Vec<Task> {
    tasks(true, false)
}

fn chained_tasks() -> Vec<Task> {
    tasks(true, true)
}

fn plain_tasks() -> Vec<Task> {
    tasks(false, false)
}

impl Fixture {
    fn new(wap: bool, chained: bool) -> Self {
        Self {
            tasks: match (wap, chained) {
                (true, true) => chained_tasks,
                (true, false) => wap_tasks,
                _ => plain_tasks,
            },
            wap,
            chained,
        }
    }

    fn schedule(&self) -> Schedule {
        assert!(self.wap || !self.chained);
        Schedule::new((self.tasks)())
    }
}

fn index(schedule: &Schedule, id: &str, task_type: &str) -> usize {
    let kind = [TaskKind::Render, TaskKind::Run, TaskKind::Publish]
        .into_iter()
        .find(|k| k.name() == task_type)
        .unwrap();
    schedule
        .index_of(id, kind)
        .unwrap_or_else(|| panic!("missing task {id}/{task_type}"))
}

fn complete(schedule: &mut Schedule, index: usize, result: Result<NodeStatus, FsError>) {
    schedule.complete(index, task_failed(&result));
}

/// Complete compilation work while leaving every warehouse task in flight.
fn start_runs(schedule: &mut Schedule) -> BTreeSet<usize> {
    let mut running = BTreeSet::new();
    loop {
        let ready = schedule.start_ready();
        if ready.is_empty() {
            return running;
        }
        for index in ready {
            if schedule.tasks[index].key.kind == TaskKind::Render {
                complete(schedule, index, Ok(NodeStatus::Succeeded));
            } else {
                running.insert(index);
            }
        }
    }
}

fn start_stage(fixture: &Fixture) -> Schedule {
    let mut schedule = fixture.schedule();
    let (model, independent) = (
        index(&schedule, MODEL, "run"),
        index(&schedule, INDEPENDENT, "run"),
    );
    assert_eq!(
        start_runs(&mut schedule),
        BTreeSet::from([model, independent])
    );
    complete(&mut schedule, independent, Ok(NodeStatus::Succeeded));
    schedule
}

fn stage_succeeded(schedule: &mut Schedule) {
    let model = index(schedule, MODEL, "run");
    complete(schedule, model, Ok(NodeStatus::Succeeded));
    let expected = BTreeSet::from([
        index(schedule, AUDIT, "run"),
        index(schedule, SECOND_AUDIT, "run"),
    ]);
    assert_eq!(start_runs(schedule), expected);
}

fn finish(schedule: &mut Schedule, id: &str, status: NodeStatus) {
    let i = index(schedule, id, "run");
    complete(schedule, i, Ok(status));
}

fn skipped_for(schedule: &Schedule, id: &str, phase: &str) -> Option<String> {
    match schedule.skip_reason(index(schedule, id, phase)) {
        Some(SkipReason::FailedUpstream(upstream)) => Some(upstream.clone()),
        _ => None,
    }
}

fn gate(audits: Vec<(&str, Option<NodeStatus>)>) -> Result<NodeStatus, FsError> {
    let audits = audits
        .into_iter()
        .map(|(id, status)| Audit {
            id: id.to_string(),
            message: format!("{status:?}"),
            status,
        })
        .collect();
    require_passing_audits(&audits).map(|()| NodeStatus::Succeeded)
}

#[test]
fn wap_publication_waits_for_every_audit_completion() {
    let fixture = Fixture::new(true, false);
    let mut schedule = start_stage(&fixture);
    stage_succeeded(&mut schedule);

    finish(&mut schedule, AUDIT, NodeStatus::TestPassed);
    assert!(
        schedule.start_ready().is_empty(),
        "second audit is still running"
    );
    finish(&mut schedule, SECOND_AUDIT, NodeStatus::TestPassed);
    let publication = index(&schedule, MODEL, "wap_publish_run");
    assert_eq!(schedule.start_ready(), vec![publication]);
    assert!(
        schedule.start_ready().is_empty(),
        "publication is still running"
    );

    let result = gate(vec![
        (AUDIT, Some(NodeStatus::TestPassed)),
        (SECOND_AUDIT, Some(NodeStatus::TestPassed)),
    ]);
    complete(&mut schedule, publication, result);
    let downstream = index(&schedule, DOWNSTREAM, "run");
    assert_eq!(start_runs(&mut schedule), BTreeSet::from([downstream]));
    finish(&mut schedule, DOWNSTREAM, NodeStatus::Succeeded);
    assert!(schedule.start_ready().is_empty());
    assert!(schedule.is_finished());
}

#[test]
fn wap_failed_transformation_skips_audits_publication_and_downstream() {
    for result in [
        Ok(NodeStatus::Errored),
        Err(FsError {
            code: ErrorCode::ExecutionError,
            message: "transformation failed".to_string(),
        }),
    ] {
        let fixture = Fixture::new(true, false);
        let mut schedule = start_stage(&fixture);
        let model = index(&schedule, MODEL, "run");
        complete(&mut schedule, model, result);

        assert!(schedule.start_ready().is_empty());
        for id in [AUDIT, SECOND_AUDIT, DOWNSTREAM] {
            for phase in ["render", "run"] {
                assert_eq!(
                    skipped_for(&schedule, id, phase),
                    Some(MODEL.to_owned()),
                    "{id}/{phase}"
                );
            }
        }
        assert!(matches!(
            schedule.skip_reason(index(&schedule, MODEL, "wap_publish_run")),
            Some(&SkipReason::FailedPhase)
        ));
        assert!(schedule
            .skip_reason(index(&schedule, INDEPENDENT, "run"))
            .is_none());
        assert!(schedule.is_finished());
    }
}

#[test]
fn wap_audit_failure_keeps_publication_blocked_after_other_audits_finish() {
    let fixture = Fixture::new(true, false);
    let mut schedule = start_stage(&fixture);
    stage_succeeded(&mut schedule);

    finish(&mut schedule, AUDIT, NodeStatus::Errored);
    assert!(schedule.start_ready().is_empty());
    finish(&mut schedule, SECOND_AUDIT, NodeStatus::TestPassed);

    assert!(schedule.start_ready().is_empty());
    for (id, phase) in [
        (MODEL, "wap_publish_run"),
        (DOWNSTREAM, "render"),
        (DOWNSTREAM, "run"),
    ] {
        assert_eq!(skipped_for(&schedule, id, phase), Some(AUDIT.to_owned()));
    }
    assert!(schedule.is_finished());
}

#[test]
fn wap_warned_audit_fails_publication_gate_and_blocks_downstream() {
    let fixture = Fixture::new(true, false);
    let mut schedule = start_stage(&fixture);
    stage_succeeded(&mut schedule);
    finish(&mut schedule, AUDIT, NodeStatus::TestWarned);
    finish(&mut schedule, SECOND_AUDIT, NodeStatus::TestPassed);
    let publication = index(&schedule, MODEL, "wap_publish_run");
    assert_eq!(schedule.start_ready(), vec![publication]);

    // WARN is intentionally nonfatal to the visitor. The real WAP gate must
    // still turn it into a publication error before consumers can run.
    let result = gate(vec![
        (AUDIT, Some(NodeStatus::TestWarned)),
        (SECOND_AUDIT, Some(NodeStatus::TestPassed)),
    ]);
    assert!(result.is_err());
    complete(&mut schedule, publication, result);

    assert!(schedule.start_ready().is_empty());
    assert_eq!(
        skipped_for(&schedule, DOWNSTREAM, "render"),
        Some(MODEL.to_owned())
    );
    assert!(schedule.is_finished());
}

#[test]
fn wap_chain_starts_next_candidate_only_after_upstream_publication() {
    let fixture = Fixture::new(true, true);
    let mut schedule = start_stage(&fixture);
    stage_succeeded(&mut schedule);
    for id in [AUDIT, SECOND_AUDIT] {
        finish(&mut schedule, id, NodeStatus::TestPassed);
    }
    let first_publication = index(&schedule, MODEL, "wap_publish_run");
    assert_eq!(schedule.start_ready(), vec![first_publication]);
    complete(&mut schedule, first_publication, Ok(NodeStatus::Succeeded));
    let downstream = index(&schedule, DOWNSTREAM, "run");
    assert_eq!(start_runs(&mut schedule), BTreeSet::from([downstream]));
    finish(&mut schedule, DOWNSTREAM, NodeStatus::Succeeded);
    let downstream_audit = index(&schedule, DOWNSTREAM_AUDIT, "run");
    assert_eq!(
        start_runs(&mut schedule),
        BTreeSet::from([downstream_audit])
    );
    finish(&mut schedule, DOWNSTREAM_AUDIT, NodeStatus::TestPassed);
    let second_publication = index(&schedule, DOWNSTREAM, "wap_publish_run");
    assert_eq!(schedule.start_ready(), vec![second_publication]);
    complete(&mut schedule, second_publication, Ok(NodeStatus::Succeeded));
    assert!(schedule.start_ready().is_empty());
    assert!(schedule.is_finished());
}

#[test]
fn wap_failure_skips_entire_downstream_wap_cycle() {
    let fixture = Fixture::new(true, true);
    let mut schedule = start_stage(&fixture);
    stage_succeeded(&mut schedule);
    finish(&mut schedule, AUDIT, NodeStatus::Errored);
    finish(&mut schedule, SECOND_AUDIT, NodeStatus::TestPassed);

    assert!(schedule.start_ready().is_empty());
    for (id, phase) in [
        (DOWNSTREAM, "render"),
        (DOWNSTREAM, "run"),
        (DOWNSTREAM_AUDIT, "render"),
        (DOWNSTREAM_AUDIT, "run"),
        (DOWNSTREAM, "wap_publish_run"),
    ] {
        assert_eq!(skipped_for(&schedule, id, phase), Some(AUDIT.to_owned()));
    }
    assert!(schedule.is_finished());
}

#[test]
fn wap_disabled_preserves_normal_warning_behavior_without_publication_task() {
    let fixture = Fixture::new(false, false);
    assert!(!(fixture.tasks)()
        .iter()
        .any(|task| task.key.kind.name() == "wap_publish_run"));
    let mut schedule = start_stage(&fixture);
    stage_succeeded(&mut schedule);
    finish(&mut schedule, AUDIT, NodeStatus::TestWarned);
    finish(&mut schedule, SECOND_AUDIT, NodeStatus::TestPassed);

    let downstream = index(&schedule, DOWNSTREAM, "run");
    assert_eq!(start_runs(&mut schedule), BTreeSet::from([downstream]));
    finish(&mut schedule, DOWNSTREAM, NodeStatus::Succeeded);
    assert!(schedule.start_ready().is_empty());
    assert!(schedule.is_finished());
}
