//! Runs of Spark calculations, step by step.

use dbt_fusion::athena::driver::{OpsError, OpsErrorKind, Reply};
use dbt_fusion::athena::session::{SessionPool, SparkAction, SparkEvent, SparkJob, SparkState};
use dbt_fusion::json::Json;

fn text(s: &str) -> Json {
    Json::Text(s.to_string())
}

fn object(fields: Vec<(&str, Json)>) -> Json {
    Json::Object(
        fields
            .into_iter()
            .map(|(k, v)| (k.to_string(), v))
            .collect(),
    )
}

fn job(code: &str) -> SparkJob {
    SparkJob {
        work_group: "spark".to_string(),
        description: "dbt: abc".to_string(),
        engine_config: object(vec![]),
        timeout_secs: 60,
        relation_name: "a.b".to_string(),
        compiled_code: code.to_string(),
    }
}

fn answered(reply: Reply) -> SparkEvent {
    SparkEvent::Answered {
        reply,
        timed_out: false,
    }
}

fn late(reply: Reply) -> SparkEvent {
    SparkEvent::Answered {
        reply,
        timed_out: true,
    }
}

fn session(state: &str) -> Reply {
    Ok(object(vec![
        ("SessionId", text("s1")),
        ("State", text(state)),
    ]))
}

fn status(state: &str) -> Reply {
    Ok(object(vec![(
        "Status",
        object(vec![
            ("State", text(state)),
            ("StateChangeReason", text("because")),
        ]),
    )]))
}

fn calculation() -> Reply {
    Ok(object(vec![("CalculationExecutionId", text("c1"))]))
}

/// What a run does at each event, in short, and what comes of it.
fn run(
    job: &SparkJob,
    pool: &mut SessionPool,
    events: Vec<SparkEvent>,
) -> (Vec<String>, Option<Result<String, OpsError>>) {
    let mut state = SparkState::New;
    let mut done = Vec::new();
    let mut events = events.into_iter();
    let mut event = SparkEvent::Begin;
    loop {
        let (next, action) = job.step(state, pool, event);
        state = next;
        match action {
            SparkAction::Call {
                request,
                starts_clock,
            } => done.push(format!(
                "{}{}",
                request.operation,
                if starts_clock { " (clock)" } else { "" }
            )),
            SparkAction::Wait => done.push("wait".to_string()),
            SparkAction::Return(result) => {
                assert!(events.next().is_none(), "events are left");
                return (done, Some(result));
            }
        }
        event = match events.next() {
            Some(event) => event,
            None => return (done, None),
        };
    }
}

fn message(result: Option<Result<String, OpsError>>) -> String {
    result.unwrap().unwrap_err().message
}

/// A failure of the driver.
fn broken(message: &str) -> Reply {
    Err(OpsError {
        kind: OpsErrorKind::Driver,
        message: message.to_string(),
    })
}

#[test]
fn a_run_starts_a_session_and_gives_it_back() {
    let mut pool = SessionPool::new();
    let (done, result) = run(
        &job("  x = 1"),
        &mut pool,
        vec![
            answered(session("CREATING")),
            answered(status("CREATING")),
            SparkEvent::Waited,
            answered(status("IDLE")),
            answered(calculation()),
            answered(status("RUNNING")),
            SparkEvent::Waited,
            answered(status("COMPLETED")),
        ],
    );
    assert_eq!(
        done,
        vec![
            "athena.start_session",
            "athena.get_session_status (clock)",
            "wait",
            "athena.get_session_status",
            "athena.start_calculation_execution",
            "athena.get_calculation_execution (clock)",
            "wait",
            "athena.get_calculation_execution"
        ]
    );
    assert_eq!(result, Some(Ok("OK".to_string())));
    assert_eq!(pool.sessions.len(), 1);
    assert!(!pool.sessions[0].busy);

    // the next run takes that session
    let (done, result) = run(
        &job("y = 2"),
        &mut pool,
        vec![answered(calculation()), answered(status("COMPLETED"))],
    );
    assert_eq!(done[0], "athena.start_calculation_execution");
    assert_eq!(result, Some(Ok("OK".to_string())));
}

#[test]
fn blank_code_is_not_run() {
    let mut pool = SessionPool::new();
    assert_eq!(
        run(&job(" \n\t"), &mut pool, vec![]),
        (vec![], Some(Ok("OK".to_string())))
    );
}

#[test]
fn code_is_sent_without_its_leading_space() {
    let mut pool = SessionPool::new();
    let job = job("\n  x = 1 ");
    let (state, action) = job.step(SparkState::New, &mut pool, SparkEvent::Begin);
    match action {
        SparkAction::Call { request, .. } => assert_eq!(
            request.payload,
            object(vec![
                ("Description", text("dbt: abc")),
                ("WorkGroup", text("spark")),
                ("EngineConfiguration", object(vec![])),
                ("SessionIdleTimeoutInMinutes", Json::Int(10)),
            ])
        ),
        other => panic!("{other:?}"),
    }
    let (_, action) = job.step(state, &mut pool, answered(session("IDLE")));
    match action {
        SparkAction::Call { request, .. } => assert_eq!(
            request.payload,
            object(vec![("SessionId", text("s1")), ("CodeBlock", text("x = 1 "))])
        ),
        other => panic!("{other:?}"),
    }
    assert!(pool.sessions[0].busy);
}

#[test]
fn sessions_that_do_not_come_up_fail_the_run() {
    let mut pool = SessionPool::new();
    let (_, result) = run(
        &job("x"),
        &mut pool,
        vec![answered(session("CREATING")), answered(status("DEGRADED"))],
    );
    assert_eq!(
        message(result),
        "Unable to create session: s1. Got status: DEGRADED with reason: because."
    );
    let (_, result) = run(
        &job("x"),
        &mut pool,
        vec![answered(session("CREATING")), late(status("CREATING"))],
    );
    assert_eq!(
        message(result),
        "Session s1 did not create within 60 seconds."
    );
    let (_, result) = run(
        &job("x"),
        &mut pool,
        vec![
            answered(session("CREATING")),
            answered(status("CREATING")),
            SparkEvent::Cancelled,
        ],
    );
    assert_eq!(result.unwrap().unwrap_err().kind, OpsErrorKind::Cancelled);
    let (_, result) = run(
        &job("x"),
        &mut pool,
        vec![answered(broken("no"))],
    );
    assert_eq!(
        result,
        Some(Err(OpsError {
            kind: OpsErrorKind::Driver,
            message: "no".to_string()
        }))
    );
    assert!(pool.sessions.is_empty());
}

#[test]
fn another_session_is_tried_where_one_has_ended() {
    let mut pool = SessionPool::new();
    let ended = || answered(broken("session is TERMINATED"));
    let (done, result) = run(
        &job("x"),
        &mut pool,
        vec![
            answered(session("IDLE")),
            ended(),
            answered(session("IDLE")),
            ended(),
            answered(session("IDLE")),
            ended(),
        ],
    );
    assert_eq!(
        done.iter()
            .filter(|d| d.as_str() == "athena.start_session")
            .count(),
        3
    );
    assert_eq!(
        message(result),
        "Unable to start spark python code execution. session is TERMINATED"
    );
    assert!(pool.sessions.is_empty());

    let (_, result) = run(
        &job("x"),
        &mut pool,
        vec![
            answered(session("IDLE")),
            answered(broken("throttled")),
        ],
    );
    assert_eq!(
        message(result),
        "Unable to start spark python code execution. throttled"
    );
    assert_eq!(pool.sessions.len(), 1);
}

#[test]
fn calculations_that_fail_or_take_too_long_are_reported() {
    let mut pool = SessionPool::new();
    let (_, result) = run(
        &job("x"),
        &mut pool,
        vec![
            answered(session("IDLE")),
            answered(calculation()),
            answered(status("FAILED")),
        ],
    );
    assert_eq!(
        message(result),
        "Model a.b\nCalculation Id:   c1\nSession Id:     s1\nStatus:         FAILED\nReason:         because\nStderr s3 path: "
    );
    let (done, result) = run(
        &job("x"),
        &mut pool,
        vec![
            answered(calculation()),
            late(status("RUNNING")),
            answered(broken("cannot stop")),
        ],
    );
    assert_eq!(done[2], "athena.stop_calculation_execution");
    assert_eq!(
        message(result),
        "Execution c1 did not complete within 60 seconds."
    );
    let (done, result) = run(
        &job("x"),
        &mut pool,
        vec![
            answered(calculation()),
            answered(status("RUNNING")),
            SparkEvent::Cancelled,
            answered(Ok(Json::Null)),
        ],
    );
    assert_eq!(done[3], "athena.stop_calculation_execution");
    assert_eq!(result.unwrap().unwrap_err().kind, OpsErrorKind::Cancelled);
    assert!(!pool.sessions[0].busy);
}
