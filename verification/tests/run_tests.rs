use telisq::agents::AgentResult;
use telisq::brief::{AgentIssue, AgentResult as BriefResult};
use telisq::orchestrator::TaskBoard;
use telisq::run::{AttemptReport, AttemptStep, CodeAttempts, Run, RunAction, RunEvent, RunPhase};
use telisq::session::OrchestratorEvent;
use telisq::types::{TaskSpec, TaskStatus};

const SESSION: u128 = 0x67e5_5044_10b1_426f_9247_bb68_0e5f_e0c8;

fn board_of(tasks: Vec<TaskSpec>) -> TaskBoard {
    let mut board = TaskBoard::new();
    for t in tasks {
        board.add_task(t);
    }
    board
}

fn chain() -> TaskBoard {
    let a = TaskSpec::new("a", "First");
    let mut b = TaskSpec::new("b", "Second");
    b.add_dependency("a");
    b.add_file("src/lib.rs");
    board_of(vec![a, b])
}

fn message(e: &OrchestratorEvent) -> Option<&str> {
    match e {
        OrchestratorEvent::AgentMessage(m) => Some(m.as_str()),
        _ => None,
    }
}

fn marker(e: &OrchestratorEvent, id: &str, s: TaskStatus) -> bool {
    matches!(e, OrchestratorEvent::PlanMarkerUpdated(t, x) if t == id && *x == s)
}

fn success() -> RunEvent {
    RunEvent::TaskEnded(AgentResult::Success(serde_json::Value::Null))
}

#[test]
fn run_executes_tasks_in_dependency_order_and_reviews() {
    let mut run = Run::new(chain(), None, SESSION);
    let step = run.start();
    assert!(matches!(&step.action, RunAction::RunTask(id) if id == "a"));
    assert_eq!(step.events.len(), 3);
    assert_eq!(
        message(&step.events[0]),
        Some("Starting orchestration for session: 67e55044-10b1-426f-9247-bb680e5fe0c8")
    );
    assert!(marker(&step.events[1], "a", TaskStatus::InProgress));
    assert!(matches!(&step.events[2], OrchestratorEvent::StepStarted(t) if t == "a"));

    let step = run.handle(success());
    assert!(matches!(&step.action, RunAction::RunTask(id) if id == "b"));
    assert_eq!(step.events.len(), 4);
    assert!(marker(&step.events[0], "a", TaskStatus::Completed));
    assert!(matches!(&step.events[1], OrchestratorEvent::StepCompleted(t) if t == "a"));
    assert!(marker(&step.events[2], "b", TaskStatus::InProgress));

    let step = run.handle(success());
    match &step.action {
        RunAction::Review(b) => {
            assert_eq!(b.task_spec, "Review all completed tasks");
            assert_eq!(b.changed_files, vec!["src/lib.rs".to_string()]);
            assert!(b.contracts.is_empty());
        }
        other => panic!("expected a review, got {:?}", other),
    }
    assert!(matches!(run.phase(), RunPhase::AwaitingReview));

    let step = run.handle(RunEvent::ReviewEnded(BriefResult::approved()));
    assert!(matches!(step.action, RunAction::Finish));
    assert_eq!(step.events.len(), 3);
    assert_eq!(message(&step.events[0]), Some("Review approved - session complete"));
    assert_eq!(
        message(&step.events[1]),
        Some("Orchestration completed. Completed tasks: 2, Failed tasks: 0, Skipped tasks: 0")
    );
    assert!(matches!(step.events[2], OrchestratorEvent::PlanCompleted));
    assert_eq!(run.completed(), &vec!["a".to_string(), "b".to_string()]);

    // A finished run ignores further reports.
    let step = run.handle(success());
    assert!(matches!(step.action, RunAction::Ignore));
    assert!(step.events.is_empty());
}

#[test]
fn run_failure_then_skip_skips_dependents_and_finishes() {
    let mut run = Run::new(chain(), None, SESSION);
    run.start();
    let step = run.handle(RunEvent::TaskEnded(AgentResult::Failure("boom".to_string())));
    match &step.action {
        RunAction::Ask(b) => {
            assert_eq!(b.question, "Task 'a' failed.\nError: boom\n\nWhat would you like to do?");
            assert_eq!(
                b.options,
                Some(vec!["retry".to_string(), "skip".to_string(), "stop".to_string()])
            );
            assert!(!b.allow_free_text);
            assert_eq!(b.context.as_deref(), Some("Task: a, Error: boom"));
        }
        other => panic!("expected a question, got {:?}", other),
    }
    assert!(matches!(&step.events[1], OrchestratorEvent::StepFailed(t, e) if t == "a" && e == "boom"));

    let step = run.handle(RunEvent::Answered(Some("skip".to_string())));
    assert!(marker(&step.events[0], "a", TaskStatus::Skipped));
    assert!(marker(&step.events[1], "b", TaskStatus::Skipped));
    assert_eq!(
        message(&step.events[2]),
        Some("Orchestration completed. Completed tasks: 0, Failed tasks: 1, Skipped tasks: 0")
    );
    assert!(matches!(step.action, RunAction::Finish));
    assert_eq!(run.board().status_of(&"b".to_string()), Some(TaskStatus::Skipped));
}

#[test]
fn run_failure_then_retry_runs_the_task_again() {
    let mut run = Run::new(chain(), None, SESSION);
    run.start();
    run.handle(RunEvent::TaskEnded(AgentResult::Failure("boom".to_string())));
    let step = run.handle(RunEvent::Answered(Some("retry".to_string())));
    assert!(matches!(&step.action, RunAction::RunTask(id) if id == "a"));
    assert_eq!(run.board().status_of(&"a".to_string()), Some(TaskStatus::InProgress));
    let step = run.handle(success());
    assert!(matches!(&step.action, RunAction::RunTask(id) if id == "b"));
    assert_eq!(run.failed(), &vec!["a".to_string()]);
}

#[test]
fn run_failure_then_stop_stops_the_session() {
    let mut run = Run::new(chain(), None, SESSION);
    run.start();
    run.handle(RunEvent::TaskEnded(AgentResult::Failure("boom".to_string())));
    let step = run.handle(RunEvent::Answered(Some("stop".to_string())));
    assert!(matches!(step.action, RunAction::Stop));
    assert_eq!(step.events.len(), 1);
    assert!(matches!(step.events[0], OrchestratorEvent::SessionStopped(s) if s == SESSION));
    assert!(matches!(run.phase(), RunPhase::Finished));
}

#[test]
fn run_review_issues_then_fix_gives_blocking_issues_to_code_agents() {
    let mut run = Run::new(board_of(vec![TaskSpec::new("a", "Only")]), None, SESSION);
    run.start();
    run.handle(success());
    let issues = vec![
        AgentIssue {
            issue_type: "error".to_string(),
            title: "Broken".to_string(),
            description: "It breaks".to_string(),
            file_path: Some("src/x.rs".to_string()),
        },
        AgentIssue {
            issue_type: "warning".to_string(),
            title: "Style".to_string(),
            description: "Looks odd".to_string(),
            file_path: None,
        },
        AgentIssue {
            issue_type: "error".to_string(),
            title: "Missing".to_string(),
            description: "Not there".to_string(),
            file_path: None,
        },
    ];
    let expected_context = format!("Issues: {:?}", issues);
    let step = run.handle(RunEvent::ReviewEnded(BriefResult::issues_found(issues)));
    match &step.action {
        RunAction::Ask(b) => {
            assert_eq!(b.question, "Review found 3 issues (2 blocking). How would you like to proceed?");
            assert_eq!(b.options, Some(vec!["fix".to_string(), "accept".to_string()]));
            assert_eq!(b.context.as_deref(), Some(expected_context.as_str()));
            assert!(b.context.as_deref().unwrap().starts_with(
                "Issues: [AgentIssue { issue_type: \"error\", title: \"Broken\", description: \"It breaks\", file_path: Some(\"src/x.rs\") }, "
            ));
        }
        other => panic!("expected a question, got {:?}", other),
    }
    let step = run.handle(RunEvent::Answered(Some("fix".to_string())));
    match &step.action {
        RunAction::Fix(briefs) => {
            assert_eq!(briefs.len(), 2);
            assert_eq!(briefs[0].task_spec, "Fix issue in src/x.rs: Broken");
            assert_eq!(briefs[0].files, vec!["src/x.rs".to_string()]);
            assert_eq!(briefs[0].plan_context.as_deref(), Some("It breaks"));
            assert_eq!(briefs[1].task_spec, "Fix issue: Missing");
            assert!(briefs[1].files.is_empty());
        }
        other => panic!("expected fixes, got {:?}", other),
    }
    let step = run.handle(RunEvent::FixesApplied);
    assert!(matches!(step.action, RunAction::Finish));
    assert_eq!(
        message(&step.events[0]),
        Some("Orchestration completed. Completed tasks: 1, Failed tasks: 0, Skipped tasks: 0")
    );
}

#[test]
fn run_deadlock_asks_the_user() {
    let mut a = TaskSpec::new("a", "Waits");
    a.add_dependency("missing");
    let mut run = Run::new(board_of(vec![a]), None, SESSION);
    let step = run.start();
    match &step.action {
        RunAction::Ask(b) => {
            assert_eq!(
                b.question,
                "No runnable tasks but incomplete tasks remain. Possible deadlock. What would you like to do?"
            );
            assert_eq!(
                b.options,
                Some(vec!["continue".to_string(), "skip".to_string(), "stop".to_string()])
            );
        }
        other => panic!("expected a question, got {:?}", other),
    }
    let step = run.handle(RunEvent::Answered(None));
    assert!(matches!(step.action, RunAction::Finish));
}

#[test]
fn run_deadlock_skip_skips_blocked_tasks() {
    let mut a = TaskSpec::new("a", "Failed one");
    a.set_status(TaskStatus::Failed);
    let mut b = TaskSpec::new("b", "Blocked");
    b.add_dependency("a");
    let mut run = Run::new(board_of(vec![a, b]), None, SESSION);
    let step = run.start();
    assert!(matches!(step.action, RunAction::Ask(_)));
    let step = run.handle(RunEvent::Answered(Some("skip".to_string())));
    assert!(matches!(step.action, RunAction::Finish));
    assert_eq!(run.board().status_of(&"b".to_string()), Some(TaskStatus::Skipped));
}

#[test]
fn run_continue_from_skips_earlier_tasks() {
    let board = board_of(vec![TaskSpec::new("a", "A"), TaskSpec::new("c", "C")]);
    let mut run = Run::new(board, Some("b".to_string()), SESSION);
    let step = run.start();
    assert!(matches!(&step.action, RunAction::RunTask(id) if id == "c"));
}

#[test]
fn run_needs_input_marks_task_failed_without_counting() {
    let mut run = Run::new(board_of(vec![TaskSpec::new("a", "A")]), None, SESSION);
    run.start();
    let step = run.handle(RunEvent::TaskEnded(AgentResult::UserInputRequired("which?".to_string())));
    assert!(matches!(&step.events[1], OrchestratorEvent::StepFailed(_, e) if e == "Unknown error"));
    assert!(matches!(step.action, RunAction::Finish));
    assert_eq!(
        message(&step.events[2]),
        Some("Orchestration completed. Completed tasks: 0, Failed tasks: 0, Skipped tasks: 0")
    );
}

#[test]
fn code_attempts_retry_with_the_previous_error_then_give_up() {
    let mut at = CodeAttempts::new("t1", 2);
    match at.begin() {
        AttemptStep::Launch { attempt, note, events } => {
            assert_eq!(attempt, 1);
            assert!(note.is_none());
            assert!(events.is_empty());
        }
        other => panic!("expected a launch, got {:?}", other),
    }
    match at.report(AttemptReport::Ended(AgentResult::Failure("compile error".to_string()))) {
        AttemptStep::Launch { attempt, note, events } => {
            assert_eq!(attempt, 2);
            assert_eq!(note.as_deref(), Some("Previous attempt failed with: compile error"));
            assert!(matches!(&events[0], OrchestratorEvent::TaskRetry(t, 2, e) if t == "t1" && e == "compile error"));
        }
        other => panic!("expected a launch, got {:?}", other),
    }
    match at.report(AttemptReport::Panicked("oops".to_string())) {
        AttemptStep::Done(AgentResult::Failure(m)) => {
            assert_eq!(m, "Code Agent failed after 2 attempts: Task panicked: oops");
        }
        other => panic!("expected the end, got {:?}", other),
    }
    assert!(matches!(at.report(AttemptReport::Panicked("late".to_string())), AttemptStep::Ignore));
}

#[test]
fn code_attempts_success_ends_at_once() {
    let mut at = CodeAttempts::new("t1", 3);
    at.begin();
    match at.report(AttemptReport::Ended(AgentResult::Success(serde_json::Value::Bool(true)))) {
        AttemptStep::Done(AgentResult::Success(v)) => assert_eq!(v, serde_json::Value::Bool(true)),
        other => panic!("expected success, got {:?}", other),
    }
}

#[test]
fn code_attempts_with_no_retries_fail_at_once() {
    let mut at = CodeAttempts::new("t1", 0);
    match at.begin() {
        AttemptStep::Done(AgentResult::Failure(m)) => assert_eq!(m, "Code Agent failed after 0 attempts: "),
        other => panic!("expected failure, got {:?}", other),
    }
}

#[test]
fn test_orchestrator_simple_flow() {
    let mut run = Run::new(board_of(vec![TaskSpec::new("test-task", "Test Task")]), None, SESSION);
    let mut step = run.start();
    let mut finished = false;
    for _ in 0..10 {
        let event = match &step.action {
            RunAction::RunTask(_) => success(),
            RunAction::Review(_) => RunEvent::ReviewEnded(BriefResult::approved()),
            RunAction::Finish => {
                finished = true;
                break;
            }
            other => panic!("unexpected action {:?}", other),
        };
        step = run.handle(event);
    }
    assert!(finished);
    assert!(run.failed().is_empty());
    assert_eq!(run.completed(), &vec!["test-task".to_string()]);
}

#[test]
fn successful_run_starts_each_task_once_after_its_dependencies() {
    let mut c = TaskSpec::new("c", "Third");
    c.add_dependency("b");
    let mut b = TaskSpec::new("b", "Second");
    b.add_dependency("a");
    let a = TaskSpec::new("a", "First");
    let mut run = Run::new(board_of(vec![c, b, a]), None, SESSION);
    let mut step = run.start();
    let mut started: Vec<String> = Vec::new();
    loop {
        let event = match &step.action {
            RunAction::RunTask(id) => {
                started.push(id.clone());
                success()
            }
            RunAction::Review(_) => RunEvent::ReviewEnded(BriefResult::approved()),
            RunAction::Finish => break,
            other => panic!("unexpected action {:?}", other),
        };
        step = run.handle(event);
    }
    assert_eq!(started, vec!["a".to_string(), "b".to_string(), "c".to_string()]);
    assert!(run.board().tasks().iter().all(|t| t.status == TaskStatus::Completed));
}
