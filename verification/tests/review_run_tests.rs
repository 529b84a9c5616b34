use telisq::agents::review::{CommandResult, Issue, ReviewVerdict};
use telisq::agents::review_run::{ReviewAction, ReviewReport, ReviewRun, ReviewRunOutcome};

#[test]
fn review_run_stops_on_missing_task_files() {
    let mut run = ReviewRun::new(vec!["cargo test".to_string()], true);
    let files = vec!["src/lib.rs".to_string()];
    let step = run.begin(Some(&files), "src/main.rs\n");
    assert_eq!(
        step.progress,
        vec!["Starting review process".to_string(), "Verifying task contracts".to_string()]
    );
    match step.action {
        ReviewAction::Done(ReviewRunOutcome::ContractErrors(m)) => {
            assert!(m.starts_with("Contract verification errors: Missing File Modification: Expected file 'src/lib.rs'"));
        }
        other => panic!("expected contract errors, got {:?}", other),
    }
}

#[test]
fn review_run_commands_then_analysis_then_verdict() {
    let mut run = ReviewRun::new(vec!["cargo test".to_string(), "cargo clippy".to_string()], true);
    let files = vec!["src/lib.rs".to_string()];
    let step = run.begin(Some(&files), "src/lib.rs");
    assert!(matches!(&step.action, ReviewAction::RunCommands(c) if c.len() == 2));
    assert_eq!(step.progress.len(), 4);

    let results = vec![
        CommandResult {
            stdout: "test a::b ... FAILED\n".to_string(),
            stderr: String::new(),
            exit_code: 101,
        },
        CommandResult { stdout: String::new(), stderr: String::new(), exit_code: 0 },
    ];
    let step = run.report(ReviewReport::CommandsRan(results));
    assert!(matches!(step.action, ReviewAction::Analyze));
    let expected = "Verification failed: Command 1 'cargo test' failed with exit code 101: test a::b ... FAILED\n. Failing tests: test a::b (cargo test)";
    assert_eq!(run.verify_failure().as_deref(), Some(expected));
    assert_eq!(step.progress[0], format!("Verification commands found issues: {}", expected));
    assert_eq!(step.progress[1], "Analyzing code changes with LLM");

    let issues = vec![Issue::warning("Naming", "Rename x"), Issue::error_with_path("Bug", "Off by one", "src/lib.rs")];
    let step = run.report(ReviewReport::Analyzed(issues));
    assert_eq!(step.progress, vec!["Review completed with 1 error(s) and 1 warning(s)".to_string()]);
    match step.action {
        ReviewAction::Done(ReviewRunOutcome::Judged(ReviewVerdict::Rejected { error_count, message })) => {
            assert_eq!(error_count, 1);
            assert_eq!(message, "Review found 1 error(s): [src/lib.rs] Bug: Off by one");
        }
        other => panic!("expected a rejection, got {:?}", other),
    }
}

#[test]
fn review_run_without_commands_or_model_approves() {
    let mut run = ReviewRun::new(vec![], false);
    let step = run.begin(None, "");
    assert_eq!(step.progress.last().unwrap(), "Review approved - no issues found");
    assert!(matches!(step.action, ReviewAction::Done(ReviewRunOutcome::Judged(ReviewVerdict::Approved))));
    assert!(matches!(run.begin(None, "").action, ReviewAction::Ignore));
}
