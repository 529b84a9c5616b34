use telisq::agents::code::{CodeAgentConfig, FileOperation, OperationOutcome};
use telisq::agents::code_run::{CodeAction, CodeOutcome, CodeReport, CodeRun};

fn modify(path: &str) -> FileOperation {
    FileOperation::Modify { path: path.to_string(), original: "a".to_string(), replacement: "b".to_string() }
}

#[test]
fn code_run_applies_verifies_and_tests() {
    let mut config = CodeAgentConfig::default();
    config.verify_command = Some("cargo check".to_string());
    let mut run = CodeRun::new(&config);
    let step = run.begin();
    assert!(matches!(step.action, CodeAction::Generate));
    assert_eq!(step.progress, vec!["Starting code generation process".to_string(), "Attempt 1".to_string()]);

    let step = run.report(CodeReport::Generated(vec![modify("src/a.rs")]));
    assert!(matches!(&step.action, CodeAction::Apply(ops) if ops.len() == 1));

    let step = run.report(CodeReport::Applied(vec![OperationOutcome::Done]));
    assert_eq!(step.progress, vec!["File operations applied successfully".to_string()]);
    assert!(matches!(&step.action, CodeAction::Verify(c) if c == "cargo check"));

    let step = run.report(CodeReport::VerifyRan { exit_code: 0, stderr: String::new() });
    assert_eq!(step.progress, vec!["Verification passed".to_string()]);
    assert!(matches!(&step.action,
        CodeAction::RunTests(c) if c == "cargo test 2>&1 || echo 'No tests found or test framework unavailable'"));

    let step = run.report(CodeReport::TestsRan { stdout: "test result: ok. 3 passed".to_string(), exit_code: 0 });
    match step.action {
        CodeAction::Done(CodeOutcome::Tested { passed, failed, output }) => {
            assert!(passed);
            assert!(!failed);
            assert_eq!(output, "test result: ok. 3 passed");
        }
        other => panic!("expected the end, got {:?}", other),
    }
}

#[test]
fn code_run_retries_then_gives_up() {
    let mut config = CodeAgentConfig::default();
    config.max_retries = 1;
    let mut run = CodeRun::new(&config);
    run.begin();
    let step = run.report(CodeReport::GenerationFailed("LLM request failed: timeout".to_string()));
    assert_eq!(
        step.progress,
        vec![
            "Retrying (1 of 1) after failure: LLM request failed: timeout".to_string(),
            "Attempt 2".to_string()
        ]
    );
    assert!(matches!(step.action, CodeAction::Generate));
    let step = run.report(CodeReport::ParseFailed("invalid type".to_string()));
    match step.action {
        CodeAction::Done(CodeOutcome::Failed(m)) => {
            assert_eq!(m, "All 2 attempts failed. Last error: Failed to parse operations: invalid type")
        }
        other => panic!("expected failure, got {:?}", other),
    }
    assert!(matches!(run.report(CodeReport::GenerationFailed("x".to_string())).action, CodeAction::Ignore));
}

#[test]
fn code_run_rejects_disallowed_files_and_failed_operations() {
    let mut config = CodeAgentConfig::default();
    config.allowed_files = vec!["src/ok.rs".to_string()];
    let mut run = CodeRun::new(&config);
    run.begin();
    let step = run.report(CodeReport::Generated(vec![modify("src/other.rs")]));
    assert_eq!(step.progress[0], "Retrying (1 of 3) after failure: Patches for disallowed files: src/other.rs");

    let step = run.report(CodeReport::Generated(vec![modify("src/ok.rs")]));
    assert!(matches!(step.action, CodeAction::Apply(_)));
    let step = run.report(CodeReport::Applied(vec![OperationOutcome::Failed("disk full".to_string())]));
    assert!(step.progress[0].starts_with("Retrying (2 of 3) after failure: Some operations failed: "));
}

#[test]
fn code_run_without_operations_or_tests() {
    let mut run = CodeRun::new(&CodeAgentConfig::default());
    run.begin();
    let step = run.report(CodeReport::Generated(vec![]));
    assert_eq!(step.progress, vec!["No operations to apply".to_string()]);
    assert!(matches!(step.action, CodeAction::Done(CodeOutcome::NoOperations)));

    let mut config = CodeAgentConfig::default();
    config.test_aware = false;
    let mut run = CodeRun::new(&config);
    run.begin();
    run.report(CodeReport::Generated(vec![FileOperation::Delete { path: "old.rs".to_string() }]));
    let step = run.report(CodeReport::Applied(vec![OperationOutcome::Done]));
    assert_eq!(
        step.progress,
        vec!["File operations applied successfully".to_string(), "Verification passed".to_string()]
    );
    assert!(matches!(step.action, CodeAction::Done(CodeOutcome::TestsSkipped)));
}

#[test]
fn code_run_verify_failure_is_retried() {
    let mut config = CodeAgentConfig::default();
    config.verify_command = Some("make".to_string());
    let mut run = CodeRun::new(&config);
    run.begin();
    run.report(CodeReport::Generated(vec![modify("a")]));
    run.report(CodeReport::Applied(vec![OperationOutcome::Done]));
    let step = run.report(CodeReport::VerifyRan { exit_code: -2, stderr: "bad".to_string() });
    assert_eq!(step.progress[0], "Retrying (1 of 3) after failure: Verify command failed with exit code -2: bad");
}

#[test]
fn test_code_agent_config_defaults() {
    let config = CodeAgentConfig::default();
    assert_eq!(config.max_retries, 3);
    assert!(config.test_aware);
    assert!(config.allowed_files.is_empty());
    assert!(config.verify_command.is_none());
    assert_eq!(config.verify_command_timeout_secs, 120);
}
