use telisq::agents::ask::{answer_outcome, base_question, question_user_prompt, AnswerWait, UserAnswer, UserOption};
use telisq::cli::{PlanEntry, Run as RunCommand};
use telisq::crawler::CrawlerError;
use telisq::index::{
    point_id, unreachable_message, EmbedAttempt, EmbedNext, EmbedRetry, EmbedderError, IndexBuild, WatcherError,
};

fn run_cmd(plan_path: Option<&str>) -> RunCommand {
    RunCommand { plan_path: plan_path.map(|s| s.to_string()), profile: None, continue_from: None, dry_run: false }
}

fn entry(name: &str, modified: Option<u128>) -> PlanEntry {
    PlanEntry { path: format!("plans/{}", name), name: name.to_string(), modified }
}

#[test]
fn resolve_plan_path_prefers_the_given_file() {
    assert_eq!(run_cmd(Some("my.md")).resolve_plan_path(true, false, &vec![]), Ok("my.md".to_string()));
    assert_eq!(
        run_cmd(Some("my.md")).resolve_plan_path(false, true, &vec![]),
        Err("Plan file not found: my.md".to_string())
    );
}

#[test]
fn resolve_plan_path_picks_the_newest_markdown_plan() {
    let entries = vec![
        entry("a.md", Some(10)),
        entry("notes.txt", Some(99)),
        entry("b.md", Some(20)),
        entry("c.md", Some(20)),
        entry(".md", Some(50)),
        entry("d.md", None),
    ];
    assert_eq!(run_cmd(None).resolve_plan_path(false, true, &entries), Ok("plans/b.md".to_string()));
    assert_eq!(
        run_cmd(None).resolve_plan_path(false, false, &entries),
        Err("No plan file specified and plans/ directory not found".to_string())
    );
    assert_eq!(
        run_cmd(None).resolve_plan_path(false, true, &vec![entry("x.txt", Some(1))]),
        Err("No plan files found in plans/ directory".to_string())
    );
}

#[test]
fn embed_retry_backs_off_exponentially() {
    let mut r = EmbedRetry::new(3, 500);
    assert!(matches!(r.begin(), EmbedNext::Try { delay_ms: 0 }));
    let fail = || EmbedAttempt::Failed(EmbedderError::ConnectionFailed("refused".to_string()));
    assert!(matches!(r.report(fail()), EmbedNext::Try { delay_ms: 500 }));
    assert!(matches!(r.report(fail()), EmbedNext::Try { delay_ms: 1000 }));
    assert!(matches!(r.report(fail()), EmbedNext::Try { delay_ms: 2000 }));
    match r.report(fail()) {
        EmbedNext::GiveUp(e) => assert_eq!(e.message(), "Connection failed: refused"),
        other => panic!("expected to give up, got {:?}", other),
    }
    assert!(matches!(r.report(EmbedAttempt::Succeeded), EmbedNext::Ignore));
}

#[test]
fn embed_retry_stops_on_success() {
    let mut r = EmbedRetry::new(0, 500);
    r.begin();
    assert!(matches!(r.report(EmbedAttempt::Succeeded), EmbedNext::Finished));
}

#[test]
fn index_build_batches_and_summarizes() {
    let mut b = IndexBuild::new(250);
    let mut flushes = 0;
    for i in 0..250 {
        if i % 50 == 7 {
            b.failed();
        } else if b.embedded() {
            flushes += 1;
        }
    }
    assert_eq!(flushes, 2);
    assert!(b.store_rest());
    let lines = b.summary("telisq_code");
    assert_eq!(lines[0], "\n✅ Index build completed!");
    assert_eq!(lines[1], "   Chunks processed: 250");
    assert_eq!(lines[2], "   Errors: 5");
    assert_eq!(lines[3], "   Collection: telisq_code");
    assert_eq!(point_id("src/lib.rs", 3), "src/lib.rs:3");
}

#[test]
fn unreachable_messages() {
    assert_eq!(unreachable_message("Ollama", &Ok(true)), None);
    assert_eq!(unreachable_message("Ollama", &Ok(false)), Some("Ollama is not reachable".to_string()));
    assert_eq!(
        unreachable_message("Qdrant", &Err("Connection failed: x".to_string())),
        Some("Qdrant is not reachable: Connection failed: x".to_string())
    );
}

#[test]
fn error_messages() {
    let e = EmbedderError::ApiError { status: 500, message: "boom".to_string() };
    assert_eq!(e.message(), "API error (status 500): boom");
    let w = WatcherError::CrawlerError(CrawlerError::read_error("a.rs", "denied"));
    assert_eq!(w.message(), "Crawler error: Failed to read file a.rs: denied");
    assert_eq!(WatcherError::StoreError("down".to_string()).message(), "Store error: down");
}

#[test]
fn ask_answer_outcomes() {
    let options = vec![UserOption::new("retry", "Retry the task", false)];
    match answer_outcome(AnswerWait::Answered("retry".to_string()), &options, false, 300) {
        Ok(UserAnswer::Chosen { id, .. }) => assert_eq!(id, "retry"),
        other => panic!("expected a choice, got {:?}", other),
    }
    assert_eq!(
        answer_outcome(AnswerWait::TimedOut, &options, false, 300).err(),
        Some("User input timed out after 300 seconds".to_string())
    );
    assert_eq!(
        answer_outcome(AnswerWait::Closed, &options, false, 300).err(),
        Some("Failed to receive user input".to_string())
    );
    assert_eq!(base_question(None), "How would you like to proceed?");
    assert_eq!(base_question(Some("Which?")), "Which?");
}

#[test]
fn ask_question_prompt() {
    let options = vec![UserOption::new("a", "Alpha", false), UserOption::new("b", "Beta", true)];
    let p = question_user_prompt("Pick one", &options, "ctx");
    assert_eq!(
        p,
        "Base question: Pick one\n\nAvailable options:\n- a: Alpha\n- b: Beta\n\nContext:\nctx\n\nPlease formulate a clear, concise question that incorporates the context and presents the options effectively."
    );
}

#[test]
fn review_prompt_lists_the_task() {
    let mut t = telisq::types::TaskSpec::new("3", "Add login");
    t.add_file("src/auth.rs");
    t.add_contract("login works");
    t.add_contract("tests pass");
    let p = telisq::agents::review::review_user_prompt(Some("3"), Some(&t), Some("src/auth.rs"), None, Some("ok"));
    assert_eq!(
        p,
        "## Task Information\nTask ID: 3\n\n## Task Specification\n- Title: Add login\n- Description: None\n- Files to modify:\n- src/auth.rs\n- Contracts to satisfy:\n- login works\n- tests pass\n\n\n## Changed Files\nsrc/auth.rs\n\n\n\n## Test Results\nok\n\nPlease review the code changes above against the task specification. Identify any issues and provide an overall assessment."
    );
    let p = telisq::agents::review::review_user_prompt(None, None, None, None, None);
    assert!(p.starts_with("## Task Information\nNo specific task ID provided.\n\nNo task specification provided.\n\n\n\n"));
}

#[test]
fn code_prompts() {
    let sys = telisq::agents::code::code_system_prompt(&vec![]);
    assert!(sys.contains("You may modify any files in the project."));
    let sys = telisq::agents::code::code_system_prompt(&vec!["a.rs".to_string(), "b.rs".to_string()]);
    assert!(sys.contains("You are ONLY allowed to modify the following files:\na.rs\nb.rs"));
    let u = telisq::agents::code::code_user_prompt(Some("7"), Some("spec"), None, Some("ctx"));
    assert_eq!(
        u,
        "## Task Information\nTask ID: 7\n\n\n## Task Specification\nspec\n\n\n\n## Plan Context\nctx\n\nPlease implement the required changes according to the task specification above."
    );
}
