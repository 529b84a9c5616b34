use telisq::agents::ask::{
    build_context, default_options, format_for_display, formulate_question_default, handle_user_input, AskAgentConfig,
    UserAnswer, UserOption,
};
use telisq::agents::code::{
    attempts_failed, operations_report, patches_of, should_retry, test_outcome, verify_command_outcome,
    verify_patches_constraints, CodeAgentConfig, FileOperation, OperationOutcome,
};
use telisq::agents::markdown::{extract_ask_json, extract_code_json, extract_json_from_markdown};
use telisq::agents::review::{
    check_task_files, convert_llm_issue, parse_failing_tests, review_verdict, CommandResult, Issue, IssueType, LlmIssue,
    ReviewAgentConfig, ReviewVerdict,
};
use telisq::agents::{convert_agent_result, dispatch_target, AgentResult};
use telisq::brief::{AgentBrief, AgentResult as SharedAgentResult, AgentType};
use telisq::llm::{Message, Role};
use telisq::patcher::FilePatch;

#[test]
fn test_user_option_creation() {
    let option = UserOption::new("retry", "Retry the task", false);
    assert_eq!(option.id, "retry");
    assert_eq!(option.text, "Retry the task");
    assert!(!option.allow_free_text);
}

#[test]
fn test_ask_agent_config_defaults() {
    let config = AskAgentConfig::default();
    assert_eq!(config.input_timeout, 300);
    assert!(config.allow_free_text);
    assert!(config.use_llm);
}

#[test]
fn test_format_for_display_with_options() {
    let options = vec![UserOption::new("retry", "Retry", false), UserOption::new("skip", "Skip", false)];
    let display = format_for_display("What now?", &options);
    assert!(display.contains("What now?"));
    assert!(display.contains("[retry] Retry"));
    assert!(display.contains("[skip] Skip"));
}

#[test]
fn format_for_display_exact_text() {
    let options = vec![UserOption::new("retry", "Retry", false), UserOption::new("skip", "Skip", false)];
    assert_eq!(
        format_for_display("What now?", &options),
        "What now?\n\n[retry] Retry\n[skip] Skip\n\nType an option ID or enter free text:"
    );
    assert_eq!(format_for_display("Alone?", &vec![]), "Alone?");
}

#[test]
fn test_build_context_from_agent_context() {
    let metadata = vec![("key".to_string(), "value".to_string())];
    let context_str = build_context(Some("task-1"), "0000-session", 3, &metadata);
    assert!(context_str.contains("task-1"));
    assert!(context_str.contains("key: value"));
    assert_eq!(context_str, "Task: task-1\nSession: 0000-session\nMax retries: 3\nMetadata: key: value");
}

#[test]
fn test_handle_user_input_matching_option() {
    let options = vec![UserOption::new("retry", "Retry", false), UserOption::new("skip", "Skip", false)];
    match handle_user_input("retry", &options, true) {
        Ok(UserAnswer::Chosen { id, text }) => {
            assert_eq!(id, "retry");
            assert_eq!(text, "Retry");
        }
        _ => panic!("Expected success"),
    }
}

#[test]
fn test_handle_user_input_free_text() {
    let config = AskAgentConfig { allow_free_text: true, ..Default::default() };
    let options = vec![UserOption::new("retry", "Retry", false), UserOption::new("skip", "Skip", false)];
    match handle_user_input("custom response", &options, config.allow_free_text) {
        Ok(UserAnswer::FreeText { text }) => assert_eq!(text, "custom response"),
        _ => panic!("Expected success"),
    }
}

#[test]
fn test_handle_user_input_invalid_no_free_text() {
    let config = AskAgentConfig { allow_free_text: false, ..Default::default() };
    let options = vec![UserOption::new("retry", "Retry", false)];
    match handle_user_input("invalid", &options, config.allow_free_text) {
        Err(msg) => assert!(msg.contains("Invalid response")),
        _ => panic!("Expected failure"),
    }
}

#[test]
fn handle_user_input_matches_text_and_empty_options() {
    let options = vec![UserOption::new("retry", "Retry", false), UserOption::new("skip", "Skip", false)];
    assert!(matches!(handle_user_input("Skip", &options, false), Ok(UserAnswer::Chosen { id, .. }) if id == "skip"));
    assert!(matches!(handle_user_input("anything", &vec![], false), Ok(UserAnswer::FreeText { .. })));
}

#[test]
fn ask_default_question_and_options() {
    let options = default_options();
    assert_eq!(options.len(), 3);
    assert_eq!(options[2].id, "stop");
    let q = formulate_question_default("Proceed?", &options, "");
    assert_eq!(q.question, "Proceed?");
    assert_eq!(
        q.formatted_options,
        "Available options:\n- [retry] Retry the task\n- [skip] Skip the task\n- [stop] Stop the execution"
    );
    let q = formulate_question_default("Proceed?", &options, "Task 3");
    assert_eq!(q.question, "Proceed?\n\nContext: Task 3");
}

#[test]
fn ask_agent_test_extract_json_from_markdown() {
    let json_block = r#"```json
{"question": "Test?", "options_summary": "Options"}
```"#;
    let extracted = extract_ask_json(json_block);
    assert!(extracted.contains("\"question\""));

    let plain_json = r#"{"question": "Test?", "options_summary": "Options"}"#;
    let extracted = extract_ask_json(plain_json);
    assert!(extracted.contains("\"question\""));
}

#[test]
fn test_issue_creation() {
    let issue = Issue::error("Test Error", "This is a test error");
    assert_eq!(issue.issue_type, IssueType::Error);
    assert_eq!(issue.title, "Test Error");
    assert_eq!(issue.description, "This is a test error");
    assert!(issue.file_path.is_none());
    assert!(issue.line_number.is_none());
}

#[test]
fn test_issue_with_path() {
    let issue = Issue::error_with_path("Test Error", "Test", "src/test.rs");
    assert_eq!(issue.issue_type, IssueType::Error);
    assert_eq!(issue.file_path, Some("src/test.rs".to_string()));
}

#[test]
fn test_issue_with_location() {
    let issue = Issue::error_with_location("Test Error", "Test", "src/test.rs", 42);
    assert_eq!(issue.issue_type, IssueType::Error);
    assert_eq!(issue.file_path, Some("src/test.rs".to_string()));
    assert_eq!(issue.line_number, Some(42));
}

#[test]
fn review_agent_test_extract_json_from_markdown() {
    let content = r#"Here is the JSON:
```json
{"issues": [], "approved": true}
```
"#;
    let result = extract_json_from_markdown(content);
    assert!(result.is_some());
    let json: serde_json::Value = serde_json::from_str(&result.unwrap()).unwrap();
    assert_eq!(json["approved"], true);
}

#[test]
fn test_extract_json_from_plain_code_block() {
    let content = r#"Here is the JSON:
```
{"issues": [], "approved": true}
```
"#;
    let result = extract_json_from_markdown(content);
    assert!(result.is_some());
}

#[test]
fn test_extract_json_direct() {
    let content = r#"Based on my analysis:
{"issues": [{"issue_type": "warning", "title": "Style", "description": "Minor style issue"}], "approved": true, "summary": "Looks good"}
"#;
    let result = extract_json_from_markdown(content);
    assert!(result.is_some());
    let json: serde_json::Value = serde_json::from_str(&result.unwrap()).unwrap();
    assert_eq!(json["approved"], true);
}

#[test]
fn extract_json_variants() {
    assert_eq!(extract_json_from_markdown("```rust\nfn x() {}\n```").as_deref(), Some("fn x() {}"));
    assert_eq!(extract_code_json("no json here {x}"), None);
    assert_eq!(extract_json_from_markdown("no json here {x}").as_deref(), Some("{x}"));
    assert_eq!(extract_json_from_markdown("} before {"), None);
    assert_eq!(extract_ask_json("  plain text  "), "plain text");
    assert_eq!(extract_ask_json("```\n{\"a\": 1}\n```"), "{\"a\": 1}");
}

#[test]
fn test_config_defaults() {
    let config = ReviewAgentConfig::default();
    assert!(config.verify_commands.is_empty());
    assert_eq!(config.verify_command_timeout_secs, 120);
    assert!(config.use_llm_review);
    assert!(config.use_mcp_tools);
}

#[test]
fn convert_llm_issue_reads_type_in_any_case() {
    let issue = convert_llm_issue(LlmIssue {
        issue_type: "ERROR".to_string(),
        title: "T".to_string(),
        description: "D".to_string(),
        file_path: Some("a.rs".to_string()),
        line_number: Some(3),
    });
    assert_eq!(issue.issue_type, IssueType::Error);
    assert_eq!(issue.file_path.as_deref(), Some("a.rs"));
    let issue = convert_llm_issue(LlmIssue {
        issue_type: "note".to_string(),
        title: "T".to_string(),
        description: "D".to_string(),
        file_path: None,
        line_number: None,
    });
    assert_eq!(issue.issue_type, IssueType::Warning);
}

#[test]
fn check_task_files_reports_missing_and_unlisted() {
    let files = vec!["src/a.rs".to_string(), "src/b.rs".to_string()];
    let issues = check_task_files(&files, "/repo/src/a.rs\n\nREADME.md\n");
    assert_eq!(issues.len(), 2);
    assert_eq!(issues[0].issue_type, IssueType::Error);
    assert_eq!(issues[0].title, "Missing File Modification");
    assert_eq!(
        issues[0].description,
        "Expected file 'src/b.rs' to be modified according to task spec, but it was not found in changed files"
    );
    assert_eq!(issues[1].issue_type, IssueType::Warning);
    assert_eq!(issues[1].file_path.as_deref(), Some("README.md"));
    assert!(check_task_files(&vec![], "anything.rs").is_empty());
}

#[test]
fn parse_failing_tests_names_tests_and_errors() {
    let failures = vec![(
        0usize,
        "cargo test".to_string(),
        CommandResult {
            stdout: "test a::b ... FAILED\ntest ... FAILED\nerror: could not compile\nok line".to_string(),
            stderr: String::new(),
            exit_code: 101,
        },
    )];
    let names = parse_failing_tests(&failures);
    assert_eq!(
        names,
        vec!["test a::b (cargo test)".to_string(), "cargo test: error: could not compile".to_string()]
    );
}

#[test]
fn review_verdict_cases() {
    let issues = vec![
        Issue::error_with_location("Bug", "Broken", "src/a.rs", 7),
        Issue::warning("Style", "Long line"),
        Issue::error("Other", "Bad"),
    ];
    match review_verdict(&issues) {
        ReviewVerdict::Rejected { error_count, message } => {
            assert_eq!(error_count, 2);
            assert_eq!(message, "Review found 2 error(s): [src/a.rs:7] Bug: Broken; [unknown] Other: Bad");
        }
        _ => panic!("expected rejection"),
    }
    match review_verdict(&vec![Issue::warning("Style", "Long line")]) {
        ReviewVerdict::ApprovedWithWarnings { warnings } => assert_eq!(warnings, vec!["Style: Long line".to_string()]),
        _ => panic!("expected warnings"),
    }
    assert!(matches!(review_verdict(&vec![]), ReviewVerdict::Approved));
}

#[test]
fn test_message_creation() {
    let system_msg = Message::system("You are a helpful assistant");
    assert_eq!(system_msg.role, Role::System);
    assert!(system_msg.content.contains("helpful assistant"));

    let user_msg = Message::user("Hello!");
    assert_eq!(user_msg.role, Role::User);
    assert_eq!(user_msg.content, "Hello!");

    let assistant_msg = Message::assistant("How can I help you?");
    assert_eq!(assistant_msg.role, Role::Assistant);
    assert_eq!(assistant_msg.content, "How can I help you?");

    let function_msg = Message::function("search", "{\"results\": []}");
    assert_eq!(function_msg.role, Role::Function);
    assert_eq!(function_msg.name, Some("search".to_string()));
}

#[test]
fn test_agent_brief_validation() {
    let plan_brief = AgentBrief::plan("Create a new feature");
    assert!(plan_brief.validate().is_ok());
    assert_eq!(plan_brief.agent_type(), AgentType::Plan);

    let code_brief = AgentBrief::code("Implement the feature");
    assert!(code_brief.validate().is_ok());
    assert_eq!(code_brief.agent_type(), AgentType::Code);

    let review_brief = AgentBrief::review("Review the changes");
    assert!(review_brief.validate().is_ok());
    assert_eq!(review_brief.agent_type(), AgentType::Review);

    let ask_brief = AgentBrief::ask("What should we do?");
    assert!(ask_brief.validate().is_ok());
    assert_eq!(ask_brief.agent_type(), AgentType::Ask);

    let invalid_brief = AgentBrief::plan("");
    assert!(invalid_brief.validate().is_err());
}

#[test]
fn test_agent_result_helpers() {
    let mut data = serde_json::Map::new();
    data.insert("key".to_string(), serde_json::Value::String("value".to_string()));
    let success = SharedAgentResult::success(serde_json::Value::Object(data));
    assert!(success.is_success());

    let failed = SharedAgentResult::failed("Something went wrong");
    assert!(failed.is_failure());

    let clarification = SharedAgentResult::with_clarification_request("Need more info");
    assert!(clarification.needs_clarification());

    let approved = SharedAgentResult::approved();
    assert!(approved.is_success());
}

#[test]
fn convert_and_dispatch() {
    let r = convert_agent_result(AgentResult::Failure("boom".to_string()));
    assert!(r.is_failure());
    let r = convert_agent_result(AgentResult::UserInputRequired("which?".to_string()));
    assert!(r.needs_clarification());
    assert!(matches!(dispatch_target(&AgentBrief::ask("Now?")), Ok(AgentType::Ask)));
    let e = dispatch_target(&AgentBrief::plan("")).err().unwrap();
    assert!(e.starts_with("Brief validation failed: "));
}

#[test]
fn code_agent_config_and_constraints() {
    let config = CodeAgentConfig::default();
    assert_eq!(config.max_retries, 3);
    assert!(config.test_aware);
    assert!(config.allowed_files.is_empty());
    assert!(config.verify_command.is_none());
    assert_eq!(config.verify_command_timeout_secs, 120);

    let ops = vec![
        FileOperation::Create { path: "a.rs".to_string(), content: "x".to_string() },
        FileOperation::Modify { path: "b.rs".to_string(), original: "o".to_string(), replacement: "r".to_string() },
        FileOperation::Modify { path: "c.rs".to_string(), original: "o".to_string(), replacement: "r".to_string() },
    ];
    let patches: Vec<FilePatch> = patches_of(&ops);
    assert_eq!(patches.len(), 2);
    assert!(verify_patches_constraints(&vec![], &patches).is_ok());
    assert!(verify_patches_constraints(&vec!["b.rs".to_string(), "c.rs".to_string()], &patches).is_ok());
    assert_eq!(
        verify_patches_constraints(&vec!["b.rs".to_string()], &patches).err().unwrap(),
        "Patches for disallowed files: c.rs"
    );
}

#[test]
fn code_agent_reports_and_attempts() {
    let ops = vec![
        FileOperation::Create { path: "a.rs".to_string(), content: "x".to_string() },
        FileOperation::Delete { path: "d.rs".to_string() },
    ];
    let ok = operations_report(&ops, &vec![OperationOutcome::Done, OperationOutcome::Done]).unwrap();
    assert_eq!(ok, vec!["Created: a.rs".to_string(), "Deleted: d.rs".to_string()]);
    let err = operations_report(&ops, &vec![OperationOutcome::Done, OperationOutcome::Failed("gone".to_string())])
        .err()
        .unwrap();
    assert_eq!(err, "Some operations failed: Failed to delete d.rs: gone. Successful: Created: a.rs");
    assert_eq!(test_outcome("test result: ok. 3 passed", 0), (true, false));
    assert_eq!(test_outcome("test result: FAILED", 101), (false, true));
    assert!(verify_command_outcome(0, "").is_ok());
    assert_eq!(verify_command_outcome(-1, "boom").err().unwrap(), "Verify command failed with exit code -1: boom");
    assert!(should_retry(3, 3));
    assert!(!should_retry(4, 3));
    assert_eq!(attempts_failed(3, "x"), "All 4 attempts failed. Last error: x");
}
