use telisq::agents::plan::{
    build_system_prompt, clarification_messages, clarification_reply, plan_file_path, plan_request, task_description,
    ClarificationReply, ClarificationRounds, CodebaseContext, RoundNext, RoundReport,
};
use telisq::llm::Role;

#[test]
fn test_system_prompt_without_codebase_context() {
    let prompt = build_system_prompt(None);
    assert!(prompt.contains("Plan Agent"));
    assert!(prompt.contains("Plan Format Requirements"));
    assert!(!prompt.contains("Existing Codebase Context"));
}

#[test]
fn test_system_prompt_with_codebase_context() {
    let ctx = CodebaseContext {
        relevant_files: vec!["src/main.rs".to_string()],
        patterns_summary: "Rust async patterns".to_string(),
        raw_results: "Search results...".to_string(),
    };
    let prompt = build_system_prompt(Some(&ctx));
    assert!(prompt.contains("Existing Codebase Context"));
    assert!(prompt.contains("src/main.rs"));
    assert!(prompt.contains("Rust async patterns"));
}

#[test]
fn clarification_reply_reads_question_and_confidence() {
    match clarification_reply("What authentication method should be used?\n\nConfidence: 0.65") {
        ClarificationReply::Question { question, confidence_text } => {
            assert_eq!(question, "What authentication method should be used?");
            assert_eq!(confidence_text.as_deref(), Some("0.65"));
        }
        other => panic!("expected a question, got {:?}", other),
    }
    match clarification_reply("What is the expected behavior?") {
        ClarificationReply::Question { question, confidence_text } => {
            assert_eq!(question, "What is the expected behavior?");
            assert!(confidence_text.is_none());
        }
        other => panic!("expected a question, got {:?}", other),
    }
    assert!(matches!(
        clarification_reply("CLARIFICATION_COMPLETE\n\nKey requirements understood:\n- OAuth2"),
        ClarificationReply::Complete
    ));
}

#[test]
fn clarification_rounds_keep_questions_and_stop_at_the_limit() {
    let mut rounds = ClarificationRounds::new("task-1", 2);
    match rounds.begin() {
        RoundNext::Ask(m) => {
            assert_eq!(m.len(), 2);
            assert!(matches!(m[0].role, Role::System));
            assert_eq!(
                m[1].content,
                "Here is the task/goal I need to plan: task-1\n\nPlease start by asking your first clarifying question."
            );
        }
        other => panic!("expected a round, got {:?}", other),
    }
    let (p, next) = rounds.report(RoundReport::Replied { content: "Which DB?\nconfidence: 0.3".to_string(), confident: false });
    assert_eq!(p, vec!["Clarification round 1/2: Which DB?".to_string()]);
    match next {
        RoundNext::Ask(m) => {
            assert_eq!(m.len(), 3);
            assert_eq!(m[2].content, "Which DB?");
        }
        other => panic!("expected a round, got {:?}", other),
    }
    let (p, next) = rounds.report(RoundReport::Failed("timeout".to_string()));
    assert_eq!(p, vec!["Clarification round 2 failed: timeout".to_string()]);
    assert!(matches!(next, RoundNext::Done { rounds: 2 }));
}

#[test]
fn clarification_rounds_end_when_clear() {
    let mut rounds = ClarificationRounds::new("t", 3);
    rounds.begin();
    let (p, next) = rounds.report(RoundReport::Replied { content: "CLARIFICATION_COMPLETE".to_string(), confident: false });
    assert_eq!(p, vec!["Clarification round 1/3: Requirements understood".to_string()]);
    assert!(matches!(next, RoundNext::Done { rounds: 1 }));
    let mut none = ClarificationRounds::new("t", 0);
    assert!(matches!(none.begin(), RoundNext::Done { rounds: 0 }));
}

#[test]
fn plan_texts() {
    assert_eq!(plan_file_path("plans", "abc"), "plans/plan-abc.md");
    assert_eq!(task_description(None), "Implement the user's requested feature");
    assert_eq!(
        plan_request("Add login", ""),
        "Generate an implementation plan for the following task:\n\nAdd login\n\nPlease generate the plan in the required format."
    );
    assert!(plan_request("Add login", "docs").contains("## Additional Context from MCP Tools\ndocs\n\n"));
    let msgs = clarification_messages("t", &vec![("Q1".to_string(), Some("A1".to_string()))]);
    assert_eq!(msgs.len(), 4);
    assert_eq!(msgs[3].content, "A1");
}

/// The confidence that a reply gives, read as a number: one when the
/// requirements are clear, 0.7 when a question gives none.
fn reply_confidence(reply: &ClarificationReply) -> (bool, f64) {
    match reply {
        ClarificationReply::Complete => (false, 1.0),
        ClarificationReply::Question { confidence_text, .. } => {
            let c = confidence_text.as_deref().and_then(|t| t.parse::<f64>().ok()).unwrap_or(0.7);
            (true, c)
        }
    }
}

#[test]
fn test_clarification_result_parsing_complete() {
    let response = "CLARIFICATION_COMPLETE\n\nKey requirements understood:\n- User authentication needed\n- OAuth2 flow required";
    let (needs_more, confidence) = reply_confidence(&clarification_reply(response));
    assert!(!needs_more);
    assert_eq!(confidence, 1.0);
}

#[test]
fn test_clarification_result_parsing_with_confidence() {
    let response = "What authentication method should be used?\n\nConfidence: 0.65";
    let (needs_more, confidence) = reply_confidence(&clarification_reply(response));
    assert!(needs_more);
    assert!((confidence - 0.65).abs() < 0.01);
}

#[test]
fn test_clarification_result_parsing_default_confidence() {
    let response = "What is the expected behavior?";
    let (needs_more, confidence) = reply_confidence(&clarification_reply(response));
    assert!(needs_more);
    assert!((confidence - 0.7).abs() < 0.01);
}
