use telisq::config::{interpolate_string, AgentConfig, IndexConfig as SharedIndexConfig, McpConfig, McpServerConfig};
use telisq::crawler::{Crawler, CrawlerError};
use telisq::errors::ConfigError;
use telisq::index::{IndexConfig, ProcessingResult};
use telisq::llm::{
    event_chunks, parse_sse_events, poll_step, sse_payloads, DecodedPayload, PollStep, SsePayload, StreamChoice,
    StreamChunk, StreamDelta, StreamEvent, StreamFunctionCall, StreamPhase, StreamToolCall,
};
use telisq::mcp::validate_agent_file_access;
use telisq::orchestrator::{
    deadlock_choice, failure_choice, retries_exhausted, retry_note, review_choice, string_lt, DeadlockChoice,
    DummyAgent, FailureChoice, OrchestratorConfig, ReviewChoice, TaskBoard,
};
use telisq::patcher::{FileEntry, FilePatch, FileState, PatchResult, Patcher};
use telisq::session::{
    deserialize_event, orchestrator_event_type, reset_interrupted_markers, serialize_event, session_state_to_str,
    str_to_session_state, OrchestratorEvent,
};
use telisq::tui::{ActivePanel, AppMode, AppState, ChatRole, Key, KeyOutcome};
use telisq::types::{SessionState, TaskSpec, TaskStatus};

#[test]
fn test_validate_agent_file_access() {
    assert!(validate_agent_file_access("code", "src/main.rs"));
    assert!(validate_agent_file_access("code", "Cargo.toml"));
    assert!(!validate_agent_file_access("code", "secret.txt"));

    assert!(validate_agent_file_access("plan", "plans/00-master-plan.md"));
    assert!(!validate_agent_file_access("plan", "src/main.rs"));

    assert!(validate_agent_file_access("review", "src/main.rs"));
    assert!(validate_agent_file_access("review", "README.md"));
    assert!(!validate_agent_file_access("review", "secret.txt"));

    assert!(validate_agent_file_access("ask", "README.md"));
    assert!(!validate_agent_file_access("ask", "src/main.rs"));

    assert!(validate_agent_file_access("orchestrator", "src/main.rs"));
    assert!(validate_agent_file_access("orchestrator", "secret.txt"));
}

#[test]
fn file_access_unknown_agent_and_nested_plans() {
    assert!(!validate_agent_file_access("stranger", "README.md"));
    assert!(validate_agent_file_access("plan", "docs/plans/a.md"));
    assert!(!validate_agent_file_access("plan", "docs/plans/a.txt"));
}

fn one_file(path: &str, text: &str) -> Vec<FileEntry> {
    vec![FileEntry { path: path.to_string(), state: FileState::Text(text.to_string()) }]
}

#[test]
fn test_patcher_applies_simple_patch() {
    let mut files = one_file("/tmp/greeting.txt", "Hello, world!\n");
    let patch = FilePatch {
        file_path: "/tmp/greeting.txt".to_string(),
        original: "Hello, world!".to_string(),
        replacement: "Hello, Rust!".to_string(),
    };
    let results = Patcher::apply_patches(&vec![patch], &mut files);
    assert!(matches!(results[0].1, PatchResult::Success));
    match &files[0].state {
        FileState::Text(t) => assert_eq!(t.trim(), "Hello, Rust!"),
        _ => panic!("expected text"),
    }
}

#[test]
fn test_patcher_verify_content_mismatch() {
    let files = one_file("/tmp/greeting.txt", "Hello, world!\n");
    let patch = FilePatch {
        file_path: "/tmp/greeting.txt".to_string(),
        original: "Incorrect content".to_string(),
        replacement: "Hello, Rust!".to_string(),
    };
    let results = Patcher::verify_patches(&vec![patch], &files);
    assert!(matches!(results[0].1, PatchResult::ContentMismatch));
}

#[test]
fn test_patcher_verify_file_not_found() {
    let files = vec![FileEntry { path: "nonexistent_file.txt".to_string(), state: FileState::Missing }];
    let patch = FilePatch {
        file_path: "nonexistent_file.txt".to_string(),
        original: "Hello".to_string(),
        replacement: "Hi".to_string(),
    };
    let results = Patcher::verify_patches(&vec![patch], &files);
    assert!(matches!(results[0].1, PatchResult::FileNotFound));
}

#[test]
fn patches_apply_in_order_and_replace_every_occurrence() {
    let mut files = one_file("a", "x-x-x");
    let ps = vec![
        FilePatch { file_path: "a".to_string(), original: "x".to_string(), replacement: "yy".to_string() },
        FilePatch { file_path: "a".to_string(), original: "yy-".to_string(), replacement: "".to_string() },
        FilePatch { file_path: "b".to_string(), original: "q".to_string(), replacement: "r".to_string() },
    ];
    let results = Patcher::apply_patches(&ps, &mut files);
    assert!(matches!(results[0].1, PatchResult::Success));
    assert!(matches!(results[1].1, PatchResult::Success));
    assert!(matches!(results[2].1, PatchResult::FileNotFound));
    assert!(matches!(&files[0].state, FileState::Text(t) if t == "yy"));
    let unreadable = vec![FileEntry { path: "u".to_string(), state: FileState::Unreadable("denied".to_string()) }];
    let r = Patcher::verify_patches(
        &vec![FilePatch { file_path: "u".to_string(), original: "a".to_string(), replacement: "b".to_string() }],
        &unreadable,
    );
    assert!(matches!(&r[0].1, PatchResult::Failure(m) if m == "Failed to read file: denied"));
    assert_eq!(telisq::patcher::replace_all_exec("abc", "", "-"), "-a-b-c-");
}

fn task(id: &str, deps: &[&str], status: TaskStatus) -> TaskSpec {
    let mut t = TaskSpec::new(id, &format!("Task {}", id));
    for d in deps {
        t.add_dependency(d);
    }
    t.set_status(status);
    t
}

#[test]
fn orchestrator_config_defaults() {
    let c = OrchestratorConfig::default();
    assert!(!c.use_strong_model);
    assert_eq!(c.max_clarification_rounds, 3);
    assert_eq!(c.max_retries, 3);
    assert!(c.test_aware);
    assert_eq!(DummyAgent::new("completed").id, "completed");
}

#[test]
fn board_ready_tasks_respect_dependencies_and_continue_from() {
    let mut b = TaskBoard::new();
    b.add_task(task("1", &[], TaskStatus::Completed));
    b.add_task(task("2", &["1"], TaskStatus::Pending));
    b.add_task(task("3", &["2"], TaskStatus::Pending));
    b.add_task(task("4", &["9"], TaskStatus::Pending));
    assert_eq!(b.find_ready_tasks(None), vec!["2".to_string()]);
    assert!(b.find_ready_tasks(Some("3")).is_empty());
    assert!(!b.all_tasks_done());
    assert!(b.has_incomplete());
    assert!(!b.is_running());
    assert!(string_lt("10", "2"));
    assert!(!string_lt("2", "2"));
}

#[test]
fn board_skips_blocked_tasks_transitively() {
    let mut b = TaskBoard::new();
    b.add_task(task("1", &[], TaskStatus::Failed));
    b.add_task(task("2", &["1"], TaskStatus::Pending));
    b.add_task(task("3", &["2"], TaskStatus::Pending));
    b.add_task(task("4", &[], TaskStatus::Pending));
    b.skip_blocked_tasks();
    let st: Vec<TaskStatus> = b.tasks().iter().map(|t| t.status).collect();
    assert_eq!(st, vec![TaskStatus::Failed, TaskStatus::Skipped, TaskStatus::Skipped, TaskStatus::Pending]);
}

#[test]
fn board_marks_dependents_and_restores_markers() {
    let mut b = TaskBoard::new();
    b.add_task(task("1", &[], TaskStatus::Skipped));
    b.add_task(task("2", &["1"], TaskStatus::Pending));
    b.add_task(task("3", &["2"], TaskStatus::Pending));
    let marked = b.mark_dependents_skippable(&"1".to_string());
    assert_eq!(marked, vec!["2".to_string()]);
    assert_eq!(b.tasks()[2].status, TaskStatus::Pending);

    let markers = vec![("3".to_string(), "done".to_string()), ("2".to_string(), "in_progress".to_string())];
    b.restore_markers(&markers);
    assert_eq!(b.tasks()[1].status, TaskStatus::Pending);
    assert_eq!(b.tasks()[2].status, TaskStatus::Completed);
    assert_eq!(b.first_pending(), Some("2".to_string()));

    b.update_task_status(&"2".to_string(), TaskStatus::InProgress);
    assert!(b.is_running());
    b.reset_in_progress();
    assert!(!b.is_running());
}

#[test]
fn board_changed_files_and_contracts() {
    let mut b = TaskBoard::new();
    let mut t1 = task("1", &[], TaskStatus::Completed);
    t1.add_file("a.rs");
    t1.add_file("b.rs");
    t1.add_contract("c1");
    let mut t2 = task("2", &[], TaskStatus::Completed);
    t2.add_file("b.rs");
    t2.add_file("c.rs");
    let mut t3 = task("3", &[], TaskStatus::Pending);
    t3.add_file("z.rs");
    b.add_task(t1);
    b.add_task(t2);
    b.add_task(t3);
    assert_eq!(b.changed_files(), vec!["a.rs".to_string(), "b.rs".to_string(), "c.rs".to_string()]);
    assert_eq!(b.all_contracts(), vec!["c1".to_string()]);
}

#[test]
fn orchestrator_decisions() {
    assert_eq!(failure_choice(Some("stop")), FailureChoice::Stop);
    assert_eq!(failure_choice(Some("retry")), FailureChoice::Retry);
    assert_eq!(failure_choice(None), FailureChoice::Skip);
    assert_eq!(review_choice(Some("fix")), ReviewChoice::Fix);
    assert_eq!(review_choice(Some("accept")), ReviewChoice::Accept);
    assert_eq!(review_choice(Some("maybe")), ReviewChoice::NoDecision);
    assert_eq!(deadlock_choice(Some("continue")), DeadlockChoice::Continue);
    assert_eq!(deadlock_choice(Some("skip")), DeadlockChoice::SkipBlocked);
    assert_eq!(deadlock_choice(Some("stop")), DeadlockChoice::Stop);
    assert_eq!(retry_note("boom"), "Previous attempt failed with: boom");
    assert_eq!(retries_exhausted(3, Some("boom")), "Code Agent failed after 3 attempts: boom");
    assert_eq!(retries_exhausted(0, None), "Code Agent failed after 0 attempts: ");
}

#[test]
fn test_save_and_load_events() {
    let events = vec![
        OrchestratorEvent::StepStarted("1".to_string()),
        OrchestratorEvent::StepCompleted("1".to_string()),
        OrchestratorEvent::StepFailed("2".to_string(), "boom".to_string()),
        OrchestratorEvent::AgentMessage("hello".to_string()),
        OrchestratorEvent::PlanCompleted,
        OrchestratorEvent::PlanMarkerUpdated("3".to_string(), TaskStatus::Skipped),
        OrchestratorEvent::SessionStopped(0x550e8400_e29b_41d4_a716_446655440000),
        OrchestratorEvent::TaskRetry("4".to_string(), 2, "again".to_string()),
    ];
    for e in &events {
        let rec = serialize_event(e);
        let back = deserialize_event(orchestrator_event_type(e), &rec);
        assert_eq!(format!("{:?}", back), format!("{:?}", e));
    }
    let rec = serialize_event(&OrchestratorEvent::SessionStopped(0x550e8400_e29b_41d4_a716_446655440000));
    assert_eq!(rec.session_id.as_deref(), Some("550e8400-e29b-41d4-a716-446655440000"));
    let unknown = deserialize_event("mystery", &rec);
    assert!(matches!(unknown, OrchestratorEvent::AgentMessage(m) if m == "Unknown event: mystery"));
}

#[test]
fn session_states_and_markers() {
    for s in [SessionState::Running, SessionState::Paused, SessionState::Completed, SessionState::Canceled] {
        let w = session_state_to_str(&s);
        assert_eq!(format!("{:?}", str_to_session_state(w)), format!("{:?}", s));
    }
    assert!(matches!(str_to_session_state("weird"), SessionState::Running));
    let markers = vec![("1".to_string(), "in_progress".to_string()), ("2".to_string(), "done".to_string())];
    let (out, n) = reset_interrupted_markers(&markers);
    assert_eq!(n, 1);
    assert_eq!(out[0].1, "pending");
    assert_eq!(out[1].1, "done");
}

#[test]
fn config_defaults_and_merge() {
    let s = McpServerConfig::default();
    assert_eq!(s.name, "default");
    assert!(s.command.is_empty());
    let mut m = McpConfig::default();
    assert_eq!(m.timeout, 30);
    m.merge(McpConfig { servers: vec![], timeout: 0 });
    assert_eq!(m.timeout, 30);
    let a = AgentConfig::default();
    assert_eq!(a.agents, vec!["default".to_string()]);
    let mut i = SharedIndexConfig::default();
    assert_eq!(i.path, "~/.telisq/index");
    i.merge(SharedIndexConfig { path: String::new(), auto_index: false, update_interval: 60 });
    assert_eq!(i.path, "~/.telisq/index");
    assert!(i.auto_index);
    assert_eq!(i.update_interval, 60);
}

#[test]
fn interpolation_of_environment_variables() {
    let env = vec![("HOME".to_string(), "/home/u".to_string()), ("KEY".to_string(), "k1".to_string())];
    assert_eq!(interpolate_string("${HOME}/x-${KEY}", &env).unwrap(), "/home/u/x-k1");
    assert_eq!(interpolate_string("plain $ text", &env).unwrap(), "plain $ text");
    match interpolate_string("${MISSING}", &env) {
        Err(ConfigError::MissingField(m)) => assert_eq!(m, "Environment variable 'MISSING' not found"),
        _ => panic!("expected a missing field"),
    }
}

#[test]
fn index_defaults_and_results() {
    let c = IndexConfig::default();
    assert_eq!(c.collection_name, "telisq_codebase");
    assert_eq!(c.chunk_size, 500);
    assert_eq!(c.chunk_overlap, 50);
    assert_eq!(c.indexed_extensions.len(), 9);
    let r = ProcessingResult::no_changes();
    assert!(!r.has_changes());
    assert!(ProcessingResult { updated: 0, deleted: 2, errors: vec![] }.has_changes());
}

#[test]
fn crawler_chunks_and_filters() {
    let c = Crawler::new(vec![".git".to_string()], vec![".rs".to_string()], 4, 1);
    assert!(!c.should_include_dir(&".git".to_string()));
    assert!(c.should_include_dir(&"src".to_string()));
    assert!(c.is_indexed_file("main.rs"));
    assert!(!c.is_indexed_file(".rs"));
    assert!(!c.is_indexed_file("README"));
    let chunks = c.chunk_content("ab\ncdef\ng", "src/x.rs");
    let texts: Vec<&str> = chunks.iter().map(|k| k.content.as_str()).collect();
    assert_eq!(texts, vec!["ab\nc", "cdef", "f\ng"]);
    assert_eq!((chunks[0].start_line, chunks[0].end_line), (1, 2));
    assert_eq!((chunks[2].start_line, chunks[2].end_line), (2, 3));
    assert_eq!(chunks[2].chunk_index, 2);
    assert!(c.chunk_content("", "e.rs").is_empty());
    let e = CrawlerError::read_error("x.rs", "denied");
    assert_eq!(e.message(), "Failed to read file x.rs: denied");
}

#[test]
fn sse_payloads_and_chunks() {
    let body = "data: {\"a\":1}\n: comment\n  data: [DONE]  \ndata: after";
    let ps = sse_payloads(body);
    assert_eq!(ps.len(), 2);
    assert!(matches!(&ps[0], SsePayload::Data(d) if d == "{\"a\":1}"));
    assert!(matches!(ps[1], SsePayload::Done));

    let event = StreamEvent {
        id: None,
        choices: Some(vec![StreamChoice {
            delta: StreamDelta {
                content: Some("Hi".to_string()),
                tool_calls: Some(vec![StreamToolCall {
                    index: Some(0),
                    id: Some("c1".to_string()),
                    type_: Some("function".to_string()),
                    function: Some(StreamFunctionCall { name: Some("f".to_string()), arguments: Some("{}".to_string()) }),
                }]),
            },
            finish_reason: Some("stop".to_string()),
        }]),
        is_done: None,
    };
    let cs = event_chunks(&event);
    assert_eq!(cs.len(), 3);
    assert!(matches!(&cs[0], StreamChunk::Content(t) if t == "Hi"));
    assert!(matches!(&cs[1], StreamChunk::ToolCall(tc) if tc.function.name == "f"));
    assert!(matches!(cs[2], StreamChunk::Done));
    let all = parse_sse_events(&vec![DecodedPayload::Event(event), DecodedPayload::Invalid, DecodedPayload::Done]);
    assert_eq!(all.len(), 4);
}

#[test]
fn stream_polling_steps() {
    let mut phase = StreamPhase::Initial;
    let mut buffer = String::new();
    assert!(matches!(poll_step(&mut phase, &mut buffer, None), PollStep::Pending));
    assert!(matches!(phase, StreamPhase::Requesting));
    assert!(matches!(poll_step(&mut phase, &mut buffer, None), PollStep::Again));
    assert!(matches!(phase, StreamPhase::Streaming));
    let mut phase = StreamPhase::Streaming;
    let mut buffer = "data: {\"x\":1}\nrest".to_string();
    assert!(matches!(poll_step(&mut phase, &mut buffer, None), PollStep::Data(d) if d == "{\"x\":1}"));
    assert_eq!(buffer, "rest");
    assert!(matches!(poll_step(&mut phase, &mut buffer, None), PollStep::Pending));
}

#[test]
fn tui_events_update_state() {
    let mut s = AppState::new();
    let tasks = vec![task("1", &[], TaskStatus::Pending), task("2", &[], TaskStatus::Pending)];
    s.update_tasks(&tasks);
    assert_eq!(s.session_progress, 0);
    s.handle_orchestrator_event(&OrchestratorEvent::StepStarted("1".to_string()), 5);
    assert_eq!(s.current_step.as_deref(), Some("1"));
    assert_eq!(s.session_status, "Running");
    assert_eq!(s.tasks[0].status, TaskStatus::InProgress);
    assert_eq!(s.agent_log[0].message, "[~] Task 1 started");
    s.handle_orchestrator_event(&OrchestratorEvent::StepCompleted("1".to_string()), 6);
    assert_eq!(s.session_progress, 50);
    assert_eq!(s.task_counts[2], 1);
    assert_eq!(s.agent_messages.last().unwrap(), "Completed step: 1");
    s.handle_orchestrator_event(&OrchestratorEvent::PlanMarkerUpdated("2".to_string(), TaskStatus::Skipped), 7);
    assert_eq!(s.agent_messages.last().unwrap(), "Task 2 marker updated to [-]");
    for k in 0..60u64 {
        s.handle_orchestrator_event(&OrchestratorEvent::AgentMessage(format!("m{}", k)), 10 + k);
    }
    assert_eq!(s.agent_log.len(), 50);
    assert_eq!(s.agent_log[49].message, "m59");
    s.handle_orchestrator_event(&OrchestratorEvent::PlanCompleted, 100);
    assert_eq!(s.session_progress, 100);
    assert_eq!(s.session_status, "Completed");
}

#[test]
fn tui_keys_and_commands() {
    let mut s = AppState::new();
    assert!(matches!(s.handle_normal_mode_key(Key::Tab, false), KeyOutcome::Continue));
    assert_eq!(s.active_panel, ActivePanel::Session);
    assert!(matches!(s.handle_normal_mode_key(Key::Char('q'), true), KeyOutcome::Continue));
    assert!(s.quit_confirm);
    assert!(matches!(s.handle_normal_mode_key(Key::Char('q'), true), KeyOutcome::Quit));
    s.handle_normal_mode_key(Key::Char(':'), false);
    assert_eq!(s.mode, AppMode::CommandInput);
    for c in "help".chars() {
        s.handle_command_input_mode_key(Key::Char(c), 1);
    }
    match s.handle_command_input_mode_key(Key::Enter, 2) {
        KeyOutcome::Command(c) => {
            assert_eq!(c, "help");
            s.process_command(&c, 3);
        }
        _ => panic!("expected a command"),
    }
    assert_eq!(s.mode, AppMode::Normal);
    assert_eq!(s.command_history, vec!["help".to_string()]);
    assert_eq!(s.chat_messages.len(), 2);
    assert_eq!(s.chat_messages[1].role, ChatRole::Agent);
    assert!(s.chat_messages[1].content.starts_with("Available commands:"));
    s.process_command("plan build a CLI ", 4);
    assert_eq!(s.chat_messages.last().unwrap().content, "Creating plan for: build a CLI\n(Plan Agent will analyze your codebase and generate a plan)");
    s.process_command("  Plan   x ", 4);
    assert_eq!(s.chat_messages.last().unwrap().content, "Creating plan for: Plan   x\n(Plan Agent will analyze your codebase and generate a plan)");
    s.process_command("clear", 5);
    assert_eq!(s.chat_messages.len(), 1);
    s.switch_to_ask_mode("Why?".to_string(), vec!["a".to_string()]);
    s.handle_ask_agent_mode_key(Key::Char('o'));
    s.handle_ask_agent_mode_key(Key::Char('k'));
    s.handle_ask_agent_mode_key(Key::Backspace);
    assert_eq!(s.switch_to_normal_mode(), Some("o".to_string()));
    assert_eq!(s.switch_to_normal_mode(), None);
}

#[test]
fn chunk_ending_with_line_feed_ends_on_its_line() {
    let text = "a\nb\n";
    let chars: Vec<char> = text.chars().collect();
    assert_eq!(Crawler::calculate_line_range(&chars, 0, 2, 2), (1, 1));
    assert_eq!(Crawler::calculate_line_range(&chars, 2, 4, 2), (2, 2));
    let c = Crawler::new(vec![], vec![], 2, 0);
    let chunks = c.chunk_content(text, "t.md");
    assert_eq!(chunks.len(), 2);
    assert_eq!((chunks[0].start_line, chunks[0].end_line), (1, 1));
    assert_eq!((chunks[1].start_line, chunks[1].end_line), (2, 2));
}

#[test]
fn stream_reads_the_answer_lines() {
    let mut phase = StreamPhase::Initial;
    let mut buffer = String::new();
    assert!(matches!(poll_step(&mut phase, &mut buffer, None), PollStep::Pending));
    assert!(matches!(poll_step(&mut phase, &mut buffer, None), PollStep::Again));
    buffer.push_str("data: {\"choices\":[{\"delta\":{\"content\":\"Hi\"}}]}\n\ndata: [DONE]\n\n");
    assert!(
        matches!(poll_step(&mut phase, &mut buffer, None), PollStep::Data(d) if d == "{\"choices\":[{\"delta\":{\"content\":\"Hi\"}}]}")
    );
    assert!(matches!(poll_step(&mut phase, &mut buffer, None), PollStep::Again));
    assert!(matches!(poll_step(&mut phase, &mut buffer, None), PollStep::Ready(Ok(StreamChunk::Done))));
    assert!(matches!(poll_step(&mut phase, &mut buffer, None), PollStep::End));
}

#[test]
fn session_ids_parse_and_fresh_ones_read_back() {
    assert_eq!(
        telisq::session::parse_session_id("67e55044-10b1-426f-9247-bb680e5fe0c8"),
        Some(0x67e5_5044_10b1_426f_9247_bb68_0e5f_e0c8)
    );
    assert_eq!(telisq::session::parse_session_id("not-a-session"), None);
    let fresh = telisq::session::new_session_id();
    assert!(telisq::session::parse_session_id(&fresh).is_some());
    assert_ne!(fresh, telisq::session::new_session_id());
}
