use telisq::errors::ParseError;
use telisq::plan::graph::TaskGraph;
use telisq::plan::parser::parse_plan_content;
use telisq::plan::tracker::MarkerTracker;
use telisq::plan::validator::{validate_all_tasks, validate_plan, validate_task_contracts, validate_task_files};
use telisq::types::{TaskSpec, TaskStatus};

#[test]
fn test_parse_basic_plan() {
    let content = r#"
- [ ] Implement login functionality (1)
  Files: src/login.rs, tests/login_tests.rs
  Contract: User must be able to login with valid credentials
  Depends on: 2

- [x] Set up database (2)
  Files: src/db.rs, migrations/001_create_users_table.sql
"#;

    let tasks = parse_plan_content(content).expect("Failed to parse plan");

    assert_eq!(tasks.len(), 2);

    let task1 = &tasks[0];
    assert_eq!(task1.id, "1");
    assert_eq!(task1.title, "Implement login functionality");
    assert_eq!(task1.status, TaskStatus::Pending);
    assert_eq!(
        task1.files,
        vec!["src/login.rs".to_string(), "tests/login_tests.rs".to_string()]
    );
    assert_eq!(
        task1.contracts,
        vec!["User must be able to login with valid credentials"]
    );
    assert_eq!(task1.dependencies, vec!["2"]);

    let task2 = &tasks[1];
    assert_eq!(task2.id, "2");
    assert_eq!(task2.title, "Set up database");
    assert_eq!(task2.status, TaskStatus::Completed);
    assert_eq!(
        task2.files,
        vec![
            "src/db.rs".to_string(),
            "migrations/001_create_users_table.sql".to_string()
        ]
    );
    assert!(task2.contracts.is_empty());
    assert!(task2.dependencies.is_empty());
}

#[test]
fn test_parse_empty_plan() {
    let content = "";
    let tasks = parse_plan_content(content).expect("Failed to parse plan");
    assert!(tasks.is_empty());
}

#[test]
fn test_parse_plan_with_comments() {
    let content = r#"
# This is a comment
- [ ] Task 1 (1)
  # Another comment
  Files: file1.txt

- [x] Task 2 (2)
"#;

    let tasks = parse_plan_content(content).expect("Failed to parse plan");
    assert_eq!(tasks.len(), 2);
    assert_eq!(tasks[0].title, "Task 1");
    assert_eq!(tasks[1].title, "Task 2");
}

#[test]
fn parse_reports_missing_identifier_with_line_number() {
    let content = "\n- [ ] No id here\n";
    match parse_plan_content(content) {
        Err(ParseError::SyntaxError { line, message }) => {
            assert_eq!(line, 2);
            assert_eq!(message, "Task missing identifier");
        }
        other => panic!("unexpected: {:?}", other),
    }
}

#[test]
fn parse_reports_invalid_detail_line() {
    let content = "- [ ] Task (1)\n  Owner: me\n";
    match parse_plan_content(content) {
        Err(ParseError::SyntaxError { line, message }) => {
            assert_eq!(line, 2);
            assert_eq!(message, "Invalid line:   Owner: me");
        }
        other => panic!("unexpected: {:?}", other),
    }
}

#[test]
fn parse_reports_invalid_top_level_line() {
    match parse_plan_content("hello\n") {
        Err(ParseError::SyntaxError { line, message }) => {
            assert_eq!(line, 1);
            assert_eq!(message, "Invalid line format: hello");
        }
        other => panic!("unexpected: {:?}", other),
    }
}

#[test]
fn parse_reports_duplicate_identifier() {
    let content = "- [ ] A (1)\n- [ ] B (1)\n";
    match parse_plan_content(content) {
        Err(ParseError::DuplicateId { line, id }) => {
            assert_eq!(line, 2);
            assert_eq!(id, "1");
        }
        other => panic!("unexpected: {:?}", other),
    }
}

#[test]
fn parse_reports_gap_in_identifiers() {
    let content = "- [ ] A (1)\n- [ ] B (3)\n";
    match parse_plan_content(content) {
        Err(ParseError::SyntaxError { line, message }) => {
            assert_eq!(line, 0);
            assert_eq!(
                message,
                "Tasks must have sequential numeric IDs. Expected 2 but found 3"
            );
        }
        other => panic!("unexpected: {:?}", other),
    }
}

#[test]
fn parse_reports_non_numeric_identifier() {
    let content = "- [ ] A (abc)\n";
    match parse_plan_content(content) {
        Err(ParseError::SyntaxError { line, message }) => {
            assert_eq!(line, 0);
            assert_eq!(message, "Task ID must be numeric: abc");
        }
        other => panic!("unexpected: {:?}", other),
    }
}

#[test]
fn parse_reads_every_marker_and_optional_colons() {
    let content = "- [!] A (1)\n- [~] B (2)\nContract no colon\n- [-] C (3)\nDepends on 1, 2\r\n";
    let tasks = parse_plan_content(content).unwrap();
    assert_eq!(tasks[0].status, TaskStatus::Failed);
    assert_eq!(tasks[1].status, TaskStatus::InProgress);
    assert_eq!(tasks[1].contracts, vec!["no colon"]);
    assert_eq!(tasks[2].status, TaskStatus::Skipped);
    assert_eq!(tasks[2].dependencies, vec!["1", "2"]);
}

#[test]
fn test_simple_dependency_graph() {
    let mut task1 = TaskSpec::new("1", "Task 1");
    task1.set_status(TaskStatus::Completed);

    let mut task2 = TaskSpec::new("2", "Task 2");
    task2.set_status(TaskStatus::Pending);
    task2.add_dependency("1");

    let tasks = vec![task1, task2];

    let graph = TaskGraph::new(tasks).unwrap();
    graph.validate().unwrap();

    let runnable = graph.get_runnable_tasks();
    assert_eq!(runnable.len(), 1);
    assert_eq!(runnable[0].id, "2");
}

#[test]
fn test_cyclic_dependency() {
    let mut task1 = TaskSpec::new("1", "Task 1");
    task1.add_dependency("2");

    let mut task2 = TaskSpec::new("2", "Task 2");
    task2.add_dependency("1");

    let tasks = vec![task1, task2];

    let graph = TaskGraph::new(tasks).unwrap();
    assert!(graph.validate().is_err());
}

#[test]
fn self_dependency_is_a_cycle() {
    let mut task1 = TaskSpec::new("1", "Task 1");
    task1.add_dependency("1");
    let graph = TaskGraph::new(vec![task1]).unwrap();
    assert!(graph.validate().is_err());
}

#[test]
fn test_unknown_dependency() {
    let mut task1 = TaskSpec::new("1", "Task 1");
    task1.add_dependency("unknown");

    let tasks = vec![task1];

    let result = TaskGraph::new(tasks);
    match result {
        Err(ParseError::SyntaxError { message, .. }) => {
            assert_eq!(message, "Task 1 depends on unknown task unknown")
        }
        _ => panic!("expected an error"),
    }
}

#[test]
fn graph_get_task_finds_last_of_shared_id() {
    let t1 = TaskSpec::new("a", "first");
    let t2 = TaskSpec::new("a", "second");
    let graph = TaskGraph::new(vec![t1, t2]).unwrap();
    assert_eq!(graph.get_task("a").unwrap().title, "second");
    assert!(graph.get_task("b").is_none());
    assert_eq!(graph.tasks().len(), 2);
}

#[test]
fn test_update_marker() {
    let content = r#"
- [ ] Task 1 (1)
  Files: file1.txt
- [x] Task 2 (2)
  Files: file2.txt
"#;

    let updated_content =
        MarkerTracker::update_marker_in_content(content, "1", TaskStatus::InProgress).unwrap();
    assert!(updated_content.contains("- [~] Task 1 (1)"));
    assert!(updated_content.contains("- [x] Task 2 (2)"));
}

#[test]
fn update_marker_to_same_status_keeps_content() {
    let content = "- [x] Task 2 (2)\n";
    let updated = MarkerTracker::update_marker_in_content(content, "2", TaskStatus::Completed).unwrap();
    assert_eq!(updated, content);
    let again = MarkerTracker::update_marker_in_content(&updated, "2", TaskStatus::Completed).unwrap();
    assert_eq!(again, updated);
    match MarkerTracker::update_marker_in_content(content, "3", TaskStatus::Completed) {
        Err(ParseError::SyntaxError { message, .. }) => assert_eq!(message, "Task not found: 3"),
        other => panic!("unexpected: {:?}", other),
    }
}

#[test]
fn test_read_marker() {
    let content = r#"
- [ ] Task 1 (1)
- [x] Task 2 (2)
"#;

    let status1 = MarkerTracker::read_marker_from_content(content, "1").unwrap();
    assert_eq!(status1, TaskStatus::Pending);

    let status2 = MarkerTracker::read_marker_from_content(content, "2").unwrap();
    assert_eq!(status2, TaskStatus::Completed);
    assert!(MarkerTracker::read_marker_from_content(content, "3").is_err());
}

#[test]
fn read_after_update_gives_new_status() {
    let content = "- [ ] Task 1 (1)\n- [ ] Task 2 (2)\n";
    let updated = MarkerTracker::update_marker_in_content(content, "2", TaskStatus::Failed).unwrap();
    assert_eq!(updated, "- [ ] Task 1 (1)\n- [!] Task 2 (2)\n");
    assert_eq!(
        MarkerTracker::read_marker_from_content(&updated, "2").unwrap(),
        TaskStatus::Failed
    );
}

#[test]
fn test_validate_valid_plan() {
    let task1 = TaskSpec::new("1", "Task 1");
    let task2 = TaskSpec::new("2", "Task 2");

    let errors = validate_all_tasks(&[task1, task2]);
    assert!(errors.is_empty());
}

#[test]
fn test_validate_duplicate_task_ids() {
    let task1 = TaskSpec::new("1", "Task 1");
    let task2 = TaskSpec::new("1", "Task 2");

    let errors = validate_all_tasks(&[task1, task2]);
    assert!(!errors.is_empty());
    assert!(errors
        .iter()
        .any(|e| matches!(e, ParseError::DuplicateId { .. })));
}

#[test]
fn test_validate_unknown_dependency() {
    let mut task1 = TaskSpec::new("1", "Task 1");
    task1.add_dependency("unknown");

    let errors = validate_all_tasks(&[task1]);
    assert!(!errors.is_empty());
    assert!(errors
        .iter()
        .any(|e| matches!(e, ParseError::SyntaxError { .. })));
}

#[test]
fn test_validate_empty_contract() {
    let mut task1 = TaskSpec::new("1", "Task 1");
    task1.add_contract("");

    let errors = validate_all_tasks(&[task1]);
    assert!(!errors.is_empty());
    assert!(errors
        .iter()
        .any(|e| matches!(e, ParseError::SyntaxError { .. })));
}

#[test]
fn validate_plan_reports_cycle_message() {
    let mut t1 = TaskSpec::new("1", "A");
    t1.add_dependency("2");
    let mut t2 = TaskSpec::new("2", "B");
    t2.add_dependency("1");
    match validate_plan(&[t1, t2]) {
        Err(e) => assert_eq!(
            e.message(),
            "Invalid syntax at line 0: Plan contains cycles in task dependencies"
        ),
        Ok(()) => panic!("expected a cycle"),
    }
}

#[test]
fn task_level_validators() {
    let mut t = TaskSpec::new("1", "A");
    t.add_file("x.rs");
    assert!(validate_task_files(&t).is_ok());
    t.add_contract("  \t ");
    assert!(validate_task_contracts(&t).is_err());
}

#[test]
fn read_after_update_with_line_feeds_reads_an_earlier_marker() {
    // A bracket holding a line feed: the rewrite joins two lines, and the
    // earlier marker on the joined line is read.
    let content = "- [ ] a - [\n] b (1)";
    let updated = MarkerTracker::update_marker_in_content(content, "1", TaskStatus::Completed).unwrap();
    assert_eq!(updated, "- [ ] a - [x] b (1)");
    assert_eq!(MarkerTracker::read_marker_from_content(&updated, "1").unwrap(), TaskStatus::Pending);
    // An identifier holding a line feed: its text can overlap the rewritten
    // marker.
    let id = "\n- [x] y";
    let content = "- [ ] a (\n- [~] y) (\n- [x] y)";
    let updated = MarkerTracker::update_marker_in_content(content, id, TaskStatus::Completed).unwrap();
    assert_eq!(updated, "- [ ] a (\n- [x] y) (\n- [x] y)");
    assert_eq!(MarkerTracker::read_marker_from_content(&updated, id).unwrap(), TaskStatus::Pending);
}
