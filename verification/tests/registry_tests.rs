use telisq::config::McpServerConfig;
use telisq::registry::{Dispatch, DispatchReport, DispatchStep, McpRegistryError, RegistryBook};

fn cfg(name: &str) -> McpServerConfig {
    McpServerConfig { name: name.to_string(), command: "echo".to_string(), args: vec!["hello".to_string()] }
}

#[test]
fn test_registry_creation() {
    let config = vec![
        McpServerConfig { name: "server1".to_string(), command: "echo".to_string(), args: vec!["hello".to_string()] },
        McpServerConfig { name: "server2".to_string(), command: "echo".to_string(), args: vec!["world".to_string()] },
    ];

    let registry = RegistryBook::new(config);
    assert_eq!(registry.config().len(), 2);
}

fn book() -> RegistryBook {
    let mut b = RegistryBook::new(vec![cfg("a"), cfg("b")]);
    b.server_started(&"a".to_string(), &vec!["search".to_string(), "read".to_string()]);
    b.server_started(&"b".to_string(), &vec!["search".to_string()]);
    b
}

#[test]
fn registry_indexes_tools_in_order() {
    let b = book();
    assert_eq!(b.available_tools(), vec!["search".to_string(), "read".to_string()]);
    assert!(b.is_server_listed(&"a".to_string()));
    assert!(!b.is_server_listed(&"c".to_string()));
}

#[test]
fn dispatch_unknown_tool_is_not_available() {
    let b = book();
    let mut d = Dispatch::new("write");
    match d.start(&b) {
        DispatchStep::Failed(e) => {
            assert!(matches!(e, McpRegistryError::ToolNotAvailable(_)));
            assert_eq!(e.message(), "No available server provides tool 'write'");
        }
        other => panic!("expected a failure, got {:?}", other),
    }
}

#[test]
fn dispatch_respawns_then_degrades_then_moves_on() {
    let mut b = book();
    let mut d = Dispatch::new("search");
    assert!(matches!(d.start(&b), DispatchStep::Call(s) if s == "a"));
    // First failure of "a": it is restarted.
    match d.report(&mut b, DispatchReport::CallFailed("broken pipe".to_string())) {
        DispatchStep::Respawn(c) => assert_eq!(c.name, "a"),
        other => panic!("expected a restart, got {:?}", other),
    }
    // The restart fails: "a" is degraded and "b" is tried.
    assert!(matches!(d.report(&mut b, DispatchReport::RespawnFailed("no binary".to_string())), DispatchStep::Call(s) if s == "b"));
    assert!(!b.is_server_listed(&"a".to_string()));
    assert!(matches!(d.report(&mut b, DispatchReport::CallSucceeded), DispatchStep::Succeeded));
    // A later call skips the degraded server.
    let mut d2 = Dispatch::new("read");
    match d2.start(&b) {
        DispatchStep::Failed(e) => assert_eq!(e.message(), "Failed to dispatch tool call: No available server could handle tool 'read'"),
        other => panic!("expected a failure, got {:?}", other),
    }
}

#[test]
fn dispatch_second_failure_degrades_without_restart() {
    let mut b = book();
    let mut d = Dispatch::new("read");
    d.start(&b);
    assert!(matches!(d.report(&mut b, DispatchReport::CallFailed("x".to_string())), DispatchStep::Respawn(_)));
    // The restart works, but the call goes on to the next candidate, of which there is none.
    assert!(matches!(d.report(&mut b, DispatchReport::Respawned), DispatchStep::Failed(_)));
    assert!(b.is_server_listed(&"a".to_string()));
    let mut d = Dispatch::new("read");
    d.start(&b);
    d.report(&mut b, DispatchReport::CallFailed("x".to_string()));
    d.report(&mut b, DispatchReport::Respawned);
    let mut d = Dispatch::new("read");
    d.start(&b);
    assert!(matches!(d.report(&mut b, DispatchReport::CallFailed("x".to_string())), DispatchStep::Respawn(_)));
}
