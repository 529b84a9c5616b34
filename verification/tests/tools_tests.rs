use telisq::mcp::{McpServerError, ProtocolError};
use telisq::tools::{
    create_delete_file_tool, create_edit_file_tool, create_read_file_tool, create_run_command_tool,
    create_write_file_tool, get_tools_for_agent,
};

#[test]
fn test_get_tools_for_agent() {
    let plan_tools = get_tools_for_agent("plan");
    assert!(!plan_tools.is_empty());
    assert!(plan_tools.iter().any(|t| t.name == "parsePlan"));

    let code_tools = get_tools_for_agent("code");
    assert!(!code_tools.is_empty());
    assert!(code_tools.iter().any(|t| t.name == "analyzeCode"));

    let review_tools = get_tools_for_agent("review");
    assert!(!review_tools.is_empty());
    assert!(review_tools.iter().any(|t| t.name == "reviewCode"));

    let ask_tools = get_tools_for_agent("ask");
    assert!(!ask_tools.is_empty());
    assert!(ask_tools.iter().any(|t| t.name == "searchDocumentation"));

    let orchestrator_tools = get_tools_for_agent("orchestrator");
    assert!(!orchestrator_tools.is_empty());
    assert!(orchestrator_tools.iter().any(|t| t.name == "manageTasks"));
}

#[test]
fn test_file_tool_definitions() {
    let read_tool = create_read_file_tool();
    assert_eq!(read_tool.name, "readFile");
    assert!(!read_tool.description.is_empty());

    let write_tool = create_write_file_tool();
    assert_eq!(write_tool.name, "writeFile");
    assert!(!write_tool.description.is_empty());

    let edit_tool = create_edit_file_tool();
    assert_eq!(edit_tool.name, "editFile");
    assert!(!edit_tool.description.is_empty());

    let delete_tool = create_delete_file_tool();
    assert_eq!(delete_tool.name, "deleteFile");
    assert!(!delete_tool.description.is_empty());

    let run_tool = create_run_command_tool();
    assert_eq!(run_tool.name, "runCommand");
    assert!(!run_tool.description.is_empty());
}

#[test]
fn tool_schemas_are_read() {
    let read_tool = create_read_file_tool();
    assert_eq!(read_tool.input_schema["required"][0], "path");
    assert_eq!(read_tool.output_schema["properties"]["content"]["type"], "string");
    let names: Vec<String> = get_tools_for_agent("code").into_iter().map(|t| t.name).collect();
    assert_eq!(names, vec!["readFile", "writeFile", "editFile", "deleteFile", "runCommand", "analyzeCode"]);
    let names: Vec<String> = get_tools_for_agent("other").into_iter().map(|t| t.name).collect();
    assert_eq!(names, vec!["readFile", "runCommand"]);
}

#[test]
fn test_generate_request_id() {
    let id1 = telisq::mcp::generate_request_id();
    let id2 = telisq::mcp::generate_request_id();
    assert_ne!(id1, id2);
    assert!(uuid::Uuid::parse_str(&id1).is_ok());
}

#[test]
fn test_create_initialize_request() {
    let req = telisq::mcp::create_initialize_request();
    assert_eq!(req.jsonrpc, "2.0");
    assert_eq!(req.method, "initialize");

    assert_eq!(req.params["protocolVersion"], telisq::mcp::MCP_PROTOCOL_VERSION);
}

#[test]
fn test_create_tool_call_request() {
    let args: serde_json::Value = serde_json::from_str(r#"{ "key": "value" }"#).unwrap();
    let req = telisq::mcp::create_tool_call_request("testTool", args.clone());

    assert_eq!(req.jsonrpc, "2.0");
    assert_eq!(req.method, "toolCall");

    assert_eq!(req.params["toolCall"]["name"], "testTool");
    assert_eq!(req.params["toolCall"]["arguments"], args);
}

#[test]
fn protocol_and_server_error_messages() {
    let server = ProtocolError::ServerError { code: -32601, message: "Method not found".to_string() };
    assert_eq!(server.message(), "Server returned error: -32601 - Method not found");
    let mismatch = ProtocolError::VersionMismatch { expected: "2023-11-27".to_string(), actual: "1.0".to_string() };
    assert_eq!(mismatch.message(), "Protocol version mismatch. Expected 2023-11-27, got 1.0");
    assert_eq!(ProtocolError::InvalidMessageFormat.message(), "Invalid JSON-RPC message format");
    assert_eq!(ProtocolError::ToolCallFailed("boom".to_string()).message(), "Tool call failed: boom");
    let wrapped = McpServerError::ProtocolError(ProtocolError::ToolNotFound("search".to_string()));
    assert_eq!(wrapped.message(), "Protocol error: Tool 'search' not found");
    assert_eq!(McpServerError::ProcessStartFailed("no such file".to_string()).message(), "Process failed to start: no such file");
    assert_eq!(McpServerError::ProcessDied.message(), "Server process died unexpectedly");
    assert_eq!(McpServerError::Timeout.message(), "Response timeout");
}

#[test]
fn test_available_tools() {
    let empty = || serde_json::Value::Object(serde_json::Map::new());
    let capabilities = telisq::mcp::Capabilities {
        tools: vec![
            telisq::mcp::ToolDefinition {
                name: "tool1".to_string(),
                description: "Test tool 1".to_string(),
                input_schema: empty(),
                output_schema: empty(),
            },
            telisq::mcp::ToolDefinition {
                name: "tool2".to_string(),
                description: "Test tool 2".to_string(),
                input_schema: empty(),
                output_schema: empty(),
            },
        ],
    };
    let tools: Vec<&telisq::mcp::ToolDefinition> = capabilities.tools.iter().collect();
    assert_eq!(tools.len(), 2);
    assert_eq!(tools[0].name, "tool1");
    assert_eq!(tools[1].name, "tool2");
}
