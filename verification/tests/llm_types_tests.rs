use telisq::llm::{
    first_content, is_retryable_error, ChatCompletionChoice, ChatCompletionRequest, ChatCompletionResponse,
    CompletionMessage, Message, Role, Tool, Usage,
};
use telisq::mcp::ToolDefinition;

#[test]
fn test_chat_completion_request_builder() {
    let messages = vec![Message::user("Hello!")];
    let request = ChatCompletionRequest::new(messages).with_stream(true);

    assert_eq!(request.messages.len(), 1);
    assert!(request.stream);
    assert!(request.tools.is_none());
    assert!(request.tool_choice.is_none());
}

#[test]
fn test_tool_from_mcp() {
    let mcp_tool = ToolDefinition {
        name: "search".to_string(),
        description: "Search the web".to_string(),
        input_schema: serde_json::from_str(
            r#"{"type": "object", "properties": {"query": {"type": "string"}}, "required": ["query"]}"#,
        )
        .unwrap(),
        output_schema: serde_json::from_str(
            r#"{"type": "object", "properties": {"results": {"type": "array", "items": {"type": "string"}}}}"#,
        )
        .unwrap(),
    };

    let tool = Tool::from_mcp(&mcp_tool);
    assert_eq!(tool.type_, "function");
    assert_eq!(tool.function.name, "search");
    assert_eq!(tool.function.description, "Search the web");
    assert!(tool.function.parameters.is_object());
}

#[test]
fn test_is_retryable_error() {
    assert!(is_retryable_error(reqwest::StatusCode::TOO_MANY_REQUESTS.as_u16()));
    assert!(is_retryable_error(reqwest::StatusCode::INTERNAL_SERVER_ERROR.as_u16()));
    assert!(is_retryable_error(reqwest::StatusCode::BAD_GATEWAY.as_u16()));
    assert!(is_retryable_error(reqwest::StatusCode::SERVICE_UNAVAILABLE.as_u16()));

    assert!(!is_retryable_error(reqwest::StatusCode::BAD_REQUEST.as_u16()));
    assert!(!is_retryable_error(reqwest::StatusCode::UNAUTHORIZED.as_u16()));
    assert!(!is_retryable_error(reqwest::StatusCode::FORBIDDEN.as_u16()));
    assert!(!is_retryable_error(reqwest::StatusCode::NOT_FOUND.as_u16()));
}

#[test]
fn request_builders_keep_the_rest() {
    let r = ChatCompletionRequest::new(vec![Message::system("s"), Message::user("u")])
        .with_tool_choice(telisq::llm::ToolChoice::Auto)
        .with_tools(vec![]);
    assert_eq!(r.messages.len(), 2);
    assert!(matches!(r.tool_choice, Some(telisq::llm::ToolChoice::Auto)));
    assert_eq!(r.tools.as_ref().map(|t| t.len()), Some(0));
    assert!(!r.stream);
}

#[test]
fn first_content_of_a_completion() {
    let mut resp = ChatCompletionResponse {
        id: "1".to_string(),
        object: "chat.completion".to_string(),
        created: 0,
        model: "m".to_string(),
        choices: vec![],
        usage: Usage { prompt_tokens: 1, completion_tokens: 2, total_tokens: 3 },
    };
    assert_eq!(first_content(&resp), "");
    resp.choices.push(ChatCompletionChoice {
        index: 0,
        message: CompletionMessage {
            role: Role::Assistant,
            content: Some("hi".to_string()),
            function_call: None,
            tool_calls: None,
        },
        finish_reason: "stop".to_string(),
    });
    assert_eq!(first_content(&resp), "hi");
}
