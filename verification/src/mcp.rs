//! The tool protocol's handshake records and the rule of which files each
//! kind of agent may touch.
use vstd::prelude::*;
use crate::text::{owned, push_str, chars_of, contains, contains_exec, ends_with, range_ends_with, starts_with, starts_with_exec};

verus! {

/// The parameters of the initialize handshake.
#[derive(Debug, Clone)]
pub struct InitializeParams {
    pub protocol_version: String,
}

/// A tool that a tool server offers: its name, what it does, and the JSON
/// schemas of its input and output.
#[derive(Debug, Clone)]
pub struct ToolDefinition {
    pub name: String,
    pub description: String,
    pub input_schema: serde_json::Value,
    pub output_schema: serde_json::Value,
}

/// What a tool server says of itself.
#[derive(Debug, Clone)]
pub struct ServerInfo {
    pub name: String,
    pub version: String,
    pub description: Option<String>,
}

/// Whether an agent of the kind named `agent_type` may access `path`:
/// the code agent Rust, TOML, JSON and Markdown files; the plan agent
/// Markdown files under a plans directory; the review agent Rust and
/// Markdown files; the ask agent Markdown files; the orchestrator every
/// file; any other kind none.
pub open spec fn file_access_allowed(agent_type: Seq<char>, path: Seq<char>) -> bool {
    if agent_type == "code"@ {
        ends_with(path, ".rs"@) || ends_with(path, ".toml"@) || ends_with(path, ".json"@)
            || ends_with(path, ".md"@)
    } else if agent_type == "plan"@ {
        ends_with(path, ".md"@) && (contains(path, "/plans/"@) || contains(path, "plans\\"@)
            || starts_with(path, "plans/"@))
    } else if agent_type == "review"@ {
        ends_with(path, ".rs"@) || ends_with(path, ".md"@)
    } else if agent_type == "ask"@ {
        ends_with(path, ".md"@)
    } else if agent_type == "orchestrator"@ {
        true
    } else {
        false
    }
}

/// Whether `c` ends with `p`.
fn ends_with_exec(c: &Vec<char>, p: &str) -> (r: bool)
    ensures
        r == ends_with(c@, p@),
{
    let pc = chars_of(p);
    let n = c.len();
    assert(c@.subrange(0, n as int) =~= c@);
    range_ends_with(c, 0, n, &pc)
}

/// Whether `c` contains `p`.
fn contains_str(c: &Vec<char>, p: &str) -> (r: bool)
    ensures
        r == contains(c@, p@),
{
    let pc = chars_of(p);
    contains_exec(c, &pc)
}

/// Whether the words are the same.
fn same(a: &str, b: &str) -> (r: bool)
    ensures
        r == (a@ == b@),
{
    crate::text::owned(a) == crate::text::owned(b)
}

/// Whether an agent of the kind `agent_type` may access `path`, as
/// `file_access_allowed` says.
pub fn validate_agent_file_access(agent_type: &str, path: &str) -> (r: bool)
    ensures
        r == file_access_allowed(agent_type@, path@),
{
    let c = chars_of(path);
    if same(agent_type, "code") {
        ends_with_exec(&c, ".rs") || ends_with_exec(&c, ".toml") || ends_with_exec(&c, ".json")
            || ends_with_exec(&c, ".md")
    } else if same(agent_type, "plan") {
        let pl = chars_of("plans/");
        ends_with_exec(&c, ".md") && (contains_str(&c, "/plans/") || contains_str(&c, "plans\\")
            || starts_with_exec(&c, &pl))
    } else if same(agent_type, "review") {
        ends_with_exec(&c, ".rs") || ends_with_exec(&c, ".md")
    } else if same(agent_type, "ask") {
        ends_with_exec(&c, ".md")
    } else if same(agent_type, "orchestrator") {
        true
    } else {
        false
    }
}


// ------------------------------------------------------------------
// The protocol's messages
// ------------------------------------------------------------------

/// The version of the tool protocol that is spoken.
pub const MCP_PROTOCOL_VERSION: &'static str = "2023-11-27";

/// A JSON-RPC request.
#[derive(Debug, Clone)]
pub struct JsonRpcRequest {
    pub jsonrpc: String,
    pub id: String,
    pub method: String,
    pub params: serde_json::Value,
}

/// A JSON-RPC response.
#[derive(Debug, Clone)]
pub struct JsonRpcResponse {
    pub jsonrpc: String,
    pub id: String,
    pub result: serde_json::Value,
}

/// The error of a JSON-RPC response.
#[derive(Debug, Clone)]
pub struct JsonRpcError {
    pub code: i32,
    pub message: String,
    pub data: Option<serde_json::Value>,
}

/// A JSON-RPC response that carries an error.
#[derive(Debug, Clone)]
pub struct JsonRpcErrorResponse {
    pub jsonrpc: String,
    pub id: String,
    pub error: JsonRpcError,
}

/// What a tool server can do: its tools.
#[derive(Debug, Clone)]
pub struct Capabilities {
    pub tools: Vec<ToolDefinition>,
}

/// The answer to the initialize handshake.
#[derive(Debug, Clone)]
pub struct InitializeResult {
    pub server_info: ServerInfo,
    pub capabilities: Capabilities,
}

/// One call of a tool.
#[derive(Debug, Clone)]
pub struct ToolCall {
    pub name: String,
    pub arguments: serde_json::Value,
}

/// The parameters of a tool call request.
#[derive(Debug, Clone)]
pub struct ToolCallParams {
    pub tool_call: ToolCall,
}

/// What a tool call gave back.
#[derive(Debug, Clone)]
pub struct ToolCallResult {
    pub content: serde_json::Value,
}

/// Makes a fresh version 4 UUID with `Uuid::new_v4` and writes it with
/// `to_string`. Which UUID comes out is chance; the contract states what
/// holds of every one: the text reads back as a UUID.
#[verifier::external_body]
pub(crate) fn new_uuid_text() -> (r: String)
    ensures
        crate::session::uuid_parsed(r@) is Some,
{
    uuid::Uuid::new_v4().to_string()
}

/// The JSON string holding a text (`Value::String`).
pub uninterp spec fn json_text_value(s: Seq<char>) -> serde_json::Value;

/// The JSON object holding entries, each a key and a value
/// (`Value::Object` of a `serde_json::Map` collected from them).
pub uninterp spec fn json_object_value(entries: Seq<(Seq<char>, serde_json::Value)>) -> serde_json::Value;

/// Makes the JSON string holding the text (`Value::String`). The contract
/// names it `json_text_value(s)`.
#[verifier::external_body]
fn json_string(s: &str) -> (r: serde_json::Value)
    ensures
        r == json_text_value(s@),
{
    serde_json::Value::String(s.to_string())
}

/// Makes the JSON object holding the entries, in a `serde_json::Map`
/// collected from them (`Value::Object`). The contract names it
/// `json_object_value` of the entries' keys and values.
#[verifier::external_body]
fn json_object(entries: Vec<(String, serde_json::Value)>) -> (r: serde_json::Value)
    ensures
        r == json_object_value(entries@.map_values(|e: (String, serde_json::Value)| (e.0@, e.1))),
{
    serde_json::Value::Object(entries.into_iter().collect())
}

/// A fresh identifier for a request: a new random UUID, as text.
pub fn generate_request_id() -> (r: String)
    ensures
        crate::session::uuid_parsed(r@) is Some,
{
    new_uuid_text()
}

/// The request that opens the handshake: method "initialize", with the
/// protocol version as `protocolVersion`.
pub fn create_initialize_request() -> (r: JsonRpcRequest)
    ensures
        r.jsonrpc@ == "2.0"@,
        r.method@ == "initialize"@,
        crate::session::uuid_parsed(r.id@) is Some,
        r.params == json_object_value(seq![("protocolVersion"@, json_text_value(MCP_PROTOCOL_VERSION@))]),
{
    let mut entries: Vec<(String, serde_json::Value)> = Vec::new();
    entries.push((owned("protocolVersion"), json_string(MCP_PROTOCOL_VERSION)));
    assert(entries@.map_values(|e: (String, serde_json::Value)| (e.0@, e.1)) =~= seq![
        ("protocolVersion"@, json_text_value(MCP_PROTOCOL_VERSION@)),
    ]);
    JsonRpcRequest {
        jsonrpc: owned("2.0"),
        id: generate_request_id(),
        method: owned("initialize"),
        params: json_object(entries),
    }
}

/// The request that calls a tool: method "toolCall", with the tool's name
/// and arguments under `toolCall`.
pub fn create_tool_call_request(tool_name: &str, arguments: serde_json::Value) -> (r: JsonRpcRequest)
    ensures
        r.jsonrpc@ == "2.0"@,
        r.method@ == "toolCall"@,
        crate::session::uuid_parsed(r.id@) is Some,
        r.params == json_object_value(
            seq![
                (
                    "toolCall"@,
                    json_object_value(
                        seq![("name"@, json_text_value(tool_name@)), ("arguments"@, arguments)],
                    ),
                ),
            ],
        ),
{
    let mut call: Vec<(String, serde_json::Value)> = Vec::new();
    call.push((owned("name"), json_string(tool_name)));
    call.push((owned("arguments"), arguments));
    assert(call@.map_values(|e: (String, serde_json::Value)| (e.0@, e.1)) =~= seq![
        ("name"@, json_text_value(tool_name@)),
        ("arguments"@, arguments),
    ]);
    let inner = json_object(call);
    let mut entries: Vec<(String, serde_json::Value)> = Vec::new();
    entries.push((owned("toolCall"), inner));
    assert(entries@.map_values(|e: (String, serde_json::Value)| (e.0@, e.1)) =~= seq![("toolCall"@, inner)]);
    JsonRpcRequest {
        jsonrpc: owned("2.0"),
        id: generate_request_id(),
        method: owned("toolCall"),
        params: json_object(entries),
    }
}

/// The handshake fails unless the server speaks the expected protocol
/// version: the message of the mismatch, or none.
pub fn protocol_mismatch(server_version: &str) -> (r: Option<String>)
    ensures
        server_version@ == MCP_PROTOCOL_VERSION@ ==> r is None,
        server_version@ != MCP_PROTOCOL_VERSION@ ==> (r matches Some(m) && m@
            == "Protocol version mismatch. Expected "@ + MCP_PROTOCOL_VERSION@ + ", got "@
            + server_version@),
{
    if owned(server_version) == owned(MCP_PROTOCOL_VERSION) {
        None
    } else {
        let mut m = owned("Protocol version mismatch. Expected ");
        crate::text::push_str(&mut m, MCP_PROTOCOL_VERSION);
        crate::text::push_str(&mut m, ", got ");
        crate::text::push_str(&mut m, server_version);
        Some(m)
    }
}

/// A tool call fails unless the server offers the tool: the message, or
/// none.
pub fn tool_missing(tools: &Vec<ToolDefinition>, tool_name: &str) -> (r: Option<String>)
    ensures
        (exists|i: int| 0 <= i < tools@.len() && tools@[i].name@ == tool_name@) <==> r is None,
        r matches Some(m) ==> m@ == "Tool '"@ + tool_name@ + "' not found"@,
{
    let want = owned(tool_name);
    let mut i: usize = 0;
    while i < tools.len()
        invariant
            i <= tools@.len(),
            want@ == tool_name@,
            forall|k: int| 0 <= k < i ==> tools@[k].name@ != tool_name@,
        decreases tools@.len() - i,
    {
        if tools[i].name == want {
            return None;
        }
        i = i + 1;
    }
    let mut m = owned("Tool '");
    crate::text::push_str(&mut m, tool_name);
    crate::text::push_str(&mut m, "' not found");
    Some(m)
}

/// Errors of the JSON-RPC exchange with a tool server.
#[derive(Debug, Clone)]
pub enum ProtocolError {
    /// JSON could not be written or read, with the reason.
    SerializationError(String),
    /// The server speaks another protocol version.
    VersionMismatch { expected: String, actual: String },
    /// A message is not a JSON-RPC message.
    InvalidMessageFormat,
    /// The server answered with an error.
    ServerError { code: i32, message: String },
    /// The handshake failed, with the reason.
    InitializeFailed(String),
    /// The server does not offer the tool.
    ToolNotFound(String),
    /// The tool call failed, with the reason.
    ToolCallFailed(String),
}

/// The message of a protocol error.
pub open spec fn protocol_error_message(e: ProtocolError) -> Seq<char> {
    match e {
        ProtocolError::SerializationError(m) => "JSON serialization failed: "@ + m@,
        ProtocolError::VersionMismatch { expected, actual } => "Protocol version mismatch. Expected "@
            + expected@ + ", got "@ + actual@,
        ProtocolError::InvalidMessageFormat => "Invalid JSON-RPC message format"@,
        ProtocolError::ServerError { code, message } => "Server returned error: "@
            + crate::agents::code::signed_decimal(code as int) + " - "@ + message@,
        ProtocolError::InitializeFailed(m) => "Initialize handshake failed: "@ + m@,
        ProtocolError::ToolNotFound(t) => "Tool '"@ + t@ + "' not found"@,
        ProtocolError::ToolCallFailed(m) => "Tool call failed: "@ + m@,
    }
}

impl ProtocolError {
    /// The error's message, as `protocol_error_message` says.
    pub fn message(&self) -> (r: String)
        ensures
            r@ == protocol_error_message(*self),
    {
        match self {
            ProtocolError::SerializationError(m) => {
                let mut r = owned("JSON serialization failed: ");
                push_str(&mut r, m.as_str());
                r
            },
            ProtocolError::VersionMismatch { expected, actual } => {
                let mut r = owned("Protocol version mismatch. Expected ");
                push_str(&mut r, expected.as_str());
                push_str(&mut r, ", got ");
                push_str(&mut r, actual.as_str());
                r
            },
            ProtocolError::InvalidMessageFormat => owned("Invalid JSON-RPC message format"),
            ProtocolError::ServerError { code, message } => {
                let mut r = owned("Server returned error: ");
                crate::agents::code::push_signed(&mut r, *code as i64);
                push_str(&mut r, " - ");
                push_str(&mut r, message.as_str());
                r
            },
            ProtocolError::InitializeFailed(m) => {
                let mut r = owned("Initialize handshake failed: ");
                push_str(&mut r, m.as_str());
                r
            },
            ProtocolError::ToolNotFound(t) => {
                let mut r = owned("Tool '");
                push_str(&mut r, t.as_str());
                push_str(&mut r, "' not found");
                r
            },
            ProtocolError::ToolCallFailed(m) => {
                let mut r = owned("Tool call failed: ");
                push_str(&mut r, m.as_str());
                r
            },
        }
    }
}

/// Errors of a tool server's process.
#[derive(Debug, Clone)]
pub enum McpServerError {
    /// The process could not be started, with the reason.
    ProcessStartFailed(String),
    /// The exchange with it failed.
    ProtocolError(ProtocolError),
    /// Talking to it failed, with the reason.
    CommunicationFailed(String),
    /// The process ended.
    ProcessDied,
    /// No answer came in time.
    Timeout,
}

/// The message of a server error.
pub open spec fn server_error_message(e: McpServerError) -> Seq<char> {
    match e {
        McpServerError::ProcessStartFailed(m) => "Process failed to start: "@ + m@,
        McpServerError::ProtocolError(p) => "Protocol error: "@ + protocol_error_message(p),
        McpServerError::CommunicationFailed(m) => "Server communication failed: "@ + m@,
        McpServerError::ProcessDied => "Server process died unexpectedly"@,
        McpServerError::Timeout => "Response timeout"@,
    }
}

impl McpServerError {
    /// The error's message, as `server_error_message` says.
    pub fn message(&self) -> (r: String)
        ensures
            r@ == server_error_message(*self),
    {
        match self {
            McpServerError::ProcessStartFailed(m) => {
                let mut r = owned("Process failed to start: ");
                push_str(&mut r, m.as_str());
                r
            },
            McpServerError::ProtocolError(p) => {
                let mut r = owned("Protocol error: ");
                let t = p.message();
                push_str(&mut r, t.as_str());
                r
            },
            McpServerError::CommunicationFailed(m) => {
                let mut r = owned("Server communication failed: ");
                push_str(&mut r, m.as_str());
                r
            },
            McpServerError::ProcessDied => owned("Server process died unexpectedly"),
            McpServerError::Timeout => owned("Response timeout"),
        }
    }
}

} // verus!
