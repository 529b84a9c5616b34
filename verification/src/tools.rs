//! The tools that each kind of agent is offered: their names, what they
//! do, and the JSON schemas of their input and output.
use vstd::prelude::*;
use crate::mcp::ToolDefinition;
use crate::text::owned;

verus! {

/// The JSON value that `serde_json::from_str` reads from a text, or
/// `Value::Null` where the text does not parse.
pub uninterp spec fn json_parsed(text: Seq<char>) -> serde_json::Value;

/// Reads a JSON text with `serde_json::from_str`, `Value::Null` where it
/// does not parse. The contract names the value `json_parsed(text)`; what
/// the parser builds is left unsaid.
#[verifier::external_body]
fn json_value(text: &str) -> (r: serde_json::Value)
    ensures
        r == json_parsed(text@),
{
    serde_json::from_str(text).unwrap_or(serde_json::Value::Null)
}

/// A tool with this name, description and schemas (as JSON texts).
fn tool(name: &str, description: &str, input: &str, output: &str) -> (r: ToolDefinition)
    ensures
        r.name@ == name@,
        r.description@ == description@,
        r.input_schema == json_parsed(input@),
        r.output_schema == json_parsed(output@),
{
    ToolDefinition {
        name: owned(name),
        description: owned(description),
        input_schema: json_value(input),
        output_schema: json_value(output),
    }
}

/// The names of the tools, in order.
pub open spec fn tool_names(v: Seq<ToolDefinition>) -> Seq<Seq<char>> {
    v.map_values(|t: ToolDefinition| t.name@)
}

/// The input schema of `create_read_file_tool`, as JSON text.
pub const READ_FILE_INPUT: &'static str = "{\"type\":\"object\",\"properties\":{\"path\":{\"type\":\"string\",\"description\":\"Path to the file\"}},\"required\":[\"path\"]}";

/// The output schema of `create_read_file_tool`, as JSON text.
pub const READ_FILE_OUTPUT: &'static str = "{\"type\":\"object\",\"properties\":{\"content\":{\"type\":\"string\",\"description\":\"File contents\"}}}";

/// The input schema of `create_write_file_tool`, as JSON text.
pub const WRITE_FILE_INPUT: &'static str = "{\"type\":\"object\",\"properties\":{\"path\":{\"type\":\"string\",\"description\":\"Path to the file\"},\"content\":{\"type\":\"string\",\"description\":\"Content to write\"},\"overwrite\":{\"type\":\"boolean\",\"description\":\"Whether to overwrite existing file\"}},\"required\":[\"path\",\"content\"]}";

/// The output schema of `create_write_file_tool`, as JSON text.
pub const WRITE_FILE_OUTPUT: &'static str = "{\"type\":\"object\",\"properties\":{\"success\":{\"type\":\"boolean\",\"description\":\"Whether the write operation succeeded\"}}}";

/// The input schema of `create_edit_file_tool`, as JSON text.
pub const EDIT_FILE_INPUT: &'static str = "{\"type\":\"object\",\"properties\":{\"path\":{\"type\":\"string\",\"description\":\"Path to the file\"},\"search\":{\"type\":\"string\",\"description\":\"Text to search for\"},\"replace\":{\"type\":\"string\",\"description\":\"Text to replace with\"}},\"required\":[\"path\",\"search\",\"replace\"]}";

/// The output schema of `create_edit_file_tool`, as JSON text.
pub const EDIT_FILE_OUTPUT: &'static str = "{\"type\":\"object\",\"properties\":{\"success\":{\"type\":\"boolean\",\"description\":\"Whether the edit operation succeeded\"}}}";

/// The input schema of `create_delete_file_tool`, as JSON text.
pub const DELETE_FILE_INPUT: &'static str = "{\"type\":\"object\",\"properties\":{\"path\":{\"type\":\"string\",\"description\":\"Path to the file\"}},\"required\":[\"path\"]}";

/// The output schema of `create_delete_file_tool`, as JSON text.
pub const DELETE_FILE_OUTPUT: &'static str = "{\"type\":\"object\",\"properties\":{\"success\":{\"type\":\"boolean\",\"description\":\"Whether the delete operation succeeded\"}}}";

/// The input schema of `create_run_command_tool`, as JSON text.
pub const RUN_COMMAND_INPUT: &'static str = "{\"type\":\"object\",\"properties\":{\"command\":{\"type\":\"string\",\"description\":\"Command to execute\"},\"args\":{\"type\":\"array\",\"items\":{\"type\":\"string\"},\"description\":\"Command arguments\"},\"cwd\":{\"type\":\"string\",\"description\":\"Working directory\"},\"blocking\":{\"type\":\"boolean\",\"description\":\"Whether to block until command completes\"}},\"required\":[\"command\"]}";

/// The output schema of `create_run_command_tool`, as JSON text.
pub const RUN_COMMAND_OUTPUT: &'static str = "{\"type\":\"object\",\"properties\":{\"stdout\":{\"type\":\"string\",\"description\":\"Standard output\"},\"stderr\":{\"type\":\"string\",\"description\":\"Standard error\"},\"exit_code\":{\"type\":\"integer\",\"description\":\"Exit code\"}}}";

/// The tool "readFile": read the contents of a file at the specified path.
pub fn create_read_file_tool() -> (r: ToolDefinition)
    ensures
        r.name@ == "readFile"@,
        r.description@ == "Read the contents of a file at the specified path"@,
        r.input_schema == json_parsed(READ_FILE_INPUT@),
        r.output_schema == json_parsed(READ_FILE_OUTPUT@),
{
    tool(
        "readFile",
        "Read the contents of a file at the specified path",
        READ_FILE_INPUT,
        READ_FILE_OUTPUT,
    )
}

/// The tool "writeFile": write content to a file at the specified path.
pub fn create_write_file_tool() -> (r: ToolDefinition)
    ensures
        r.name@ == "writeFile"@,
        r.description@ == "Write content to a file at the specified path"@,
        r.input_schema == json_parsed(WRITE_FILE_INPUT@),
        r.output_schema == json_parsed(WRITE_FILE_OUTPUT@),
{
    tool(
        "writeFile",
        "Write content to a file at the specified path",
        WRITE_FILE_INPUT,
        WRITE_FILE_OUTPUT,
    )
}

/// The tool "editFile": edit a file using search and replace.
pub fn create_edit_file_tool() -> (r: ToolDefinition)
    ensures
        r.name@ == "editFile"@,
        r.description@ == "Edit a file using search and replace"@,
        r.input_schema == json_parsed(EDIT_FILE_INPUT@),
        r.output_schema == json_parsed(EDIT_FILE_OUTPUT@),
{
    tool(
        "editFile",
        "Edit a file using search and replace",
        EDIT_FILE_INPUT,
        EDIT_FILE_OUTPUT,
    )
}

/// The tool "deleteFile": delete a file at the specified path.
pub fn create_delete_file_tool() -> (r: ToolDefinition)
    ensures
        r.name@ == "deleteFile"@,
        r.description@ == "Delete a file at the specified path"@,
        r.input_schema == json_parsed(DELETE_FILE_INPUT@),
        r.output_schema == json_parsed(DELETE_FILE_OUTPUT@),
{
    tool(
        "deleteFile",
        "Delete a file at the specified path",
        DELETE_FILE_INPUT,
        DELETE_FILE_OUTPUT,
    )
}

/// The tool "runCommand": run a command in the specified working directory.
pub fn create_run_command_tool() -> (r: ToolDefinition)
    ensures
        r.name@ == "runCommand"@,
        r.description@ == "Run a command in the specified working directory"@,
        r.input_schema == json_parsed(RUN_COMMAND_INPUT@),
        r.output_schema == json_parsed(RUN_COMMAND_OUTPUT@),
{
    tool(
        "runCommand",
        "Run a command in the specified working directory",
        RUN_COMMAND_INPUT,
        RUN_COMMAND_OUTPUT,
    )
}

/// The tools of the plan agent: readFile, runCommand, parsePlan.
pub fn plan_agent_tools() -> (r: Vec<ToolDefinition>)
    ensures
        tool_names(r@) == seq!["readFile"@, "runCommand"@, "parsePlan"@],
{
    let mut r: Vec<ToolDefinition> = Vec::new();
    r.push(create_read_file_tool());
    r.push(create_run_command_tool());
    r.push(tool(
        "parsePlan",
        "Parse and analyze a plan document",
        "{\"type\":\"object\",\"properties\":{\"path\":{\"type\":\"string\",\"description\":\"Path to the plan file\"}},\"required\":[\"path\"]}",
        "{\"type\":\"object\",\"properties\":{\"tasks\":{\"type\":\"array\",\"items\":{\"type\":\"object\",\"properties\":{\"id\":{\"type\":\"string\"},\"title\":{\"type\":\"string\"},\"status\":{\"type\":\"string\"}}}}}}",
    ));
    assert(tool_names(r@) =~= seq!["readFile"@, "runCommand"@, "parsePlan"@]);
    r
}

/// The tools of the code agent: readFile, writeFile, editFile, deleteFile, runCommand, analyzeCode.
pub fn code_agent_tools() -> (r: Vec<ToolDefinition>)
    ensures
        tool_names(r@) == seq!["readFile"@, "writeFile"@, "editFile"@, "deleteFile"@, "runCommand"@, "analyzeCode"@],
{
    let mut r: Vec<ToolDefinition> = Vec::new();
    r.push(create_read_file_tool());
    r.push(create_write_file_tool());
    r.push(create_edit_file_tool());
    r.push(create_delete_file_tool());
    r.push(create_run_command_tool());
    r.push(tool(
        "analyzeCode",
        "Analyze code for patterns, smells, and improvements",
        "{\"type\":\"object\",\"properties\":{\"path\":{\"type\":\"string\",\"description\":\"Path to the code file or directory\"}},\"required\":[\"path\"]}",
        "{\"type\":\"object\",\"properties\":{\"issues\":{\"type\":\"array\",\"items\":{\"type\":\"object\",\"properties\":{\"type\":{\"type\":\"string\"},\"severity\":{\"type\":\"string\"},\"message\":{\"type\":\"string\"},\"location\":{\"type\":\"object\",\"properties\":{\"path\":{\"type\":\"string\"},\"line\":{\"type\":\"integer\"}}}}}}}}",
    ));
    assert(tool_names(r@) =~= seq!["readFile"@, "writeFile"@, "editFile"@, "deleteFile"@, "runCommand"@, "analyzeCode"@]);
    r
}

/// The tools of the review agent: readFile, runCommand, reviewCode.
pub fn review_agent_tools() -> (r: Vec<ToolDefinition>)
    ensures
        tool_names(r@) == seq!["readFile"@, "runCommand"@, "reviewCode"@],
{
    let mut r: Vec<ToolDefinition> = Vec::new();
    r.push(create_read_file_tool());
    r.push(create_run_command_tool());
    r.push(tool(
        "reviewCode",
        "Review code changes for quality and correctness",
        "{\"type\":\"object\",\"properties\":{\"path\":{\"type\":\"string\",\"description\":\"Path to the code file or directory\"},\"branch\":{\"type\":\"string\",\"description\":\"Branch to review\"}},\"required\":[\"path\"]}",
        "{\"type\":\"object\",\"properties\":{\"comments\":{\"type\":\"array\",\"items\":{\"type\":\"object\",\"properties\":{\"type\":{\"type\":\"string\"},\"severity\":{\"type\":\"string\"},\"message\":{\"type\":\"string\"},\"location\":{\"type\":\"object\",\"properties\":{\"path\":{\"type\":\"string\"},\"line\":{\"type\":\"integer\"}}}}}}}}",
    ));
    assert(tool_names(r@) =~= seq!["readFile"@, "runCommand"@, "reviewCode"@]);
    r
}

/// The tools of the ask agent: readFile, runCommand, searchDocumentation.
pub fn ask_agent_tools() -> (r: Vec<ToolDefinition>)
    ensures
        tool_names(r@) == seq!["readFile"@, "runCommand"@, "searchDocumentation"@],
{
    let mut r: Vec<ToolDefinition> = Vec::new();
    r.push(create_read_file_tool());
    r.push(create_run_command_tool());
    r.push(tool(
        "searchDocumentation",
        "Search documentation and provide answers to questions",
        "{\"type\":\"object\",\"properties\":{\"query\":{\"type\":\"string\",\"description\":\"Search query\"},\"context\":{\"type\":\"string\",\"description\":\"Additional context\"}},\"required\":[\"query\"]}",
        "{\"type\":\"object\",\"properties\":{\"answer\":{\"type\":\"string\",\"description\":\"Answer to the question\"},\"sources\":{\"type\":\"array\",\"items\":{\"type\":\"string\"},\"description\":\"Sources used for the answer\"}}}",
    ));
    assert(tool_names(r@) =~= seq!["readFile"@, "runCommand"@, "searchDocumentation"@]);
    r
}

/// The tools of the orchestrator agent: readFile, runCommand, manageTasks.
pub fn orchestrator_agent_tools() -> (r: Vec<ToolDefinition>)
    ensures
        tool_names(r@) == seq!["readFile"@, "runCommand"@, "manageTasks"@],
{
    let mut r: Vec<ToolDefinition> = Vec::new();
    r.push(create_read_file_tool());
    r.push(create_run_command_tool());
    r.push(tool(
        "manageTasks",
        "Manage task execution and dependencies",
        "{\"type\":\"object\",\"properties\":{\"action\":{\"type\":\"string\",\"description\":\"Action to perform (start/stop/status)\"},\"task_id\":{\"type\":\"string\",\"description\":\"Task ID\"}},\"required\":[\"action\"]}",
        "{\"type\":\"object\",\"properties\":{\"success\":{\"type\":\"boolean\",\"description\":\"Whether the action succeeded\"},\"result\":{\"type\":\"object\",\"description\":\"Action result\"}}}",
    ));
    assert(tool_names(r@) =~= seq!["readFile"@, "runCommand"@, "manageTasks"@]);
    r
}

/// The names of the tools offered to the agent of the given kind; any other
/// kind gets reading files and running commands.
pub open spec fn agent_tool_names(agent: Seq<char>) -> Seq<Seq<char>> {
    if agent == "plan"@ {
        seq!["readFile"@, "runCommand"@, "parsePlan"@]
    } else if agent == "code"@ {
        seq!["readFile"@, "writeFile"@, "editFile"@, "deleteFile"@, "runCommand"@, "analyzeCode"@]
    } else if agent == "review"@ {
        seq!["readFile"@, "runCommand"@, "reviewCode"@]
    } else if agent == "ask"@ {
        seq!["readFile"@, "runCommand"@, "searchDocumentation"@]
    } else if agent == "orchestrator"@ {
        seq!["readFile"@, "runCommand"@, "manageTasks"@]
    } else {
        seq!["readFile"@, "runCommand"@]
    }
}

/// The tools offered to an agent of the kind named `agent_type`, as
/// `agent_tool_names` names them.
pub fn get_tools_for_agent(agent_type: &str) -> (r: Vec<ToolDefinition>)
    ensures
        tool_names(r@) == agent_tool_names(agent_type@),
{
    let a = owned(agent_type);
    if a == owned("plan") {
        plan_agent_tools()
    } else if a == owned("code") {
        code_agent_tools()
    } else if a == owned("review") {
        review_agent_tools()
    } else if a == owned("ask") {
        ask_agent_tools()
    } else if a == owned("orchestrator") {
        orchestrator_agent_tools()
    } else {
        let mut r: Vec<ToolDefinition> = Vec::new();
        r.push(create_read_file_tool());
        r.push(create_run_command_tool());
        assert(tool_names(r@) =~= seq!["readFile"@, "runCommand"@]);
        r
    }
}

} // verus!
