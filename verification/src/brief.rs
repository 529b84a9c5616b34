//! Briefs sent to agents and the results agents send back.
use vstd::prelude::*;
use crate::text::owned;

verus! {

#[verifier::external_type_specification]
#[verifier::external_body]
pub struct ExJsonValue(serde_json::Value);

/// `Clone` for `serde_json::Value`: the crate derives it, so the copy holds
/// the same JSON value.
pub assume_specification[ <serde_json::Value as Clone>::clone ](v: &serde_json::Value) -> (r:
    serde_json::Value)
    ensures
        r == *v,
;

/// Agent type for dispatch routing.
#[derive(Debug, Clone, Copy, PartialEq, Eq, Structural, Hash)]
pub enum AgentType {
    /// Plan agent for requirement analysis and plan generation.
    Plan,
    /// Code agent for code generation and patching.
    Code,
    /// Review agent for code review and validation.
    Review,
    /// Ask agent for user interaction and questions.
    Ask,
}

impl AgentType {
    /// The lowercase name of the agent type, as its `Display` form writes it.
    pub fn name(&self) -> (r: &'static str)
        ensures
            r@ == agent_type_name(*self),
    {
        match self {
            AgentType::Plan => "plan",
            AgentType::Code => "code",
            AgentType::Review => "review",
            AgentType::Ask => "ask",
        }
    }
}

/// The lowercase name of an agent type.
pub open spec fn agent_type_name(t: AgentType) -> Seq<char> {
    match t {
        AgentType::Plan => "plan"@,
        AgentType::Code => "code"@,
        AgentType::Review => "review"@,
        AgentType::Ask => "ask"@,
    }
}

/// Brief for the plan agent.
#[derive(Debug, Clone)]
pub struct PlanBrief {
    /// The user's goal or requirement to plan for.
    pub goal: String,
    /// Optional context about the project.
    pub project_context: Option<String>,
    /// Optional constraints or preferences.
    pub constraints: Option<String>,
}

/// Brief for the code agent.
#[derive(Debug, Clone)]
pub struct CodeBrief {
    /// The task specification or description.
    pub task_spec: String,
    /// Files that the task will modify.
    pub files: Vec<String>,
    /// Optional plan context from the plan agent.
    pub plan_context: Option<String>,
    /// Contracts that must be satisfied.
    pub contracts: Vec<String>,
}

/// Brief for the review agent.
#[derive(Debug, Clone)]
pub struct ReviewBrief {
    /// The task specification to review against.
    pub task_spec: String,
    /// Files that were modified.
    pub changed_files: Vec<String>,
    /// Contracts to verify.
    pub contracts: Vec<String>,
}

/// Brief for the ask agent.
#[derive(Debug, Clone)]
pub struct AskBrief {
    /// The question to ask the user.
    pub question: String,
    /// Options for the user to choose from.
    pub options: Option<Vec<String>>,
    /// Whether free text input is allowed.
    pub allow_free_text: bool,
    /// Context about the situation.
    pub context: Option<String>,
}

/// Brief sent to an agent for work.
#[derive(Debug, Clone)]
pub enum AgentBrief {
    /// Plan agent brief.
    Plan(PlanBrief),
    /// Code agent brief.
    Code(CodeBrief),
    /// Review agent brief.
    Review(ReviewBrief),
    /// Ask agent brief.
    Ask(AskBrief),
    /// Create or modify files.
    Files { path: String, content: String },
    /// Execute a command.
    Shell { command: String, working_dir: Option<String> },
    /// Ask the user a yes/no question.
    Confirm { prompt: String },
    /// Get a value from the user (secret or not).
    GetValue { prompt: String, secret: bool },
    /// Open an editor to write text or modify a file.
    OpenEditor { path: Option<String>, initial_text: Option<String> },
    /// Open a browser to a URL.
    OpenBrowser { url: String },
    /// Request execution of an MCP function.
    McpFunction { server_name: String, procedure_name: String, params: serde_json::Value },
    /// No more work to do.
    Done,
}

/// A copy of an optional text.
pub fn copy_opt(o: &Option<&str>) -> (r: Option<String>)
    ensures
        match *o {
            Some(s) => r matches Some(x) && x@ == s@,
            None => r is None,
        },
{
    match o {
        Some(s) => Some(owned(s)),
        None => None,
    }
}

impl AgentBrief {
    /// Creates a plan brief.
    pub fn plan(goal: &str) -> (r: Self)
        ensures
            r matches AgentBrief::Plan(b) && b.goal@ == goal@ && b.project_context is None
                && b.constraints is None,
    {
        AgentBrief::Plan(PlanBrief { goal: owned(goal), project_context: None, constraints: None })
    }

    /// Creates a code brief.
    pub fn code(task_spec: &str) -> (r: Self)
        ensures
            r matches AgentBrief::Code(b) && b.task_spec@ == task_spec@ && b.files@.len() == 0
                && b.plan_context is None && b.contracts@.len() == 0,
    {
        AgentBrief::Code(
            CodeBrief {
                task_spec: owned(task_spec),
                files: Vec::new(),
                plan_context: None,
                contracts: Vec::new(),
            },
        )
    }

    /// Creates a review brief.
    pub fn review(task_spec: &str) -> (r: Self)
        ensures
            r matches AgentBrief::Review(b) && b.task_spec@ == task_spec@ && b.changed_files@.len()
                == 0 && b.contracts@.len() == 0,
    {
        AgentBrief::Review(
            ReviewBrief {
                task_spec: owned(task_spec),
                changed_files: Vec::new(),
                contracts: Vec::new(),
            },
        )
    }

    /// Creates an ask brief that allows free text.
    pub fn ask(question: &str) -> (r: Self)
        ensures
            r matches AgentBrief::Ask(b) && b.question@ == question@ && b.options is None
                && b.allow_free_text && b.context is None,
    {
        AgentBrief::Ask(
            AskBrief { question: owned(question), options: None, allow_free_text: true, context: None },
        )
    }

    /// Creates a files brief.
    pub fn files(path: &str, content: &str) -> (r: Self)
        ensures
            r matches AgentBrief::Files { path: p, content: c } && p@ == path@ && c@ == content@,
    {
        AgentBrief::Files { path: owned(path), content: owned(content) }
    }

    /// Creates a shell brief.
    pub fn shell(command: &str, working_dir: Option<&str>) -> (r: Self)
        ensures
            r matches AgentBrief::Shell { command: c, working_dir: w } && c@ == command@ && match working_dir {
                Some(d) => w matches Some(x) && x@ == d@,
                None => w is None,
            },
    {
        AgentBrief::Shell { command: owned(command), working_dir: copy_opt(&working_dir) }
    }

    /// Creates a confirm brief.
    pub fn confirm(prompt: &str) -> (r: Self)
        ensures
            r matches AgentBrief::Confirm { prompt: p } && p@ == prompt@,
    {
        AgentBrief::Confirm { prompt: owned(prompt) }
    }

    /// Creates a get-value brief.
    pub fn get_value(prompt: &str, secret: bool) -> (r: Self)
        ensures
            r matches AgentBrief::GetValue { prompt: p, secret: s } && p@ == prompt@ && s == secret,
    {
        AgentBrief::GetValue { prompt: owned(prompt), secret }
    }

    /// Creates an open-editor brief.
    pub fn open_editor(path: Option<&str>, initial_text: Option<&str>) -> (r: Self)
        ensures
            r matches AgentBrief::OpenEditor { path: p, initial_text: t } && (match path {
                Some(x) => p matches Some(y) && y@ == x@,
                None => p is None,
            }) && (match initial_text {
                Some(x) => t matches Some(y) && y@ == x@,
                None => t is None,
            }),
    {
        AgentBrief::OpenEditor { path: copy_opt(&path), initial_text: copy_opt(&initial_text) }
    }

    /// Creates an open-browser brief.
    pub fn open_browser(url: &str) -> (r: Self)
        ensures
            r matches AgentBrief::OpenBrowser { url: u } && u@ == url@,
    {
        AgentBrief::OpenBrowser { url: owned(url) }
    }

    /// Creates an MCP function brief.
    pub fn mcp_function(server_name: &str, procedure_name: &str, params: serde_json::Value) -> (r:
        Self)
        ensures
            r matches AgentBrief::McpFunction { server_name: s, procedure_name: p, params: v }
                && s@ == server_name@ && p@ == procedure_name@ && v == params,
    {
        AgentBrief::McpFunction {
            server_name: owned(server_name),
            procedure_name: owned(procedure_name),
            params,
        }
    }

    /// Creates a done brief.
    pub fn done() -> (r: Self)
        ensures
            r is Done,
    {
        AgentBrief::Done
    }

    /// The agent type a brief is routed to; the legacy kinds go to the ask agent.
    pub fn agent_type(&self) -> (r: AgentType)
        ensures
            r == brief_agent_type(*self),
    {
        match self {
            AgentBrief::Plan(_) => AgentType::Plan,
            AgentBrief::Code(_) => AgentType::Code,
            AgentBrief::Review(_) => AgentType::Review,
            AgentBrief::Ask(_) => AgentType::Ask,
            _ => AgentType::Ask,
        }
    }

    /// Validates that the brief is complete: its goal, task or question is
    /// not empty. The legacy kinds are always valid.
    pub fn validate(&self) -> (r: Result<(), String>)
        ensures
            match brief_problem(*self) {
                Some(m) => r matches Err(x) && x@ == m,
                None => r is Ok,
            },
    {
        match self {
            AgentBrief::Plan(b) => {
                if b.goal.as_str().is_empty() {
                    return Err(owned("Plan brief goal cannot be empty"));
                }
                Ok(())
            },
            AgentBrief::Code(b) => {
                if b.task_spec.as_str().is_empty() {
                    return Err(owned("Code brief task_spec cannot be empty"));
                }
                Ok(())
            },
            AgentBrief::Review(b) => {
                if b.task_spec.as_str().is_empty() {
                    return Err(owned("Review brief task_spec cannot be empty"));
                }
                Ok(())
            },
            AgentBrief::Ask(b) => {
                if b.question.as_str().is_empty() {
                    return Err(owned("Ask brief question cannot be empty"));
                }
                Ok(())
            },
            _ => Ok(()),
        }
    }
}

/// The agent type a brief is routed to.
pub open spec fn brief_agent_type(b: AgentBrief) -> AgentType {
    match b {
        AgentBrief::Plan(_) => AgentType::Plan,
        AgentBrief::Code(_) => AgentType::Code,
        AgentBrief::Review(_) => AgentType::Review,
        AgentBrief::Ask(_) => AgentType::Ask,
        _ => AgentType::Ask,
    }
}

/// What is wrong with a brief, if anything.
pub open spec fn brief_problem(b: AgentBrief) -> Option<Seq<char>> {
    match b {
        AgentBrief::Plan(p) => if p.goal@.len() == 0 {
            Some("Plan brief goal cannot be empty"@)
        } else {
            None
        },
        AgentBrief::Code(c) => if c.task_spec@.len() == 0 {
            Some("Code brief task_spec cannot be empty"@)
        } else {
            None
        },
        AgentBrief::Review(r) => if r.task_spec@.len() == 0 {
            Some("Review brief task_spec cannot be empty"@)
        } else {
            None
        },
        AgentBrief::Ask(a) => if a.question@.len() == 0 {
            Some("Ask brief question cannot be empty"@)
        } else {
            None
        },
        _ => None,
    }
}

/// Issue found during review.
#[derive(Debug, Clone)]
pub struct AgentIssue {
    /// Type of issue: error or warning.
    pub issue_type: String,
    /// Short description of the issue.
    pub title: String,
    /// Detailed description.
    pub description: String,
    /// File path where the issue was found.
    pub file_path: Option<String>,
}

/// Result sent from an agent.
#[derive(Debug, Clone)]
pub enum AgentResult {
    /// Completed successfully with result data.
    Success { data: serde_json::Value },
    /// Failed to complete the task.
    Failed { error: String },
    /// Needs clarification from the user.
    NeedsClarification { question: String, context: Option<String> },
    /// The review agent approved the changes.
    Approved { review_summary: Option<String> },
    /// The review agent found issues.
    IssuesFound { issues: Vec<AgentIssue> },
    /// A file has been created or modified.
    FileWritten { path: String },
    /// A command was executed.
    CommandExecuted { command: String, working_dir: Option<String>, output: String, code: i32 },
    /// The user confirmed.
    Confirmed,
    /// The user rejected.
    Rejected,
    /// The user provided text input.
    TextValue { value: String },
    /// A file was edited.
    FileEdited { path: String },
    /// A browser was opened.
    BrowserOpened { url: String },
    /// An MCP function was executed.
    McpResult { result: serde_json::Value },
    /// The agent needs more context about the plan.
    NeedPlanContext,
    /// The agent needs more context about the codebase.
    NeedCodebaseContext,
    /// Done with the current context level.
    PopContext,
}

impl AgentResult {
    /// Creates a success result with data.
    pub fn success(data: serde_json::Value) -> (r: Self)
        ensures
            r matches AgentResult::Success { data: d } && d == data,
    {
        AgentResult::Success { data }
    }

    /// Creates a failed result with an error message.
    pub fn failed(error: &str) -> (r: Self)
        ensures
            r matches AgentResult::Failed { error: e } && e@ == error@,
    {
        AgentResult::Failed { error: owned(error) }
    }

    /// Creates a failed result from an owned message.
    pub fn failed_with(error: String) -> (r: Self)
        ensures
            r matches AgentResult::Failed { error: e } && e@ == error@,
    {
        AgentResult::Failed { error }
    }

    /// Creates a clarification request.
    pub fn with_clarification_request(question: &str) -> (r: Self)
        ensures
            r matches AgentResult::NeedsClarification { question: q, context: c } && q@ == question@
                && c is None,
    {
        AgentResult::NeedsClarification { question: owned(question), context: None }
    }

    /// Creates an approval.
    pub fn approved() -> (r: Self)
        ensures
            r matches AgentResult::Approved { review_summary: s } && s is None,
    {
        AgentResult::Approved { review_summary: None }
    }

    /// Creates an issues-found result.
    pub fn issues_found(issues: Vec<AgentIssue>) -> (r: Self)
        ensures
            r matches AgentResult::IssuesFound { issues: i } && i == issues,
    {
        AgentResult::IssuesFound { issues }
    }

    /// Creates a file-written result.
    pub fn file_written(path: &str) -> (r: Self)
        ensures
            r matches AgentResult::FileWritten { path: p } && p@ == path@,
    {
        AgentResult::FileWritten { path: owned(path) }
    }

    /// Creates a command-executed result.
    pub fn command_executed(command: &str, working_dir: Option<&str>, output: &str, code: i32) -> (r:
        Self)
        ensures
            r matches AgentResult::CommandExecuted { command: c, working_dir: w, output: o, code: k }
                && c@ == command@ && o@ == output@ && k == code && match working_dir {
                Some(d) => w matches Some(x) && x@ == d@,
                None => w is None,
            },
    {
        AgentResult::CommandExecuted {
            command: owned(command),
            working_dir: copy_opt(&working_dir),
            output: owned(output),
            code,
        }
    }

    /// Creates a confirmed result.
    pub fn confirmed() -> (r: Self)
        ensures
            r is Confirmed,
    {
        AgentResult::Confirmed
    }

    /// Creates a rejected result.
    pub fn rejected() -> (r: Self)
        ensures
            r is Rejected,
    {
        AgentResult::Rejected
    }

    /// Creates a text-value result.
    pub fn text_value(value: &str) -> (r: Self)
        ensures
            r matches AgentResult::TextValue { value: v } && v@ == value@,
    {
        AgentResult::TextValue { value: owned(value) }
    }

    /// Creates a file-edited result.
    pub fn file_edited(path: &str) -> (r: Self)
        ensures
            r matches AgentResult::FileEdited { path: p } && p@ == path@,
    {
        AgentResult::FileEdited { path: owned(path) }
    }

    /// Creates a browser-opened result.
    pub fn browser_opened(url: &str) -> (r: Self)
        ensures
            r matches AgentResult::BrowserOpened { url: u } && u@ == url@,
    {
        AgentResult::BrowserOpened { url: owned(url) }
    }

    /// Creates an MCP result.
    pub fn mcp_result(result: serde_json::Value) -> (r: Self)
        ensures
            r matches AgentResult::McpResult { result: v } && v == result,
    {
        AgentResult::McpResult { result }
    }

    /// Creates a need-plan-context result.
    pub fn need_plan_context() -> (r: Self)
        ensures
            r is NeedPlanContext,
    {
        AgentResult::NeedPlanContext
    }

    /// Creates a need-codebase-context result.
    pub fn need_codebase_context() -> (r: Self)
        ensures
            r is NeedCodebaseContext,
    {
        AgentResult::NeedCodebaseContext
    }

    /// Creates a pop-context result.
    pub fn pop_context() -> (r: Self)
        ensures
            r is PopContext,
    {
        AgentResult::PopContext
    }

    /// Success or approval.
    pub fn is_success(&self) -> (r: bool)
        ensures
            r == (*self is Success || *self is Approved),
    {
        match self {
            AgentResult::Success { .. } | AgentResult::Approved { .. } => true,
            _ => false,
        }
    }

    /// Failure or issues found.
    pub fn is_failure(&self) -> (r: bool)
        ensures
            r == (*self is Failed || *self is IssuesFound),
    {
        match self {
            AgentResult::Failed { .. } | AgentResult::IssuesFound { .. } => true,
            _ => false,
        }
    }

    /// A clarification request.
    pub fn needs_clarification(&self) -> (r: bool)
        ensures
            r == (*self is NeedsClarification),
    {
        match self {
            AgentResult::NeedsClarification { .. } => true,
            _ => false,
        }
    }
}

} // verus!
