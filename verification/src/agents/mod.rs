//! The agents' own logic: what they read from a model's answer, how they
//! judge a piece of work, and how they answer the user.
use vstd::prelude::*;

pub mod markdown;
pub mod review;
pub mod ask;
pub mod code;
pub mod code_run;
pub mod review_run;
pub mod plan;

verus! {

/// What one run of an agent gives back.
#[derive(Debug, Clone)]
pub enum AgentResult {
    /// Completed, with the agent's data.
    Success(serde_json::Value),
    /// Failed, with the reason.
    Failure(String),
    /// Needs the user's input first, with the question.
    UserInputRequired(String),
}

/// One option shown to the user by the ask agent.
#[derive(Debug, Clone)]
pub struct AgentUserOption {
    /// Unique identifier for the option.
    pub id: String,
    /// Display text for the option.
    pub text: String,
    /// Whether the option allows free text input.
    pub allow_free_text: bool,
}

/// Converts what an agent gave back into the result that the orchestrator
/// passes on: success with the same data, failure with the same message,
/// a request for input as a request for clarification without context.
pub fn convert_agent_result(result: AgentResult) -> (r: crate::brief::AgentResult)
    ensures
        match result {
            AgentResult::Success(d) => r matches crate::brief::AgentResult::Success { data } && data == d,
            AgentResult::Failure(m) => r matches crate::brief::AgentResult::Failed { error } && error@ == m@,
            AgentResult::UserInputRequired(m) => r matches crate::brief::AgentResult::NeedsClarification {
                question,
                context,
            } && question@ == m@ && context is None,
        },
{
    match result {
        AgentResult::Success(data) => crate::brief::AgentResult::success(data),
        AgentResult::Failure(msg) => crate::brief::AgentResult::failed_with(msg),
        AgentResult::UserInputRequired(msg) => crate::brief::AgentResult::with_clarification_request(msg.as_str()),
    }
}

/// Checks a brief before it is dispatched: the agent it goes to, or the
/// reason it is refused.
pub fn dispatch_target(brief: &crate::brief::AgentBrief) -> (r: Result<crate::brief::AgentType, String>)
    ensures
        match crate::brief::brief_problem(*brief) {
            Some(m) => r matches Err(x) && x@ == "Brief validation failed: "@ + m,
            None => r == Ok::<crate::brief::AgentType, String>(crate::brief::brief_agent_type(*brief)),
        },
{
    match brief.validate() {
        Err(e) => {
            let mut m = crate::text::owned("Brief validation failed: ");
            crate::text::push_str(&mut m, e.as_str());
            Err(m)
        },
        Ok(()) => Ok(brief.agent_type()),
    }
}

} // verus!
