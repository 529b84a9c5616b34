//! The ask agent's dealings with the user: the options it offers, how it
//! shows a question, and how it reads the answer.
use vstd::prelude::*;
use crate::text::{decimal, join, join_strings, owned, push_decimal, push_str};
use crate::types::strings_view;

verus! {

/// One option that the user may choose.
#[derive(Debug, Clone)]
pub struct UserOption {
    /// Unique identifier for the option.
    pub id: String,
    /// Display text for the option.
    pub text: String,
    /// Whether the option allows free text input.
    pub allow_free_text: bool,
}

impl UserOption {
    /// A new option.
    pub fn new(id: &str, text: &str, allow_free_text: bool) -> (r: UserOption)
        ensures
            r.id@ == id@,
            r.text@ == text@,
            r.allow_free_text == allow_free_text,
    {
        UserOption { id: owned(id), text: owned(text), allow_free_text }
    }
}

/// Configuration of the ask agent.
#[derive(Debug, Clone)]
pub struct AskAgentConfig {
    /// Seconds to wait for the user's answer.
    pub input_timeout: u64,
    /// Whether an answer that matches no option is taken as free text.
    pub allow_free_text: bool,
    /// Whether a language model words the question.
    pub use_llm: bool,
}

impl Default for AskAgentConfig {
    /// Five minutes to answer, free text allowed, the model used.
    fn default() -> (r: Self)
        ensures
            r.input_timeout == 300,
            r.allow_free_text,
            r.use_llm,
    {
        AskAgentConfig { input_timeout: 300, allow_free_text: true, use_llm: true }
    }
}

/// The options offered when none are given: retry, skip or stop.
pub fn default_options() -> (r: Vec<UserOption>)
    ensures
        r@.len() == 3,
        r@[0].id@ == "retry"@ && r@[0].text@ == "Retry the task"@ && !r@[0].allow_free_text,
        r@[1].id@ == "skip"@ && r@[1].text@ == "Skip the task"@ && !r@[1].allow_free_text,
        r@[2].id@ == "stop"@ && r@[2].text@ == "Stop the execution"@ && !r@[2].allow_free_text,
{
    let mut r: Vec<UserOption> = Vec::new();
    r.push(UserOption::new("retry", "Retry the task", false));
    r.push(UserOption::new("skip", "Skip the task", false));
    r.push(UserOption::new("stop", "Stop the execution", false));
    r
}

/// How an option is listed for display: "[id] text".
pub open spec fn option_line(o: UserOption) -> Seq<char> {
    "["@ + o.id@ + "] "@ + o.text@
}

/// How an option is listed in the plain wording of a question:
/// "- [id] text".
pub open spec fn option_item(o: UserOption) -> Seq<char> {
    "- ["@ + o.id@ + "] "@ + o.text@
}

/// The text shown to the user: the question alone when there are no
/// options; otherwise the question, a blank line, one line per option, a
/// blank line and the prompt to answer.
pub open spec fn display_text(question: Seq<char>, options: Seq<UserOption>) -> Seq<char> {
    if options.len() == 0 {
        question
    } else {
        question + "\n\n"@ + join(options.map_values(|o: UserOption| option_line(o)), "\n"@)
            + "\n\nType an option ID or enter free text:"@
    }
}

/// The strings `f(o)` for each option, built by `line`.
fn option_lines(options: &Vec<UserOption>, dash: bool) -> (r: Vec<String>)
    ensures
        dash ==> strings_view(r@) == options@.map_values(|o: UserOption| option_item(o)),
        !dash ==> strings_view(r@) == options@.map_values(|o: UserOption| option_line(o)),
{
    let mut r: Vec<String> = Vec::new();
    let mut i: usize = 0;
    while i < options.len()
        invariant
            i <= options@.len(),
            r@.len() == i,
            forall|k: int|
                0 <= k < i ==> (#[trigger] r@[k])@ == if dash {
                    option_item(options@[k])
                } else {
                    option_line(options@[k])
                },
        decreases options@.len() - i,
    {
        let mut m = if dash {
            owned("- [")
        } else {
            owned("[")
        };
        push_str(&mut m, options[i].id.as_str());
        push_str(&mut m, "] ");
        push_str(&mut m, options[i].text.as_str());
        r.push(m);
        i = i + 1;
    }
    proof {
        if dash {
            assert(strings_view(r@) =~= options@.map_values(|o: UserOption| option_item(o)));
        } else {
            assert(strings_view(r@) =~= options@.map_values(|o: UserOption| option_line(o)));
        }
    }
    r
}

/// Formats a question and its options for display, as `display_text`
/// says.
pub fn format_for_display(question: &str, options: &Vec<UserOption>) -> (r: String)
    ensures
        r@ == display_text(question@, options@),
{
    if options.len() == 0 {
        return owned(question);
    }
    let lines = option_lines(options, false);
    let listed = join_strings(&lines, "\n");
    let mut r = owned(question);
    push_str(&mut r, "\n\n");
    push_str(&mut r, listed.as_str());
    push_str(&mut r, "\n\nType an option ID or enter free text:");
    r
}

/// A question worded without a model, with the options listed below.
#[derive(Debug, Clone)]
pub struct FormulatedQuestion {
    /// The question, with its context when there is one.
    pub question: String,
    /// "Available options:" followed by one line per option.
    pub formatted_options: String,
}

/// Words a question without a model: the question, followed by its
/// context after a blank line when the context is not empty; and the
/// options, one "- [id] text" line each, under "Available options:".
pub fn formulate_question_default(question: &str, options: &Vec<UserOption>, context: &str) -> (r:
    FormulatedQuestion)
    ensures
        r.question@ == if context@.len() == 0 {
            question@
        } else {
            question@ + "\n\nContext: "@ + context@
        },
        r.formatted_options@ == "Available options:\n"@ + join(
            options@.map_values(|o: UserOption| option_item(o)),
            "\n"@,
        ),
{
    let items = option_lines(options, true);
    let listed = join_strings(&items, "\n");
    let mut q = owned(question);
    if !context.is_empty() {
        push_str(&mut q, "\n\nContext: ");
        push_str(&mut q, context);
    }
    let mut f = owned("Available options:\n");
    push_str(&mut f, listed.as_str());
    FormulatedQuestion { question: q, formatted_options: f }
}

/// How the user's answer was read.
#[derive(Debug, Clone)]
pub enum UserAnswer {
    /// The answer named an option, by its id or its text.
    Chosen { id: String, text: String },
    /// The answer is taken as free text.
    FreeText { text: String },
}

/// The option at `k` is named by `response`, by its id or its text.
pub open spec fn names_option(options: Seq<UserOption>, k: int, response: Seq<char>) -> bool {
    options[k].id@ == response || options[k].text@ == response
}

/// `r` is the choice of the option `o`.
pub open spec fn chose(r: Result<UserAnswer, String>, o: UserOption) -> bool {
    match r {
        Ok(UserAnswer::Chosen { id, text }) => id@ == o.id@ && text@ == o.text@,
        _ => false,
    }
}

/// The message of an answer that names no option when free text is not
/// allowed.
pub open spec fn invalid_answer_message() -> Seq<char> {
    "Invalid response. Please select from the available options."@
}

/// `r` is how `response` reads against the options: the first option it
/// names, by id or text; otherwise free text, when free text is allowed or
/// there are no options; otherwise the error of an invalid answer.
pub open spec fn answer_read(
    response: Seq<char>,
    options: Seq<UserOption>,
    allow_free_text: bool,
    r: Result<UserAnswer, String>,
) -> bool {
    &&& (exists|k: int| 0 <= k < options.len() && names_option(options, k, response)) ==> (exists|
        k: int,
    |
        0 <= k < options.len() && names_option(options, k, response) && (forall|j: int|
            0 <= j < k ==> !names_option(options, j, response)) && chose(r, options[k]))
    &&& (forall|k: int| 0 <= k < options.len() ==> !names_option(options, k, response)) ==> {
        if allow_free_text || options.len() == 0 {
            r matches Ok(UserAnswer::FreeText { text }) && text@ == response
        } else {
            r matches Err(m) && m@ == invalid_answer_message()
        }
    }
}

/// Reads the user's answer: the first option it names, by id or text;
/// otherwise free text, when free text is allowed or there are no options;
/// otherwise an error.
pub fn handle_user_input(response: &str, options: &Vec<UserOption>, allow_free_text: bool) -> (r:
    Result<UserAnswer, String>)
    ensures
        answer_read(response@, options@, allow_free_text, r),
{
    let resp = owned(response);
    let mut i: usize = 0;
    while i < options.len()
        invariant
            i <= options@.len(),
            resp@ == response@,
            forall|j: int| 0 <= j < i ==> !names_option(options@, j, response@),
        decreases options@.len() - i,
    {
        if options[i].id == resp || options[i].text == resp {
            let r = Ok(UserAnswer::Chosen { id: options[i].id.clone(), text: options[i].text.clone() });
            assert(names_option(options@, i as int, response@));
            assert(chose(r, options@[i as int]));
            return r;
        }
        i = i + 1;
    }
    if allow_free_text || options.len() == 0 {
        Ok(UserAnswer::FreeText { text: resp })
    } else {
        Err(owned("Invalid response. Please select from the available options."))
    }
}

/// How waiting for the user's answer ended.
#[derive(Debug, Clone)]
pub enum AnswerWait {
    /// The user answered.
    Answered(String),
    /// The channel closed before an answer came.
    Closed,
    /// No answer came in time.
    TimedOut,
}

/// What the ask agent gives back after waiting `timeout_secs` for the
/// answer: the answer read as `handle_user_input` reads it, or a failure
/// when the channel closed or the time ran out.
pub fn answer_outcome(wait: AnswerWait, options: &Vec<UserOption>, allow_free_text: bool, timeout_secs: u64) -> (r:
    Result<UserAnswer, String>)
    ensures
        match wait {
            AnswerWait::Answered(a) => answer_read(a@, options@, allow_free_text, r),
            AnswerWait::Closed => r matches Err(m) && m@ == "Failed to receive user input"@,
            AnswerWait::TimedOut => r matches Err(m) && m@ == "User input timed out after "@
                + decimal(timeout_secs as nat) + " seconds"@,
        },
{
    match wait {
        AnswerWait::Answered(a) => handle_user_input(a.as_str(), options, allow_free_text),
        AnswerWait::Closed => Err(owned("Failed to receive user input")),
        AnswerWait::TimedOut => {
            let mut m = owned("User input timed out after ");
            push_decimal(&mut m, timeout_secs);
            push_str(&mut m, " seconds");
            Err(m)
        },
    }
}

/// The question to ask: the one given, or "How would you like to
/// proceed?".
pub fn base_question(given: Option<&str>) -> (r: String)
    ensures
        r@ == match given {
            Some(q) => q@,
            None => "How would you like to proceed?"@,
        },
{
    match given {
        Some(q) => owned(q),
        None => owned("How would you like to proceed?"),
    }
}

/// The line of an option in the prompt that asks a model to word a
/// question: "- id: text".
pub open spec fn prompt_option_line(o: UserOption) -> Seq<char> {
    "- "@ + o.id@ + ": "@ + o.text@
}

/// The prompt that asks a model to word a question: the base question,
/// the options, one line each, and the context.
pub open spec fn question_prompt_text(question: Seq<char>, options: Seq<UserOption>, context: Seq<char>) -> Seq<char> {
    "Base question: "@ + question + "\n\nAvailable options:\n"@ + join(
        options.map_values(|o: UserOption| prompt_option_line(o)),
        "\n"@,
    ) + "\n\nContext:\n"@ + context
        + "\n\nPlease formulate a clear, concise question that incorporates the context and presents the options effectively."@
}

/// Builds the prompt that asks a model to word a question, as
/// `question_prompt_text` says.
pub fn question_user_prompt(question: &str, options: &Vec<UserOption>, context: &str) -> (r: String)
    ensures
        r@ == question_prompt_text(question@, options@, context@),
{
    let mut lines: Vec<String> = Vec::new();
    let mut i: usize = 0;
    while i < options.len()
        invariant
            i <= options@.len(),
            strings_view(lines@) == options@.take(i as int).map_values(|o: UserOption| prompt_option_line(o)),
        decreases options@.len() - i,
    {
        let mut l = owned("- ");
        push_str(&mut l, options[i].id.as_str());
        push_str(&mut l, ": ");
        push_str(&mut l, options[i].text.as_str());
        let ghost before = strings_view(lines@);
        lines.push(l);
        assert(strings_view(lines@) =~= before.push(l@));
        assert(options@.take(i + 1).map_values(|o: UserOption| prompt_option_line(o)) =~= options@.take(
            i as int,
        ).map_values(|o: UserOption| prompt_option_line(o)).push(prompt_option_line(options@[i as int])));
        i = i + 1;
    }
    assert(options@.take(options@.len() as int) =~= options@);
    let listed = join_strings(&lines, "\n");
    let mut r = owned("Base question: ");
    push_str(&mut r, question);
    push_str(&mut r, "\n\nAvailable options:\n");
    push_str(&mut r, listed.as_str());
    push_str(&mut r, "\n\nContext:\n");
    push_str(&mut r, context);
    push_str(
        &mut r,
        "\n\nPlease formulate a clear, concise question that incorporates the context and presents the options effectively.",
    );
    r
}

/// The lines of the context that the ask agent gives the model: the task
/// if there is one, the session, the retry limit when it is not zero, and
/// the metadata when there is any.
pub open spec fn context_parts(
    task_id: Option<Seq<char>>,
    session_id: Seq<char>,
    max_retries: nat,
    metadata: Seq<(Seq<char>, Seq<char>)>,
) -> Seq<Seq<char>> {
    let task = match task_id {
        Some(t) => seq!["Task: "@ + t],
        None => seq![],
    };
    let retries = if max_retries > 0 {
        seq!["Max retries: "@ + decimal(max_retries)]
    } else {
        seq![]
    };
    let meta = if metadata.len() > 0 {
        seq![
            "Metadata: "@ + join(
                metadata.map_values(|kv: (Seq<char>, Seq<char>)| kv.0 + ": "@ + kv.1),
                ", "@,
            ),
        ]
    } else {
        seq![]
    };
    task + seq!["Session: "@ + session_id] + retries + meta
}

/// Builds the context text of a question from the agent's context: the
/// lines of `context_parts`, joined by line feeds. The metadata pairs come
/// in the order the caller lists them.
pub fn build_context(
    task_id: Option<&str>,
    session_id: &str,
    max_retries: usize,
    metadata: &Vec<(String, String)>,
) -> (r: String)
    ensures
        r@ == join(
            context_parts(
                match task_id {
                    Some(t) => Some(t@),
                    None => None,
                },
                session_id@,
                max_retries as nat,
                metadata@.map_values(|kv: (String, String)| (kv.0@, kv.1@)),
            ),
            "\n"@,
        ),
{
    let ghost md = metadata@.map_values(|kv: (String, String)| (kv.0@, kv.1@));
    let mut parts: Vec<String> = Vec::new();
    let ghost mut expect: Seq<Seq<char>> = seq![];
    match task_id {
        Some(t) => {
            let mut p = owned("Task: ");
            push_str(&mut p, t);
            parts.push(p);
            proof {
                expect = seq!["Task: "@ + t@];
            }
        },
        None => {},
    }
    let mut s = owned("Session: ");
    push_str(&mut s, session_id);
    parts.push(s);
    proof {
        expect = expect + seq!["Session: "@ + session_id@];
    }
    assert(strings_view(parts@) =~= expect);
    if max_retries > 0 {
        let mut m = owned("Max retries: ");
        push_decimal(&mut m, max_retries as u64);
        parts.push(m);
        proof {
            expect = expect + seq!["Max retries: "@ + decimal(max_retries as nat)];
        }
        assert(strings_view(parts@) =~= expect);
    }
    if metadata.len() > 0 {
        let mut pairs: Vec<String> = Vec::new();
        let mut i: usize = 0;
        while i < metadata.len()
            invariant
                i <= metadata@.len(),
                md == metadata@.map_values(|kv: (String, String)| (kv.0@, kv.1@)),
                pairs@.len() == i,
                forall|k: int|
                    0 <= k < i ==> (#[trigger] pairs@[k])@ == md[k].0 + ": "@ + md[k].1,
            decreases metadata@.len() - i,
        {
            let mut p = metadata[i].0.clone();
            push_str(&mut p, ": ");
            push_str(&mut p, metadata[i].1.as_str());
            pairs.push(p);
            i = i + 1;
        }
        let joined = join_strings(&pairs, ", ");
        let mut m = owned("Metadata: ");
        push_str(&mut m, joined.as_str());
        assert(strings_view(pairs@) =~= md.map_values(
            |kv: (Seq<char>, Seq<char>)| kv.0 + ": "@ + kv.1,
        ));
        parts.push(m);
        proof {
            expect = expect + seq![
                "Metadata: "@ + join(
                    md.map_values(|kv: (Seq<char>, Seq<char>)| kv.0 + ": "@ + kv.1),
                    ", "@,
                ),
            ];
        }
        assert(strings_view(parts@) =~= expect);
    }
    assert(expect =~= context_parts(
        match task_id {
            Some(t) => Some(t@),
            None => None,
        },
        session_id@,
        max_retries as nat,
        md,
    ));
    join_strings(&parts, "\n")
}

} // verus!
