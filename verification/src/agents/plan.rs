//! The plan agent's own text and choices: the prompts it gives the model,
//! how it reads the model's clarifying questions, the rounds of
//! clarification, and where a plan is saved.
use vstd::prelude::*;
use crate::llm::{Message, Role};
use crate::text::{contains, decimal, join, join_strings, lines, owned, push_decimal, push_str, trim};
use crate::types::strings_view;

verus! {

/// The part of the system prompt that every plan request has.
pub const PLAN_SYSTEM_PROMPT: &'static str = "You are Telisq's Plan Agent, responsible for creating detailed implementation plans from user requirements.\n\n## Your Role\n1. Understand user requirements through clarification rounds\n2. Break down complex requirements into atomic, testable tasks\n3. Generate a structured plan in the required markdown format\n\n## Plan Format Requirements\nEach task in the plan MUST follow this exact format:\n- [ ] Task title (sequential_number)\n  Files: path/to/file1, path/to/file2\n  Contract: Clear, testable contract description\n  Depends on: task_number (if applicable)\n\n## Rules\n- Task IDs must be sequential integers starting from 1\n- Each task should be atomic and independently testable\n- File paths should be relative to the project root\n- Contracts should be specific and verifiable\n- Dependencies should reference other task IDs\n- Avoid duplicate implementations - check existing codebase first\n\n## Output Format\nGenerate ONLY the plan content in the specified format. Do not include explanations or commentary.";

/// The system prompt of the clarification rounds.
pub const CLARIFICATION_PROMPT: &'static str = "You are a requirements clarification assistant. Your goal is to understand the user's requirements thoroughly before creating an implementation plan.\n\nAsk focused, specific questions that will help you understand:\n1. The exact scope of work needed\n2. File locations and naming conventions\n3. Dependencies and constraints\n4. Expected behavior and edge cases\n5. Testing requirements\n\nAfter each user answer, assess your confidence in understanding the requirements (0.0-1.0).\nIf confidence is below 0.8, ask another clarifying question.\nIf you have enough information, respond with \"CLARIFICATION_COMPLETE\" and list the key requirements you've understood.";

/// What a search of the codebase found for a plan.
#[derive(Debug, Clone)]
pub struct CodebaseContext {
    /// The files found, each once.
    pub relevant_files: Vec<String>,
    /// The kinds of patterns found.
    pub patterns_summary: String,
    /// The results, as text.
    pub raw_results: String,
}

/// The system prompt for a plan: the fixed part, and, when the codebase
/// was searched, the files, patterns and results found.
pub open spec fn plan_prompt_text(files: Option<(Seq<Seq<char>>, Seq<char>, Seq<char>)>) -> Seq<char> {
    PLAN_SYSTEM_PROMPT@ + match files {
        Some((f, p, r)) => "\n\n## Existing Codebase Context\nThe following relevant files and patterns were found in the codebase:\n\n### Relevant Files\n"@ + join(f, "\n"@) + "\n\n### Patterns and Conventions\n"@ + p + "\n\n### Search Results Summary\n"@ + r + "\n\nUse this context to avoid duplicating existing implementations and to follow established patterns."@,
        None => Seq::<char>::empty(),
    }
}

/// The system prompt for a plan, as `plan_prompt_text` says.
pub fn build_system_prompt(codebase_context: Option<&CodebaseContext>) -> (r: String)
    ensures
        r@ == plan_prompt_text(
            match codebase_context {
                Some(c) => Some((strings_view(c.relevant_files@), c.patterns_summary@, c.raw_results@)),
                None => None,
            },
        ),
{
    let mut r = owned(PLAN_SYSTEM_PROMPT);
    match codebase_context {
        Some(c) => {
            push_str(&mut r, "\n\n## Existing Codebase Context\nThe following relevant files and patterns were found in the codebase:\n\n### Relevant Files\n");
            let files = join_strings(&c.relevant_files, "\n");
            push_str(&mut r, files.as_str());
            push_str(&mut r, "\n\n### Patterns and Conventions\n");
            push_str(&mut r, c.patterns_summary.as_str());
            push_str(&mut r, "\n\n### Search Results Summary\n");
            push_str(&mut r, c.raw_results.as_str());
            push_str(&mut r, "\n\nUse this context to avoid duplicating existing implementations and to follow established patterns.");
        },
        None => {},
    }
    r
}

/// The text that asks for a plan: the task, the context of the tools if
/// there is any, and the request for the format.
pub open spec fn plan_request_text(task: Seq<char>, tool_context: Seq<char>) -> Seq<char> {
    "Generate an implementation plan for the following task:\n\n"@ + task + "\n\n"@ + if tool_context.len() == 0 {
        Seq::<char>::empty()
    } else {
        "## Additional Context from MCP Tools\n"@ + tool_context + "\n\n"@
    } + "Please generate the plan in the required format."@
}

/// The text that asks for a plan, as `plan_request_text` says.
pub fn plan_request(task: &str, tool_context: &str) -> (r: String)
    ensures
        r@ == plan_request_text(task@, tool_context@),
{
    let mut r = owned("Generate an implementation plan for the following task:\n\n");
    push_str(&mut r, task);
    push_str(&mut r, "\n\n");
    if !tool_context.is_empty() {
        push_str(&mut r, "## Additional Context from MCP Tools\n");
        push_str(&mut r, tool_context);
        push_str(&mut r, "\n\n");
    }
    push_str(&mut r, "Please generate the plan in the required format.");
    r
}

/// The task to plan: the task's identifier, or a general request.
pub fn task_description(task_id: Option<&str>) -> (r: String)
    ensures
        r@ == match task_id {
            Some(t) => t@,
            None => "Implement the user's requested feature"@,
        },
{
    match task_id {
        Some(t) => owned(t),
        None => owned("Implement the user's requested feature"),
    }
}

/// Where the plan of a session is saved: "dir/plan-session.md".
pub fn plan_file_path(plans_dir: &str, session_id: &str) -> (r: String)
    ensures
        r@ == plans_dir@ + "/plan-"@ + session_id@ + ".md"@,
{
    let mut r = owned(plans_dir);
    push_str(&mut r, "/plan-");
    push_str(&mut r, session_id);
    push_str(&mut r, ".md");
    r
}

/// The first message to the model in the clarification rounds.
pub open spec fn clarification_opening(task: Seq<char>) -> Seq<char> {
    "Here is the task/goal I need to plan: "@ + task
        + "\n\nPlease start by asking your first clarifying question."@
}

/// The messages of the rounds so far: each question as the model's, then
/// its answer, if there is one, as the user's.
pub open spec fn round_messages(rounds: Seq<(Seq<char>, Option<Seq<char>>)>) -> Seq<(Role, Seq<char>)>
    decreases rounds.len(),
{
    if rounds.len() == 0 {
        seq![]
    } else {
        let last = rounds.last();
        round_messages(rounds.drop_last()) + seq![(Role::Assistant, last.0)] + match last.1 {
            Some(a) => seq![(Role::User, a)],
            None => seq![],
        }
    }
}

/// The role and text of each message.
pub open spec fn messages_view(v: Seq<Message>) -> Seq<(Role, Seq<char>)> {
    v.map_values(|m: Message| (m.role, m.content@))
}

/// The messages of a clarification round: the instructions, the task, and
/// the rounds so far.
pub fn clarification_messages(task: &str, rounds: &Vec<(String, Option<String>)>) -> (r: Vec<Message>)
    ensures
        messages_view(r@) == seq![
            (Role::System, CLARIFICATION_PROMPT@),
            (Role::User, clarification_opening(task@)),
        ] + round_messages(rounds@.map_values(|x: (String, Option<String>)| (x.0@, crate::types::opt_view(x.1)))),
{
    let ghost rv = rounds@.map_values(|x: (String, Option<String>)| (x.0@, crate::types::opt_view(x.1)));
    let mut r: Vec<Message> = Vec::new();
    r.push(Message::system(CLARIFICATION_PROMPT));
    let mut opening = owned("Here is the task/goal I need to plan: ");
    push_str(&mut opening, task);
    push_str(&mut opening, "\n\nPlease start by asking your first clarifying question.");
    r.push(Message::user(opening.as_str()));
    let ghost head = seq![(Role::System, CLARIFICATION_PROMPT@), (Role::User, clarification_opening(task@))];
    assert(messages_view(r@) =~= head);
    let mut i: usize = 0;
    while i < rounds.len()
        invariant
            i <= rounds@.len(),
            rv == rounds@.map_values(|x: (String, Option<String>)| (x.0@, crate::types::opt_view(x.1))),
            messages_view(r@) == head + round_messages(rv.take(i as int)),
        decreases rounds@.len() - i,
    {
        assert(rv.take(i + 1).drop_last() =~= rv.take(i as int));
        let ghost before = messages_view(r@);
        r.push(Message::assistant(rounds[i].0.as_str()));
        match &rounds[i].1 {
            Some(a) => {
                r.push(Message::user(a.as_str()));
                assert(messages_view(r@) =~= before + seq![(Role::Assistant, rv[i as int].0)] + seq![
                    (Role::User, a@),
                ]);
            },
            None => {
                assert(messages_view(r@) =~= before + seq![(Role::Assistant, rv[i as int].0)] + seq![]);
            },
        }
        i = i + 1;
    }
    assert(rv.take(rv.len() as int) =~= rv);
    r
}


// ------------------------------------------------------------------
// Reading the model's clarifying question
// ------------------------------------------------------------------

/// The line speaks of the model's confidence, in any case.
pub open spec fn mentions_confidence(line: Seq<char>) -> bool {
    contains(crate::text::unicode_lowercase(line), "confidence"@)
}

/// The text of the confidence on the first line of `ls` that speaks of it:
/// what follows the first colon, up to the next one, trimmed; none when no
/// line speaks of it or that line has no colon.
pub open spec fn confidence_in(ls: Seq<Seq<char>>) -> Option<Seq<char>>
    decreases ls.len(),
{
    if ls.len() == 0 {
        None
    } else if mentions_confidence(ls[0]) {
        let p = crate::text::split(ls[0], ':');
        if p.len() > 1 {
            Some(trim(p[1]))
        } else {
            None
        }
    } else {
        confidence_in(ls.drop_first())
    }
}

/// The lines of the question: those that are not blank and do not speak
/// of the confidence.
pub open spec fn question_lines(ls: Seq<Seq<char>>) -> Seq<Seq<char>>
    decreases ls.len(),
{
    if ls.len() == 0 {
        seq![]
    } else {
        let prev = question_lines(ls.drop_last());
        let l = ls.last();
        if trim(l).len() > 0 && !mentions_confidence(l) {
            prev.push(l)
        } else {
            prev
        }
    }
}

/// How the model answered a clarification round.
#[derive(Debug, Clone)]
pub enum ClarificationReply {
    /// The model says the requirements are clear.
    Complete,
    /// The model asks this question, and may give its confidence as text.
    Question { question: String, confidence_text: Option<String> },
}

/// Reads the model's answer in a clarification round: complete when it
/// says "CLARIFICATION_COMPLETE"; otherwise its question (the lines that
/// are not blank and do not speak of the confidence, joined by line feeds)
/// and the text of its confidence, as `confidence_in` finds it.
pub fn clarification_reply(response: &str) -> (r: ClarificationReply)
    ensures
        contains(response@, "CLARIFICATION_COMPLETE"@) ==> r is Complete,
        !contains(response@, "CLARIFICATION_COMPLETE"@) ==> (r matches ClarificationReply::Question {
            question,
            confidence_text,
        } && question@ == join(question_lines(lines(response@)), "\n"@) && crate::types::opt_view(
            confidence_text,
        ) == confidence_in(lines(response@))),
{
    let c = crate::text::chars_of(response);
    let k = crate::text::chars_of("CLARIFICATION_COMPLETE");
    if crate::text::contains_exec(&c, &k) {
        return ClarificationReply::Complete;
    }
    let ranges = crate::text::line_ranges(&c);
    let ghost ls = lines(c@);
    let mut qs: Vec<String> = Vec::new();
    let mut conf: Option<String> = None;
    let mut found = false;
    let mut i: usize = 0;
    assert(ls.skip(0) =~= ls);
    assert(ls.take(0) =~= Seq::<Seq<char>>::empty());
    while i < ranges.len()
        invariant
            i <= ranges@.len(),
            ranges@.len() == ls.len(),
            ls == lines(c@),
            c@ == response@,
            forall|j: int|
                0 <= j < ranges@.len() ==> {
                    &&& (#[trigger] ranges@[j]).0 <= ranges@[j].1 <= c@.len()
                    &&& c@.subrange(ranges@[j].0 as int, ranges@[j].1 as int) == ls[j]
                },
            strings_view(qs@) == question_lines(ls.take(i as int)),
            found ==> crate::types::opt_view(conf) == confidence_in(ls),
            !found ==> confidence_in(ls) == confidence_in(ls.skip(i as int)) && conf is None,
        decreases ranges@.len() - i,
    {
        let (lo, hi) = ranges[i];
        let line = crate::text::string_of(&c, lo, hi);
        let low = crate::text::to_lowercase(line.as_str());
        let lc = crate::text::chars_of(low.as_str());
        let word = crate::text::chars_of("confidence");
        let mentions = crate::text::contains_exec(&lc, &word);
        assert(mentions == mentions_confidence(ls[i as int]));
        assert(ls.take(i + 1).drop_last() =~= ls.take(i as int));
        if !crate::text::is_blank(&c, lo, hi) && !mentions {
            let ghost before = strings_view(qs@);
            qs.push(line);
            assert(strings_view(qs@) =~= before.push(ls[i as int]));
        }
        if !found {
            assert(ls.skip(i as int)[0] == ls[i as int]);
            assert(ls.skip(i as int).drop_first() =~= ls.skip(i + 1));
            if mentions {
                found = true;
                let pieces = crate::text::split_exec(&c, lo, hi, ':');
                if pieces.len() > 1 {
                    let pc = crate::text::chars_of(pieces[1].as_str());
                    let (a, b) = crate::text::trim_range(&pc, 0, pc.len());
                    assert(pc@.subrange(0, pc@.len() as int) =~= pc@);
                    conf = Some(crate::text::string_of(&pc, a, b));
                }
            }
        }
        i = i + 1;
    }
    assert(ls.take(ls.len() as int) =~= ls);
    if !found {
        assert(ls.skip(ls.len() as int) =~= Seq::<Seq<char>>::empty());
    }
    let question = join_strings(&qs, "\n");
    ClarificationReply::Question { question, confidence_text: conf }
}


// ------------------------------------------------------------------
// The rounds of clarification
// ------------------------------------------------------------------

/// How a round's request to the model went.
#[derive(Debug, Clone)]
pub enum RoundReport {
    /// The request failed with this error.
    Failed(String),
    /// The model answered this; `confident` says whether the confidence it
    /// gave meets the agent's threshold.
    Replied { content: String, confident: bool },
}

/// What follows a round.
#[derive(Debug)]
pub enum RoundNext {
    /// Send these messages to the model for the next round.
    Ask(Vec<Message>),
    /// The rounds are over after this many.
    Done { rounds: usize },
    /// The report came when no round was running; nothing changed.
    Ignore,
}

/// The mathematical value of what follows a round.
pub enum RoundNextView {
    Ask(Seq<(Role, Seq<char>)>),
    Done(nat),
    Ignore,
}

/// The mathematical value of the rounds.
pub struct RoundsView {
    pub task: Seq<char>,
    pub max_rounds: nat,
    /// The rounds started so far.
    pub round: nat,
    /// The questions asked (with no answer yet).
    pub history: Seq<(Seq<char>, Option<Seq<char>>)>,
    pub done: bool,
}

/// The messages of the next round.
pub open spec fn round_request(v: RoundsView) -> Seq<(Role, Seq<char>)> {
    seq![(Role::System, CLARIFICATION_PROMPT@), (Role::User, clarification_opening(v.task))]
        + round_messages(v.history)
}

/// The next round, or the end when every round was had.
pub open spec fn next_round(v: RoundsView) -> (RoundsView, RoundNextView) {
    if v.round < v.max_rounds {
        let w = RoundsView { round: v.round + 1, ..v };
        (w, RoundNextView::Ask(round_request(w)))
    } else {
        (RoundsView { done: true, ..v }, RoundNextView::Done(v.round))
    }
}

/// The progress line of a round that the model answered.
pub open spec fn round_line(v: RoundsView, what: Seq<char>) -> Seq<char> {
    "Clarification round "@ + decimal(v.round) + "/"@ + decimal(v.max_rounds) + ": "@ + what
}

/// The first round, unless there are none. Once begun, nothing changes.
pub open spec fn rounds_begin(v: RoundsView) -> (RoundsView, RoundNextView) {
    if v.done || v.round > 0 {
        (v, RoundNextView::Ignore)
    } else {
        next_round(v)
    }
}

/// The step after a round, with its progress lines: a failed request is
/// reported and the next round follows; an answer is reported, and ends
/// the rounds when the model says the requirements are clear or its
/// confidence meets the threshold; otherwise its question is kept and the
/// next round follows.
pub open spec fn rounds_step(v: RoundsView, r: RoundReport) -> (RoundsView, Seq<Seq<char>>, RoundNextView) {
    if v.done || v.round == 0 {
        (v, seq![], RoundNextView::Ignore)
    } else {
        match r {
            RoundReport::Failed(e) => {
                let (w, n) = next_round(v);
                (w, seq!["Clarification round "@ + decimal(v.round) + " failed: "@ + e@], n)
            },
            RoundReport::Replied { content, confident } => if contains(
                content@,
                "CLARIFICATION_COMPLETE"@,
            ) {
                (
                    RoundsView { done: true, ..v },
                    seq![round_line(v, "Requirements understood"@)],
                    RoundNextView::Done(v.round),
                )
            } else {
                let q = join(question_lines(lines(content@)), "\n"@);
                if confident {
                    (RoundsView { done: true, ..v }, seq![round_line(v, q)], RoundNextView::Done(v.round))
                } else {
                    let (w, n) = next_round(RoundsView { history: v.history.push((q, None)), ..v });
                    (w, seq![round_line(v, q)], n)
                }
            },
        }
    }
}

/// The rounds never go past the limit: a step starts at most one more
/// round, and only while the limit is not reached.
pub proof fn lemma_rounds_bounded(v: RoundsView, r: RoundReport)
    requires
        v.round <= v.max_rounds,
    ensures
        rounds_begin(v).0.round <= v.max_rounds,
        rounds_step(v, r).0.round <= v.max_rounds,
        rounds_step(v, r).0.round <= v.round + 1,
        rounds_step(v, r).2 matches RoundNextView::Done(n) ==> n == v.round,
{
}

/// The rounds in which the plan agent clarifies a task with the model.
#[derive(Debug)]
pub struct ClarificationRounds {
    task: String,
    max_rounds: usize,
    round: usize,
    history: Vec<(String, Option<String>)>,
    done: bool,
}

impl View for ClarificationRounds {
    type V = RoundsView;

    closed spec fn view(&self) -> RoundsView {
        RoundsView {
            task: self.task@,
            max_rounds: self.max_rounds as nat,
            round: self.round as nat,
            history: self.history@.map_values(
                |x: (String, Option<String>)| (x.0@, crate::types::opt_view(x.1)),
            ),
            done: self.done,
        }
    }
}

impl View for RoundNext {
    type V = RoundNextView;

    open spec fn view(&self) -> RoundNextView {
        match self {
            RoundNext::Ask(m) => RoundNextView::Ask(messages_view(m@)),
            RoundNext::Done { rounds } => RoundNextView::Done(*rounds as nat),
            RoundNext::Ignore => RoundNextView::Ignore,
        }
    }
}

impl ClarificationRounds {
    /// The invariant: no more rounds than allowed.
    pub closed spec fn wf(&self) -> bool {
        self.round <= self.max_rounds
    }

    /// No round yet for the task.
    pub fn new(task: &str, max_rounds: usize) -> (r: ClarificationRounds)
        ensures
            r.wf(),
            r@ == (RoundsView { task: task@, max_rounds: max_rounds as nat, round: 0, history: seq![], done: false }),
    {
        let r = ClarificationRounds { task: owned(task), max_rounds, round: 0, history: Vec::new(), done: false };
        assert(r@.history =~= Seq::<(Seq<char>, Option<Seq<char>>)>::empty());
        r
    }

    /// The questions asked so far.
    pub fn history(&self) -> (r: &Vec<(String, Option<String>)>)
        ensures
            r@.map_values(|x: (String, Option<String>)| (x.0@, crate::types::opt_view(x.1))) == self@.history,
    {
        &self.history
    }

    fn next(&mut self) -> (r: RoundNext)
        requires
            old(self).wf(),
        ensures
            final(self).wf(),
            (final(self)@, r@) == next_round(old(self)@),
    {
        if self.round < self.max_rounds {
            self.round = self.round + 1;
            let m = clarification_messages(self.task.as_str(), &self.history);
            RoundNext::Ask(m)
        } else {
            self.done = true;
            RoundNext::Done { rounds: self.round }
        }
    }

    /// The first round, unless there are none. Once begun, the call is
    /// ignored.
    pub fn begin(&mut self) -> (r: RoundNext)
        requires
            old(self).wf(),
        ensures
            final(self).wf(),
            (final(self)@, r@) == rounds_begin(old(self)@),
    {
        if self.done || self.round > 0 {
            return RoundNext::Ignore;
        }
        self.next()
    }

    /// The step after a round, with its progress lines, as `rounds_step`
    /// says.
    pub fn report(&mut self, r: RoundReport) -> (s: (Vec<String>, RoundNext))
        requires
            old(self).wf(),
        ensures
            final(self).wf(),
            ({
                let (w, p, n) = rounds_step(old(self)@, r);
                final(self)@ == w && strings_view(s.0@) == p && s.1@ == n
            }),
    {
        let mut p: Vec<String> = Vec::new();
        if self.done || self.round == 0 {
            assert(strings_view(p@) =~= Seq::<Seq<char>>::empty());
            return (p, RoundNext::Ignore);
        }
        match r {
            RoundReport::Failed(e) => {
                let mut m = owned("Clarification round ");
                push_decimal(&mut m, self.round as u64);
                push_str(&mut m, " failed: ");
                push_str(&mut m, e.as_str());
                p.push(m);
                let n = self.next();
                assert(strings_view(p@) =~= seq![m@]);
                (p, n)
            },
            RoundReport::Replied { content, confident } => {
                let mut m = owned("Clarification round ");
                push_decimal(&mut m, self.round as u64);
                push_str(&mut m, "/");
                push_decimal(&mut m, self.max_rounds as u64);
                push_str(&mut m, ": ");
                match clarification_reply(content.as_str()) {
                    ClarificationReply::Complete => {
                        push_str(&mut m, "Requirements understood");
                        p.push(m);
                        self.done = true;
                        assert(strings_view(p@) =~= seq![m@]);
                        (p, RoundNext::Done { rounds: self.round })
                    },
                    ClarificationReply::Question { question, .. } => {
                        push_str(&mut m, question.as_str());
                        p.push(m);
                        assert(strings_view(p@) =~= seq![m@]);
                        if confident {
                            self.done = true;
                            (p, RoundNext::Done { rounds: self.round })
                        } else {
                            let ghost h = self@.history;
                            self.history.push((question, None));
                            assert(self@.history =~= h.push((question@, None)));
                            let n = self.next();
                            (p, n)
                        }
                    },
                }
            },
        }
    }
}

} // verus!
