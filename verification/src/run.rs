//! One run of the orchestrator over its task board, as a machine that the
//! caller drives: each step takes what the outside world reported (a task
//! ended, the review ended, the user answered, the fixes were applied) and
//! gives back the next thing to do and the events to announce.
//!
//! The machine decides everything the run decides: which tasks run and in
//! which order, what their end does to the board, what the user is asked
//! and what each answer leads to, when the final review runs and when the
//! run is over. Running agents and asking the user happen outside.
use vstd::prelude::*;
use crate::brief::{AgentIssue, AskBrief, CodeBrief, ReviewBrief};
use crate::orchestrator::{
    after_skipping_blocked, answered, completed_contracts, completed_files, is_blocked,
    ready_ids, same_but_status, statuses_replaced, waiting_ids, waits_on, TaskBoard,
};
use crate::plan::graph::index_of_id;
use crate::session::{uuid_text, EventView, OrchestratorEvent};
use crate::text::{decimal, owned, push_str};
use crate::types::{opt_view, strings_view, TaskSpecView, TaskStatus};

verus! {

// ------------------------------------------------------------------
// Values
// ------------------------------------------------------------------

/// The mathematical value of an issue found by the review.
pub struct AgentIssueView {
    pub issue_type: Seq<char>,
    pub title: Seq<char>,
    pub description: Seq<char>,
    pub file_path: Option<Seq<char>>,
}

/// The value of one issue.
pub open spec fn agent_issue_view(i: AgentIssue) -> AgentIssueView {
    AgentIssueView {
        issue_type: i.issue_type@,
        title: i.title@,
        description: i.description@,
        file_path: opt_view(i.file_path),
    }
}

/// The values of a sequence of issues.
pub open spec fn issues_view(v: Seq<AgentIssue>) -> Seq<AgentIssueView> {
    v.map_values(|i: AgentIssue| agent_issue_view(i))
}

/// The mathematical value of a question to the user.
pub struct AskView {
    pub question: Seq<char>,
    pub options: Option<Seq<Seq<char>>>,
    pub allow_free_text: bool,
    pub context: Option<Seq<char>>,
}

/// The value of an ask brief.
pub open spec fn ask_view(b: AskBrief) -> AskView {
    AskView {
        question: b.question@,
        options: match b.options {
            Some(o) => Some(strings_view(o@)),
            None => None,
        },
        allow_free_text: b.allow_free_text,
        context: opt_view(b.context),
    }
}

/// The mathematical value of a brief for a code agent.
pub struct CodeView {
    pub task_spec: Seq<char>,
    pub files: Seq<Seq<char>>,
    pub plan_context: Option<Seq<char>>,
    pub contracts: Seq<Seq<char>>,
}

/// The value of a code brief.
pub open spec fn code_view(b: CodeBrief) -> CodeView {
    CodeView {
        task_spec: b.task_spec@,
        files: strings_view(b.files@),
        plan_context: opt_view(b.plan_context),
        contracts: strings_view(b.contracts@),
    }
}

/// The mathematical value of a brief for the review agent.
pub struct ReviewView {
    pub task_spec: Seq<char>,
    pub changed_files: Seq<Seq<char>>,
    pub contracts: Seq<Seq<char>>,
}

/// What the run waits for.
#[derive(Debug)]
pub enum RunPhase {
    /// Not started.
    Idle,
    /// The task `queue[next]` runs; the rest of the queue follows it.
    AwaitingTask { queue: Vec<String>, next: usize },
    /// The task `queue[next]` failed; the user decides what follows.
    AwaitingFailureAnswer { queue: Vec<String>, next: usize },
    /// Every task is completed and the final review runs.
    AwaitingReview,
    /// The review found these issues; the user decides what follows.
    AwaitingReviewAnswer { issues: Vec<AgentIssue> },
    /// Code agents fix the blocking issues.
    AwaitingFixes,
    /// No task can run though some are not done; the user decides.
    AwaitingDeadlockAnswer,
    /// The run is over.
    Finished,
}

/// The mathematical value of a phase.
pub enum PhaseView {
    Idle,
    AwaitingTask { queue: Seq<Seq<char>>, next: int },
    AwaitingFailureAnswer { queue: Seq<Seq<char>>, next: int },
    AwaitingReview,
    AwaitingReviewAnswer { issues: Seq<AgentIssueView> },
    AwaitingFixes,
    AwaitingDeadlockAnswer,
    Finished,
}

impl View for RunPhase {
    type V = PhaseView;

    open spec fn view(&self) -> PhaseView {
        match self {
            RunPhase::Idle => PhaseView::Idle,
            RunPhase::AwaitingTask { queue, next } => PhaseView::AwaitingTask {
                queue: strings_view(queue@),
                next: *next as int,
            },
            RunPhase::AwaitingFailureAnswer { queue, next } => PhaseView::AwaitingFailureAnswer {
                queue: strings_view(queue@),
                next: *next as int,
            },
            RunPhase::AwaitingReview => PhaseView::AwaitingReview,
            RunPhase::AwaitingReviewAnswer { issues } => PhaseView::AwaitingReviewAnswer {
                issues: issues_view(issues@),
            },
            RunPhase::AwaitingFixes => PhaseView::AwaitingFixes,
            RunPhase::AwaitingDeadlockAnswer => PhaseView::AwaitingDeadlockAnswer,
            RunPhase::Finished => PhaseView::Finished,
        }
    }
}

/// What the outside world reports to the run.
#[derive(Debug)]
pub enum RunEvent {
    /// The running task's agent gave this back.
    TaskEnded(crate::agents::AgentResult),
    /// The review agent gave this back.
    ReviewEnded(crate::brief::AgentResult),
    /// The user answered (or gave no usable answer).
    Answered(Option<String>),
    /// The code agents given the blocking issues are done.
    FixesApplied,
}

/// How a task ended, as the run sees it.
pub enum TaskEndView {
    Succeeded,
    Failed(Seq<char>),
    NeedsInput,
}

/// How the review ended, as the run sees it.
pub enum ReviewEndView {
    Approved,
    Issues(Seq<AgentIssueView>),
    Other,
}

/// How an agent's result ends a task.
pub open spec fn task_end_of(r: crate::agents::AgentResult) -> TaskEndView {
    match r {
        crate::agents::AgentResult::Success(_) => TaskEndView::Succeeded,
        crate::agents::AgentResult::Failure(m) => TaskEndView::Failed(m@),
        crate::agents::AgentResult::UserInputRequired(_) => TaskEndView::NeedsInput,
    }
}

/// How the review agent's result ends the review.
pub open spec fn review_end_of(r: crate::brief::AgentResult) -> ReviewEndView {
    match r {
        crate::brief::AgentResult::Success { .. } => ReviewEndView::Approved,
        crate::brief::AgentResult::Approved { .. } => ReviewEndView::Approved,
        crate::brief::AgentResult::IssuesFound { issues } => ReviewEndView::Issues(issues_view(issues@)),
        _ => ReviewEndView::Other,
    }
}

/// The mathematical value of an event reported to the run.
pub enum RunEventView {
    TaskEnded(TaskEndView),
    ReviewEnded(ReviewEndView),
    Answered(Option<Seq<char>>),
    FixesApplied,
}

impl View for RunEvent {
    type V = RunEventView;

    open spec fn view(&self) -> RunEventView {
        match self {
            RunEvent::TaskEnded(r) => RunEventView::TaskEnded(task_end_of(*r)),
            RunEvent::ReviewEnded(r) => RunEventView::ReviewEnded(review_end_of(*r)),
            RunEvent::Answered(a) => RunEventView::Answered(opt_view(*a)),
            RunEvent::FixesApplied => RunEventView::FixesApplied,
        }
    }
}

/// What the caller is to do next.
#[derive(Debug)]
pub enum RunAction {
    /// Run the named task's agent, then report how it ended.
    RunTask(String),
    /// Run the review agent with this brief, then report how it ended.
    Review(ReviewBrief),
    /// Ask the user, then report the answer.
    Ask(AskBrief),
    /// Give each brief to a code agent, then report that they are done.
    Fix(Vec<CodeBrief>),
    /// Persist the session as stopped: the run is over.
    Stop,
    /// The run is over.
    Finish,
    /// The report did not fit what the run waits for; nothing changed.
    Ignore,
}

/// The mathematical value of an action.
pub enum ActionView {
    RunTask(Seq<char>),
    Review(ReviewView),
    Ask(AskView),
    Fix(Seq<CodeView>),
    Stop,
    Finish,
    Ignore,
}

impl View for RunAction {
    type V = ActionView;

    open spec fn view(&self) -> ActionView {
        match self {
            RunAction::RunTask(id) => ActionView::RunTask(id@),
            RunAction::Review(b) => ActionView::Review(
                ReviewView {
                    task_spec: b.task_spec@,
                    changed_files: strings_view(b.changed_files@),
                    contracts: strings_view(b.contracts@),
                },
            ),
            RunAction::Ask(b) => ActionView::Ask(ask_view(*b)),
            RunAction::Fix(v) => ActionView::Fix(v@.map_values(|b: CodeBrief| code_view(b))),
            RunAction::Stop => ActionView::Stop,
            RunAction::Finish => ActionView::Finish,
            RunAction::Ignore => ActionView::Ignore,
        }
    }
}

/// The values of a sequence of events.
pub open spec fn events_view(v: Seq<OrchestratorEvent>) -> Seq<EventView> {
    v.map_values(|e: OrchestratorEvent| e@)
}

/// One step's result: what to do and what to announce, in order.
#[derive(Debug)]
pub struct RunStep {
    pub action: RunAction,
    pub events: Vec<OrchestratorEvent>,
}

/// The mathematical value of a run.
pub struct RunView {
    pub board: Seq<TaskSpecView>,
    pub continue_from: Option<Seq<char>>,
    pub session_id: u128,
    pub phase: PhaseView,
    /// The tasks that succeeded, each once.
    pub completed: Seq<Seq<char>>,
    /// The tasks that failed, each once.
    pub failed: Seq<Seq<char>>,
}

/// A step of the run: the run after it, the events it announces and the
/// action it asks for.
pub struct StepView {
    pub run: RunView,
    pub events: Seq<EventView>,
    pub action: ActionView,
}

// ------------------------------------------------------------------
// The board after a step
// ------------------------------------------------------------------

/// The board with the task `id` (if it is there) given status `s`.
pub open spec fn with_status(ts: Seq<TaskSpecView>, id: Seq<char>, s: TaskStatus) -> Seq<
    TaskSpecView,
> {
    let k = index_of_id(ts, id);
    if k >= 0 {
        ts.update(k, TaskSpecView { status: s, ..ts[k] })
    } else {
        ts
    }
}

/// The board with each task's status replaced by `f` of its position.
pub open spec fn restatus(ts: Seq<TaskSpecView>, f: spec_fn(int) -> TaskStatus) -> Seq<
    TaskSpecView,
> {
    Seq::new(ts.len(), |i: int| TaskSpecView { status: f(i), ..ts[i] })
}

/// The board with every in-progress task back to pending.
pub open spec fn in_progress_reset(ts: Seq<TaskSpecView>) -> Seq<TaskSpecView> {
    restatus(
        ts,
        |i: int|
            if ts[i].status == TaskStatus::InProgress {
                TaskStatus::Pending
            } else {
                ts[i].status
            },
    )
}

/// The board with every pending task that waits on `id` skipped.
pub open spec fn waiting_skipped(ts: Seq<TaskSpecView>, id: Seq<char>) -> Seq<TaskSpecView> {
    restatus(
        ts,
        |i: int|
            if waits_on(ts[i], id) {
                TaskStatus::Skipped
            } else {
                ts[i].status
            },
    )
}

/// The board with every pending task that is blocked skipped.
pub open spec fn blocked_skipped(ts: Seq<TaskSpecView>) -> Seq<TaskSpecView> {
    restatus(
        ts,
        |i: int|
            if ts[i].status == TaskStatus::Pending && is_blocked(ts, i) {
                TaskStatus::Skipped
            } else {
                ts[i].status
            },
    )
}

/// Every task of the board is completed (true of an empty board).
pub open spec fn all_completed(ts: Seq<TaskSpecView>) -> bool {
    forall|i: int| 0 <= i < ts.len() ==> ts[i].status == TaskStatus::Completed
}

/// Some task of the board is neither completed, failed nor skipped.
pub open spec fn some_incomplete(ts: Seq<TaskSpecView>) -> bool {
    exists|i: int|
        0 <= i < ts.len() && ts[i].status != TaskStatus::Completed && ts[i].status
            != TaskStatus::Failed && ts[i].status != TaskStatus::Skipped
}

/// `s` with `x` at its end, unless `x` is already in it.
pub open spec fn add_once(s: Seq<Seq<char>>, x: Seq<char>) -> Seq<Seq<char>> {
    if s.contains(x) {
        s
    } else {
        s.push(x)
    }
}

// ------------------------------------------------------------------
// What is said and asked
// ------------------------------------------------------------------

/// The message that ends a run: the numbers of tasks that completed and
/// that failed.
pub open spec fn summary_text(completed: nat, failed: nat) -> Seq<char> {
    "Orchestration completed. Completed tasks: "@ + decimal(completed) + ", Failed tasks: "@
        + decimal(failed) + ", Skipped tasks: 0"@
}

/// The message that starts a run.
pub open spec fn start_text(session_id: u128) -> Seq<char> {
    "Starting orchestration for session: "@ + uuid_text(session_id)
}

/// The question after task `id` failed with `error`.
pub open spec fn failure_ask(id: Seq<char>, error: Seq<char>) -> AskView {
    AskView {
        question: "Task '"@ + id + "' failed.\nError: "@ + error + "\n\nWhat would you like to do?"@,
        options: Some(seq!["retry"@, "skip"@, "stop"@]),
        allow_free_text: false,
        context: Some("Task: "@ + id + ", Error: "@ + error),
    }
}

/// The question when no task can run though some are not done.
pub open spec fn deadlock_ask() -> AskView {
    AskView {
        question: "No runnable tasks but incomplete tasks remain. Possible deadlock. What would you like to do?"@,
        options: Some(seq!["continue"@, "skip"@, "stop"@]),
        allow_free_text: false,
        context: None,
    }
}

/// The issue blocks: its type is "error".
pub open spec fn is_blocking_issue(i: AgentIssueView) -> bool {
    i.issue_type == "error"@
}

/// The number of blocking issues.
pub open spec fn blocking_count(issues: Seq<AgentIssueView>) -> nat
    decreases issues.len(),
{
    if issues.len() == 0 {
        0
    } else {
        blocking_count(issues.drop_last()) + if is_blocking_issue(issues.last()) {
            1nat
        } else {
            0nat
        }
    }
}

/// The text that `format!("{:?}", ..)` writes for a string: the string in
/// double quotes, with the characters that need it escaped.
pub uninterp spec fn debug_quoted(s: Seq<char>) -> Seq<char>;

/// Printable ASCII that the debug form of a string keeps as it is: not a
/// quote or a backslash.
pub open spec fn debug_plain(c: char) -> bool {
    ' ' <= c <= '~' && c != '"' && c != '\\' && c != '\''
}

/// Writes a string with `format!("{:?}", ..)`. The contract names the text
/// `debug_quoted(s)` and states what std's documentation of `Debug` for
/// `str` gives when every character is printable ASCII other than quotes and
/// backslashes: the string itself between double quotes. The escapes of
/// other characters are left unsaid.
#[verifier::external_body]
fn debug_str(s: &str) -> (r: String)
    ensures
        r@ == debug_quoted(s@),
        (forall|i: int| 0 <= i < s@.len() ==> debug_plain(#[trigger] s@[i])) ==> r@ == seq!['"'] + s@
            + seq!['"'],
{
    format!("{:?}", s)
}

/// The text of an optional string in the form `derive(Debug)` gives it.
pub open spec fn debug_opt(o: Option<Seq<char>>) -> Seq<char> {
    match o {
        Some(p) => "Some("@ + debug_quoted(p) + ")"@,
        None => "None"@,
    }
}

/// The text of one issue in the form `derive(Debug)` gives it.
pub open spec fn issue_debug_text(i: AgentIssueView) -> Seq<char> {
    "AgentIssue { issue_type: "@ + debug_quoted(i.issue_type) + ", title: "@ + debug_quoted(i.title)
        + ", description: "@ + debug_quoted(i.description) + ", file_path: "@ + debug_opt(i.file_path)
        + " }"@
}

/// The text of the issues in the form `derive(Debug)` gives a list:
/// between brackets, separated by a comma and a space.
pub open spec fn issues_debug_text(issues: Seq<AgentIssueView>) -> Seq<char> {
    "["@ + crate::text::join(issues.map_values(|i: AgentIssueView| issue_debug_text(i)), ", "@) + "]"@
}

/// Writes one issue as `issue_debug_text` says.
fn issue_debug(i: &AgentIssue) -> (r: String)
    ensures
        r@ == issue_debug_text(agent_issue_view(*i)),
{
    let mut r = owned("AgentIssue { issue_type: ");
    let t = debug_str(i.issue_type.as_str());
    push_str(&mut r, t.as_str());
    push_str(&mut r, ", title: ");
    let t = debug_str(i.title.as_str());
    push_str(&mut r, t.as_str());
    push_str(&mut r, ", description: ");
    let t = debug_str(i.description.as_str());
    push_str(&mut r, t.as_str());
    push_str(&mut r, ", file_path: ");
    match &i.file_path {
        Some(p) => {
            push_str(&mut r, "Some(");
            let t = debug_str(p.as_str());
            push_str(&mut r, t.as_str());
            push_str(&mut r, ")");
        },
        None => {
            push_str(&mut r, "None");
        },
    }
    push_str(&mut r, " }");
    r
}

/// Writes the issues as `issues_debug_text` says.
fn issues_debug(issues: &Vec<AgentIssue>) -> (r: String)
    ensures
        r@ == issues_debug_text(issues_view(issues@)),
{
    let mut parts: Vec<String> = Vec::new();
    let mut k: usize = 0;
    while k < issues.len()
        invariant
            k <= issues@.len(),
            parts@.map_values(|x: String| x@) == issues_view(issues@.take(k as int)).map_values(
                |i: AgentIssueView| issue_debug_text(i),
            ),
        decreases issues@.len() - k,
    {
        let d = issue_debug(&issues[k]);
        let ghost before = parts@.map_values(|x: String| x@);
        parts.push(d);
        assert(parts@.map_values(|x: String| x@) =~= before.push(d@));
        assert(issues_view(issues@.take(k + 1)).map_values(|i: AgentIssueView| issue_debug_text(i))
            =~= issues_view(issues@.take(k as int)).map_values(|i: AgentIssueView| issue_debug_text(i)).push(
            issue_debug_text(agent_issue_view(issues@[k as int])),
        ));
        k = k + 1;
    }
    assert(issues@.take(issues@.len() as int) =~= issues@);
    let j = crate::text::join_strings(&parts, ", ");
    let mut r = owned("[");
    push_str(&mut r, j.as_str());
    push_str(&mut r, "]");
    r
}

/// The question after the review found `issues`.
pub open spec fn review_ask(issues: Seq<AgentIssueView>) -> AskView {
    AskView {
        question: "Review found "@ + decimal(issues.len()) + " issues ("@ + decimal(
            blocking_count(issues),
        ) + " blocking). How would you like to proceed?"@,
        options: Some(seq!["fix"@, "accept"@]),
        allow_free_text: false,
        context: Some("Issues: "@ + issues_debug_text(issues)),
    }
}

/// The brief that gives one issue to a code agent.
pub open spec fn fix_brief(i: AgentIssueView) -> CodeView {
    CodeView {
        task_spec: match i.file_path {
            Some(p) => "Fix issue in "@ + p + ": "@ + i.title,
            None => "Fix issue: "@ + i.title,
        },
        files: match i.file_path {
            Some(p) => seq![p],
            None => seq![],
        },
        plan_context: Some(i.description),
        contracts: seq![],
    }
}

/// The briefs for the blocking issues, in order.
pub open spec fn fix_briefs(issues: Seq<AgentIssueView>) -> Seq<CodeView>
    decreases issues.len(),
{
    if issues.len() == 0 {
        seq![]
    } else {
        let prev = fix_briefs(issues.drop_last());
        if is_blocking_issue(issues.last()) {
            prev.push(fix_brief(issues.last()))
        } else {
            prev
        }
    }
}

/// The brief of the final review: the files and contracts of the completed
/// tasks.
pub open spec fn review_brief(ts: Seq<TaskSpecView>) -> ReviewView {
    ReviewView {
        task_spec: "Review all completed tasks"@,
        changed_files: completed_files(ts, ts.len() as int),
        contracts: completed_contracts(ts, ts.len() as int),
    }
}

/// A marker update to skipped for each of `ids`.
pub open spec fn skipped_markers(ids: Seq<Seq<char>>) -> Seq<EventView> {
    ids.map_values(|d: Seq<char>| EventView::PlanMarkerUpdated(d, TaskStatus::Skipped))
}

// ------------------------------------------------------------------
// The steps
// ------------------------------------------------------------------

/// `s` with `ev` announced before its own events.
pub open spec fn after_events(ev: Seq<EventView>, s: StepView) -> StepView {
    StepView { events: ev + s.events, ..s }
}

/// The run waits with nothing announced and this action.
pub open spec fn wait_in(v: RunView, phase: PhaseView, action: ActionView) -> StepView {
    StepView { run: RunView { phase, ..v }, events: seq![], action }
}

/// The run ends: the summary and the end of the plan are announced.
pub open spec fn finish(v: RunView) -> StepView {
    StepView {
        run: RunView { phase: PhaseView::Finished, ..v },
        events: seq![
            EventView::AgentMessage(summary_text(v.completed.len(), v.failed.len())),
            EventView::PlanCompleted,
        ],
        action: ActionView::Finish,
    }
}

/// Task `queue[next]` starts: it is marked in progress.
pub open spec fn begin_task(v: RunView, queue: Seq<Seq<char>>, next: int) -> StepView {
    let id = queue[next];
    StepView {
        run: RunView {
            board: with_status(v.board, id, TaskStatus::InProgress),
            phase: PhaseView::AwaitingTask { queue, next },
            ..v
        },
        events: seq![
            EventView::PlanMarkerUpdated(id, TaskStatus::InProgress),
            EventView::StepStarted(id),
        ],
        action: ActionView::RunTask(id),
    }
}

/// No task can run: the user is asked if some task is not done, else the
/// run ends.
pub open spec fn idle_check(v: RunView) -> StepView {
    if some_incomplete(v.board) {
        wait_in(v, PhaseView::AwaitingDeadlockAnswer, ActionView::Ask(deadlock_ask()))
    } else {
        finish(v)
    }
}

/// The next tasks are chosen: the ready ones, in board order, starting with
/// the first; with none ready, the final review if every task is
/// completed, else the idle check.
pub open spec fn schedule(v: RunView) -> StepView {
    let ready = ready_ids(v.board, v.board.len() as int, v.continue_from);
    if ready.len() > 0 {
        begin_task(v, ready, 0)
    } else if all_completed(v.board) {
        wait_in(v, PhaseView::AwaitingReview, ActionView::Review(review_brief(v.board)))
    } else {
        idle_check(v)
    }
}

/// After `queue[next]` is dealt with: the next task of the queue, or a new
/// choice of tasks when the queue is done.
pub open spec fn advance(v: RunView, queue: Seq<Seq<char>>, next: int) -> StepView {
    if next < queue.len() - 1 {
        begin_task(v, queue, next + 1)
    } else {
        schedule(v)
    }
}

/// The step that starts a run: the start is announced and the first tasks
/// are chosen. A run that has started already ignores it.
pub open spec fn start_step(v: RunView) -> StepView {
    if v.phase is Idle {
        after_events(seq![EventView::AgentMessage(start_text(v.session_id))], schedule(v))
    } else {
        wait_in(v, v.phase, ActionView::Ignore)
    }
}

/// Task `queue[next]` ended. A success marks it completed and counts it; a
/// failure marks it failed, counts it and asks the user; a request for
/// input marks it failed ("Unknown error") without counting it.
pub open spec fn task_ended(v: RunView, queue: Seq<Seq<char>>, next: int, t: TaskEndView) -> StepView {
    let id = queue[next];
    match t {
        TaskEndView::Succeeded => after_events(
            seq![
                EventView::PlanMarkerUpdated(id, TaskStatus::Completed),
                EventView::StepCompleted(id),
            ],
            advance(
                RunView {
                    board: with_status(v.board, id, TaskStatus::Completed),
                    completed: add_once(v.completed, id),
                    ..v
                },
                queue,
                next,
            ),
        ),
        TaskEndView::Failed(msg) => StepView {
            run: RunView {
                board: with_status(v.board, id, TaskStatus::Failed),
                failed: add_once(v.failed, id),
                phase: PhaseView::AwaitingFailureAnswer { queue, next },
                ..v
            },
            events: seq![
                EventView::PlanMarkerUpdated(id, TaskStatus::Failed),
                EventView::StepFailed(id, msg),
            ],
            action: ActionView::Ask(failure_ask(id, msg)),
        },
        TaskEndView::NeedsInput => after_events(
            seq![
                EventView::PlanMarkerUpdated(id, TaskStatus::Failed),
                EventView::StepFailed(id, "Unknown error"@),
            ],
            advance(RunView { board: with_status(v.board, id, TaskStatus::Failed), ..v }, queue, next),
        ),
    }
}

/// The user answered after `queue[next]` failed: "stop" puts in-progress
/// tasks back to pending and stops the session; "retry" puts the task back
/// to pending; anything else skips it and the pending tasks that wait on
/// it. The queue then goes on.
pub open spec fn failure_answered(v: RunView, queue: Seq<Seq<char>>, next: int, a: Option<Seq<char>>) -> StepView {
    let id = queue[next];
    if answered(a, "stop"@) {
        StepView {
            run: RunView { board: in_progress_reset(v.board), phase: PhaseView::Finished, ..v },
            events: seq![EventView::SessionStopped(v.session_id)],
            action: ActionView::Stop,
        }
    } else if answered(a, "retry"@) {
        advance(RunView { board: with_status(v.board, id, TaskStatus::Pending), ..v }, queue, next)
    } else {
        let b1 = with_status(v.board, id, TaskStatus::Skipped);
        after_events(
            seq![EventView::PlanMarkerUpdated(id, TaskStatus::Skipped)] + skipped_markers(
                waiting_ids(b1, id, b1.len() as int),
            ),
            advance(RunView { board: waiting_skipped(b1, id), ..v }, queue, next),
        )
    }
}

/// The review ended: an approval (or plain success) ends the run, issues
/// go to the user, anything else ends the run.
pub open spec fn review_ended(v: RunView, r: ReviewEndView) -> StepView {
    match r {
        ReviewEndView::Approved => after_events(
            seq![EventView::AgentMessage("Review approved - session complete"@)],
            finish(v),
        ),
        ReviewEndView::Issues(issues) => wait_in(
            v,
            PhaseView::AwaitingReviewAnswer { issues },
            ActionView::Ask(review_ask(issues)),
        ),
        ReviewEndView::Other => finish(v),
    }
}

/// The user answered about the review's issues: "fix" gives the blocking
/// ones to code agents; anything else ends the run.
pub open spec fn review_answered(v: RunView, issues: Seq<AgentIssueView>, a: Option<Seq<char>>) -> StepView {
    if answered(a, "fix"@) {
        wait_in(v, PhaseView::AwaitingFixes, ActionView::Fix(fix_briefs(issues)))
    } else {
        finish(v)
    }
}

/// The user answered about a possible deadlock: "continue" chooses tasks
/// again, "skip" first skips the blocked tasks, anything else ends the run.
pub open spec fn deadlock_answered(v: RunView, a: Option<Seq<char>>) -> StepView {
    if answered(a, "continue"@) {
        schedule(v)
    } else if answered(a, "skip"@) {
        schedule(RunView { board: blocked_skipped(v.board), ..v })
    } else {
        finish(v)
    }
}

/// One step of the run on a report. A report that does not fit what the run
/// waits for changes nothing.
pub open spec fn run_step(v: RunView, e: RunEventView) -> StepView {
    match v.phase {
        PhaseView::AwaitingTask { queue, next } => match e {
            RunEventView::TaskEnded(t) => task_ended(v, queue, next, t),
            _ => wait_in(v, v.phase, ActionView::Ignore),
        },
        PhaseView::AwaitingFailureAnswer { queue, next } => match e {
            RunEventView::Answered(a) => failure_answered(v, queue, next, a),
            _ => wait_in(v, v.phase, ActionView::Ignore),
        },
        PhaseView::AwaitingReview => match e {
            RunEventView::ReviewEnded(r) => review_ended(v, r),
            _ => wait_in(v, v.phase, ActionView::Ignore),
        },
        PhaseView::AwaitingReviewAnswer { issues } => match e {
            RunEventView::Answered(a) => review_answered(v, issues, a),
            _ => wait_in(v, v.phase, ActionView::Ignore),
        },
        PhaseView::AwaitingFixes => match e {
            RunEventView::FixesApplied => idle_check(v),
            _ => wait_in(v, v.phase, ActionView::Ignore),
        },
        PhaseView::AwaitingDeadlockAnswer => match e {
            RunEventView::Answered(a) => deadlock_answered(v, a),
            _ => wait_in(v, v.phase, ActionView::Ignore),
        },
        _ => wait_in(v, v.phase, ActionView::Ignore),
    }
}


// ------------------------------------------------------------------
// The machine
// ------------------------------------------------------------------

/// `s` is what a step did: the run is now `post`, the events announced
/// went from `before` to `after`, and `a` is the action.
pub open spec fn produced(
    s: StepView,
    post: RunView,
    before: Seq<OrchestratorEvent>,
    after: Seq<OrchestratorEvent>,
    a: RunAction,
) -> bool {
    &&& post == s.run
    &&& events_view(after) == events_view(before) + s.events
    &&& a@ == s.action
}

/// Appends one event.
fn emit(events: &mut Vec<OrchestratorEvent>, e: OrchestratorEvent)
    ensures
        events_view(final(events)@) == events_view(old(events)@).push(e@),
{
    let ghost before = events_view(events@);
    events.push(e);
    assert(events_view(events@) =~= before.push(e@));
}

/// Adds `id` at the end of `v` unless it is there.
fn add_id(v: &mut Vec<String>, id: &String)
    ensures
        strings_view(final(v)@) == add_once(strings_view(old(v)@), id@),
{
    let ghost before = strings_view(v@);
    let mut seen = false;
    let mut k: usize = 0;
    while k < v.len()
        invariant
            k <= v@.len(),
            before == strings_view(v@),
            seen == exists|t: int| 0 <= t < k && v@[t]@ == id@,
        decreases v@.len() - k,
    {
        if v[k] == *id {
            seen = true;
        }
        k = k + 1;
    }
    proof {
        if seen {
            let t = choose|t: int| 0 <= t < v@.len() && v@[t]@ == id@;
            assert(before[t] == id@);
        } else {
            assert forall|t: int| 0 <= t < before.len() implies before[t] != id@ by {
                assert(before[t] == v@[t]@);
            }
        }
    }
    if !seen {
        v.push(id.clone());
        assert(strings_view(v@) =~= before.push(id@));
    }
}

/// A copy of an optional text.
fn copy_opt_string(o: &Option<String>) -> (r: Option<String>)
    ensures
        opt_view(r) == opt_view(*o),
{
    match o {
        Some(s) => Some(s.clone()),
        None => None,
    }
}

/// A copy of the issues.
fn copy_issues(v: &Vec<AgentIssue>) -> (r: Vec<AgentIssue>)
    ensures
        issues_view(r@) == issues_view(v@),
{
    let mut r: Vec<AgentIssue> = Vec::new();
    let mut i: usize = 0;
    while i < v.len()
        invariant
            i <= v@.len(),
            issues_view(r@) == issues_view(v@).take(i as int),
        decreases v@.len() - i,
    {
        let x = &v[i];
        let c = AgentIssue {
            issue_type: x.issue_type.clone(),
            title: x.title.clone(),
            description: x.description.clone(),
            file_path: copy_opt_string(&x.file_path),
        };
        let ghost before = issues_view(r@);
        r.push(c);
        assert(issues_view(r@) =~= before.push(agent_issue_view(c)));
        assert(issues_view(v@).take(i + 1) =~= issues_view(v@).take(i as int).push(
            agent_issue_view(v@[i as int]),
        ));
        i = i + 1;
    }
    assert(issues_view(v@).take(v@.len() as int) =~= issues_view(v@));
    r
}

/// A list of words.
fn words3(a: &str, b: &str, c: &str) -> (r: Vec<String>)
    ensures
        strings_view(r@) == seq![a@, b@, c@],
{
    let mut r: Vec<String> = Vec::new();
    r.push(crate::text::owned(a));
    r.push(crate::text::owned(b));
    r.push(crate::text::owned(c));
    assert(strings_view(r@) =~= seq![a@, b@, c@]);
    r
}

/// The question after a failed task.
fn failure_question(id: &String, error: &String) -> (r: AskBrief)
    ensures
        ask_view(r) == failure_ask(id@, error@),
{
    let mut q = crate::text::owned("Task '");
    crate::text::push_str(&mut q, id.as_str());
    crate::text::push_str(&mut q, "' failed.\nError: ");
    crate::text::push_str(&mut q, error.as_str());
    crate::text::push_str(&mut q, "\n\nWhat would you like to do?");
    let mut c = crate::text::owned("Task: ");
    crate::text::push_str(&mut c, id.as_str());
    crate::text::push_str(&mut c, ", Error: ");
    crate::text::push_str(&mut c, error.as_str());
    let options = words3("retry", "skip", "stop");
    AskBrief { question: q, options: Some(options), allow_free_text: false, context: Some(c) }
}

/// The question when no task can run though some are not done.
fn deadlock_question() -> (r: AskBrief)
    ensures
        ask_view(r) == deadlock_ask(),
{
    let options = words3("continue", "skip", "stop");
    AskBrief {
        question: crate::text::owned(
            "No runnable tasks but incomplete tasks remain. Possible deadlock. What would you like to do?",
        ),
        options: Some(options),
        allow_free_text: false,
        context: None,
    }
}

/// Whether the issue blocks.
fn issue_blocks(i: &AgentIssue) -> (r: bool)
    ensures
        r == is_blocking_issue(agent_issue_view(*i)),
{
    i.issue_type == crate::text::owned("error")
}

/// The question after the review found issues.
fn review_question(issues: &Vec<AgentIssue>) -> (r: AskBrief)
    ensures
        ask_view(r) == review_ask(issues_view(issues@)),
{
    let ghost iv = issues_view(issues@);
    let mut n: usize = 0;
    let mut i: usize = 0;
    while i < issues.len()
        invariant
            i <= issues@.len(),
            iv == issues_view(issues@),
            n == blocking_count(iv.take(i as int)),
            n <= i,
        decreases issues@.len() - i,
    {
        assert(iv.take(i + 1).drop_last() =~= iv.take(i as int));
        if issue_blocks(&issues[i]) {
            n = n + 1;
        }
        i = i + 1;
    }
    assert(iv.take(iv.len() as int) =~= iv);
    let mut q = crate::text::owned("Review found ");
    crate::text::push_decimal(&mut q, issues.len() as u64);
    crate::text::push_str(&mut q, " issues (");
    crate::text::push_decimal(&mut q, n as u64);
    crate::text::push_str(&mut q, " blocking). How would you like to proceed?");
    let mut c = crate::text::owned("Issues: ");
    let d = issues_debug(issues);
    crate::text::push_str(&mut c, d.as_str());
    let mut options: Vec<String> = Vec::new();
    options.push(crate::text::owned("fix"));
    options.push(crate::text::owned("accept"));
    assert(strings_view(options@) =~= seq!["fix"@, "accept"@]);
    AskBrief { question: q, options: Some(options), allow_free_text: false, context: Some(c) }
}

/// The brief that gives one issue to a code agent.
fn fix_brief_of(i: &AgentIssue) -> (r: CodeBrief)
    ensures
        code_view(r) == fix_brief(agent_issue_view(*i)),
{
    let mut files: Vec<String> = Vec::new();
    let task_spec = match &i.file_path {
        Some(p) => {
            let mut t = crate::text::owned("Fix issue in ");
            crate::text::push_str(&mut t, p.as_str());
            crate::text::push_str(&mut t, ": ");
            crate::text::push_str(&mut t, i.title.as_str());
            files.push(p.clone());
            t
        },
        None => {
            let mut t = crate::text::owned("Fix issue: ");
            crate::text::push_str(&mut t, i.title.as_str());
            t
        },
    };
    let r = CodeBrief {
        task_spec,
        files,
        plan_context: Some(i.description.clone()),
        contracts: Vec::new(),
    };
    assert(code_view(r).files =~= fix_brief(agent_issue_view(*i)).files);
    assert(code_view(r).contracts =~= fix_brief(agent_issue_view(*i)).contracts);
    r
}

/// The briefs for the blocking issues, in order.
fn fix_briefs_of(issues: &Vec<AgentIssue>) -> (r: Vec<CodeBrief>)
    ensures
        r@.map_values(|b: CodeBrief| code_view(b)) == fix_briefs(issues_view(issues@)),
{
    let ghost iv = issues_view(issues@);
    let mut r: Vec<CodeBrief> = Vec::new();
    let mut i: usize = 0;
    while i < issues.len()
        invariant
            i <= issues@.len(),
            iv == issues_view(issues@),
            r@.map_values(|b: CodeBrief| code_view(b)) == fix_briefs(iv.take(i as int)),
        decreases issues@.len() - i,
    {
        assert(iv.take(i + 1).drop_last() =~= iv.take(i as int));
        if issue_blocks(&issues[i]) {
            let b = fix_brief_of(&issues[i]);
            let ghost before = r@.map_values(|b: CodeBrief| code_view(b));
            r.push(b);
            assert(r@.map_values(|b: CodeBrief| code_view(b)) =~= before.push(code_view(b)));
        }
        i = i + 1;
    }
    assert(iv.take(iv.len() as int) =~= iv);
    r
}

/// The board positions that differ only in status, with status `f(i)`,
/// make the board `restatus(a, f)`.
proof fn lemma_restatus(a: Seq<TaskSpecView>, b: Seq<TaskSpecView>, f: spec_fn(int) -> TaskStatus)
    requires
        same_but_status(a, b),
        forall|i: int| 0 <= i < a.len() ==> #[trigger] b[i].status == f(i),
    ensures
        b == restatus(a, f),
{
    assert forall|i: int| 0 <= i < a.len() implies b[i] == restatus(a, f)[i] by {
        assert((TaskSpecView { status: a[i].status, ..b[i] }) == a[i]);
        assert(b[i].status == f(i));
        assert(restatus(a, f)[i] == (TaskSpecView { status: f(i), ..a[i] }));
        assert(b[i].id == a[i].id && b[i].title == a[i].title && b[i].description
            == a[i].description && b[i].dependencies == a[i].dependencies && b[i].files
            == a[i].files && b[i].contracts == a[i].contracts);
    }
    assert(b =~= restatus(a, f));
}

/// One run of the orchestrator over a board of tasks.
#[derive(Debug)]
pub struct Run {
    board: TaskBoard,
    continue_from: Option<String>,
    session_id: u128,
    phase: RunPhase,
    completed: Vec<String>,
    failed: Vec<String>,
}

impl View for Run {
    type V = RunView;

    closed spec fn view(&self) -> RunView {
        RunView {
            board: self.board@,
            continue_from: opt_view(self.continue_from),
            session_id: self.session_id,
            phase: self.phase@,
            completed: strings_view(self.completed@),
            failed: strings_view(self.failed@),
        }
    }
}

impl Run {
    /// The run's invariant: the board's, and a task being dealt with is in
    /// its queue.
    pub closed spec fn wf(&self) -> bool {
        &&& self.board.wf()
        &&& match self.phase {
            RunPhase::AwaitingTask { queue, next } => next < queue@.len(),
            RunPhase::AwaitingFailureAnswer { queue, next } => next < queue@.len(),
            _ => true,
        }
    }

    /// A run over `board`, not started; with `continue_from`, no task whose
    /// identifier comes before it runs.
    pub fn new(board: TaskBoard, continue_from: Option<String>, session_id: u128) -> (r: Run)
        requires
            board.wf(),
        ensures
            r.wf(),
            r@ == (RunView {
                board: board@,
                continue_from: opt_view(continue_from),
                session_id,
                phase: PhaseView::Idle,
                completed: seq![],
                failed: seq![],
            }),
    {
        let r = Run {
            board,
            continue_from,
            session_id,
            phase: RunPhase::Idle,
            completed: Vec::new(),
            failed: Vec::new(),
        };
        assert(r@.completed =~= Seq::<Seq<char>>::empty());
        assert(r@.failed =~= Seq::<Seq<char>>::empty());
        r
    }

    /// The board.
    pub fn board(&self) -> (r: &TaskBoard)
        ensures
            r@ == self@.board,
            self.wf() ==> r.wf(),
    {
        &self.board
    }

    /// What the run waits for.
    pub fn phase(&self) -> (r: &RunPhase)
        ensures
            r@ == self@.phase,
    {
        &self.phase
    }

    /// The tasks that succeeded, each once, in the order they did.
    pub fn completed(&self) -> (r: &Vec<String>)
        ensures
            strings_view(r@) == self@.completed,
    {
        &self.completed
    }

    /// The tasks that failed, each once, in the order they first did.
    pub fn failed(&self) -> (r: &Vec<String>)
        ensures
            strings_view(r@) == self@.failed,
    {
        &self.failed
    }

    fn finish_run(&mut self, events: &mut Vec<OrchestratorEvent>) -> (a: RunAction)
        requires
            old(self).wf(),
        ensures
            final(self).wf(),
            produced(finish(old(self)@), final(self)@, old(events)@, final(events)@, a),
    {
        let mut m = crate::text::owned("Orchestration completed. Completed tasks: ");
        crate::text::push_decimal(&mut m, self.completed.len() as u64);
        crate::text::push_str(&mut m, ", Failed tasks: ");
        crate::text::push_decimal(&mut m, self.failed.len() as u64);
        crate::text::push_str(&mut m, ", Skipped tasks: 0");
        let ghost before = events_view(events@);
        emit(events, OrchestratorEvent::AgentMessage(m));
        emit(events, OrchestratorEvent::PlanCompleted);
        self.phase = RunPhase::Finished;
        assert(events_view(events@) =~= before + finish(old(self)@).events);
        RunAction::Finish
    }

    fn begin(&mut self, queue: Vec<String>, next: usize, events: &mut Vec<OrchestratorEvent>) -> (a: RunAction)
        requires
            old(self).wf(),
            next < queue@.len(),
        ensures
            final(self).wf(),
            produced(
                begin_task(old(self)@, strings_view(queue@), next as int),
                final(self)@,
                old(events)@,
                final(events)@,
                a,
            ),
    {
        let id = queue[next].clone();
        self.board.update_task_status(&id, TaskStatus::InProgress);
        let ghost before = events_view(events@);
        emit(events, OrchestratorEvent::PlanMarkerUpdated(id.clone(), TaskStatus::InProgress));
        emit(events, OrchestratorEvent::StepStarted(id.clone()));
        self.phase = RunPhase::AwaitingTask { queue, next };
        assert(events_view(events@) =~= before + begin_task(
            old(self)@,
            strings_view(queue@),
            next as int,
        ).events);
        RunAction::RunTask(id)
    }

    fn idle(&mut self, events: &mut Vec<OrchestratorEvent>) -> (a: RunAction)
        requires
            old(self).wf(),
        ensures
            final(self).wf(),
            produced(idle_check(old(self)@), final(self)@, old(events)@, final(events)@, a),
    {
        if self.board.has_incomplete() {
            self.phase = RunPhase::AwaitingDeadlockAnswer;
            assert(events_view(events@) =~= events_view(old(events)@) + seq![]);
            RunAction::Ask(deadlock_question())
        } else {
            self.finish_run(events)
        }
    }

    fn schedule_next(&mut self, events: &mut Vec<OrchestratorEvent>) -> (a: RunAction)
        requires
            old(self).wf(),
        ensures
            final(self).wf(),
            produced(schedule(old(self)@), final(self)@, old(events)@, final(events)@, a),
    {
        let ready = match &self.continue_from {
            Some(c) => self.board.find_ready_tasks(Some(c.as_str())),
            None => self.board.find_ready_tasks(None),
        };
        if ready.len() > 0 {
            self.begin(ready, 0, events)
        } else if self.board.all_tasks_done() {
            let changed_files = self.board.changed_files();
            let contracts = self.board.all_contracts();
            self.phase = RunPhase::AwaitingReview;
            assert(events_view(events@) =~= events_view(old(events)@) + seq![]);
            RunAction::Review(
                ReviewBrief {
                    task_spec: crate::text::owned("Review all completed tasks"),
                    changed_files,
                    contracts,
                },
            )
        } else {
            self.idle(events)
        }
    }

    fn advance_queue(&mut self, queue: Vec<String>, next: usize, events: &mut Vec<OrchestratorEvent>) -> (a: RunAction)
        requires
            old(self).wf(),
            next < queue@.len(),
        ensures
            final(self).wf(),
            produced(
                advance(old(self)@, strings_view(queue@), next as int),
                final(self)@,
                old(events)@,
                final(events)@,
                a,
            ),
    {
        if next < queue.len() - 1 {
            self.begin(queue, next + 1, events)
        } else {
            self.schedule_next(events)
        }
    }

    /// Starts the run: announces it and chooses the first tasks. A run that
    /// has started already ignores the call.
    pub fn start(&mut self) -> (r: RunStep)
        requires
            old(self).wf(),
        ensures
            final(self).wf(),
            produced(start_step(old(self)@), final(self)@, seq![], r.events@, r.action),
    {
        let mut events: Vec<OrchestratorEvent> = Vec::new();
        match self.phase {
            RunPhase::Idle => {
                let mut m = crate::text::owned("Starting orchestration for session: ");
                let s = crate::session::uuid_to_string(self.session_id);
                crate::text::push_str(&mut m, s.as_str());
                emit(&mut events, OrchestratorEvent::AgentMessage(m));
                let ghost mid = events_view(events@);
                let action = self.schedule_next(&mut events);
                assert(events_view(events@) =~= events_view(Seq::<OrchestratorEvent>::empty())
                    + start_step(old(self)@).events);
                RunStep { action, events }
            },
            _ => {
                assert(events_view(events@) =~= events_view(Seq::<OrchestratorEvent>::empty())
                    + seq![]);
                RunStep { action: RunAction::Ignore, events }
            },
        }
    }

    fn on_task_ended(
        &mut self,
        queue: Vec<String>,
        next: usize,
        t: crate::agents::AgentResult,
        events: &mut Vec<OrchestratorEvent>,
    ) -> (a: RunAction)
        requires
            old(self).wf(),
            next < queue@.len(),
        ensures
            final(self).wf(),
            produced(
                task_ended(old(self)@, strings_view(queue@), next as int, task_end_of(t)),
                final(self)@,
                old(events)@,
                final(events)@,
                a,
            ),
    {
        let ghost v = self@;
        let ghost qv = strings_view(queue@);
        let ghost before = events_view(events@);
        let id = queue[next].clone();
        match t {
            crate::agents::AgentResult::Success(_) => {
                self.board.update_task_status(&id, TaskStatus::Completed);
                add_id(&mut self.completed, &id);
                emit(events, OrchestratorEvent::PlanMarkerUpdated(id.clone(), TaskStatus::Completed));
                emit(events, OrchestratorEvent::StepCompleted(id.clone()));
                let ghost mid = events_view(events@);
                assert(self@ == (RunView {
                    board: with_status(v.board, qv[next as int], TaskStatus::Completed),
                    completed: add_once(v.completed, qv[next as int]),
                    ..v
                }));
                let a = self.advance_queue(queue, next, events);
                assert(events_view(events@) =~= before + task_ended(v, qv, next as int, task_end_of(t)).events);
                a
            },
            crate::agents::AgentResult::Failure(msg) => {
                self.board.update_task_status(&id, TaskStatus::Failed);
                add_id(&mut self.failed, &id);
                emit(events, OrchestratorEvent::PlanMarkerUpdated(id.clone(), TaskStatus::Failed));
                emit(events, OrchestratorEvent::StepFailed(id.clone(), msg.clone()));
                let q = failure_question(&id, &msg);
                self.phase = RunPhase::AwaitingFailureAnswer { queue, next };
                assert(events_view(events@) =~= before + task_ended(v, qv, next as int, task_end_of(t)).events);
                RunAction::Ask(q)
            },
            crate::agents::AgentResult::UserInputRequired(_) => {
                self.board.update_task_status(&id, TaskStatus::Failed);
                emit(events, OrchestratorEvent::PlanMarkerUpdated(id.clone(), TaskStatus::Failed));
                emit(
                    events,
                    OrchestratorEvent::StepFailed(id.clone(), crate::text::owned("Unknown error")),
                );
                assert(self@ == (RunView {
                    board: with_status(v.board, qv[next as int], TaskStatus::Failed),
                    ..v
                }));
                let a = self.advance_queue(queue, next, events);
                assert(events_view(events@) =~= before + task_ended(v, qv, next as int, task_end_of(t)).events);
                a
            },
        }
    }

    fn on_failure_answer(
        &mut self,
        queue: Vec<String>,
        next: usize,
        answer: Option<String>,
        events: &mut Vec<OrchestratorEvent>,
    ) -> (a: RunAction)
        requires
            old(self).wf(),
            next < queue@.len(),
        ensures
            final(self).wf(),
            produced(
                failure_answered(old(self)@, strings_view(queue@), next as int, opt_view(answer)),
                final(self)@,
                old(events)@,
                final(events)@,
                a,
            ),
    {
        let ghost v = self@;
        let ghost qv = strings_view(queue@);
        let ghost before = events_view(events@);
        let id = queue[next].clone();
        let ans: Option<&str> = match &answer {
            Some(x) => Some(x.as_str()),
            None => None,
        };
        assert(crate::orchestrator::answer_view(ans) == opt_view(answer));
        match crate::orchestrator::failure_choice(ans) {
            crate::orchestrator::FailureChoice::Stop => {
                let ghost ts = self.board@;
                self.board.reset_in_progress();
                proof {
                    lemma_restatus(
                        ts,
                        self.board@,
                        |i: int|
                            if ts[i].status == TaskStatus::InProgress {
                                TaskStatus::Pending
                            } else {
                                ts[i].status
                            },
                    );
                }
                self.phase = RunPhase::Finished;
                emit(events, OrchestratorEvent::SessionStopped(self.session_id));
                assert(events_view(events@) =~= before + failure_answered(v, qv, next as int, opt_view(answer)).events);
                RunAction::Stop
            },
            crate::orchestrator::FailureChoice::Retry => {
                self.board.update_task_status(&id, TaskStatus::Pending);
                assert(self@ == (RunView {
                    board: with_status(v.board, qv[next as int], TaskStatus::Pending),
                    ..v
                }));
                let a = self.advance_queue(queue, next, events);
                assert(events_view(events@) =~= before + failure_answered(v, qv, next as int, opt_view(answer)).events);
                a
            },
            crate::orchestrator::FailureChoice::Skip => {
                self.board.update_task_status(&id, TaskStatus::Skipped);
                emit(events, OrchestratorEvent::PlanMarkerUpdated(id.clone(), TaskStatus::Skipped));
                let ghost b1 = self.board@;
                let deps = self.board.mark_dependents_skippable(&id);
                proof {
                    lemma_restatus(
                        b1,
                        self.board@,
                        |i: int|
                            if waits_on(b1[i], id@) {
                                TaskStatus::Skipped
                            } else {
                                b1[i].status
                            },
                    );
                }
                let ghost base = events_view(events@);
                let ghost dv = strings_view(deps@);
                let mut j: usize = 0;
                while j < deps.len()
                    invariant
                        j <= deps@.len(),
                        dv == strings_view(deps@),
                        events_view(events@) == base + skipped_markers(dv.take(j as int)),
                    decreases deps@.len() - j,
                {
                    emit(events, OrchestratorEvent::PlanMarkerUpdated(deps[j].clone(), TaskStatus::Skipped));
                    assert(skipped_markers(dv.take(j + 1)) =~= skipped_markers(dv.take(j as int)).push(
                        EventView::PlanMarkerUpdated(dv[j as int], TaskStatus::Skipped),
                    ));
                    j = j + 1;
                }
                assert(dv.take(dv.len() as int) =~= dv);
                assert(self@ == (RunView { board: waiting_skipped(b1, qv[next as int]), ..v }));
                let a = self.advance_queue(queue, next, events);
                assert(events_view(events@) =~= before + failure_answered(v, qv, next as int, opt_view(answer)).events);
                a
            },
        }
    }

    fn on_review_ended(&mut self, r: crate::brief::AgentResult, events: &mut Vec<OrchestratorEvent>) -> (a: RunAction)
        requires
            old(self).wf(),
        ensures
            final(self).wf(),
            produced(review_ended(old(self)@, review_end_of(r)), final(self)@, old(events)@, final(events)@, a),
    {
        let ghost v = self@;
        let ghost before = events_view(events@);
        match r {
            crate::brief::AgentResult::IssuesFound { issues } => {
                let q = review_question(&issues);
                self.phase = RunPhase::AwaitingReviewAnswer { issues };
                assert(events_view(events@) =~= before + seq![]);
                RunAction::Ask(q)
            },
            crate::brief::AgentResult::Success { .. } => {
                emit(events, OrchestratorEvent::AgentMessage(crate::text::owned("Review approved - session complete")));
                let a = self.finish_run(events);
                assert(events_view(events@) =~= before + review_ended(v, review_end_of(r)).events);
                a
            },
            crate::brief::AgentResult::Approved { .. } => {
                emit(events, OrchestratorEvent::AgentMessage(crate::text::owned("Review approved - session complete")));
                let a = self.finish_run(events);
                assert(events_view(events@) =~= before + review_ended(v, review_end_of(r)).events);
                a
            },
            _ => self.finish_run(events),
        }
    }

    fn on_review_answer(&mut self, issues: Vec<AgentIssue>, answer: Option<String>, events: &mut Vec<OrchestratorEvent>) -> (a: RunAction)
        requires
            old(self).wf(),
        ensures
            final(self).wf(),
            produced(
                review_answered(old(self)@, issues_view(issues@), opt_view(answer)),
                final(self)@,
                old(events)@,
                final(events)@,
                a,
            ),
    {
        let ans: Option<&str> = match &answer {
            Some(x) => Some(x.as_str()),
            None => None,
        };
        assert(crate::orchestrator::answer_view(ans) == opt_view(answer));
        match crate::orchestrator::review_choice(ans) {
            crate::orchestrator::ReviewChoice::Fix => {
                let briefs = fix_briefs_of(&issues);
                self.phase = RunPhase::AwaitingFixes;
                assert(events_view(events@) =~= events_view(old(events)@) + seq![]);
                RunAction::Fix(briefs)
            },
            _ => self.finish_run(events),
        }
    }

    fn on_deadlock_answer(&mut self, answer: Option<String>, events: &mut Vec<OrchestratorEvent>) -> (a: RunAction)
        requires
            old(self).wf(),
        ensures
            final(self).wf(),
            produced(deadlock_answered(old(self)@, opt_view(answer)), final(self)@, old(events)@, final(events)@, a),
    {
        let ghost v = self@;
        let ans: Option<&str> = match &answer {
            Some(x) => Some(x.as_str()),
            None => None,
        };
        assert(crate::orchestrator::answer_view(ans) == opt_view(answer));
        match crate::orchestrator::deadlock_choice(ans) {
            crate::orchestrator::DeadlockChoice::Continue => self.schedule_next(events),
            crate::orchestrator::DeadlockChoice::SkipBlocked => {
                let ghost ts = self.board@;
                self.board.skip_blocked_tasks();
                proof {
                    lemma_restatus(
                        ts,
                        self.board@,
                        |i: int|
                            if ts[i].status == TaskStatus::Pending && is_blocked(ts, i) {
                                TaskStatus::Skipped
                            } else {
                                ts[i].status
                            },
                    );
                }
                assert(self@ == (RunView { board: blocked_skipped(v.board), ..v }));
                self.schedule_next(events)
            },
            crate::orchestrator::DeadlockChoice::Stop => self.finish_run(events),
        }
    }

    /// One step on a report from outside: what it changes, what is
    /// announced and what to do next, as `run_step` says. A report that does
    /// not fit what the run waits for changes nothing.
    pub fn handle(&mut self, event: RunEvent) -> (r: RunStep)
        requires
            old(self).wf(),
        ensures
            final(self).wf(),
            produced(run_step(old(self)@, event@), final(self)@, seq![], r.events@, r.action),
    {
        let mut events: Vec<OrchestratorEvent> = Vec::new();
        let ghost v = self@;
        let action = match &self.phase {
            RunPhase::AwaitingTask { queue, next } => {
                let q = crate::types::copy_strings(queue);
                let n = *next;
                match event {
                    RunEvent::TaskEnded(t) => self.on_task_ended(q, n, t, &mut events),
                    _ => RunAction::Ignore,
                }
            },
            RunPhase::AwaitingFailureAnswer { queue, next } => {
                let q = crate::types::copy_strings(queue);
                let n = *next;
                match event {
                    RunEvent::Answered(a) => self.on_failure_answer(q, n, a, &mut events),
                    _ => RunAction::Ignore,
                }
            },
            RunPhase::AwaitingReview => match event {
                RunEvent::ReviewEnded(r) => self.on_review_ended(r, &mut events),
                _ => RunAction::Ignore,
            },
            RunPhase::AwaitingReviewAnswer { issues } => {
                let is = copy_issues(issues);
                match event {
                    RunEvent::Answered(a) => self.on_review_answer(is, a, &mut events),
                    _ => RunAction::Ignore,
                }
            },
            RunPhase::AwaitingFixes => match event {
                RunEvent::FixesApplied => self.idle(&mut events),
                _ => RunAction::Ignore,
            },
            RunPhase::AwaitingDeadlockAnswer => match event {
                RunEvent::Answered(a) => self.on_deadlock_answer(a, &mut events),
                _ => RunAction::Ignore,
            },
            _ => RunAction::Ignore,
        };
        assert(events_view(events@) =~= events_view(Seq::<OrchestratorEvent>::empty())
            + run_step(v, event@).events);
        RunStep { action, events }
    }
}

// ------------------------------------------------------------------
// The attempts of a code agent
// ------------------------------------------------------------------

/// What one attempt of a code agent came to.
pub enum AttemptReport {
    /// The agent gave this back.
    Ended(crate::agents::AgentResult),
    /// The agent's job panicked, with the panic's text.
    Panicked(String),
}

/// The mathematical value of what an agent gives back.
pub enum AgentResultView {
    Success(serde_json::Value),
    Failure(Seq<char>),
    UserInputRequired(Seq<char>),
}

/// The value of an agent's result.
pub open spec fn agent_result_view(r: crate::agents::AgentResult) -> AgentResultView {
    match r {
        crate::agents::AgentResult::Success(d) => AgentResultView::Success(d),
        crate::agents::AgentResult::Failure(m) => AgentResultView::Failure(m@),
        crate::agents::AgentResult::UserInputRequired(m) => AgentResultView::UserInputRequired(m@),
    }
}

/// The mathematical value of an attempt's report.
pub enum AttemptReportView {
    Ended(AgentResultView),
    Panicked(Seq<char>),
}

impl View for AttemptReport {
    type V = AttemptReportView;

    open spec fn view(&self) -> AttemptReportView {
        match self {
            AttemptReport::Ended(r) => AttemptReportView::Ended(agent_result_view(*r)),
            AttemptReport::Panicked(e) => AttemptReportView::Panicked(e@),
        }
    }
}

/// What follows an attempt.
#[derive(Debug)]
pub enum AttemptStep {
    /// Launch attempt number `attempt` (counted from one), giving the agent
    /// `note` about the previous failure; announce `events` first.
    Launch { attempt: usize, note: Option<String>, events: Vec<OrchestratorEvent> },
    /// The attempts are over, with this result for the task.
    Done(crate::agents::AgentResult),
    /// The report came when no attempt was running; nothing changed.
    Ignore,
}

/// The mathematical value of what follows an attempt.
pub enum AttemptStepView {
    Launch { attempt: nat, note: Option<Seq<char>>, events: Seq<EventView> },
    Done(AgentResultView),
    Ignore,
}

impl View for AttemptStep {
    type V = AttemptStepView;

    open spec fn view(&self) -> AttemptStepView {
        match self {
            AttemptStep::Launch { attempt, note, events } => AttemptStepView::Launch {
                attempt: *attempt as nat,
                note: opt_view(*note),
                events: events_view(events@),
            },
            AttemptStep::Done(r) => AttemptStepView::Done(agent_result_view(*r)),
            AttemptStep::Ignore => AttemptStepView::Ignore,
        }
    }
}

/// The mathematical value of the attempts at a task.
pub struct AttemptsView {
    pub task_id: Seq<char>,
    pub max_retries: nat,
    /// The attempts launched so far.
    pub attempt: nat,
    /// The error of the last failed attempt.
    pub last_error: Option<Seq<char>>,
    pub done: bool,
}

/// The failure of a code agent whose attempts are all spent.
pub open spec fn exhausted_text(max_retries: nat, last_error: Option<Seq<char>>) -> Seq<char> {
    "Code Agent failed after "@ + decimal(max_retries) + " attempts: "@ + match last_error {
        Some(e) => e,
        None => Seq::<char>::empty(),
    }
}

/// The attempts are over: with this result.
pub open spec fn attempts_done(v: AttemptsView, r: AgentResultView) -> (AttemptsView, AttemptStepView) {
    (AttemptsView { done: true, ..v }, AttemptStepView::Done(r))
}

/// After attempt `v.attempt` failed with `error`: the next attempt, told
/// of the error and announced as a retry, or, with every attempt spent, a
/// failure that gives the last error.
pub open spec fn after_failure(v: AttemptsView, error: Seq<char>) -> (AttemptsView, AttemptStepView) {
    let w = AttemptsView { last_error: Some(error), ..v };
    if v.attempt < v.max_retries {
        (
            AttemptsView { attempt: v.attempt + 1, ..w },
            AttemptStepView::Launch {
                attempt: v.attempt + 1,
                note: Some("Previous attempt failed with: "@ + error),
                events: seq![EventView::TaskRetry(v.task_id, (v.attempt + 1) as usize, error)],
            },
        )
    } else {
        attempts_done(w, AgentResultView::Failure(exhausted_text(v.max_retries, Some(error))))
    }
}

/// The first step: the first attempt, or, with no attempt allowed, a
/// failure at once.
pub open spec fn attempts_begin(v: AttemptsView) -> (AttemptsView, AttemptStepView) {
    if v.done || v.attempt > 0 {
        (v, AttemptStepView::Ignore)
    } else if v.max_retries > 0 {
        (
            AttemptsView { attempt: 1, ..v },
            AttemptStepView::Launch { attempt: 1, note: None, events: seq![] },
        )
    } else {
        attempts_done(v, AgentResultView::Failure(exhausted_text(v.max_retries, v.last_error)))
    }
}

/// The step after an attempt: a success or a request for input ends the
/// attempts with that result; a failure or a panic leads to the next
/// attempt or gives up.
pub open spec fn attempts_step(v: AttemptsView, r: AttemptReportView) -> (AttemptsView, AttemptStepView) {
    if v.done || v.attempt == 0 {
        (v, AttemptStepView::Ignore)
    } else {
        match r {
            AttemptReportView::Ended(AgentResultView::Failure(m)) => after_failure(v, m),
            AttemptReportView::Ended(x) => attempts_done(v, x),
            AttemptReportView::Panicked(e) => after_failure(v, "Task panicked: "@ + e),
        }
    }
}

/// The attempts of a code agent at one task: up to `max_retries`, each
/// after the first told why the one before failed.
#[derive(Debug)]
pub struct CodeAttempts {
    task_id: String,
    max_retries: usize,
    attempt: usize,
    last_error: Option<String>,
    done: bool,
}

impl View for CodeAttempts {
    type V = AttemptsView;

    closed spec fn view(&self) -> AttemptsView {
        AttemptsView {
            task_id: self.task_id@,
            max_retries: self.max_retries as nat,
            attempt: self.attempt as nat,
            last_error: opt_view(self.last_error),
            done: self.done,
        }
    }
}

impl CodeAttempts {
    /// The invariant: no more attempts than allowed.
    pub closed spec fn wf(&self) -> bool {
        self.attempt <= self.max_retries
    }

    /// No attempt yet at the task.
    pub fn new(task_id: &str, max_retries: usize) -> (r: CodeAttempts)
        ensures
            r.wf(),
            r@ == (AttemptsView {
                task_id: task_id@,
                max_retries: max_retries as nat,
                attempt: 0,
                last_error: None,
                done: false,
            }),
    {
        CodeAttempts {
            task_id: crate::text::owned(task_id),
            max_retries,
            attempt: 0,
            last_error: None,
            done: false,
        }
    }

    fn give_up(&mut self) -> (r: AttemptStep)
        requires
            old(self).wf(),
        ensures
            final(self).wf(),
            (final(self)@, r@) == attempts_done(
                old(self)@,
                AgentResultView::Failure(exhausted_text(old(self)@.max_retries, old(self)@.last_error)),
            ),
    {
        let m = match &self.last_error {
            Some(e) => crate::orchestrator::retries_exhausted(self.max_retries, Some(e.as_str())),
            None => crate::orchestrator::retries_exhausted(self.max_retries, None),
        };
        self.done = true;
        AttemptStep::Done(crate::agents::AgentResult::Failure(m))
    }

    fn failed_with(&mut self, error: String) -> (r: AttemptStep)
        requires
            old(self).wf(),
            !old(self)@.done,
            old(self)@.attempt > 0,
        ensures
            final(self).wf(),
            (final(self)@, r@) == after_failure(old(self)@, error@),
    {
        self.last_error = Some(error.clone());
        if crate::orchestrator::another_attempt(self.attempt, self.max_retries) {
            self.attempt = self.attempt + 1;
            let note = crate::orchestrator::retry_note(error.as_str());
            let mut events: Vec<OrchestratorEvent> = Vec::new();
            emit(
                &mut events,
                OrchestratorEvent::TaskRetry(self.task_id.clone(), self.attempt, error),
            );
            assert(events_view(events@) =~= after_failure(old(self)@, error@).1->events);
            AttemptStep::Launch { attempt: self.attempt, note: Some(note), events }
        } else {
            self.give_up()
        }
    }

    /// The first step: launch the first attempt, or fail at once when no
    /// attempt is allowed. Once begun, the call is ignored.
    pub fn begin(&mut self) -> (r: AttemptStep)
        requires
            old(self).wf(),
        ensures
            final(self).wf(),
            (final(self)@, r@) == attempts_begin(old(self)@),
    {
        if self.done || self.attempt > 0 {
            AttemptStep::Ignore
        } else if self.max_retries > 0 {
            self.attempt = 1;
            let events: Vec<OrchestratorEvent> = Vec::new();
            assert(events_view(events@) =~= Seq::<EventView>::empty());
            AttemptStep::Launch { attempt: 1, note: None, events }
        } else {
            self.give_up()
        }
    }

    /// The step after the running attempt reported how it went.
    pub fn report(&mut self, r: AttemptReport) -> (s: AttemptStep)
        requires
            old(self).wf(),
        ensures
            final(self).wf(),
            (final(self)@, s@) == attempts_step(old(self)@, r@),
    {
        if self.done || self.attempt == 0 {
            return AttemptStep::Ignore;
        }
        match r {
            AttemptReport::Ended(crate::agents::AgentResult::Failure(m)) => self.failed_with(m),
            AttemptReport::Ended(x) => {
                self.done = true;
                AttemptStep::Done(x)
            },
            AttemptReport::Panicked(e) => {
                let mut m = crate::text::owned("Task panicked: ");
                crate::text::push_str(&mut m, e.as_str());
                self.failed_with(m)
            },
        }
    }
}

// ------------------------------------------------------------------
// Laws of the run
// ------------------------------------------------------------------

/// Every identifier that `ready_ids` lists belongs to a ready task among
/// the first `n`.
proof fn lemma_ready_ids_ready(ts: Seq<TaskSpecView>, n: int, cf: Option<Seq<char>>, k: int)
    requires
        0 <= n <= ts.len(),
        0 <= k < ready_ids(ts, n, cf).len(),
    ensures
        exists|i: int|
            0 <= i < n && ts[i].id == ready_ids(ts, n, cf)[k] && crate::orchestrator::is_ready(
                ts,
                #[trigger] ts[i],
                cf,
            ),
    decreases n,
{
    let prev = ready_ids(ts, n - 1, cf);
    if k < prev.len() {
        lemma_ready_ids_ready(ts, n - 1, cf, k);
        let i = choose|i: int|
            0 <= i < n - 1 && ts[i].id == prev[k] && crate::orchestrator::is_ready(ts, #[trigger] ts[i], cf);
        assert(ts[i].id == ready_ids(ts, n, cf)[k]);
    } else {
        assert(crate::orchestrator::is_ready(ts, ts[n - 1], cf));
    }
}

/// The run only starts a task that is ready when it chooses tasks: the task
/// is on the board, pending, not before the task to continue from, and
/// every one of its dependencies is a completed task of the board.
pub proof fn lemma_scheduled_task_is_ready(v: RunView)
    ensures
        schedule(v).action matches ActionView::RunTask(id) ==> exists|i: int|
            0 <= i < v.board.len() && v.board[i].id == id && crate::orchestrator::is_ready(
                v.board,
                #[trigger] v.board[i],
                v.continue_from,
            ),
{
    let ready = ready_ids(v.board, v.board.len() as int, v.continue_from);
    if ready.len() > 0 {
        lemma_ready_ids_ready(v.board, v.board.len() as int, v.continue_from, 0);
    }
}

/// A finished run ignores every report: nothing changes and nothing is
/// announced.
pub proof fn lemma_finished_run_ignores(v: RunView, e: RunEventView)
    requires
        v.phase is Finished,
    ensures
        run_step(v, e).run == v,
        run_step(v, e).events.len() == 0,
        run_step(v, e).action == ActionView::Ignore,
{
}

/// A run ends in one of two ways only: with the summary and the end of
/// the plan announced last, or stopped with only the stop announced. In
/// both the run is finished afterwards.
pub proof fn lemma_run_ends_announced(v: RunView, e: RunEventView)
    ensures
        run_step(v, e).action == ActionView::Finish ==> {
            let s = run_step(v, e);
            &&& s.run.phase is Finished
            &&& s.events.len() >= 2
            &&& s.events[s.events.len() - 2] == EventView::AgentMessage(
                summary_text(s.run.completed.len(), s.run.failed.len()),
            )
            &&& s.events.last() == EventView::PlanCompleted
        },
        run_step(v, e).action == ActionView::Stop ==> {
            let s = run_step(v, e);
            &&& s.run.phase is Finished
            &&& s.events == seq![EventView::SessionStopped(v.session_id)]
        },
{
}

/// The attempts never go past the limit, and a launched attempt is the one
/// after the last.
pub proof fn lemma_attempts_bounded(v: AttemptsView, r: AttemptReportView)
    requires
        v.attempt <= v.max_retries,
    ensures
        attempts_step(v, r).0.attempt <= v.max_retries,
        attempts_begin(v).0.attempt <= v.max_retries,
        attempts_step(v, r).1 matches AttemptStepView::Launch { attempt, .. } ==> attempt == v.attempt
            + 1 && attempt == attempts_step(v, r).0.attempt,
{
}

} // verus!
