//! The state of the terminal interface and how events change it: what the
//! orchestrator reports, and the keys the user presses.
//!
//! Drawing the state and reading the terminal happen around these
//! functions.
use vstd::prelude::*;
use crate::session::{uuid_text, OrchestratorEvent};
use crate::text::{decimal, owned, push_decimal, push_str};
use crate::types::{strings_view, TaskSpec, TaskStatus};

verus! {

/// What the keyboard is used for.
#[derive(Debug, Clone, Copy, PartialEq, Eq, Structural)]
pub enum AppMode {
    /// Navigating between panels.
    Normal,
    /// Answering a question of the ask agent.
    AskAgentInput,
    /// Typing a command in the dashboard chat.
    CommandInput,
}

/// The panel in front.
#[derive(Debug, Clone, Copy, PartialEq, Eq, Structural)]
pub enum ActivePanel {
    Plan,
    Session,
    Agent,
    Index,
}

/// Who wrote a chat message.
#[derive(Debug, Clone, Copy, PartialEq, Eq, Structural)]
pub enum ChatRole {
    User,
    Agent,
    System,
}

/// A task as the session view shows it.
#[derive(Debug, Clone)]
pub struct TaskDisplay {
    pub id: String,
    pub title: String,
    pub status: TaskStatus,
}

/// An entry of the agent activity log, with the time it was made (in
/// milliseconds of the interface's clock).
#[derive(Debug, Clone)]
pub struct AgentLogEntry {
    pub timestamp: u64,
    pub message: String,
}

/// A message of the dashboard chat, with the time it was written.
#[derive(Debug, Clone)]
pub struct ChatMessage {
    pub role: ChatRole,
    pub content: String,
    pub timestamp: u64,
}

/// How many log entries are kept.
pub open spec fn log_capacity() -> nat {
    50
}

/// The most tasks whose progress can be shown: the percentage is computed
/// in 16 bits.
pub open spec fn max_tasks() -> nat {
    655
}

/// The state of the interface.
#[derive(Debug, Clone)]
pub struct AppState {
    pub mode: AppMode,
    pub current_step: Option<String>,
    pub agent_messages: Vec<String>,
    pub session_id: Option<String>,
    pub quit_confirm: bool,
    pub active_panel: ActivePanel,
    /// What is being typed.
    pub input_buffer: String,
    /// The question of the ask agent, while it is answered.
    pub ask_question: Option<String>,
    /// The options of that question.
    pub ask_options: Vec<String>,
    pub tasks: Vec<TaskDisplay>,
    pub agent_log: Vec<AgentLogEntry>,
    /// Percentage of the tasks completed.
    pub session_progress: u16,
    pub session_status: String,
    pub plan_path: Option<String>,
    /// The number of tasks with each status, in the order of
    /// `status_slot`.
    pub task_counts: Vec<usize>,
    pub chat_messages: Vec<ChatMessage>,
    pub command_history: Vec<String>,
    pub history_index: usize,
}

/// The place of a status among the counts.
pub open spec fn status_slot(s: TaskStatus) -> int {
    match s {
        TaskStatus::Pending => 0,
        TaskStatus::InProgress => 1,
        TaskStatus::Completed => 2,
        TaskStatus::Failed => 3,
        TaskStatus::Skipped => 4,
    }
}

/// The number of tasks among the first `n` with status `s`.
pub open spec fn count_status(tasks: Seq<TaskDisplay>, s: TaskStatus, n: int) -> nat
    decreases n,
{
    if n <= 0 {
        0
    } else {
        count_status(tasks, s, n - 1) + if tasks[n - 1].status == s {
            1nat
        } else {
            0nat
        }
    }
}

/// The counts of each status among the tasks.
pub open spec fn counts_of(tasks: Seq<TaskDisplay>) -> Seq<nat> {
    Seq::new(5, |k: int| count_status(tasks, status_of_slot(k), tasks.len() as int))
}

/// The status at a place among the counts.
pub open spec fn status_of_slot(k: int) -> TaskStatus {
    if k == 0 {
        TaskStatus::Pending
    } else if k == 1 {
        TaskStatus::InProgress
    } else if k == 2 {
        TaskStatus::Completed
    } else if k == 3 {
        TaskStatus::Failed
    } else {
        TaskStatus::Skipped
    }
}

/// The percentage of completed tasks, rounded down; zero with no task.
pub open spec fn progress_of(tasks: Seq<TaskDisplay>) -> nat {
    if tasks.len() == 0 {
        0
    } else {
        let p = count_status(tasks, TaskStatus::Completed, tasks.len() as int) * 100 / tasks.len();
        if p <= 100 {
            p
        } else {
            100
        }
    }
}

/// The position of the first task with identifier `id`, or -1.
pub open spec fn first_task(tasks: Seq<TaskDisplay>, id: Seq<char>, k: int) -> int
    decreases tasks.len() - k,
{
    if k < 0 || k >= tasks.len() {
        -1
    } else if tasks[k].id@ == id {
        k
    } else {
        first_task(tasks, id, k + 1)
    }
}

/// The tasks as identifiers and titles.
pub open spec fn task_labels(tasks: Seq<TaskDisplay>) -> Seq<(Seq<char>, Seq<char>)> {
    tasks.map_values(|t: TaskDisplay| (t.id@, t.title@))
}

/// `b` is `a` with the first task named `id` (if any) given status `s`.
pub open spec fn status_set(a: Seq<TaskDisplay>, b: Seq<TaskDisplay>, id: Seq<char>, s: TaskStatus) -> bool {
    &&& task_labels(b) == task_labels(a)
    &&& a.len() == b.len()
    &&& forall|i: int|
        0 <= i < a.len() ==> (#[trigger] b[i]).status == if i == first_task(a, id, 0) {
            s
        } else {
            a[i].status
        }
}

/// The log entries as times and texts.
pub open spec fn log_view(l: Seq<AgentLogEntry>) -> Seq<(u64, Seq<char>)> {
    l.map_values(|e: AgentLogEntry| (e.timestamp, e.message@))
}

/// The log after adding an entry: the last fifty entries are kept.
pub open spec fn log_after(l: Seq<(u64, Seq<char>)>, e: (u64, Seq<char>)) -> Seq<(u64, Seq<char>)> {
    let m = l.push(e);
    if m.len() > log_capacity() {
        m.subrange(m.len() - log_capacity(), m.len() as int)
    } else {
        m
    }
}

/// The marker of a status in a plan file.
pub open spec fn marker_char(s: TaskStatus) -> Seq<char> {
    match s {
        TaskStatus::Pending => " "@,
        TaskStatus::InProgress => "~"@,
        TaskStatus::Completed => "x"@,
        TaskStatus::Failed => "!"@,
        TaskStatus::Skipped => "-"@,
    }
}

/// The state is consistent: five counts, and not too many tasks.
pub open spec fn state_ok(s: AppState) -> bool {
    &&& s.task_counts@.len() == 5
    &&& s.tasks@.len() <= max_tasks()
}

/// The fields that an event never changes are the same in `a` and `b`.
pub open spec fn same_frame(a: AppState, b: AppState) -> bool {
    &&& a.mode == b.mode
    &&& a.session_id == b.session_id
    &&& a.quit_confirm == b.quit_confirm
    &&& a.active_panel == b.active_panel
    &&& a.input_buffer == b.input_buffer
    &&& a.ask_question == b.ask_question
    &&& a.ask_options == b.ask_options
    &&& a.plan_path == b.plan_path
    &&& a.chat_messages == b.chat_messages
    &&& a.command_history == b.command_history
    &&& a.history_index == b.history_index
}

/// The counts and the progress follow the tasks.
pub open spec fn tallied(s: AppState) -> bool {
    &&& s.task_counts@.len() == 5
    &&& forall|k: int| 0 <= k < 5 ==> s.task_counts@[k] as nat == (#[trigger] counts_of(s.tasks@)[k])
}

/// What an event does to the state, beside what `same_frame` keeps.
pub open spec fn event_effect(a: AppState, b: AppState, e: OrchestratorEvent, now: u64) -> bool {
    match e {
        OrchestratorEvent::StepStarted(t) => {
            &&& b.current_step == Some(t)
            &&& b.session_status@ == "Running"@
            &&& status_set(a.tasks@, b.tasks@, t@, TaskStatus::InProgress)
            &&& log_view(b.agent_log@) == log_after(log_view(a.agent_log@), (now, "[~] Task "@ + t@ + " started"@))
            &&& b.agent_messages == a.agent_messages
            &&& b.task_counts == a.task_counts
            &&& b.session_progress == a.session_progress
        },
        OrchestratorEvent::StepCompleted(t) => {
            &&& b.current_step == a.current_step
            &&& b.session_status == a.session_status
            &&& strings_view(b.agent_messages@) == strings_view(a.agent_messages@).push("Completed step: "@ + t@)
            &&& status_set(a.tasks@, b.tasks@, t@, TaskStatus::Completed)
            &&& tallied(b)
            &&& log_view(b.agent_log@) == log_after(log_view(a.agent_log@), (now, "[x] Task "@ + t@ + " completed"@))
            &&& b.session_progress as nat == progress_of(b.tasks@)
        },
        OrchestratorEvent::StepFailed(t, err) => {
            &&& b.current_step == a.current_step
            &&& b.session_status == a.session_status
            &&& strings_view(b.agent_messages@) == strings_view(a.agent_messages@).push(
                "Failed step: "@ + t@ + " - "@ + err@,
            )
            &&& status_set(a.tasks@, b.tasks@, t@, TaskStatus::Failed)
            &&& tallied(b)
            &&& log_view(b.agent_log@) == log_after(
                log_view(a.agent_log@),
                (now, "[!] Task "@ + t@ + " failed: "@ + err@),
            )
            &&& b.session_progress as nat == progress_of(b.tasks@)
        },
        OrchestratorEvent::AgentMessage(m) => {
            &&& b.current_step == a.current_step
            &&& b.session_status == a.session_status
            &&& strings_view(b.agent_messages@) == strings_view(a.agent_messages@).push(m@)
            &&& b.tasks == a.tasks
            &&& b.task_counts == a.task_counts
            &&& log_view(b.agent_log@) == log_after(log_view(a.agent_log@), (now, m@))
            &&& b.session_progress == a.session_progress
        },
        OrchestratorEvent::PlanCompleted => {
            &&& b.current_step == a.current_step
            &&& b.session_status@ == "Completed"@
            &&& strings_view(b.agent_messages@) == strings_view(a.agent_messages@).push("Plan completed"@)
            &&& b.tasks == a.tasks
            &&& b.task_counts == a.task_counts
            &&& b.agent_log == a.agent_log
            &&& b.session_progress == 100
        },
        OrchestratorEvent::PlanMarkerUpdated(t, s) => {
            &&& b.current_step == a.current_step
            &&& b.session_status == a.session_status
            &&& strings_view(b.agent_messages@) == strings_view(a.agent_messages@).push(
                "Task "@ + t@ + " marker updated to ["@ + marker_char(s) + "]"@,
            )
            &&& status_set(a.tasks@, b.tasks@, t@, s)
            &&& tallied(b)
            &&& b.agent_log == a.agent_log
            &&& b.session_progress == a.session_progress
        },
        OrchestratorEvent::SessionStopped(id) => {
            &&& b.current_step == a.current_step
            &&& b.session_status@ == "Stopped"@
            &&& strings_view(b.agent_messages@) == strings_view(a.agent_messages@).push(
                "Session "@ + uuid_text(id) + " stopped"@,
            )
            &&& b.tasks == a.tasks
            &&& b.task_counts == a.task_counts
            &&& b.agent_log == a.agent_log
            &&& b.session_progress == a.session_progress
        },
        OrchestratorEvent::TaskRetry(t, n, err) => {
            &&& b.current_step == a.current_step
            &&& b.session_status == a.session_status
            &&& strings_view(b.agent_messages@) == strings_view(a.agent_messages@).push(
                "Task "@ + t@ + " retry attempt "@ + decimal(n as nat) + ": "@ + err@,
            )
            &&& b.tasks == a.tasks
            &&& b.task_counts == a.task_counts
            &&& log_view(b.agent_log@) == log_view(a.agent_log@).push(
                (now, "Task "@ + t@ + " retry "@ + decimal(n as nat) + ": "@ + err@),
            )
            &&& b.session_progress == a.session_progress
        },
    }
}

impl AppState {
    /// The state at start: normal mode, the plan panel, no task, "Idle".
    pub fn new() -> (r: AppState)
        ensures
            state_ok(r),
            r.mode == AppMode::Normal,
            r.active_panel == ActivePanel::Plan,
            r.tasks@.len() == 0,
            r.session_status@ == "Idle"@,
            r.session_progress == 0,
            tallied(r),
    {
        let r = AppState {
            mode: AppMode::Normal,
            current_step: None,
            agent_messages: Vec::new(),
            session_id: None,
            quit_confirm: false,
            active_panel: ActivePanel::Plan,
            input_buffer: String::new(),
            ask_question: None,
            ask_options: Vec::new(),
            tasks: Vec::new(),
            agent_log: Vec::new(),
            session_progress: 0,
            session_status: owned("Idle"),
            plan_path: None,
            task_counts: vec![0, 0, 0, 0, 0],
            chat_messages: Vec::new(),
            command_history: Vec::new(),
            history_index: 0,
        };
        assert forall|k: int| 0 <= k < 5 implies r.task_counts@[k] as nat == (#[trigger] counts_of(r.tasks@)[k]) by {}
        r
    }

    /// Counts the tasks of each status.
    pub fn update_task_counts(&mut self)
        requires
            state_ok(*old(self)),
        ensures
            state_ok(*final(self)),
            tallied(*final(self)),
            *final(self) == (AppState { task_counts: final(self).task_counts, ..*old(self) }),
    {
        let mut counts: Vec<usize> = vec![0, 0, 0, 0, 0];
        let mut i: usize = 0;
        while i < self.tasks.len()
            invariant
                i <= self.tasks@.len(),
                self.tasks@.len() <= max_tasks(),
                counts@.len() == 5,
                forall|k: int| 0 <= k < 5 ==> counts@[k] as nat == count_status(self.tasks@, status_of_slot(k), i as int),
                forall|k: int| 0 <= k < 5 ==> counts@[k] <= i,
            decreases self.tasks@.len() - i,
        {
            let slot: usize = match self.tasks[i].status {
                TaskStatus::Pending => 0,
                TaskStatus::InProgress => 1,
                TaskStatus::Completed => 2,
                TaskStatus::Failed => 3,
                TaskStatus::Skipped => 4,
            };
            let c = counts[slot];
            counts.set(slot, c + 1);
            i = i + 1;
        }
        self.task_counts = counts;
    }

    /// Sets the progress to the percentage of completed tasks.
    pub fn update_session_progress(&mut self)
        requires
            state_ok(*old(self)),
        ensures
            state_ok(*final(self)),
            final(self).session_progress as nat == progress_of(old(self).tasks@),
            *final(self) == (AppState { session_progress: final(self).session_progress, ..*old(self) }),
    {
        let n = self.tasks.len();
        if n == 0 {
            self.session_progress = 0;
            return;
        }
        let mut completed: usize = 0;
        let mut i: usize = 0;
        while i < n
            invariant
                i <= n,
                n == self.tasks@.len(),
                n <= max_tasks(),
                completed as nat == count_status(self.tasks@, TaskStatus::Completed, i as int),
                completed <= i,
            decreases n - i,
        {
            if self.tasks[i].status == TaskStatus::Completed {
                completed = completed + 1;
            }
            i = i + 1;
        }
        let p: u16 = ((completed as u16) * 100) / (n as u16);
        assert(completed as nat * 100 / n as nat <= 100) by (nonlinear_arith)
            requires completed <= n, n > 0;
        self.session_progress = if p > 100 { 100 } else { p };
    }

    /// Shows the given tasks.
    pub fn update_tasks(&mut self, tasks: &Vec<TaskSpec>)
        requires
            state_ok(*old(self)),
            tasks@.len() <= max_tasks(),
        ensures
            state_ok(*final(self)),
            final(self).tasks@.len() == tasks@.len(),
            forall|i: int| 0 <= i < tasks@.len() ==> (#[trigger] final(self).tasks@[i]).id@ == tasks@[i].id@
                && final(self).tasks@[i].title@ == tasks@[i].title@ && final(self).tasks@[i].status == tasks@[i].status,
            tallied(*final(self)),
            final(self).session_progress as nat == progress_of(final(self).tasks@),
    {
        let mut v: Vec<TaskDisplay> = Vec::new();
        let mut i: usize = 0;
        while i < tasks.len()
            invariant
                i <= tasks@.len(),
                v@.len() == i,
                forall|k: int| 0 <= k < i ==> (#[trigger] v@[k]).id@ == tasks@[k].id@ && v@[k].title@ == tasks@[k].title@
                    && v@[k].status == tasks@[k].status,
            decreases tasks@.len() - i,
        {
            v.push(TaskDisplay { id: tasks[i].id.clone(), title: tasks[i].title.clone(), status: tasks[i].status });
            i = i + 1;
        }
        self.tasks = v;
        self.update_task_counts();
        self.update_session_progress();
    }

    /// Gives the first task named `id` (if any) the status `s`.
    fn set_task_status(&mut self, id: &String, s: TaskStatus)
        requires
            state_ok(*old(self)),
        ensures
            state_ok(*final(self)),
            status_set(old(self).tasks@, final(self).tasks@, id@, s),
            same_frame(*old(self), *final(self)),
            final(self).current_step == old(self).current_step,
            final(self).session_status == old(self).session_status,
            final(self).agent_messages == old(self).agent_messages,
            final(self).agent_log == old(self).agent_log,
            final(self).task_counts == old(self).task_counts,
            final(self).session_progress == old(self).session_progress,
    {
        let ghost a = self.tasks@;
        let mut i: usize = 0;
        while i < self.tasks.len()
            invariant
                i <= a.len(),
                *self == *old(self),
                state_ok(*old(self)),
                a == old(self).tasks@,
                first_task(a, id@, 0) == first_task(a, id@, i as int),
            decreases a.len() - i,
        {
            if self.tasks[i].id == *id {
                let t = TaskDisplay { id: self.tasks[i].id.clone(), title: self.tasks[i].title.clone(), status: s };
                self.tasks.set(i, t);
                assert(task_labels(self.tasks@) =~= task_labels(a));
                return;
            }
            i = i + 1;
        }
        assert(task_labels(self.tasks@) =~= task_labels(a));
    }

    /// Adds an entry to the agent log, keeping the last fifty.
    fn log(&mut self, message: String, now: u64)
        ensures
            log_view(final(self).agent_log@) == log_after(log_view(old(self).agent_log@), (now, message@)),
            same_frame(*old(self), *final(self)),
            final(self).current_step == old(self).current_step,
            final(self).session_status == old(self).session_status,
            final(self).agent_messages == old(self).agent_messages,
            final(self).tasks == old(self).tasks,
            final(self).task_counts == old(self).task_counts,
            final(self).session_progress == old(self).session_progress,
    {
        let ghost l = log_view(self.agent_log@).push((now, message@));
        self.agent_log.push(AgentLogEntry { timestamp: now, message });
        assert(log_view(self.agent_log@) =~= l);
        let n = self.agent_log.len();
        if n > 50 {
            let mut kept: Vec<AgentLogEntry> = Vec::new();
            let mut i: usize = n - 50;
            while i < n
                invariant
                    n > 50,
                    n - 50 <= i <= n,
                    n == self.agent_log@.len(),
                    n == log_view(self.agent_log@).len(),
                    log_view(kept@) == log_view(self.agent_log@).subrange(n - 50, i as int),
                decreases n - i,
            {
                let ghost before = log_view(kept@);
                let ghost lv = log_view(self.agent_log@);
                assert(lv[i as int] == (self.agent_log@[i as int].timestamp, self.agent_log@[i as int].message@));
                assert(lv.subrange(n - 50, i + 1) =~= lv.subrange(n - 50, i as int).push(lv[i as int]));
                kept.push(AgentLogEntry { timestamp: self.agent_log[i].timestamp, message: self.agent_log[i].message.clone() });
                assert(log_view(kept@) =~= before.push(log_view(self.agent_log@)[i as int]));
                i = i + 1;
                assert(log_view(kept@) =~= log_view(self.agent_log@).subrange(n - 50, i as int));
            }
            self.agent_log = kept;
        }
    }
}

impl AppState {
    /// Shows what the orchestrator reports, as `event_effect` says; `now`
    /// is the time of the log entry.
    pub fn handle_orchestrator_event(&mut self, event: &OrchestratorEvent, now: u64)
        requires
            state_ok(*old(self)),
        ensures
            state_ok(*final(self)),
            same_frame(*old(self), *final(self)),
            event_effect(*old(self), *final(self), *event, now),
    {
        match event {
            OrchestratorEvent::StepStarted(t) => {
                self.current_step = Some(t.clone());
                self.session_status = owned("Running");
                self.set_task_status(t, TaskStatus::InProgress);
                let mut m = owned("[~] Task ");
                push_str(&mut m, t.as_str());
                push_str(&mut m, " started");
                self.log(m, now);
            },
            OrchestratorEvent::StepCompleted(t) => {
                let mut m = owned("Completed step: ");
                push_str(&mut m, t.as_str());
                let ghost msgs = strings_view(self.agent_messages@);
                let pushed = m;
                let ghost pv = pushed@;
                self.agent_messages.push(pushed);
                assert(strings_view(self.agent_messages@) =~= msgs.push(pv));
                self.set_task_status(t, TaskStatus::Completed);
                self.update_task_counts();
                let mut l = owned("[x] Task ");
                push_str(&mut l, t.as_str());
                push_str(&mut l, " completed");
                self.log(l, now);
                self.update_session_progress();
            },
            OrchestratorEvent::StepFailed(t, err) => {
                let mut m = owned("Failed step: ");
                push_str(&mut m, t.as_str());
                push_str(&mut m, " - ");
                push_str(&mut m, err.as_str());
                let ghost msgs = strings_view(self.agent_messages@);
                let pushed = m;
                let ghost pv = pushed@;
                self.agent_messages.push(pushed);
                assert(strings_view(self.agent_messages@) =~= msgs.push(pv));
                self.set_task_status(t, TaskStatus::Failed);
                self.update_task_counts();
                let mut l = owned("[!] Task ");
                push_str(&mut l, t.as_str());
                push_str(&mut l, " failed: ");
                push_str(&mut l, err.as_str());
                self.log(l, now);
                self.update_session_progress();
            },
            OrchestratorEvent::AgentMessage(msg) => {
                let ghost msgs = strings_view(self.agent_messages@);
                let pushed = msg.clone();
                let ghost pv = pushed@;
                self.agent_messages.push(pushed);
                assert(strings_view(self.agent_messages@) =~= msgs.push(pv));
                self.log(msg.clone(), now);
            },
            OrchestratorEvent::PlanCompleted => {
                let ghost msgs = strings_view(self.agent_messages@);
                let pushed = owned("Plan completed");
                let ghost pv = pushed@;
                self.agent_messages.push(pushed);
                assert(strings_view(self.agent_messages@) =~= msgs.push(pv));
                self.session_status = owned("Completed");
                self.session_progress = 100;
            },
            OrchestratorEvent::PlanMarkerUpdated(t, st) => {
                let marker = match st {
                    TaskStatus::Pending => " ",
                    TaskStatus::InProgress => "~",
                    TaskStatus::Completed => "x",
                    TaskStatus::Failed => "!",
                    TaskStatus::Skipped => "-",
                };
                self.set_task_status(t, *st);
                self.update_task_counts();
                let mut m = owned("Task ");
                push_str(&mut m, t.as_str());
                push_str(&mut m, " marker updated to [");
                push_str(&mut m, marker);
                push_str(&mut m, "]");
                let ghost msgs = strings_view(self.agent_messages@);
                let pushed = m;
                let ghost pv = pushed@;
                self.agent_messages.push(pushed);
                assert(strings_view(self.agent_messages@) =~= msgs.push(pv));
            },
            OrchestratorEvent::SessionStopped(id) => {
                let mut m = owned("Session ");
                let text = crate::session::uuid_to_string(*id);
                push_str(&mut m, text.as_str());
                push_str(&mut m, " stopped");
                let ghost msgs = strings_view(self.agent_messages@);
                let pushed = m;
                let ghost pv = pushed@;
                self.agent_messages.push(pushed);
                assert(strings_view(self.agent_messages@) =~= msgs.push(pv));
                self.session_status = owned("Stopped");
            },
            OrchestratorEvent::TaskRetry(t, n, err) => {
                let mut m = owned("Task ");
                push_str(&mut m, t.as_str());
                push_str(&mut m, " retry attempt ");
                push_decimal(&mut m, *n as u64);
                push_str(&mut m, ": ");
                push_str(&mut m, err.as_str());
                let ghost msgs = strings_view(self.agent_messages@);
                let pushed = m;
                let ghost pv = pushed@;
                self.agent_messages.push(pushed);
                assert(strings_view(self.agent_messages@) =~= msgs.push(pv));
                let mut l = owned("Task ");
                push_str(&mut l, t.as_str());
                push_str(&mut l, " retry ");
                push_decimal(&mut l, *n as u64);
                push_str(&mut l, ": ");
                push_str(&mut l, err.as_str());
                let ghost before = log_view(self.agent_log@);
                self.agent_log.push(AgentLogEntry { timestamp: now, message: l });
                assert(log_view(self.agent_log@) =~= before.push((now, "Task "@ + t@ + " retry "@ + decimal(*n as nat) + ": "@ + err@)));
            },
        }
    }
}

// ------------------------------------------------------------------
// Keys
// ------------------------------------------------------------------

/// A key the user pressed.
#[derive(Debug, Clone, Copy, PartialEq, Eq, Structural)]
pub enum Key {
    Char(char),
    Tab,
    Enter,
    Esc,
    Backspace,
    Delete,
    Up,
    Down,
    Left,
    Right,
    Other,
}

/// What a key leads to.
#[derive(Debug, Clone)]
pub enum KeyOutcome {
    /// Keep going.
    Continue,
    /// Leave the interface.
    Quit,
    /// Carry out the command typed in the chat.
    Command(String),
}

/// The panel after the given one, in the order of the tab key.
pub open spec fn next_panel(p: ActivePanel) -> ActivePanel {
    match p {
        ActivePanel::Plan => ActivePanel::Session,
        ActivePanel::Session => ActivePanel::Agent,
        ActivePanel::Agent => ActivePanel::Index,
        ActivePanel::Index => ActivePanel::Plan,
    }
}

/// `s` without its last character (unchanged when empty).
pub open spec fn drop_last_char(s: Seq<char>) -> Seq<char> {
    if s.len() == 0 {
        s
    } else {
        s.drop_last()
    }
}

/// Removes the last character of `s`, if any.
fn pop_char(s: &mut String)
    ensures
        final(s)@ == drop_last_char(old(s)@),
{
    let c = crate::text::chars_of(s.as_str());
    if c.len() > 0 {
        *s = crate::text::string_of(&c, 0, c.len() - 1);
        assert(c@.subrange(0, c@.len() - 1) =~= c@.drop_last());
    }
}

impl AppState {
    /// Asks the user a question: the ask mode, with the question and its
    /// options, and an empty input.
    pub fn switch_to_ask_mode(&mut self, question: String, options: Vec<String>)
        ensures
            final(self).mode == AppMode::AskAgentInput,
            final(self).ask_question == Some(question),
            final(self).ask_options == options,
            final(self).input_buffer@.len() == 0,
            *final(self) == (AppState {
                mode: final(self).mode,
                ask_question: final(self).ask_question,
                ask_options: final(self).ask_options,
                input_buffer: final(self).input_buffer,
                ..*old(self)
            }),
    {
        self.mode = AppMode::AskAgentInput;
        self.ask_question = Some(question);
        self.ask_options = options;
        self.input_buffer = String::new();
    }

    /// Leaves the ask mode and gives what was typed; outside the ask mode
    /// nothing changes.
    pub fn switch_to_normal_mode(&mut self) -> (r: Option<String>)
        ensures
            old(self).mode == AppMode::AskAgentInput ==> {
                &&& r matches Some(x) && x == old(self).input_buffer
                &&& final(self).mode == AppMode::Normal
                &&& final(self).input_buffer@.len() == 0
                &&& final(self).ask_question is None
                &&& final(self).ask_options@.len() == 0
                &&& *final(self) == (AppState {
                    mode: final(self).mode,
                    ask_question: final(self).ask_question,
                    ask_options: final(self).ask_options,
                    input_buffer: final(self).input_buffer,
                    ..*old(self)
                })
            },
            old(self).mode != AppMode::AskAgentInput ==> r is None && *final(self) == *old(self),
    {
        if self.mode == AppMode::AskAgentInput {
            self.mode = AppMode::Normal;
            let input = self.input_buffer.clone();
            self.input_buffer = String::new();
            self.ask_question = None;
            self.ask_options = Vec::new();
            Some(input)
        } else {
            None
        }
    }

    /// A key in normal mode: `q` quits (asking once to confirm while the
    /// orchestrator runs), `p`, `s`, `a`, `i` and tab choose the panel,
    /// space notes that pausing is not available while running, `:` and `/`
    /// open the command input, enter and escape withdraw the quit request.
    pub fn handle_normal_mode_key(&mut self, key: Key, running: bool) -> (r: KeyOutcome)
        ensures
            match key {
                Key::Char('q') => if running && !old(self).quit_confirm {
                    r is Continue && *final(self) == (AppState { quit_confirm: true, ..*old(self) })
                } else {
                    r is Quit && *final(self) == *old(self)
                },
                Key::Char('p') => r is Continue && *final(self) == (AppState { active_panel: ActivePanel::Plan, ..*old(self) }),
                Key::Char('s') => r is Continue && *final(self) == (AppState { active_panel: ActivePanel::Session, ..*old(self) }),
                Key::Char('a') => r is Continue && *final(self) == (AppState { active_panel: ActivePanel::Agent, ..*old(self) }),
                Key::Char('i') => r is Continue && *final(self) == (AppState { active_panel: ActivePanel::Index, ..*old(self) }),
                Key::Tab => r is Continue && *final(self) == (AppState { active_panel: next_panel(old(self).active_panel), ..*old(self) }),
                Key::Char(' ') => r is Continue && if running {
                    &&& strings_view(final(self).agent_messages@) == strings_view(old(self).agent_messages@).push(
                        "Pause/resume not yet implemented"@,
                    )
                    &&& *final(self) == (AppState { agent_messages: final(self).agent_messages, ..*old(self) })
                } else {
                    *final(self) == *old(self)
                },
                Key::Char(':') | Key::Char('/') => r is Continue && final(self).mode == AppMode::CommandInput
                    && final(self).input_buffer@.len() == 0 && *final(self) == (AppState {
                    mode: final(self).mode,
                    input_buffer: final(self).input_buffer,
                    ..*old(self)
                }),
                Key::Enter | Key::Esc => r is Continue && *final(self) == (AppState { quit_confirm: false, ..*old(self) }),
                _ => r is Continue && *final(self) == *old(self),
            },
    {
        match key {
            Key::Char('q') => {
                if running {
                    if self.quit_confirm {
                        return KeyOutcome::Quit;
                    }
                    self.quit_confirm = true;
                    KeyOutcome::Continue
                } else {
                    KeyOutcome::Quit
                }
            },
            Key::Char('p') => {
                self.active_panel = ActivePanel::Plan;
                KeyOutcome::Continue
            },
            Key::Char('s') => {
                self.active_panel = ActivePanel::Session;
                KeyOutcome::Continue
            },
            Key::Char('a') => {
                self.active_panel = ActivePanel::Agent;
                KeyOutcome::Continue
            },
            Key::Char('i') => {
                self.active_panel = ActivePanel::Index;
                KeyOutcome::Continue
            },
            Key::Tab => {
                self.active_panel = match self.active_panel {
                    ActivePanel::Plan => ActivePanel::Session,
                    ActivePanel::Session => ActivePanel::Agent,
                    ActivePanel::Agent => ActivePanel::Index,
                    ActivePanel::Index => ActivePanel::Plan,
                };
                KeyOutcome::Continue
            },
            Key::Char(' ') => {
                if running {
                    let ghost msgs = strings_view(self.agent_messages@);
                    self.agent_messages.push(owned("Pause/resume not yet implemented"));
                    assert(strings_view(self.agent_messages@) =~= msgs.push("Pause/resume not yet implemented"@));
                }
                KeyOutcome::Continue
            },
            Key::Char(':') | Key::Char('/') => {
                self.mode = AppMode::CommandInput;
                self.input_buffer = String::new();
                KeyOutcome::Continue
            },
            Key::Enter | Key::Esc => {
                self.quit_confirm = false;
                KeyOutcome::Continue
            },
            _ => KeyOutcome::Continue,
        }
    }

    /// A key while answering the ask agent: escape abandons the answer and
    /// the question, enter ends the answer, backspace and delete remove the
    /// last character, a character is typed.
    pub fn handle_ask_agent_mode_key(&mut self, key: Key)
        ensures
            match key {
                Key::Esc => final(self).input_buffer@.len() == 0 && final(self).mode == AppMode::Normal
                    && final(self).ask_question is None && final(self).ask_options@.len() == 0 && *final(self) == (
                AppState {
                    mode: final(self).mode,
                    ask_question: final(self).ask_question,
                    ask_options: final(self).ask_options,
                    input_buffer: final(self).input_buffer,
                    ..*old(self)
                }),
                Key::Enter => *final(self) == (AppState { mode: AppMode::Normal, ..*old(self) }),
                Key::Backspace | Key::Delete => final(self).input_buffer@ == drop_last_char(old(self).input_buffer@)
                    && *final(self) == (AppState { input_buffer: final(self).input_buffer, ..*old(self) }),
                Key::Char(c) => final(self).input_buffer@ == old(self).input_buffer@.push(c) && *final(self) == (
                AppState { input_buffer: final(self).input_buffer, ..*old(self) }),
                _ => *final(self) == *old(self),
            },
    {
        match key {
            Key::Esc => {
                self.input_buffer = String::new();
                self.mode = AppMode::Normal;
                self.ask_question = None;
                self.ask_options = Vec::new();
            },
            Key::Enter => {
                self.mode = AppMode::Normal;
            },
            Key::Backspace | Key::Delete => {
                pop_char(&mut self.input_buffer);
            },
            Key::Char(c) => {
                crate::text::push_char(&mut self.input_buffer, c);
            },
            _ => {},
        }
    }

    /// A key in the command input: escape leaves it; enter leaves it and,
    /// when something was typed, records it in the history and the chat and
    /// gives it as the command; backspace and delete remove the last
    /// character; up and down walk the history; a character is typed.
    pub fn handle_command_input_mode_key(&mut self, key: Key, now: u64) -> (r: KeyOutcome)
        requires
            old(self).history_index <= old(self).command_history@.len(),
            old(self).command_history@.len() < usize::MAX,
        ensures
            final(self).history_index <= final(self).command_history@.len(),
            match key {
                Key::Esc => r is Continue && final(self).mode == AppMode::Normal && final(self).input_buffer@.len() == 0
                    && *final(self) == (AppState { mode: final(self).mode, input_buffer: final(self).input_buffer, ..*old(self) }),
                Key::Enter => if old(self).input_buffer@.len() == 0 {
                    r is Continue && *final(self) == (AppState { mode: AppMode::Normal, ..*old(self) })
                } else {
                    &&& r matches KeyOutcome::Command(c) && c@ == old(self).input_buffer@
                    &&& final(self).mode == AppMode::Normal
                    &&& final(self).input_buffer@.len() == 0
                    &&& strings_view(final(self).command_history@) == strings_view(old(self).command_history@).push(
                        old(self).input_buffer@,
                    )
                    &&& final(self).history_index == final(self).command_history@.len()
                    &&& final(self).chat_messages@.len() == old(self).chat_messages@.len() + 1
                    &&& final(self).chat_messages@.last().role == ChatRole::User
                    &&& final(self).chat_messages@.last().content@ == old(self).input_buffer@
                    &&& final(self).chat_messages@.last().timestamp == now
                    &&& final(self).chat_messages@.drop_last() == old(self).chat_messages@
                },
                Key::Backspace | Key::Delete => r is Continue && final(self).input_buffer@ == drop_last_char(
                    old(self).input_buffer@,
                ) && *final(self) == (AppState { input_buffer: final(self).input_buffer, ..*old(self) }),
                Key::Up => r is Continue && if old(self).command_history@.len() > 0 && old(self).history_index > 0 {
                    &&& final(self).history_index == old(self).history_index - 1
                    &&& final(self).input_buffer@ == old(self).command_history@[old(self).history_index - 1]@
                    &&& *final(self) == (AppState {
                        history_index: final(self).history_index,
                        input_buffer: final(self).input_buffer,
                        ..*old(self)
                    })
                } else {
                    *final(self) == *old(self)
                },
                Key::Down => r is Continue && if old(self).history_index < old(self).command_history@.len() {
                    &&& final(self).history_index == old(self).history_index + 1
                    &&& final(self).input_buffer@ == if old(self).history_index + 1 < old(self).command_history@.len() {
                        old(self).command_history@[old(self).history_index + 1]@
                    } else {
                        Seq::<char>::empty()
                    }
                    &&& *final(self) == (AppState {
                        history_index: final(self).history_index,
                        input_buffer: final(self).input_buffer,
                        ..*old(self)
                    })
                } else {
                    *final(self) == *old(self)
                },
                Key::Char(c) => r is Continue && final(self).input_buffer@ == old(self).input_buffer@.push(c)
                    && *final(self) == (AppState { input_buffer: final(self).input_buffer, ..*old(self) }),
                _ => r is Continue && *final(self) == *old(self),
            },
    {
        match key {
            Key::Esc => {
                self.mode = AppMode::Normal;
                self.input_buffer = String::new();
                KeyOutcome::Continue
            },
            Key::Enter => {
                let input = self.input_buffer.clone();
            self.input_buffer = String::new();
                self.mode = AppMode::Normal;
                if input.as_str().is_empty() {
                    self.input_buffer = input;
                    return KeyOutcome::Continue;
                }
                let ghost hist = strings_view(self.command_history@);
                self.command_history.push(input.clone());
                assert(strings_view(self.command_history@) =~= hist.push(input@));
                self.history_index = self.command_history.len();
                self.chat_messages.push(ChatMessage { role: ChatRole::User, content: input.clone(), timestamp: now });
                KeyOutcome::Command(input)
            },
            Key::Backspace | Key::Delete => {
                pop_char(&mut self.input_buffer);
                KeyOutcome::Continue
            },
            Key::Up => {
                if self.command_history.len() > 0 && self.history_index > 0 {
                    self.history_index = self.history_index - 1;
                    self.input_buffer = self.command_history[self.history_index].clone();
                }
                KeyOutcome::Continue
            },
            Key::Down => {
                if self.history_index < self.command_history.len() {
                    self.history_index = self.history_index + 1;
                    if self.history_index < self.command_history.len() {
                        self.input_buffer = self.command_history[self.history_index].clone();
                    } else {
                        self.input_buffer = String::new();
                    }
                }
                KeyOutcome::Continue
            },
            Key::Char(c) => {
                crate::text::push_char(&mut self.input_buffer, c);
                KeyOutcome::Continue
            },
            _ => KeyOutcome::Continue,
        }
    }
}

// ------------------------------------------------------------------
// Commands typed in the chat
// ------------------------------------------------------------------

/// `s` with every leading `p` removed (`str::trim_start_matches`).
pub open spec fn strip_all_prefix(s: Seq<char>, p: Seq<char>) -> Seq<char>
    decreases s.len(),
{
    if p.len() > 0 && crate::text::starts_with(s, p) {
        strip_all_prefix(s.subrange(p.len() as int, s.len() as int), p)
    } else {
        s
    }
}

/// The help text of the chat.
pub open spec fn help_text() -> Seq<char> {
    "Available commands:\n\u{2022} help / ? \u{2014} Show this help\n\u{2022} run [plan] \u{2014} Execute a plan (auto-discovers in plans/)\n\u{2022} plan <goal> \u{2014} Create a new plan\n\u{2022} status \u{2014} Show current plan progress\n\u{2022} index build \u{2014} Index codebase\n\u{2022} index search <query> \u{2014} Search indexed codebase\n\u{2022} doctor \u{2014} Run diagnostics\n\u{2022} bootstrap \u{2014} Create default config\n\u{2022} clear \u{2014} Clear chat history\n\u{2022} quit / q \u{2014} Exit Telisq"@
}

/// The reply of the chat to a typed command (none for quitting), given the
/// tasks and the progress. The command is read trimmed and in lowercase.
pub open spec fn command_reply(command: Seq<char>, tasks: Seq<TaskDisplay>, progress: nat) -> Option<Seq<char>> {
    let cmd = crate::text::unicode_lowercase(crate::text::trim(command));
    if cmd == "help"@ || cmd == "?"@ {
        Some(help_text())
    } else if cmd == "quit"@ || cmd == "q"@ {
        None
    } else if crate::text::starts_with(cmd, "run"@) {
        Some("Starting execution phase... (plan auto-discovery from plans/ directory)"@)
    } else if crate::text::starts_with(cmd, "plan"@) {
        let goal = crate::text::trim(strip_all_prefix(command, "plan"@));
        if goal.len() == 0 {
            Some("Please provide a goal: plan <describe what you want to build>"@)
        } else {
            Some("Creating plan for: "@ + goal + "\n(Plan Agent will analyze your codebase and generate a plan)"@)
        }
    } else if crate::text::starts_with(cmd, "status"@) {
        if tasks.len() == 0 {
            Some("No active plan loaded. Use 'run' to start execution or 'plan <goal>' to create one."@)
        } else {
            Some("Plan progress: "@ + decimal(count_status(tasks, TaskStatus::Completed, tasks.len() as int))
                + "/"@ + decimal(tasks.len()) + " tasks completed ("@ + decimal(progress) + "%)"@)
        }
    } else if crate::text::starts_with(cmd, "index"@) {
        Some("Index commands:\n\u{2022} index build \u{2014} Crawl and index the codebase\n\u{2022} index search <query> \u{2014} Semantic search\n\u{2022} index status \u{2014} Show index health"@)
    } else if crate::text::starts_with(cmd, "doctor"@) {
        Some("Running diagnostics... (use 'telisq doctor' from terminal for full check)"@)
    } else if crate::text::starts_with(cmd, "bootstrap"@) {
        Some("Bootstrapping configuration... (use 'telisq bootstrap' from terminal)"@)
    } else if cmd == "clear"@ {
        Some("Chat history cleared."@)
    } else {
        Some("Received: \""@ + command + "\"\nIn a full implementation, this would be sent to the Orchestrator for processing. Use 'help' for available commands."@)
    }
}

/// Whether the command clears the chat first.
pub open spec fn clears_chat(command: Seq<char>) -> bool {
    let cmd = crate::text::unicode_lowercase(crate::text::trim(command));
    !(cmd == "help"@ || cmd == "?"@ || cmd == "quit"@ || cmd == "q"@ || crate::text::starts_with(cmd, "run"@)
        || crate::text::starts_with(cmd, "plan"@) || crate::text::starts_with(cmd, "status"@)
        || crate::text::starts_with(cmd, "index"@) || crate::text::starts_with(cmd, "doctor"@)
        || crate::text::starts_with(cmd, "bootstrap"@)) && cmd == "clear"@
}

/// Whether the command starts a run.
pub open spec fn starts_run(command: Seq<char>) -> bool {
    let cmd = crate::text::unicode_lowercase(crate::text::trim(command));
    !(cmd == "help"@ || cmd == "?"@ || cmd == "quit"@ || cmd == "q"@) && crate::text::starts_with(cmd, "run"@)
}

/// `s` with every leading `p` removed.
fn strip_all_prefix_exec(s: &Vec<char>, p: &Vec<char>) -> (r: (usize, usize))
    ensures
        r.0 <= r.1 == s@.len(),
        s@.subrange(r.0 as int, r.1 as int) == strip_all_prefix(s@, p@),
{
    let n = s.len();
    let mut i: usize = 0;
    assert(s@.subrange(0, n as int) =~= s@);
    if p.len() == 0 {
        return (0, n);
    }
    while i <= n
        invariant
            i <= n,
            n == s@.len(),
            p@.len() > 0,
            strip_all_prefix(s@, p@) == strip_all_prefix(s@.subrange(i as int, n as int), p@),
        decreases n - i,
    {
        if crate::text::range_starts_with(s, i, n, p) {
            assert(s@.subrange(i as int, n as int).subrange(p@.len() as int, (n - i) as int) =~= s@.subrange(
                i + p@.len(),
                n as int,
            ));
            i = i + p.len();
        } else {
            return (i, n);
        }
    }
    (i, n)
}

/// Whether `s` starts with the text `p`.
fn begins(s: &String, p: &str) -> (r: bool)
    ensures
        r == crate::text::starts_with(s@, p@),
{
    let a = crate::text::chars_of(s.as_str());
    let b = crate::text::chars_of(p);
    crate::text::starts_with_exec(&a, &b)
}

impl AppState {
    /// Adds a reply of the agent to the chat.
    fn reply(&mut self, text: String, now: u64)
        ensures
            final(self).chat_messages@ == old(self).chat_messages@.push(
                ChatMessage { role: ChatRole::Agent, content: text, timestamp: now },
            ),
            *final(self) == (AppState { chat_messages: final(self).chat_messages, ..*old(self) }),
    {
        self.chat_messages.push(ChatMessage { role: ChatRole::Agent, content: text, timestamp: now });
    }

    /// Carries out a command typed in the chat: the agent replies as
    /// `command_reply` says (after clearing the chat for "clear"), and "run"
    /// marks the session running.
    pub fn process_command(&mut self, command: &str, now: u64)
        requires
            state_ok(*old(self)),
        ensures
            match command_reply(command@, old(self).tasks@, old(self).session_progress as nat) {
                Some(text) => {
                    &&& final(self).chat_messages@.len() > 0
                    &&& final(self).chat_messages@.drop_last() == if clears_chat(command@) {
                        Seq::<ChatMessage>::empty()
                    } else {
                        old(self).chat_messages@
                    }
                    &&& final(self).chat_messages@.last().role == ChatRole::Agent
                    &&& final(self).chat_messages@.last().content@ == text
                    &&& final(self).chat_messages@.last().timestamp == now
                },
                None => final(self).chat_messages == old(self).chat_messages,
            },
            starts_run(command@) ==> final(self).session_status@ == "Running"@,
            !starts_run(command@) ==> final(self).session_status == old(self).session_status,
            *final(self) == (AppState {
                chat_messages: final(self).chat_messages,
                session_status: final(self).session_status,
                ..*old(self)
            }),
    {
        let trimmed = {
            let c = crate::text::chars_of(command);
            let (a, b) = crate::text::trim_range(&c, 0, c.len());
            assert(c@.subrange(0, c@.len() as int) =~= c@);
            crate::text::string_of(&c, a, b)
        };
        let cmd = crate::text::to_lowercase(trimmed.as_str());
        if cmd == owned("help") || cmd == owned("?") {
            self.reply(owned("Available commands:\n\u{2022} help / ? \u{2014} Show this help\n\u{2022} run [plan] \u{2014} Execute a plan (auto-discovers in plans/)\n\u{2022} plan <goal> \u{2014} Create a new plan\n\u{2022} status \u{2014} Show current plan progress\n\u{2022} index build \u{2014} Index codebase\n\u{2022} index search <query> \u{2014} Search indexed codebase\n\u{2022} doctor \u{2014} Run diagnostics\n\u{2022} bootstrap \u{2014} Create default config\n\u{2022} clear \u{2014} Clear chat history\n\u{2022} quit / q \u{2014} Exit Telisq"), now);
        } else if cmd == owned("quit") || cmd == owned("q") {
        } else if begins(&cmd, "run") {
            self.reply(owned("Starting execution phase... (plan auto-discovery from plans/ directory)"), now);
            self.session_status = owned("Running");
        } else if begins(&cmd, "plan") {
            let c = crate::text::chars_of(command);
            let p = crate::text::chars_of("plan");
            let (a, b) = strip_all_prefix_exec(&c, &p);
            let (x, y) = crate::text::trim_range(&c, a, b);
            if x == y {
                self.reply(owned("Please provide a goal: plan <describe what you want to build>"), now);
            } else {
                let mut m = owned("Creating plan for: ");
                let goal = crate::text::string_of(&c, x, y);
                push_str(&mut m, goal.as_str());
                push_str(&mut m, "\n(Plan Agent will analyze your codebase and generate a plan)");
                self.reply(m, now);
            }
        } else if begins(&cmd, "status") {
            if self.tasks.len() == 0 {
                self.reply(owned("No active plan loaded. Use 'run' to start execution or 'plan <goal>' to create one."), now);
            } else {
                let mut completed: usize = 0;
                let mut i: usize = 0;
                while i < self.tasks.len()
                    invariant
                        i <= self.tasks@.len(),
                        completed as nat == count_status(self.tasks@, TaskStatus::Completed, i as int),
                        completed <= i,
                    decreases self.tasks@.len() - i,
                {
                    if self.tasks[i].status == TaskStatus::Completed {
                        completed = completed + 1;
                    }
                    i = i + 1;
                }
                let mut m = owned("Plan progress: ");
                push_decimal(&mut m, completed as u64);
                push_str(&mut m, "/");
                push_decimal(&mut m, self.tasks.len() as u64);
                push_str(&mut m, " tasks completed (");
                push_decimal(&mut m, self.session_progress as u64);
                push_str(&mut m, "%)");
                self.reply(m, now);
            }
        } else if begins(&cmd, "index") {
            self.reply(owned("Index commands:\n\u{2022} index build \u{2014} Crawl and index the codebase\n\u{2022} index search <query> \u{2014} Semantic search\n\u{2022} index status \u{2014} Show index health"), now);
        } else if begins(&cmd, "doctor") {
            self.reply(owned("Running diagnostics... (use 'telisq doctor' from terminal for full check)"), now);
        } else if begins(&cmd, "bootstrap") {
            self.reply(owned("Bootstrapping configuration... (use 'telisq bootstrap' from terminal)"), now);
        } else if cmd == owned("clear") {
            self.chat_messages = Vec::new();
            self.reply(owned("Chat history cleared."), now);
        } else {
            let mut m = owned("Received: \"");
            push_str(&mut m, command);
            push_str(&mut m, "\"\nIn a full implementation, this would be sent to the Orchestrator for processing. Use 'help' for available commands.");
            self.reply(m, now);
        }
    }
}

} // verus!
