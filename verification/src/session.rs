//! What a session stores: the orchestrator's events as flat records, and
//! the session's state as a word.
//!
//! A stored record reads back as the event it was written from; the
//! database and the JSON text around the records are handled outside.
use vstd::prelude::*;
use crate::text::owned;
use crate::types::{SessionState, TaskStatus};

verus! {

/// The text of a UUID as the `uuid` crate writes it (hyphenated, in
/// lowercase hexadecimal).
pub uninterp spec fn uuid_text(v: u128) -> Seq<char>;

/// The UUID that the `uuid` crate reads from a text, if it reads one.
pub uninterp spec fn uuid_parsed(s: Seq<char>) -> Option<u128>;

/// Calls `Uuid::from_u128` and `to_string` (its `Display` form). The
/// contract names the text `uuid_text(v)` and states what the crate's
/// documentation gives: `Uuid::parse_str` reads every form the crate
/// writes, so this text reads back as `v`.
#[verifier::external_body]
pub(crate) fn uuid_to_string(v: u128) -> (r: String)
    ensures
        r@ == uuid_text(v),
        uuid_parsed(r@) == Some(v),
{
    uuid::Uuid::from_u128(v).to_string()
}

/// Calls `Uuid::parse_str` and gives the UUID as a number (`as_u128`). The
/// contract names the result `uuid_parsed(s)`; which texts the crate
/// accepts is left unsaid.
#[verifier::external_body]
fn uuid_parse(s: &str) -> (r: Option<u128>)
    ensures
        r == uuid_parsed(s@),
{
    match uuid::Uuid::parse_str(s) {
        Ok(u) => Some(u.as_u128()),
        Err(_) => None,
    }
}

/// The session that an identifier text names, as a number: the UUID that
/// the `uuid` crate reads from it, if it reads one.
pub fn parse_session_id(text: &str) -> (r: Option<u128>)
    ensures
        r == uuid_parsed(text@),
{
    uuid_parse(text)
}

/// A fresh identifier for a session: a new random UUID, as text. Which one
/// is chance; it reads back as a UUID.
pub fn new_session_id() -> (r: String)
    ensures
        uuid_parsed(r@) is Some,
{
    crate::mcp::new_uuid_text()
}

/// What the orchestrator reports while it runs.
#[derive(Debug, Clone)]
pub enum OrchestratorEvent {
    /// A task has started.
    StepStarted(String),
    /// A task has completed successfully.
    StepCompleted(String),
    /// A task has failed, with the error.
    StepFailed(String, String),
    /// An agent has sent a message.
    AgentMessage(String),
    /// The whole plan has been completed.
    PlanCompleted,
    /// A plan marker has been updated.
    PlanMarkerUpdated(String, TaskStatus),
    /// The session (its UUID, as a number) has been stopped.
    SessionStopped(u128),
    /// A task is retried: attempt number and the previous error.
    TaskRetry(String, usize, String),
}

/// An event as one flat record, as it is stored.
#[derive(Debug, Clone)]
pub struct StoredEvent {
    pub event_type: String,
    pub task_id: Option<String>,
    pub message: Option<String>,
    pub error: Option<String>,
    pub marker_status: Option<String>,
    pub session_id: Option<String>,
    pub retry_attempt: Option<usize>,
}

/// The mathematical value of an event.
pub enum EventView {
    StepStarted(Seq<char>),
    StepCompleted(Seq<char>),
    StepFailed(Seq<char>, Seq<char>),
    AgentMessage(Seq<char>),
    PlanCompleted,
    PlanMarkerUpdated(Seq<char>, TaskStatus),
    SessionStopped(u128),
    TaskRetry(Seq<char>, usize, Seq<char>),
}

impl View for OrchestratorEvent {
    type V = EventView;

    open spec fn view(&self) -> EventView {
        match self {
            OrchestratorEvent::StepStarted(t) => EventView::StepStarted(t@),
            OrchestratorEvent::StepCompleted(t) => EventView::StepCompleted(t@),
            OrchestratorEvent::StepFailed(t, e) => EventView::StepFailed(t@, e@),
            OrchestratorEvent::AgentMessage(m) => EventView::AgentMessage(m@),
            OrchestratorEvent::PlanCompleted => EventView::PlanCompleted,
            OrchestratorEvent::PlanMarkerUpdated(t, s) => EventView::PlanMarkerUpdated(t@, *s),
            OrchestratorEvent::SessionStopped(s) => EventView::SessionStopped(*s),
            OrchestratorEvent::TaskRetry(t, a, e) => EventView::TaskRetry(t@, *a, e@),
        }
    }
}

/// The word that names an event's kind in storage.
pub open spec fn event_type_of(e: EventView) -> Seq<char> {
    match e {
        EventView::StepStarted(_) => "step_started"@,
        EventView::StepCompleted(_) => "step_completed"@,
        EventView::StepFailed(_, _) => "step_failed"@,
        EventView::AgentMessage(_) => "agent_message"@,
        EventView::PlanCompleted => "plan_completed"@,
        EventView::PlanMarkerUpdated(_, _) => "plan_marker_updated"@,
        EventView::SessionStopped(_) => "session_stopped"@,
        EventView::TaskRetry(_, _, _) => "task_retry"@,
    }
}

/// The name of a task status as its `Debug` form writes it.
pub open spec fn status_debug_name(s: TaskStatus) -> Seq<char> {
    match s {
        TaskStatus::Pending => "Pending"@,
        TaskStatus::InProgress => "InProgress"@,
        TaskStatus::Completed => "Completed"@,
        TaskStatus::Failed => "Failed"@,
        TaskStatus::Skipped => "Skipped"@,
    }
}

/// The word that names an event's kind in storage, as `event_type_of`
/// says.
pub fn orchestrator_event_type(event: &OrchestratorEvent) -> (r: &'static str)
    ensures
        r@ == event_type_of(event@),
{
    match event {
        OrchestratorEvent::StepStarted(_) => "step_started",
        OrchestratorEvent::StepCompleted(_) => "step_completed",
        OrchestratorEvent::StepFailed(_, _) => "step_failed",
        OrchestratorEvent::AgentMessage(_) => "agent_message",
        OrchestratorEvent::PlanCompleted => "plan_completed",
        OrchestratorEvent::PlanMarkerUpdated(_, _) => "plan_marker_updated",
        OrchestratorEvent::SessionStopped(_) => "session_stopped",
        OrchestratorEvent::TaskRetry(_, _, _) => "task_retry",
    }
}

/// The name of a task status as its `Debug` form writes it.
pub fn status_debug(s: TaskStatus) -> (r: &'static str)
    ensures
        r@ == status_debug_name(s),
{
    match s {
        TaskStatus::Pending => "Pending",
        TaskStatus::InProgress => "InProgress",
        TaskStatus::Completed => "Completed",
        TaskStatus::Failed => "Failed",
        TaskStatus::Skipped => "Skipped",
    }
}

/// The status that a stored status name stands for: the `Debug` names of
/// the statuses, anything else pending.
pub open spec fn status_of_debug_name(m: Option<Seq<char>>) -> TaskStatus {
    match m {
        Some(n) => if n == "InProgress"@ {
            TaskStatus::InProgress
        } else if n == "Completed"@ {
            TaskStatus::Completed
        } else if n == "Failed"@ {
            TaskStatus::Failed
        } else if n == "Skipped"@ {
            TaskStatus::Skipped
        } else {
            TaskStatus::Pending
        },
        None => TaskStatus::Pending,
    }
}

/// The characters of an optional string, or the empty text.
pub open spec fn or_empty(o: Option<String>) -> Seq<char> {
    match o {
        Some(s) => s@,
        None => Seq::<char>::empty(),
    }
}

/// The event that a stored record of kind `event_type` stands for: the
/// record's fields in the places of the kind, with empty texts where they
/// are missing ("Unknown error" for a missing error of a failure, the
/// first attempt for a missing attempt, the nil UUID for a missing or
/// unreadable session); an unknown kind is read as a message that names
/// it.
pub open spec fn event_of_record(event_type: Seq<char>, r: StoredEvent) -> EventView {
    if event_type == "step_started"@ {
        EventView::StepStarted(or_empty(r.task_id))
    } else if event_type == "step_completed"@ {
        EventView::StepCompleted(or_empty(r.task_id))
    } else if event_type == "step_failed"@ {
        EventView::StepFailed(
            or_empty(r.task_id),
            match r.error {
                Some(e) => e@,
                None => "Unknown error"@,
            },
        )
    } else if event_type == "agent_message"@ {
        EventView::AgentMessage(or_empty(r.message))
    } else if event_type == "plan_completed"@ {
        EventView::PlanCompleted
    } else if event_type == "plan_marker_updated"@ {
        EventView::PlanMarkerUpdated(
            or_empty(r.task_id),
            status_of_debug_name(
                match r.marker_status {
                    Some(m) => Some(m@),
                    None => None,
                },
            ),
        )
    } else if event_type == "session_stopped"@ {
        EventView::SessionStopped(
            match r.session_id {
                Some(s) => match uuid_parsed(s@) {
                    Some(v) => v,
                    None => 0,
                },
                None => 0,
            },
        )
    } else if event_type == "task_retry"@ {
        EventView::TaskRetry(
            or_empty(r.task_id),
            match r.retry_attempt {
                Some(a) => a,
                None => 1,
            },
            or_empty(r.error),
        )
    } else {
        EventView::AgentMessage("Unknown event: "@ + event_type)
    }
}

fn record(event_type: &str) -> (r: StoredEvent)
    ensures
        r.event_type@ == event_type@,
        r.task_id is None,
        r.message is None,
        r.error is None,
        r.marker_status is None,
        r.session_id is None,
        r.retry_attempt is None,
{
    StoredEvent {
        event_type: owned(event_type),
        task_id: None,
        message: None,
        error: None,
        marker_status: None,
        session_id: None,
        retry_attempt: None,
    }
}

/// Writes an event as a flat record: its kind, and each of its fields in
/// the record's field of that name (the status by its `Debug` name, the
/// session by its UUID text). The record reads back as the event.
pub fn serialize_event(event: &OrchestratorEvent) -> (r: StoredEvent)
    ensures
        r.event_type@ == event_type_of(event@),
        event_of_record(event_type_of(event@), r) == event@,
{
    proof {
        reveal_strlit("step_started");
        reveal_strlit("step_completed");
        reveal_strlit("step_failed");
        reveal_strlit("agent_message");
        reveal_strlit("plan_completed");
        reveal_strlit("plan_marker_updated");
        reveal_strlit("session_stopped");
        reveal_strlit("task_retry");
        reveal_strlit("Pending");
        reveal_strlit("InProgress");
        reveal_strlit("Completed");
        reveal_strlit("Failed");
        reveal_strlit("Skipped");
        assert("step_started"@.len() == 12);
        assert("step_completed"@.len() == 14 && "step_completed"@[0] == 's');
        assert("step_failed"@.len() == 11);
        assert("agent_message"@.len() == 13);
        assert("plan_completed"@.len() == 14 && "plan_completed"@[0] == 'p');
        assert("plan_marker_updated"@.len() == 19);
        assert("session_stopped"@.len() == 15);
        assert("task_retry"@.len() == 10);
        assert("Pending"@.len() == 7 && "Pending"@[0] == 'P');
        assert("InProgress"@.len() == 10);
        assert("Completed"@.len() == 9);
        assert("Failed"@.len() == 6);
        assert("Skipped"@.len() == 7 && "Skipped"@[0] == 'S');
    }
    match event {
        OrchestratorEvent::StepStarted(t) => {
            let mut r = record("step_started");
            r.task_id = Some(t.clone());
            assert(event_type_of(event@) == "step_started"@);
            assert(event_of_record("step_started"@, r) == EventView::StepStarted(t@));
            r
        },
        OrchestratorEvent::StepCompleted(t) => {
            let mut r = record("step_completed");
            r.task_id = Some(t.clone());
            r
        },
        OrchestratorEvent::StepFailed(t, e) => {
            let mut r = record("step_failed");
            r.task_id = Some(t.clone());
            r.error = Some(e.clone());
            r
        },
        OrchestratorEvent::AgentMessage(m) => {
            let mut r = record("agent_message");
            r.message = Some(m.clone());
            r
        },
        OrchestratorEvent::PlanCompleted => record("plan_completed"),
        OrchestratorEvent::PlanMarkerUpdated(t, s) => {
            let mut r = record("plan_marker_updated");
            r.task_id = Some(t.clone());
            r.marker_status = Some(owned(status_debug(*s)));
            r
        },
        OrchestratorEvent::SessionStopped(id) => {
            let mut r = record("session_stopped");
            r.session_id = Some(uuid_to_string(*id));
            r
        },
        OrchestratorEvent::TaskRetry(t, a, e) => {
            let mut r = record("task_retry");
            r.task_id = Some(t.clone());
            r.error = Some(e.clone());
            r.retry_attempt = Some(*a);
            r
        },
    }
}

fn text_or_empty(o: &Option<String>) -> (r: String)
    ensures
        r@ == or_empty(*o),
{
    match o {
        Some(s) => s.clone(),
        None => String::new(),
    }
}

/// Whether the word is exactly `w`.
fn is_word(a: &str, w: &str) -> (r: bool)
    ensures
        r == (a@ == w@),
{
    owned(a) == owned(w)
}

/// Reads a stored record of kind `event_type` back as an event, as
/// `event_of_record` says.
pub fn deserialize_event(event_type: &str, r: &StoredEvent) -> (e: OrchestratorEvent)
    ensures
        e@ == event_of_record(event_type@, *r),
{
    if is_word(event_type, "step_started") {
        OrchestratorEvent::StepStarted(text_or_empty(&r.task_id))
    } else if is_word(event_type, "step_completed") {
        OrchestratorEvent::StepCompleted(text_or_empty(&r.task_id))
    } else if is_word(event_type, "step_failed") {
        let err = match &r.error {
            Some(e) => e.clone(),
            None => owned("Unknown error"),
        };
        OrchestratorEvent::StepFailed(text_or_empty(&r.task_id), err)
    } else if is_word(event_type, "agent_message") {
        OrchestratorEvent::AgentMessage(text_or_empty(&r.message))
    } else if is_word(event_type, "plan_completed") {
        OrchestratorEvent::PlanCompleted
    } else if is_word(event_type, "plan_marker_updated") {
        let status = match &r.marker_status {
            Some(m) => {
                let n = m.as_str();
                if is_word(n, "InProgress") {
                    TaskStatus::InProgress
                } else if is_word(n, "Completed") {
                    TaskStatus::Completed
                } else if is_word(n, "Failed") {
                    TaskStatus::Failed
                } else if is_word(n, "Skipped") {
                    TaskStatus::Skipped
                } else {
                    TaskStatus::Pending
                }
            },
            None => TaskStatus::Pending,
        };
        OrchestratorEvent::PlanMarkerUpdated(text_or_empty(&r.task_id), status)
    } else if is_word(event_type, "session_stopped") {
        let id: u128 = match &r.session_id {
            Some(s) => match uuid_parse(s.as_str()) {
                Some(v) => v,
                None => 0,
            },
            None => 0,
        };
        OrchestratorEvent::SessionStopped(id)
    } else if is_word(event_type, "task_retry") {
        let attempt: usize = match r.retry_attempt {
            Some(a) => a,
            None => 1,
        };
        OrchestratorEvent::TaskRetry(text_or_empty(&r.task_id), attempt, text_or_empty(&r.error))
    } else {
        let mut m = owned("Unknown event: ");
        crate::text::push_str(&mut m, event_type);
        OrchestratorEvent::AgentMessage(m)
    }
}

/// The word that names a session state in storage.
pub open spec fn session_state_word(s: SessionState) -> Seq<char> {
    match s {
        SessionState::Running => "running"@,
        SessionState::Paused => "paused"@,
        SessionState::Completed => "completed"@,
        SessionState::Canceled => "canceled"@,
    }
}

/// The session state a stored word stands for; an unknown word means
/// running.
pub open spec fn session_state_of_word(w: Seq<char>) -> SessionState {
    if w == "paused"@ {
        SessionState::Paused
    } else if w == "completed"@ {
        SessionState::Completed
    } else if w == "canceled"@ {
        SessionState::Canceled
    } else {
        SessionState::Running
    }
}

/// The word that names a session state in storage.
pub fn session_state_to_str(state: &SessionState) -> (r: &'static str)
    ensures
        r@ == session_state_word(*state),
        session_state_of_word(r@) == *state,
{
    proof {
        reveal_strlit("running");
        reveal_strlit("paused");
        reveal_strlit("completed");
        reveal_strlit("canceled");
    }
    assert("running"@.len() == 7);
    assert("paused"@.len() == 6);
    assert("completed"@.len() == 9);
    assert("canceled"@.len() == 8);
    match state {
        SessionState::Running => "running",
        SessionState::Paused => "paused",
        SessionState::Completed => "completed",
        SessionState::Canceled => "canceled",
    }
}

/// The session state a stored word stands for, as `session_state_of_word`
/// says.
pub fn str_to_session_state(s: &str) -> (r: SessionState)
    ensures
        r == session_state_of_word(s@),
{
    if is_word(s, "paused") {
        SessionState::Paused
    } else if is_word(s, "completed") {
        SessionState::Completed
    } else if is_word(s, "canceled") {
        SessionState::Canceled
    } else {
        SessionState::Running
    }
}

/// The stored markers of a resumed session with every "in_progress" marker
/// put back to "pending", and how many were.
pub fn reset_interrupted_markers(markers: &Vec<(String, String)>) -> (r: (Vec<(String, String)>, usize))
    ensures
        r.0@.len() == markers@.len(),
        forall|i: int| 0 <= i < markers@.len() ==> (#[trigger] r.0@[i]).0@ == markers@[i].0@ && r.0@[i].1@ == if markers@[i].1@
            == "in_progress"@ {
            "pending"@
        } else {
            markers@[i].1@
        },
        r.1 == interrupted_count(markers@, markers@.len() as int),
{
    let mut out: Vec<(String, String)> = Vec::new();
    let mut count: usize = 0;
    let mut i: usize = 0;
    while i < markers.len()
        invariant
            i <= markers@.len(),
            out@.len() == i,
            count == interrupted_count(markers@, i as int),
            count <= i,
            forall|k: int| 0 <= k < i ==> (#[trigger] out@[k]).0@ == markers@[k].0@ && out@[k].1@ == if markers@[k].1@
                == "in_progress"@ {
                "pending"@
            } else {
                markers@[k].1@
            },
        decreases markers@.len() - i,
    {
        let m = if is_word(markers[i].1.as_str(), "in_progress") {
            count = count + 1;
            owned("pending")
        } else {
            markers[i].1.clone()
        };
        out.push((markers[i].0.clone(), m));
        i = i + 1;
    }
    (out, count)
}

/// How many of the first `n` markers are "in_progress".
pub open spec fn interrupted_count(markers: Seq<(String, String)>, n: int) -> nat
    decreases n,
{
    if n <= 0 {
        0
    } else {
        interrupted_count(markers, n - 1) + if markers[n - 1].1@ == "in_progress"@ {
            1nat
        } else {
            0nat
        }
    }
}

} // verus!
