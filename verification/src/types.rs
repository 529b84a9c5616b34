//! Core domain types: task specifications, task and session states, and
//! the events the terminal interface produces.
use vstd::prelude::*;

verus! {

/// Status of a task in a plan.
#[derive(Debug, Clone, Copy, PartialEq, Eq, Structural, PartialOrd, Ord, Hash)]
pub enum TaskStatus {
    /// Task has not been started.
    Pending,
    /// Task is in progress.
    InProgress,
    /// Task has been completed successfully.
    Completed,
    /// Task has failed.
    Failed,
    /// Task has been skipped.
    Skipped,
}

/// Event types for the terminal interface.
#[derive(Debug, Clone)]
pub enum TuiEvent {
    /// User has selected a task.
    TaskSelect(String),
    /// User has started a task.
    TaskStart(String),
    /// User has completed a task.
    TaskComplete(String),
    /// User has failed a task.
    TaskFail(String),
    /// User has skipped a task.
    TaskSkip(String),
    /// User has paused a task.
    TaskPause(String),
    /// User has resumed a task.
    TaskResume(String),
    /// User has requested to view the task's details.
    TaskDetails(String),
    /// User has requested to view the task's logs.
    TaskLogs(String),
    /// User has requested to exit the interface.
    Exit,
}

/// Specification for a task in a plan.
#[derive(Debug, Clone)]
pub struct TaskSpec {
    /// Unique identifier for the task.
    pub id: String,
    /// Human-readable title of the task.
    pub title: String,
    /// Optional description of the task.
    pub description: Option<String>,
    /// Status of the task.
    pub status: TaskStatus,
    /// Identifiers of the tasks it depends on.
    pub dependencies: Vec<String>,
    /// Files it affects.
    pub files: Vec<String>,
    /// Contracts it must satisfy.
    pub contracts: Vec<String>,
}

/// The mathematical value of a `TaskSpec`.
pub struct TaskSpecView {
    pub id: Seq<char>,
    pub title: Seq<char>,
    pub description: Option<Seq<char>>,
    pub status: TaskStatus,
    pub dependencies: Seq<Seq<char>>,
    pub files: Seq<Seq<char>>,
    pub contracts: Seq<Seq<char>>,
}

/// The characters of every string of `v`.
pub open spec fn strings_view(v: Seq<String>) -> Seq<Seq<char>> {
    v.map_values(|s: String| s@)
}

/// The characters of an optional string.
pub open spec fn opt_view(o: Option<String>) -> Option<Seq<char>> {
    match o {
        Some(s) => Some(s@),
        None => None,
    }
}

impl View for TaskSpec {
    type V = TaskSpecView;

    open spec fn view(&self) -> TaskSpecView {
        TaskSpecView {
            id: self.id@,
            title: self.title@,
            description: opt_view(self.description),
            status: self.status,
            dependencies: strings_view(self.dependencies@),
            files: strings_view(self.files@),
            contracts: strings_view(self.contracts@),
        }
    }
}

/// A fresh task: pending, with no description, dependencies, files or
/// contracts.
pub open spec fn new_task_view(id: Seq<char>, title: Seq<char>) -> TaskSpecView {
    TaskSpecView {
        id,
        title,
        description: None,
        status: TaskStatus::Pending,
        dependencies: seq![],
        files: seq![],
        contracts: seq![],
    }
}

/// A copy of every string of `v`.
pub fn copy_strings(v: &Vec<String>) -> (r: Vec<String>)
    ensures
        strings_view(r@) == strings_view(v@),
{
    let mut r: Vec<String> = Vec::new();
    let mut i: usize = 0;
    while i < v.len()
        invariant
            i <= v@.len(),
            r@.len() == i,
            forall|k: int| 0 <= k < i ==> (#[trigger] r@[k])@ == v@[k]@,
        decreases v@.len() - i,
    {
        let c = v[i].clone();
        r.push(c);
        i = i + 1;
    }
    assert(strings_view(r@) =~= strings_view(v@));
    r
}

impl TaskSpec {
    /// Creates a new task specification with default values.
    pub fn new(id: &str, title: &str) -> (r: Self)
        ensures
            r@ == new_task_view(id@, title@),
    {
        let r = TaskSpec {
            id: String::from_str(id),
            title: String::from_str(title),
            description: None,
            status: TaskStatus::Pending,
            dependencies: Vec::new(),
            files: Vec::new(),
            contracts: Vec::new(),
        };
        assert(r@.dependencies =~= seq![]);
        assert(r@.files =~= seq![]);
        assert(r@.contracts =~= seq![]);
        r
    }

    /// Creates a new task from owned identifier and title.
    pub fn from_parts(id: String, title: String) -> (r: Self)
        ensures
            r@ == new_task_view(id@, title@),
    {
        let r = TaskSpec {
            id,
            title,
            description: None,
            status: TaskStatus::Pending,
            dependencies: Vec::new(),
            files: Vec::new(),
            contracts: Vec::new(),
        };
        assert(r@.dependencies =~= seq![]);
        assert(r@.files =~= seq![]);
        assert(r@.contracts =~= seq![]);
        r
    }

    /// Adds a dependency to the task.
    pub fn add_dependency(&mut self, task_id: &str)
        ensures
            final(self)@ == (TaskSpecView {
                dependencies: old(self)@.dependencies.push(task_id@),
                ..old(self)@
            }),
    {
        self.push_dependency(String::from_str(task_id));
    }

    /// Adds an owned dependency to the task.
    pub fn push_dependency(&mut self, task_id: String)
        ensures
            final(self)@ == (TaskSpecView {
                dependencies: old(self)@.dependencies.push(task_id@),
                ..old(self)@
            }),
    {
        self.dependencies.push(task_id);
        assert(self@.dependencies =~= old(self)@.dependencies.push(task_id@));
    }

    /// Adds a file to the task's affected files list.
    pub fn add_file(&mut self, file: &str)
        ensures
            final(self)@ == (TaskSpecView { files: old(self)@.files.push(file@), ..old(self)@ }),
    {
        self.push_file(String::from_str(file));
    }

    /// Adds an owned file path to the task's affected files list.
    pub fn push_file(&mut self, file: String)
        ensures
            final(self)@ == (TaskSpecView { files: old(self)@.files.push(file@), ..old(self)@ }),
    {
        self.files.push(file);
        assert(self@.files =~= old(self)@.files.push(file@));
    }

    /// Adds a contract to the task's contracts list.
    pub fn add_contract(&mut self, contract: &str)
        ensures
            final(self)@ == (TaskSpecView {
                contracts: old(self)@.contracts.push(contract@),
                ..old(self)@
            }),
    {
        self.push_contract(String::from_str(contract));
    }

    /// Adds an owned contract to the task's contracts list.
    pub fn push_contract(&mut self, contract: String)
        ensures
            final(self)@ == (TaskSpecView {
                contracts: old(self)@.contracts.push(contract@),
                ..old(self)@
            }),
    {
        self.contracts.push(contract);
        assert(self@.contracts =~= old(self)@.contracts.push(contract@));
    }

    /// Sets the task's description.
    pub fn set_description(&mut self, description: &str)
        ensures
            final(self)@ == (TaskSpecView { description: Some(description@), ..old(self)@ }),
    {
        self.description = Some(String::from_str(description));
    }

    /// Sets the task's status.
    pub fn set_status(&mut self, status: TaskStatus)
        ensures
            final(self)@ == (TaskSpecView { status, ..old(self)@ }),
    {
        self.status = status;
    }

    /// A copy with the same value.
    pub fn duplicate(&self) -> (r: Self)
        ensures
            r@ == self@,
    {
        TaskSpec {
            id: self.id.clone(),
            title: self.title.clone(),
            description: match &self.description {
                Some(d) => Some(d.clone()),
                None => None,
            },
            status: self.status,
            dependencies: copy_strings(&self.dependencies),
            files: copy_strings(&self.files),
            contracts: copy_strings(&self.contracts),
        }
    }
}

/// State of a session.
#[derive(Debug, Clone, Copy, PartialEq, Eq, Structural)]
pub enum SessionState {
    /// Session is running normally.
    Running,
    /// Session has been paused.
    Paused,
    /// Session has been completed.
    Completed,
    /// Session has been canceled.
    Canceled,
}

} // verus!
