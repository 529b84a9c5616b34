//! The orchestrator's task board and its decisions: which tasks may run,
//! what a failure or a user's answer leads to, and how a stopped or
//! resumed session is brought back to a consistent state.
//!
//! Running agents, waiting for the user and writing plan files happen
//! around these functions; every choice between them is made here.
use vstd::prelude::*;
use crate::plan::graph::{find_last, index_of_id, lemma_last_index};
use crate::plan::parser::tasks_view;
use crate::text::owned;
use crate::types::{strings_view, TaskSpec, TaskSpecView, TaskStatus};

verus! {

/// Configuration of the orchestrator.
#[derive(Debug, Clone)]
pub struct OrchestratorConfig {
    /// Whether to use a stronger model for the orchestrator's reasoning.
    pub use_strong_model: bool,
    /// Maximum number of clarification rounds.
    pub max_clarification_rounds: usize,
    /// Maximum number of attempts of a code agent on one task.
    pub max_retries: usize,
    /// Whether to enable test-aware behavior.
    pub test_aware: bool,
}

impl Default for OrchestratorConfig {
    /// The weaker model, three clarification rounds, three attempts, test
    /// aware.
    fn default() -> (r: Self)
        ensures
            !r.use_strong_model,
            r.max_clarification_rounds == 3,
            r.max_retries == 3,
            r.test_aware,
    {
        OrchestratorConfig {
            use_strong_model: false,
            max_clarification_rounds: 3,
            max_retries: 3,
            test_aware: true,
        }
    }
}

/// An agent that stands in for a finished task.
#[derive(Debug, Clone)]
pub struct DummyAgent {
    pub id: String,
}

impl DummyAgent {
    /// A stand-in agent with the given identifier.
    pub fn new(id: &str) -> (r: DummyAgent)
        ensures
            r.id@ == id@,
    {
        DummyAgent { id: owned(id) }
    }
}

/// No two tasks share an identifier.
pub open spec fn distinct_ids(ts: Seq<TaskSpecView>) -> bool {
    forall|i: int, j: int| 0 <= i < j < ts.len() ==> ts[i].id != ts[j].id
}

/// `b` is `a` with only the statuses changed.
pub open spec fn same_but_status(a: Seq<TaskSpecView>, b: Seq<TaskSpecView>) -> bool {
    &&& a.len() == b.len()
    &&& forall|i: int|
        0 <= i < a.len() ==> (TaskSpecView { status: a[i].status, ..#[trigger] b[i] }) == a[i]
}

/// The tasks of a run, keyed by their identifiers.
#[derive(Debug)]
pub struct TaskBoard {
    tasks: Vec<TaskSpec>,
}

impl View for TaskBoard {
    type V = Seq<TaskSpecView>;

    closed spec fn view(&self) -> Seq<TaskSpecView> {
        tasks_view(self.tasks@)
    }
}

/// Every task of `ts` whose status is `from` has status `to` in `ts2`, and
/// every other task keeps its status.
pub open spec fn statuses_replaced(
    ts: Seq<TaskSpecView>,
    ts2: Seq<TaskSpecView>,
    from: TaskStatus,
    to: TaskStatus,
) -> bool {
    &&& same_but_status(ts, ts2)
    &&& forall|i: int|
        0 <= i < ts.len() ==> (#[trigger] ts2[i]).status == if ts[i].status == from {
            to
        } else {
            ts[i].status
        }
}

/// The status a stored plan marker stands for: "completed" and "done"
/// mean completed, "failed" and "skipped" mean what they say, and anything
/// else (an interrupted "in_progress" among them) means pending.
pub open spec fn marker_status(m: Seq<char>) -> TaskStatus {
    if m == "completed"@ || m == "done"@ {
        TaskStatus::Completed
    } else if m == "failed"@ {
        TaskStatus::Failed
    } else if m == "skipped"@ {
        TaskStatus::Skipped
    } else {
        TaskStatus::Pending
    }
}

/// How stored plan markers read back: "completed" and "done" give
/// Completed, "failed" gives Failed, "skipped" gives Skipped, and every
/// other marker, "in_progress" among them, gives Pending; no marker gives
/// InProgress, so a task interrupted while running is run again.
pub proof fn lemma_marker_status(m: Seq<char>)
    ensures
        marker_status(m) == TaskStatus::Completed <==> (m == "completed"@ || m == "done"@),
        marker_status(m) == TaskStatus::Failed <==> m == "failed"@,
        marker_status(m) == TaskStatus::Skipped <==> m == "skipped"@,
        marker_status(m) == TaskStatus::Pending <==> (m != "completed"@ && m != "done"@ && m
            != "failed"@ && m != "skipped"@),
        marker_status(m) != TaskStatus::InProgress,
        marker_status("in_progress"@) == TaskStatus::Pending,
{
    reveal_strlit("completed");
    reveal_strlit("done");
    reveal_strlit("failed");
    reveal_strlit("skipped");
    reveal_strlit("in_progress");
    assert("done"@.len() == 4 && "failed"@.len() == 6 && "skipped"@.len() == 7);
    assert("completed"@.len() == 9 && "in_progress"@.len() == 11);
    assert("failed"@ != "completed"@ && "failed"@ != "done"@);
    assert("skipped"@ != "completed"@ && "skipped"@ != "done"@ && "skipped"@ != "failed"@);
    assert("in_progress"@ != "completed"@ && "in_progress"@ != "done"@);
    assert("in_progress"@ != "failed"@ && "in_progress"@ != "skipped"@);
}

/// The status that a stored plan marker stands for, as `marker_status`
/// says: "failed" restores Failed, "skipped" Skipped, "completed" and
/// "done" Completed, anything else Pending.
pub fn status_from_marker(m: &str) -> (r: TaskStatus)
    ensures
        r == marker_status(m@),
        r == TaskStatus::Completed <==> (m@ == "completed"@ || m@ == "done"@),
        r == TaskStatus::Failed <==> m@ == "failed"@,
        r == TaskStatus::Skipped <==> m@ == "skipped"@,
        r != TaskStatus::InProgress,
{
    proof {
        lemma_marker_status(m@);
    }
    let s = owned(m);
    if s == owned("completed") || s == owned("done") {
        TaskStatus::Completed
    } else if s == owned("failed") {
        TaskStatus::Failed
    } else if s == owned("skipped") {
        TaskStatus::Skipped
    } else {
        TaskStatus::Pending
    }
}

/// `a` comes before `b` in the order of `String`: the first differing
/// character decides, and a proper prefix comes first.
pub open spec fn str_lt(a: Seq<char>, b: Seq<char>) -> bool
    decreases a.len(),
{
    if a.len() == 0 {
        b.len() > 0
    } else if b.len() == 0 {
        false
    } else if a[0] != b[0] {
        (a[0] as u32) < (b[0] as u32)
    } else {
        str_lt(a.drop_first(), b.drop_first())
    }
}

/// Whether `a` comes before `b`, as `str_lt` says.
pub fn string_lt(a: &str, b: &str) -> (r: bool)
    ensures
        r == str_lt(a@, b@),
{
    let x = crate::text::chars_of(a);
    let y = crate::text::chars_of(b);
    assert(x@.subrange(0, x@.len() as int) =~= x@);
    assert(y@.subrange(0, y@.len() as int) =~= y@);
    let mut i: usize = 0;
    while i < x.len() && i < y.len() && x[i] == y[i]
        invariant
            i <= x@.len(),
            i <= y@.len(),
            str_lt(a@, b@) == str_lt(x@.subrange(i as int, x@.len() as int), y@.subrange(i as int, y@.len() as int)),
            x@ == a@,
            y@ == b@,
        decreases x@.len() - i,
    {
        assert(x@.subrange(i as int, x@.len() as int).drop_first() =~= x@.subrange(i + 1, x@.len() as int));
        assert(y@.subrange(i as int, y@.len() as int).drop_first() =~= y@.subrange(i + 1, y@.len() as int));
        i = i + 1;
    }
    if i == x.len() {
        i < y.len()
    } else if i == y.len() {
        false
    } else {
        (x[i] as u32) < (y[i] as u32)
    }
}

/// Every dependency of `t` names a task of `ts` that is completed.
pub open spec fn deps_completed(ts: Seq<TaskSpecView>, t: TaskSpecView) -> bool {
    forall|j: int|
        0 <= j < t.dependencies.len() ==> {
            let k = index_of_id(ts, #[trigger] t.dependencies[j]);
            k >= 0 && ts[k].status == TaskStatus::Completed
        }
}

/// Task `t` may run: it is pending, it does not come before the task to
/// continue from (if there is one), and every dependency is completed.
pub open spec fn is_ready(ts: Seq<TaskSpecView>, t: TaskSpecView, continue_from: Option<Seq<char>>) -> bool {
    &&& t.status == TaskStatus::Pending
    &&& match continue_from {
        Some(c) => !str_lt(t.id, c),
        None => true,
    }
    &&& deps_completed(ts, t)
}

/// The identifiers of the ready tasks among the first `n` tasks, in order.
pub open spec fn ready_ids(ts: Seq<TaskSpecView>, n: int, continue_from: Option<Seq<char>>) -> Seq<
    Seq<char>,
>
    decreases n,
{
    if n <= 0 {
        seq![]
    } else {
        let prev = ready_ids(ts, n - 1, continue_from);
        if is_ready(ts, ts[n - 1], continue_from) {
            prev.push(ts[n - 1].id)
        } else {
            prev
        }
    }
}

/// The files of the completed tasks among the first `n`, each once, in the
/// order they first appear.
pub open spec fn completed_files(ts: Seq<TaskSpecView>, n: int) -> Seq<Seq<char>>
    decreases n,
{
    if n <= 0 {
        seq![]
    } else {
        let prev = completed_files(ts, n - 1);
        if ts[n - 1].status == TaskStatus::Completed {
            add_new(prev, ts[n - 1].files)
        } else {
            prev
        }
    }
}

/// `acc` followed by each of `xs` that is not yet there.
pub open spec fn add_new(acc: Seq<Seq<char>>, xs: Seq<Seq<char>>) -> Seq<Seq<char>>
    decreases xs.len(),
{
    if xs.len() == 0 {
        acc
    } else {
        let a = add_new(acc, xs.drop_last());
        if a.contains(xs.last()) {
            a
        } else {
            a.push(xs.last())
        }
    }
}

/// The contracts of the completed tasks among the first `n`, in order.
pub open spec fn completed_contracts(ts: Seq<TaskSpecView>, n: int) -> Seq<Seq<char>>
    decreases n,
{
    if n <= 0 {
        seq![]
    } else {
        let prev = completed_contracts(ts, n - 1);
        if ts[n - 1].status == TaskStatus::Completed {
            prev + ts[n - 1].contracts
        } else {
            prev
        }
    }
}

/// `c` is a contract of a completed task among the first `n` of `ts`.
pub open spec fn contract_of_completed(ts: Seq<TaskSpecView>, n: int, c: Seq<char>) -> bool {
    exists|i: int|
        #![trigger ts[i]]
        0 <= i < n && ts[i].status == TaskStatus::Completed && ts[i].contracts.contains(c)
}

/// The contracts gathered from the first `n` tasks are exactly those of its
/// completed tasks: each one gathered belongs to a completed task among
/// them, and every contract of each completed task among them is gathered;
/// a task that is not completed contributes nothing.
pub proof fn lemma_completed_contracts(ts: Seq<TaskSpecView>, n: int)
    requires
        0 <= n <= ts.len(),
    ensures
        forall|k: int|
            0 <= k < completed_contracts(ts, n).len() ==> contract_of_completed(
                ts,
                n,
                #[trigger] completed_contracts(ts, n)[k],
            ),
        forall|i: int, j: int|
            0 <= i < n && (#[trigger] ts[i]).status == TaskStatus::Completed && 0 <= j
                < ts[i].contracts.len() ==> completed_contracts(ts, n).contains(
                #[trigger] ts[i].contracts[j],
            ),
    decreases n,
{
    if n > 0 {
        lemma_completed_contracts(ts, n - 1);
        let prev = completed_contracts(ts, n - 1);
        let cur = completed_contracts(ts, n);
        assert forall|k: int| 0 <= k < prev.len() implies contract_of_completed(
            ts,
            n,
            #[trigger] prev[k],
        ) by {
            assert(contract_of_completed(ts, n - 1, prev[k]));
            let i = choose|i: int|
                #![trigger ts[i]]
                0 <= i < n - 1 && ts[i].status == TaskStatus::Completed
                    && ts[i].contracts.contains(prev[k]);
            assert(ts[i].status == TaskStatus::Completed);
        }
        if ts[n - 1].status == TaskStatus::Completed {
            let cs = ts[n - 1].contracts;
            assert(cur == prev + cs);
            assert forall|k: int| 0 <= k < cur.len() implies contract_of_completed(
                ts,
                n,
                #[trigger] cur[k],
            ) by {
                if k < prev.len() {
                    assert(cur[k] == prev[k]);
                } else {
                    assert(cur[k] == cs[k - prev.len()]);
                    assert(ts[n - 1].contracts.contains(cur[k]));
                    assert(ts[n - 1].status == TaskStatus::Completed);
                }
            }
            assert forall|i: int, j: int|
                0 <= i < n && (#[trigger] ts[i]).status == TaskStatus::Completed && 0 <= j
                    < ts[i].contracts.len() implies cur.contains(#[trigger] ts[i].contracts[j]) by {
                if i < n - 1 {
                    assert(prev.contains(ts[i].contracts[j]));
                    let k = choose|k: int| 0 <= k < prev.len() && prev[k] == ts[i].contracts[j];
                    assert(cur[k] == prev[k]);
                } else {
                    assert(cur[prev.len() + j] == cs[j]);
                }
            }
        } else {
            assert(cur == prev);
        }
    }
}

impl TaskBoard {
    /// The board's invariant: identifiers are keys.
    pub closed spec fn wf(&self) -> bool {
        distinct_ids(self@)
    }

    /// An empty board.
    pub fn new() -> (r: TaskBoard)
        ensures
            r.wf(),
            r@ == Seq::<TaskSpecView>::empty(),
    {
        let r = TaskBoard { tasks: Vec::new() };
        assert(r@ =~= Seq::<TaskSpecView>::empty());
        r
    }

    /// The tasks, in the order they were added.
    pub fn tasks(&self) -> (r: &Vec<TaskSpec>)
        ensures
            tasks_view(r@) == self@,
    {
        &self.tasks
    }

    /// Adds a task; one with the same identifier is replaced in place.
    pub fn add_task(&mut self, spec: TaskSpec)
        requires
            old(self).wf(),
        ensures
            final(self).wf(),
            index_of_id(old(self)@, spec.id@) >= 0 ==> final(self)@ == old(self)@.update(
                index_of_id(old(self)@, spec.id@),
                spec@,
            ),
            index_of_id(old(self)@, spec.id@) < 0 ==> final(self)@ == old(self)@.push(spec@),
    {
        let ghost ts = self@;
        proof {
            lemma_last_index(ts, spec.id@, ts.len() as int);
        }
        match find_last(&self.tasks, &spec.id) {
            Some(k) => {
                self.tasks.set(k, spec);
                assert(self@ =~= ts.update(k as int, spec@));
            },
            None => {
                self.tasks.push(spec);
                assert(self@ =~= ts.push(spec@));
                assert forall|i: int, j: int| 0 <= i < j < self@.len() implies self@[i].id
                    != self@[j].id by {
                    if j == ts.len() {
                        assert(ts[i].id != spec.id@);
                    }
                }
            },
        }
    }

    /// Sets the status of the task `id`, if the board has it.
    pub fn update_task_status(&mut self, id: &String, status: TaskStatus)
        requires
            old(self).wf(),
        ensures
            final(self).wf(),
            index_of_id(old(self)@, id@) >= 0 ==> final(self)@ == old(self)@.update(
                index_of_id(old(self)@, id@),
                TaskSpecView { status, ..old(self)@[index_of_id(old(self)@, id@)] },
            ),
            index_of_id(old(self)@, id@) < 0 ==> final(self)@ == old(self)@,
    {
        let ghost ts = self@;
        match find_last(&self.tasks, id) {
            Some(k) => {
                let mut t = self.tasks[k].duplicate();
                t.status = status;
                self.tasks.set(k, t);
                assert(self@ =~= ts.update(
                    k as int,
                    TaskSpecView { status, ..ts[k as int] },
                ));
            },
            None => {},
        }
    }

    /// The status of the task `id`, if the board has it.
    pub fn status_of(&self, id: &String) -> (r: Option<TaskStatus>)
        ensures
            index_of_id(self@, id@) >= 0 ==> r == Some(self@[index_of_id(self@, id@)].status),
            index_of_id(self@, id@) < 0 ==> r is None,
    {
        match find_last(&self.tasks, id) {
            Some(k) => Some(self.tasks[k].status),
            None => None,
        }
    }

    /// Whether every task is completed.
    pub fn all_tasks_done(&self) -> (r: bool)
        ensures
            r == forall|i: int| 0 <= i < self@.len() ==> self@[i].status == TaskStatus::Completed,
    {
        let mut i: usize = 0;
        while i < self.tasks.len()
            invariant
                i <= self@.len(),
                self@ == tasks_view(self.tasks@),
                forall|k: int| 0 <= k < i ==> self@[k].status == TaskStatus::Completed,
            decreases self@.len() - i,
        {
            if self.tasks[i].status != TaskStatus::Completed {
                assert(self@[i as int].status != TaskStatus::Completed);
                return false;
            }
            i = i + 1;
        }
        true
    }

    /// Whether some task is still to be done: neither completed, failed
    /// nor skipped.
    pub fn has_incomplete(&self) -> (r: bool)
        ensures
            r == exists|i: int|
                0 <= i < self@.len() && self@[i].status != TaskStatus::Completed && self@[i].status
                    != TaskStatus::Failed && self@[i].status != TaskStatus::Skipped,
    {
        let mut i: usize = 0;
        while i < self.tasks.len()
            invariant
                i <= self@.len(),
                self@ == tasks_view(self.tasks@),
                forall|k: int|
                    0 <= k < i ==> self@[k].status == TaskStatus::Completed || self@[k].status
                        == TaskStatus::Failed || self@[k].status == TaskStatus::Skipped,
            decreases self@.len() - i,
        {
            let s = self.tasks[i].status;
            if s != TaskStatus::Completed && s != TaskStatus::Failed && s != TaskStatus::Skipped {
                assert(self@[i as int].status == s);
                return true;
            }
            i = i + 1;
        }
        false
    }

    /// Whether some task is in progress.
    pub fn is_running(&self) -> (r: bool)
        ensures
            r == exists|i: int| 0 <= i < self@.len() && self@[i].status == TaskStatus::InProgress,
    {
        let mut i: usize = 0;
        while i < self.tasks.len()
            invariant
                i <= self@.len(),
                self@ == tasks_view(self.tasks@),
                forall|k: int| 0 <= k < i ==> self@[k].status != TaskStatus::InProgress,
            decreases self@.len() - i,
        {
            if self.tasks[i].status == TaskStatus::InProgress {
                assert(self@[i as int].status == TaskStatus::InProgress);
                return true;
            }
            i = i + 1;
        }
        false
    }

    /// Whether every dependency of the task at `k` is a completed task.
    fn deps_done(&self, k: usize) -> (r: bool)
        requires
            k < self@.len(),
        ensures
            r == deps_completed(self@, self@[k as int]),
    {
        let deps = &self.tasks[k].dependencies;
        let mut j: usize = 0;
        while j < deps.len()
            invariant
                k < self@.len(),
                self@ == tasks_view(self.tasks@),
                deps@ == self.tasks@[k as int].dependencies@,
                j <= deps@.len(),
                forall|t: int|
                    0 <= t < j ==> {
                        let q = index_of_id(self@, #[trigger] self@[k as int].dependencies[t]);
                        q >= 0 && self@[q].status == TaskStatus::Completed
                    },
            decreases deps@.len() - j,
        {
            assert(self@[k as int].dependencies[j as int] == deps@[j as int]@);
            match find_last(&self.tasks, &deps[j]) {
                Some(q) => {
                    if self.tasks[q].status != TaskStatus::Completed {
                        return false;
                    }
                },
                None => {
                    return false;
                },
            }
            j = j + 1;
        }
        true
    }

    /// The identifiers of the tasks that may run now, in order: pending,
    /// not before `continue_from` (when given) in the order of strings, and
    /// with every dependency completed.
    pub fn find_ready_tasks(&self, continue_from: Option<&str>) -> (r: Vec<String>)
        ensures
            strings_view(r@) == ready_ids(
                self@,
                self@.len() as int,
                match continue_from {
                    Some(c) => Some(c@),
                    None => None,
                },
            ),
    {
        let ghost cf = match continue_from {
            Some(c) => Some(c@),
            None => None,
        };
        let mut r: Vec<String> = Vec::new();
        let mut i: usize = 0;
        while i < self.tasks.len()
            invariant
                i <= self@.len(),
                self@ == tasks_view(self.tasks@),
                cf == match continue_from {
                    Some(c) => Some(c@),
                    None => None,
                },
                strings_view(r@) == ready_ids(self@, i as int, cf),
            decreases self@.len() - i,
        {
            let t = &self.tasks[i];
            let mut ready = t.status == TaskStatus::Pending;
            if ready {
                match continue_from {
                    Some(c) => {
                        if string_lt(t.id.as_str(), c) {
                            ready = false;
                        }
                    },
                    None => {},
                }
            }
            if ready {
                ready = self.deps_done(i);
            }
            let ghost before = strings_view(r@);
            if ready {
                r.push(t.id.clone());
                assert(strings_view(r@) =~= before.push(self@[i as int].id));
            }
            i = i + 1;
        }
        r
    }

    /// Puts every task in progress back to pending, as a stopped session
    /// leaves them.
    pub fn reset_in_progress(&mut self)
        requires
            old(self).wf(),
        ensures
            final(self).wf(),
            statuses_replaced(old(self)@, final(self)@, TaskStatus::InProgress, TaskStatus::Pending),
    {
        let ghost ts = self@;
        let mut i: usize = 0;
        while i < self.tasks.len()
            invariant
                i <= self@.len(),
                ts.len() == self@.len(),
                distinct_ids(ts),
                forall|k: int|
                    0 <= k < self@.len() ==> (TaskSpecView { status: ts[k].status, ..#[trigger] self@[k] })
                        == ts[k],
                forall|k: int|
                    0 <= k < self@.len() ==> (#[trigger] self@[k]).status == if k < i
                        && ts[k].status == TaskStatus::InProgress {
                        TaskStatus::Pending
                    } else {
                        ts[k].status
                    },
            decreases self@.len() - i,
        {
            let ghost prev = self@;
            if self.tasks[i].status == TaskStatus::InProgress {
                let mut t = self.tasks[i].duplicate();
                t.status = TaskStatus::Pending;
                self.tasks.set(i, t);
                assert(self@ =~= prev.update(i as int, TaskSpecView { status: TaskStatus::Pending, ..prev[i as int] }));
            }
            i = i + 1;
        }
        assert forall|a: int, b: int| 0 <= a < b < self@.len() implies self@[a].id != self@[b].id by {
            assert(self@[a].id == ts[a].id);
            assert(self@[b].id == ts[b].id);
        }
    }

    /// Restores the statuses of a resumed session from its stored plan
    /// markers, each `(id, marker)` in order, as `marker_status` reads them;
    /// markers of unknown tasks are ignored.
    pub fn restore_markers(&mut self, markers: &Vec<(String, String)>)
        requires
            old(self).wf(),
        ensures
            final(self).wf(),
            same_but_status(old(self)@, final(self)@),
            forall|i: int|
                0 <= i < old(self)@.len() ==> (#[trigger] final(self)@[i]).status == match last_marker(
                    markers@,
                    old(self)@[i].id,
                    markers@.len() as int,
                ) {
                    Some(m) => marker_status(m),
                    None => old(self)@[i].status,
                },
    {
        let ghost ts = self@;
        let mut j: usize = 0;
        while j < markers.len()
            invariant
                j <= markers@.len(),
                ts.len() == self@.len(),
                distinct_ids(ts),
                same_but_status(ts, self@),
                forall|i: int|
                    0 <= i < ts.len() ==> (#[trigger] self@[i]).status == match last_marker(
                        markers@,
                        ts[i].id,
                        j as int,
                    ) {
                        Some(m) => marker_status(m),
                        None => ts[i].status,
                    },
            decreases markers@.len() - j,
        {
            let status = status_from_marker(markers[j].1.as_str());
            let ghost before = self@;
            proof {
                assert(distinct_ids(self@)) by {
                    assert forall|a: int, b: int| 0 <= a < b < self@.len() implies self@[a].id
                        != self@[b].id by {
                        assert(self@[a].id == ts[a].id);
                        assert(self@[b].id == ts[b].id);
                    }
                }
                lemma_last_index(self@, markers@[j as int].0@, self@.len() as int);
            }
            self.update_task_status(&markers[j].0, status);
            proof {
                assert forall|i: int| 0 <= i < ts.len() implies (#[trigger] self@[i]).status
                    == match last_marker(markers@, ts[i].id, j + 1) {
                    Some(m) => marker_status(m),
                    None => ts[i].status,
                } by {
                    assert(before[i].id == ts[i].id);
                    if ts[i].id == markers@[j as int].0@ {
                        assert(index_of_id(before, markers@[j as int].0@) == i) by {
                            if index_of_id(before, markers@[j as int].0@) != i {
                                let q = index_of_id(before, markers@[j as int].0@);
                                if q >= 0 {
                                    assert(before[q].id == ts[q].id);
                                }
                            }
                        }
                    }
                }
            }
            j = j + 1;
        }
    }

    /// The identifier of the first pending task, the one a resumed session
    /// continues from.
    pub fn first_pending(&self) -> (r: Option<String>)
        ensures
            r matches Some(id) ==> exists|i: int|
                0 <= i < self@.len() && self@[i].status == TaskStatus::Pending && self@[i].id == id@
                    && forall|k: int| 0 <= k < i ==> self@[k].status != TaskStatus::Pending,
            r is None ==> forall|k: int| 0 <= k < self@.len() ==> self@[k].status != TaskStatus::Pending,
    {
        let mut i: usize = 0;
        while i < self.tasks.len()
            invariant
                i <= self@.len(),
                self@ == tasks_view(self.tasks@),
                forall|k: int| 0 <= k < i ==> self@[k].status != TaskStatus::Pending,
            decreases self@.len() - i,
        {
            if self.tasks[i].status == TaskStatus::Pending {
                let r = self.tasks[i].id.clone();
                assert(self@[i as int].id == r@);
                return Some(r);
            }
            i = i + 1;
        }
        None
    }

    /// The files of the completed tasks, each once, in the order they first
    /// appear: what the final review looks at.
    pub fn changed_files(&self) -> (r: Vec<String>)
        ensures
            strings_view(r@) == completed_files(self@, self@.len() as int),
    {
        let mut r: Vec<String> = Vec::new();
        let mut i: usize = 0;
        while i < self.tasks.len()
            invariant
                i <= self@.len(),
                self@ == tasks_view(self.tasks@),
                strings_view(r@) == completed_files(self@, i as int),
            decreases self@.len() - i,
        {
            if self.tasks[i].status == TaskStatus::Completed {
                let files = &self.tasks[i].files;
                let ghost acc = strings_view(r@);
                let ghost fs = strings_view(files@);
                let mut j: usize = 0;
                while j < files.len()
                    invariant
                        j <= files@.len(),
                        fs == strings_view(files@),
                        strings_view(r@) == add_new(acc, fs.take(j as int)),
                    decreases files@.len() - j,
                {
                    proof {
                        assert(fs.take(j + 1).drop_last() =~= fs.take(j as int));
                        assert(fs.take(j + 1).last() == files@[j as int]@);
                    }
                    let mut seen = false;
                    let mut k: usize = 0;
                    while k < r.len()
                        invariant
                            k <= r@.len(),
                            j < files@.len(),
                            seen == exists|t: int| 0 <= t < k && r@[t]@ == files@[j as int]@,
                        decreases r@.len() - k,
                    {
                        if r[k] == files[j] {
                            seen = true;
                        }
                        k = k + 1;
                    }
                    let ghost before = strings_view(r@);
                    proof {
                        if seen {
                            let t = choose|t: int| 0 <= t < r@.len() && r@[t]@ == files@[j as int]@;
                            assert(before[t] == files@[j as int]@);
                        } else {
                            assert forall|t: int| 0 <= t < before.len() implies before[t]
                                != files@[j as int]@ by {
                                assert(before[t] == r@[t]@);
                            }
                        }
                    }
                    if !seen {
                        r.push(files[j].clone());
                        assert(strings_view(r@) =~= before.push(files@[j as int]@));
                    }
                    j = j + 1;
                }
                assert(fs.take(fs.len() as int) =~= fs);
                assert(fs == self@[i as int].files);
            }
            i = i + 1;
        }
        r
    }

    /// The contracts of the completed tasks, in order.
    pub fn all_contracts(&self) -> (r: Vec<String>)
        ensures
            strings_view(r@) == completed_contracts(self@, self@.len() as int),
            forall|k: int|
                0 <= k < r@.len() ==> contract_of_completed(
                    self@,
                    self@.len() as int,
                    (#[trigger] r@[k])@,
                ),
            forall|i: int, j: int|
                0 <= i < self@.len() && (#[trigger] self@[i]).status == TaskStatus::Completed && 0
                    <= j < self@[i].contracts.len() ==> strings_view(r@).contains(
                    #[trigger] self@[i].contracts[j],
                ),
    {
        let mut r: Vec<String> = Vec::new();
        let mut i: usize = 0;
        while i < self.tasks.len()
            invariant
                i <= self@.len(),
                self@ == tasks_view(self.tasks@),
                strings_view(r@) == completed_contracts(self@, i as int),
            decreases self@.len() - i,
        {
            if self.tasks[i].status == TaskStatus::Completed {
                let cs = &self.tasks[i].contracts;
                let ghost acc = strings_view(r@);
                let mut j: usize = 0;
                while j < cs.len()
                    invariant
                        j <= cs@.len(),
                        strings_view(r@) == acc + strings_view(cs@).take(j as int),
                    decreases cs@.len() - j,
                {
                    let ghost before = strings_view(r@);
                    r.push(cs[j].clone());
                    assert(strings_view(r@) =~= before.push(cs@[j as int]@));
                    assert(strings_view(cs@).take(j + 1) =~= strings_view(cs@).take(j as int).push(cs@[j as int]@));
                    j = j + 1;
                    assert(strings_view(r@) =~= acc + strings_view(cs@).take(j as int));
                }
                assert(strings_view(cs@).take(cs@.len() as int) =~= strings_view(cs@));
            }
            i = i + 1;
        }
        proof {
            lemma_completed_contracts(self@, self@.len() as int);
            assert forall|k: int| 0 <= k < r@.len() implies contract_of_completed(
                self@,
                self@.len() as int,
                (#[trigger] r@[k])@,
            ) by {
                assert(strings_view(r@)[k] == r@[k]@);
            }
        }
        r
    }
}

/// The marker that the last of the first `n` pairs of `markers` stores for
/// `id`, if any.
pub open spec fn last_marker(markers: Seq<(String, String)>, id: Seq<char>, n: int) -> Option<
    Seq<char>,
>
    decreases n,
{
    if n <= 0 {
        None
    } else if markers[n - 1].0@ == id {
        Some(markers[n - 1].1@)
    } else {
        last_marker(markers, id, n - 1)
    }
}

// ------------------------------------------------------------------
// Skipping what a skipped or failed task blocks
// ------------------------------------------------------------------

/// A failed or skipped task blocks the tasks that depend on it.
pub open spec fn is_blocking(s: TaskStatus) -> bool {
    s == TaskStatus::Failed || s == TaskStatus::Skipped
}

/// Task `i` depends on a task of the board that is failed or skipped.
pub open spec fn has_blocked_dep(ts: Seq<TaskSpecView>, i: int) -> bool {
    exists|j: int|
        0 <= j < ts[i].dependencies.len() && {
            let q = index_of_id(ts, #[trigger] ts[i].dependencies[j]);
            q >= 0 && is_blocking(ts[q].status)
        }
}

/// Task `i` is blocked through at most `n` links: it depends on a task of
/// the board that is failed or skipped, or on a pending task that is
/// blocked through fewer links.
pub open spec fn blocked_within(ts: Seq<TaskSpecView>, i: int, n: nat) -> bool
    decreases n,
{
    n > 0 && exists|j: int|
        0 <= j < ts[i].dependencies.len() && {
            let q = index_of_id(ts, #[trigger] ts[i].dependencies[j]);
            q >= 0 && (is_blocking(ts[q].status) || (ts[q].status == TaskStatus::Pending
                && blocked_within(ts, q, (n - 1) as nat)))
        }
}

/// Task `i` is blocked through some chain of pending tasks.
pub open spec fn is_blocked(ts: Seq<TaskSpecView>, i: int) -> bool {
    exists|n: nat| blocked_within(ts, i, n)
}

/// The statuses after skipping every pending task that is blocked: such a
/// task becomes skipped, every other keeps its status.
pub open spec fn after_skipping_blocked(ts: Seq<TaskSpecView>, ts2: Seq<TaskSpecView>) -> bool {
    &&& same_but_status(ts, ts2)
    &&& forall|i: int|
        0 <= i < ts.len() ==> (#[trigger] ts2[i]).status == if ts[i].status == TaskStatus::Pending
            && is_blocked(ts, i) {
            TaskStatus::Skipped
        } else {
            ts[i].status
        }
}

/// The identifiers' positions depend on the identifiers alone.
proof fn lemma_index_same_ids(a: Seq<TaskSpecView>, b: Seq<TaskSpecView>, id: Seq<char>, k: int)
    requires
        same_but_status(a, b),
        0 <= k <= a.len(),
    ensures
        crate::plan::graph::last_index_before(a, id, k) == crate::plan::graph::last_index_before(
            b,
            id,
            k,
        ),
    decreases k,
{
    if k > 0 {
        assert(a[k - 1].id == b[k - 1].id) by {
            assert((TaskSpecView { status: a[k - 1].status, ..b[k - 1] }) == a[k - 1]);
        }
        lemma_index_same_ids(a, b, id, k - 1);
    }
}

/// Being blocked through `n` links implies being blocked through more.
proof fn lemma_blocked_mono(ts: Seq<TaskSpecView>, i: int, n: nat)
    requires
        blocked_within(ts, i, n),
    ensures
        blocked_within(ts, i, n + 1),
    decreases n,
{
    let j = choose|j: int|
        0 <= j < ts[i].dependencies.len() && {
            let q = index_of_id(ts, #[trigger] ts[i].dependencies[j]);
            q >= 0 && (is_blocking(ts[q].status) || (ts[q].status == TaskStatus::Pending
                && blocked_within(ts, q, (n - 1) as nat)))
        };
    let q = index_of_id(ts, ts[i].dependencies[j]);
    if !is_blocking(ts[q].status) {
        lemma_blocked_mono(ts, q, (n - 1) as nat);
    }
    assert(blocked_within(ts, i, n + 1));
}

/// The number of pending tasks among the first `n`.
pub open spec fn pending_count(ts: Seq<TaskSpecView>, n: int) -> nat
    decreases n,
{
    if n <= 0 {
        0
    } else {
        pending_count(ts, n - 1) + if ts[n - 1].status == TaskStatus::Pending {
            1nat
        } else {
            0nat
        }
    }
}

/// Turning pending tasks into skipped ones lowers the pending count, and
/// lowers it strictly when it turns at least one.
proof fn lemma_pending_count(a: Seq<TaskSpecView>, b: Seq<TaskSpecView>, n: int)
    requires
        a.len() == b.len(),
        0 <= n <= a.len(),
        forall|i: int|
            0 <= i < a.len() ==> (#[trigger] b[i]).status == a[i].status || (a[i].status
                == TaskStatus::Pending && b[i].status == TaskStatus::Skipped),
    ensures
        pending_count(b, n) <= pending_count(a, n),
        (exists|i: int|
            0 <= i < n && a[i].status == TaskStatus::Pending && b[i].status == TaskStatus::Skipped)
            ==> pending_count(b, n) < pending_count(a, n),
    decreases n,
{
    if n > 0 {
        lemma_pending_count(a, b, n - 1);
        if exists|i: int|
            0 <= i < n && a[i].status == TaskStatus::Pending && b[i].status == TaskStatus::Skipped {
            let i = choose|i: int|
                0 <= i < n && a[i].status == TaskStatus::Pending && b[i].status
                    == TaskStatus::Skipped;
            if i < n - 1 {
            } else {
                assert(b[n - 1].status == TaskStatus::Skipped);
            }
        }
    }
}

/// What one round of skipping keeps true: only pending tasks change, they
/// become skipped, and only when they are blocked in the original board.
pub open spec fn skip_sound(ts: Seq<TaskSpecView>, cur: Seq<TaskSpecView>) -> bool {
    &&& same_but_status(ts, cur)
    &&& forall|i: int|
        0 <= i < ts.len() ==> (#[trigger] cur[i]).status == ts[i].status || (ts[i].status
            == TaskStatus::Pending && cur[i].status == TaskStatus::Skipped && is_blocked(ts, i))
}

/// When no pending task of `cur` has a blocked dependency, every pending
/// task of `ts` that is blocked through `n` links is skipped in `cur`.
proof fn lemma_fixpoint_complete(ts: Seq<TaskSpecView>, cur: Seq<TaskSpecView>, i: int, n: nat)
    requires
        skip_sound(ts, cur),
        forall|k: int|
            0 <= k < cur.len() && cur[k].status == TaskStatus::Pending ==> !has_blocked_dep(cur, k),
        0 <= i < ts.len(),
        ts[i].status == TaskStatus::Pending,
        blocked_within(ts, i, n),
    ensures
        cur[i].status == TaskStatus::Skipped,
    decreases n,
{
    let j = choose|j: int|
        0 <= j < ts[i].dependencies.len() && {
            let q = index_of_id(ts, #[trigger] ts[i].dependencies[j]);
            q >= 0 && (is_blocking(ts[q].status) || (ts[q].status == TaskStatus::Pending
                && blocked_within(ts, q, (n - 1) as nat)))
        };
    let d = ts[i].dependencies[j];
    let q = index_of_id(ts, d);
    lemma_index_same_ids(ts, cur, d, ts.len() as int);
    lemma_last_index(ts, d, ts.len() as int);
    assert(cur[i].dependencies == ts[i].dependencies) by {
        assert((TaskSpecView { status: ts[i].status, ..cur[i] }) == ts[i]);
    }
    if !is_blocking(ts[q].status) {
        lemma_fixpoint_complete(ts, cur, q, (n - 1) as nat);
    }
    assert(is_blocking(cur[q].status));
    if cur[i].status == TaskStatus::Pending {
        assert(cur[i].dependencies[j] == d);
        assert(has_blocked_dep(cur, i));
    }
}

impl TaskBoard {
    /// Whether the task at `k` depends on a task of the board that is
    /// failed or skipped.
    fn blocked_dep_exec(&self, k: usize) -> (r: bool)
        requires
            k < self@.len(),
        ensures
            r == has_blocked_dep(self@, k as int),
    {
        let deps = &self.tasks[k].dependencies;
        let mut j: usize = 0;
        while j < deps.len()
            invariant
                k < self@.len(),
                self@ == tasks_view(self.tasks@),
                deps@ == self.tasks@[k as int].dependencies@,
                j <= deps@.len(),
                forall|t: int|
                    0 <= t < j ==> {
                        let q = index_of_id(self@, #[trigger] self@[k as int].dependencies[t]);
                        !(q >= 0 && is_blocking(self@[q].status))
                    },
            decreases deps@.len() - j,
        {
            assert(self@[k as int].dependencies[j as int] == deps@[j as int]@);
            match find_last(&self.tasks, &deps[j]) {
                Some(q) => {
                    let s = self.tasks[q].status;
                    if s == TaskStatus::Failed || s == TaskStatus::Skipped {
                        return true;
                    }
                },
                None => {},
            }
            j = j + 1;
        }
        false
    }

    /// Skips every pending task that depends, directly or through other
    /// pending tasks, on a failed or skipped task: rounds of skipping the
    /// pending tasks with a failed or skipped dependency, until a round
    /// skips nothing.
    pub fn skip_blocked_tasks(&mut self)
        requires
            old(self).wf(),
        ensures
            final(self).wf(),
            after_skipping_blocked(old(self)@, final(self)@),
    {
        let ghost ts = self@;
        loop
            invariant
                skip_sound(ts, self@),
                distinct_ids(ts),
                self@ == tasks_view(self.tasks@),
            ensures
                after_skipping_blocked(ts, self@),
                distinct_ids(self@),
            decreases pending_count(self@, self@.len() as int),
        {
            let ghost start = self@;
            let mut changed = false;
            let mut i: usize = 0;
            while i < self.tasks.len()
                invariant
                    i <= self@.len(),
                    skip_sound(ts, self@),
                    skip_sound(ts, start),
                    self@ == tasks_view(self.tasks@),
                    start.len() == self@.len(),
                    forall|k: int|
                        0 <= k < start.len() ==> (#[trigger] self@[k]).status == start[k].status || (
                        start[k].status == TaskStatus::Pending && self@[k].status
                            == TaskStatus::Skipped),
                    same_but_status(start, self@),
                    !changed ==> self@ == start,
                    changed ==> exists|k: int|
                        0 <= k < start.len() && start[k].status == TaskStatus::Pending && self@[k].status
                            == TaskStatus::Skipped,
                    !changed ==> forall|k: int|
                        0 <= k < i && self@[k].status == TaskStatus::Pending ==> !has_blocked_dep(
                            self@,
                            k,
                        ),
                decreases self@.len() - i,
            {
                if self.tasks[i].status == TaskStatus::Pending && self.blocked_dep_exec(i) {
                    let ghost prev = self@;
                    proof {
                        let j = choose|j: int|
                            0 <= j < prev[i as int].dependencies.len() && {
                                let q = index_of_id(prev, #[trigger] prev[i as int].dependencies[j]);
                                q >= 0 && is_blocking(prev[q].status)
                            };
                        let d = prev[i as int].dependencies[j];
                        let q = index_of_id(prev, d);
                        lemma_index_same_ids(ts, prev, d, ts.len() as int);
                        lemma_last_index(prev, d, prev.len() as int);
                        assert(index_of_id(ts, d) == q);
                        assert(prev[q].status == ts[q].status || (ts[q].status
                            == TaskStatus::Pending && prev[q].status == TaskStatus::Skipped
                            && is_blocked(ts, q)));
                        assert(ts[i as int].dependencies == prev[i as int].dependencies) by {
                            assert((TaskSpecView { status: ts[i as int].status, ..prev[i as int] })
                                == ts[i as int]);
                        }
                        assert(ts[i as int].dependencies[j] == d);
                        if is_blocking(ts[q].status) {
                            assert(blocked_within(ts, i as int, 1));
                        } else {
                            assert(ts[q].status == TaskStatus::Pending);
                            let n = choose|n: nat| blocked_within(ts, q, n);
                            assert(blocked_within(ts, i as int, n + 1));
                        }
                        assert(is_blocked(ts, i as int));
                    }
                    let mut t = self.tasks[i].duplicate();
                    t.status = TaskStatus::Skipped;
                    self.tasks.set(i, t);
                    assert(self@ =~= prev.update(
                        i as int,
                        TaskSpecView { status: TaskStatus::Skipped, ..prev[i as int] },
                    ));
                    changed = true;
                    assert(start[i as int].status == TaskStatus::Pending);
                }
                i = i + 1;
            }
            if !changed {
                proof {
                    assert forall|k: int| 0 <= k < ts.len() implies (#[trigger] self@[k]).status
                        == if ts[k].status == TaskStatus::Pending && is_blocked(ts, k) {
                        TaskStatus::Skipped
                    } else {
                        ts[k].status
                    } by {
                        if ts[k].status == TaskStatus::Pending && is_blocked(ts, k) {
                            let n = choose|n: nat| blocked_within(ts, k, n);
                            lemma_fixpoint_complete(ts, self@, k, n);
                        }
                    }
                    assert forall|a: int, b: int| 0 <= a < b < self@.len() implies self@[a].id
                        != self@[b].id by {
                        assert((TaskSpecView { status: ts[a].status, ..self@[a] }) == ts[a]);
                        assert((TaskSpecView { status: ts[b].status, ..self@[b] }) == ts[b]);
                    }
                }
                break;
            }
            proof {
                lemma_pending_count(start, self@, self@.len() as int);
            }
        }
    }
}

// ------------------------------------------------------------------
// Skipping the tasks that wait on a skipped task
// ------------------------------------------------------------------

/// Task `t` is pending and lists `id` among its dependencies.
pub open spec fn waits_on(t: TaskSpecView, id: Seq<char>) -> bool {
    t.status == TaskStatus::Pending && t.dependencies.contains(id)
}

/// The identifiers of the tasks among the first `n` that wait on `id`, in
/// order.
pub open spec fn waiting_ids(ts: Seq<TaskSpecView>, id: Seq<char>, n: int) -> Seq<Seq<char>>
    decreases n,
{
    if n <= 0 {
        seq![]
    } else {
        let prev = waiting_ids(ts, id, n - 1);
        if waits_on(ts[n - 1], id) {
            prev.push(ts[n - 1].id)
        } else {
            prev
        }
    }
}

impl TaskBoard {
    /// Skips every pending task that lists `skipped_id` among its
    /// dependencies, and gives their identifiers in order, so that their
    /// plan markers can follow.
    pub fn mark_dependents_skippable(&mut self, skipped_id: &String) -> (r: Vec<String>)
        requires
            old(self).wf(),
        ensures
            final(self).wf(),
            same_but_status(old(self)@, final(self)@),
            forall|i: int|
                0 <= i < old(self)@.len() ==> (#[trigger] final(self)@[i]).status == if waits_on(
                    old(self)@[i],
                    skipped_id@,
                ) {
                    TaskStatus::Skipped
                } else {
                    old(self)@[i].status
                },
            strings_view(r@) == waiting_ids(old(self)@, skipped_id@, old(self)@.len() as int),
    {
        let ghost ts = self@;
        let mut r: Vec<String> = Vec::new();
        let mut i: usize = 0;
        while i < self.tasks.len()
            invariant
                i <= self@.len(),
                ts.len() == self@.len(),
                distinct_ids(ts),
                self@ == tasks_view(self.tasks@),
                same_but_status(ts, self@),
                forall|k: int|
                    0 <= k < ts.len() ==> (#[trigger] self@[k]).status == if k < i && waits_on(
                        ts[k],
                        skipped_id@,
                    ) {
                        TaskStatus::Skipped
                    } else {
                        ts[k].status
                    },
                strings_view(r@) == waiting_ids(ts, skipped_id@, i as int),
            decreases self@.len() - i,
        {
            let mut listed = false;
            let deps = &self.tasks[i].dependencies;
            let mut j: usize = 0;
            while j < deps.len()
                invariant
                    i < self@.len(),
                    self@ == tasks_view(self.tasks@),
                    deps@ == self.tasks@[i as int].dependencies@,
                    j <= deps@.len(),
                    listed == exists|t: int| 0 <= t < j && deps@[t]@ == skipped_id@,
                decreases deps@.len() - j,
            {
                if deps[j] == *skipped_id {
                    listed = true;
                }
                j = j + 1;
            }
            proof {
                assert(ts[i as int].dependencies == self@[i as int].dependencies) by {
                    assert((TaskSpecView { status: ts[i as int].status, ..self@[i as int] })
                        == ts[i as int]);
                }
                if listed {
                    let t = choose|t: int| 0 <= t < deps@.len() && deps@[t]@ == skipped_id@;
                    assert(self@[i as int].dependencies[t] == skipped_id@);
                } else {
                    assert forall|t: int| 0 <= t < self@[i as int].dependencies.len() implies self@[i
                        as int].dependencies[t] != skipped_id@ by {
                        assert(self@[i as int].dependencies[t] == deps@[t]@);
                    }
                }
            }
            let ghost before = strings_view(r@);
            if self.tasks[i].status == TaskStatus::Pending && listed {
                let ghost prev = self@;
                r.push(self.tasks[i].id.clone());
                let mut t = self.tasks[i].duplicate();
                t.status = TaskStatus::Skipped;
                self.tasks.set(i, t);
                assert(self@ =~= prev.update(
                    i as int,
                    TaskSpecView { status: TaskStatus::Skipped, ..prev[i as int] },
                ));
                assert(strings_view(r@) =~= before.push(ts[i as int].id));
            }
            i = i + 1;
        }
        assert forall|a: int, b: int| 0 <= a < b < self@.len() implies self@[a].id
            != self@[b].id by {
            assert((TaskSpecView { status: ts[a].status, ..self@[a] }) == ts[a]);
            assert((TaskSpecView { status: ts[b].status, ..self@[b] }) == ts[b]);
        }
        r
    }
}

// ------------------------------------------------------------------
// The user's decisions
// ------------------------------------------------------------------

/// What to do with a task that failed after all its attempts.
#[derive(Debug, Clone, Copy, PartialEq, Eq, Structural)]
pub enum FailureChoice {
    /// Skip it, and the tasks that wait on it.
    Skip,
    /// Stop the session.
    Stop,
    /// Put it back to pending and try again.
    Retry,
}

/// What to do when the final review found issues.
#[derive(Debug, Clone, Copy, PartialEq, Eq, Structural)]
pub enum ReviewChoice {
    /// Give the blocking issues to code agents.
    Fix,
    /// Accept the work as it is.
    Accept,
    /// No decision: the session ends.
    NoDecision,
}

/// What to do when no task can run but some are not done.
#[derive(Debug, Clone, Copy, PartialEq, Eq, Structural)]
pub enum DeadlockChoice {
    /// Look for ready tasks again.
    Continue,
    /// Skip the tasks blocked by failed or skipped ones.
    SkipBlocked,
    /// Stop the run.
    Stop,
}

/// The answer is exactly `word`.
pub open spec fn answered(answer: Option<Seq<char>>, word: Seq<char>) -> bool {
    answer == Some(word)
}

/// The characters of an optional answer.
pub open spec fn answer_view(answer: Option<&str>) -> Option<Seq<char>> {
    match answer {
        Some(a) => Some(a@),
        None => None,
    }
}

/// Whether the answer is exactly `word`.
fn answer_is(answer: Option<&str>, word: &str) -> (r: bool)
    ensures
        r == answered(answer_view(answer), word@),
{
    match answer {
        Some(a) => owned(a) == owned(word),
        None => false,
    }
}

/// Reads the user's answer after a task failed: "skip", "stop" or
/// "retry"; any other answer, or none, skips the task.
pub fn failure_choice(answer: Option<&str>) -> (r: FailureChoice)
    ensures
        r == if answered(answer_view(answer), "stop"@) {
            FailureChoice::Stop
        } else if answered(answer_view(answer), "retry"@) {
            FailureChoice::Retry
        } else {
            FailureChoice::Skip
        },
{
    if answer_is(answer, "stop") {
        FailureChoice::Stop
    } else if answer_is(answer, "retry") {
        FailureChoice::Retry
    } else {
        FailureChoice::Skip
    }
}

/// Reads the user's answer after the review found issues: "fix" or
/// "accept"; anything else is no decision.
pub fn review_choice(answer: Option<&str>) -> (r: ReviewChoice)
    ensures
        r == if answered(answer_view(answer), "fix"@) {
            ReviewChoice::Fix
        } else if answered(answer_view(answer), "accept"@) {
            ReviewChoice::Accept
        } else {
            ReviewChoice::NoDecision
        },
{
    if answer_is(answer, "fix") {
        ReviewChoice::Fix
    } else if answer_is(answer, "accept") {
        ReviewChoice::Accept
    } else {
        ReviewChoice::NoDecision
    }
}

/// Reads the user's answer to a possible deadlock: "continue" or "skip";
/// "stop", anything else or no answer stops.
pub fn deadlock_choice(answer: Option<&str>) -> (r: DeadlockChoice)
    ensures
        r == if answered(answer_view(answer), "continue"@) {
            DeadlockChoice::Continue
        } else if answered(answer_view(answer), "skip"@) {
            DeadlockChoice::SkipBlocked
        } else {
            DeadlockChoice::Stop
        },
{
    if answer_is(answer, "continue") {
        DeadlockChoice::Continue
    } else if answer_is(answer, "skip") {
        DeadlockChoice::SkipBlocked
    } else {
        DeadlockChoice::Stop
    }
}

// ------------------------------------------------------------------
// Attempts of the code agent
// ------------------------------------------------------------------

/// Whether another attempt follows one that failed: attempts are counted
/// from one, up to the limit.
pub fn another_attempt(attempt: usize, max_retries: usize) -> (r: bool)
    ensures
        r == (attempt < max_retries),
{
    attempt < max_retries
}

/// The note that tells a retried code agent why the previous attempt
/// failed.
pub fn retry_note(error: &str) -> (r: String)
    ensures
        r@ == "Previous attempt failed with: "@ + error@,
{
    let mut r = owned("Previous attempt failed with: ");
    crate::text::push_str(&mut r, error);
    r
}

/// The failure of a code agent whose attempts are all spent, with the
/// last error (empty when there was none).
pub fn retries_exhausted(max_retries: usize, last_error: Option<&str>) -> (r: String)
    ensures
        r@ == "Code Agent failed after "@ + crate::text::decimal(max_retries as nat)
            + " attempts: "@ + match last_error {
            Some(e) => e@,
            None => Seq::<char>::empty(),
        },
{
    let mut r = owned("Code Agent failed after ");
    crate::text::push_decimal(&mut r, max_retries as u64);
    crate::text::push_str(&mut r, " attempts: ");
    match last_error {
        Some(e) => crate::text::push_str(&mut r, e),
        None => {},
    }
    r
}

} // verus!
