//! What a whole run does when every agent succeeds: each task runs once,
//! after its dependencies, and the run ends with every task completed.
use vstd::prelude::*;
use crate::orchestrator::{deps_completed, distinct_ids, is_ready, ready_ids, same_but_status};
use crate::plan::graph::{
    all_deps_known, depends_on, has_dependency_cycle, index_of_id, is_dependency_cycle, last_index_before,
    lemma_last_index,
};
use crate::run::{
    add_once, all_completed, begin_task, run_step, schedule, start_step, with_status, ActionView, PhaseView,
    ReviewEndView, RunEventView, RunView, StepView, TaskEndView,
};
use crate::types::{TaskSpecView, TaskStatus};

verus! {

// ------------------------------------------------------------------
// Counting completed tasks
// ------------------------------------------------------------------

/// The number of completed tasks among `ts[..n]`.
pub open spec fn completed_count(ts: Seq<TaskSpecView>, n: int) -> nat
    decreases n,
{
    if n <= 0 {
        0
    } else {
        completed_count(ts, n - 1) + if ts[n - 1].status == TaskStatus::Completed {
            1nat
        } else {
            0nat
        }
    }
}

/// Changing one task changes the count by what its status was and is.
proof fn lemma_count_update(ts: Seq<TaskSpecView>, i: int, t: TaskSpecView, n: int)
    requires
        0 <= i < ts.len(),
        0 <= n <= ts.len(),
    ensures
        completed_count(ts.update(i, t), n) + (if i < n && ts[i].status == TaskStatus::Completed {
            1int
        } else {
            0int
        }) == completed_count(ts, n) + (if i < n && t.status == TaskStatus::Completed {
            1int
        } else {
            0int
        }),
    decreases n,
{
    if n > 0 {
        lemma_count_update(ts, i, t, n - 1);
    }
}

/// The count reaches `n` exactly when every task of `ts[..n]` is completed.
proof fn lemma_count_all(ts: Seq<TaskSpecView>, n: int)
    requires
        0 <= n <= ts.len(),
    ensures
        completed_count(ts, n) <= n,
        completed_count(ts, n) == n <==> forall|i: int| 0 <= i < n ==> ts[i].status == TaskStatus::Completed,
    decreases n,
{
    if n > 0 {
        lemma_count_all(ts, n - 1);
    }
}

// ------------------------------------------------------------------
// Positions of identifiers
// ------------------------------------------------------------------

/// Boards with the same identifiers give the same positions.
proof fn lemma_index_same_ids(a: Seq<TaskSpecView>, b: Seq<TaskSpecView>, id: Seq<char>, k: int)
    requires
        a.len() == b.len(),
        0 <= k <= a.len(),
        forall|i: int| 0 <= i < a.len() ==> a[i].id == b[i].id,
    ensures
        last_index_before(a, id, k) == last_index_before(b, id, k),
    decreases k,
{
    if k > 0 {
        lemma_index_same_ids(a, b, id, k - 1);
    }
}

/// On a board with distinct identifiers, a task's identifier names it.
proof fn lemma_index_of_own(ts: Seq<TaskSpecView>, i: int)
    requires
        distinct_ids(ts),
        0 <= i < ts.len(),
    ensures
        index_of_id(ts, ts[i].id) == i,
{
    lemma_last_index(ts, ts[i].id, ts.len() as int);
    let r = index_of_id(ts, ts[i].id);
    if r != i {
        if r < i {
            assert(ts[i].id != ts[i].id);
        } else {
            assert(ts[i].id != ts[r].id);
        }
    }
}

/// A position found for an identifier lies on the board and holds it.
proof fn lemma_index_in(ts: Seq<TaskSpecView>, id: Seq<char>)
    ensures
        -1 <= index_of_id(ts, id) < ts.len(),
        index_of_id(ts, id) >= 0 ==> ts[index_of_id(ts, id)].id == id,
{
    lemma_last_index(ts, id, ts.len() as int);
}

// ------------------------------------------------------------------
// Ready tasks
// ------------------------------------------------------------------

/// Each ready identifier names a ready task among the first `n`, and none
/// comes twice.
proof fn lemma_ready(ts: Seq<TaskSpecView>, n: int, cf: Option<Seq<char>>)
    requires
        distinct_ids(ts),
        0 <= n <= ts.len(),
    ensures
        forall|k: int|
            0 <= k < ready_ids(ts, n, cf).len() ==> {
                let x = #[trigger] ready_ids(ts, n, cf)[k];
                0 <= index_of_id(ts, x) < n && is_ready(ts, ts[index_of_id(ts, x)], cf)
            },
        ready_ids(ts, n, cf).no_duplicates(),
        (exists|i: int| 0 <= i < n && is_ready(ts, #[trigger] ts[i], cf)) ==> ready_ids(ts, n, cf).len() > 0,
    decreases n,
{
    if n > 0 {
        lemma_ready(ts, n - 1, cf);
        lemma_index_of_own(ts, n - 1);
        let prev = ready_ids(ts, n - 1, cf);
        let r = ready_ids(ts, n, cf);
        if is_ready(ts, ts[n - 1], cf) {
            assert forall|k: int| 0 <= k < r.len() implies {
                let x = #[trigger] r[k];
                0 <= index_of_id(ts, x) < n && is_ready(ts, ts[index_of_id(ts, x)], cf)
            } by {
                if k < prev.len() {
                    assert(r[k] == prev[k]);
                }
            }
            assert forall|a: int, b: int| 0 <= a < r.len() && 0 <= b < r.len() && a != b implies r[a] != r[b] by {
                if a < prev.len() && b < prev.len() {
                    assert(r[a] == prev[a] && r[b] == prev[b]);
                } else if a < prev.len() {
                    assert(r[a] == prev[a]);
                    assert(index_of_id(ts, prev[a]) < n - 1);
                } else if b < prev.len() {
                    assert(r[b] == prev[b]);
                    assert(index_of_id(ts, prev[b]) < n - 1);
                }
            }
        } else {
            assert forall|i: int| 0 <= i < n && is_ready(ts, #[trigger] ts[i], cf) implies i < n - 1 by {}
        }
    }
}

// ------------------------------------------------------------------
// No cycle: some pending task is ready
// ------------------------------------------------------------------

/// A sequence of more than `n` numbers below `n` repeats one.
proof fn lemma_pigeonhole(p: Seq<int>, n: int)
    requires
        0 <= n < p.len(),
        forall|i: int| 0 <= i < p.len() ==> 0 <= #[trigger] p[i] < n,
    ensures
        exists|i: int, j: int| 0 <= i < j < p.len() && p[i] == p[j],
{
    if !(exists|i: int, j: int| 0 <= i < j < p.len() && p[i] == p[j]) {
        assert forall|i: int, j: int| 0 <= i < p.len() && 0 <= j < p.len() && i != j implies p[i] != p[j] by {
            if i < j {
                assert(!(p[i] == p[j]));
            } else {
                assert(!(p[j] == p[i]));
            }
        }
        p.unique_seq_to_set();
        vstd::set_lib::lemma_int_range(0, n);
        assert forall|x: int| p.to_set().contains(x) implies vstd::set_lib::set_int_range(0, n).contains(x) by {
            assert(p.contains(x));
            let i = choose|i: int| 0 <= i < p.len() && p[i] == x;
            assert(0 <= p[i] < n);
        }
        vstd::set_lib::lemma_len_subset(p.to_set(), vstd::set_lib::set_int_range(0, n));
    }
}

/// Task `a` has a pending dependency.
spec fn has_pending_dep(ts: Seq<TaskSpecView>, a: int) -> bool {
    exists|b: int| depends_on(ts, a, b) && 0 <= b < ts.len() && ts[b].status == TaskStatus::Pending
}

/// A pending dependency of task `a`.
spec fn pending_dep(ts: Seq<TaskSpecView>, a: int) -> int {
    choose|b: int| depends_on(ts, a, b) && 0 <= b < ts.len() && ts[b].status == TaskStatus::Pending
}

/// The walk from `a0` that steps to a pending dependency `m` times.
spec fn pending_walk(ts: Seq<TaskSpecView>, a0: int, m: nat) -> Seq<int>
    decreases m,
{
    if m == 0 {
        seq![a0]
    } else {
        let w = pending_walk(ts, a0, (m - 1) as nat);
        w.push(pending_dep(ts, w.last()))
    }
}

/// Where every pending task has a pending dependency, the walk stays on
/// pending tasks and follows dependencies.
proof fn lemma_pending_walk(ts: Seq<TaskSpecView>, a0: int, m: nat)
    requires
        0 <= a0 < ts.len(),
        ts[a0].status == TaskStatus::Pending,
        forall|a: int|
            0 <= a < ts.len() && ts[a].status == TaskStatus::Pending ==> #[trigger] has_pending_dep(ts, a),
    ensures
        pending_walk(ts, a0, m).len() == m + 1,
        forall|i: int|
            0 <= i <= m ==> 0 <= #[trigger] pending_walk(ts, a0, m)[i] < ts.len() && ts[pending_walk(
                ts,
                a0,
                m,
            )[i]].status == TaskStatus::Pending,
        forall|i: int| 0 <= i < m ==> depends_on(ts, #[trigger] pending_walk(ts, a0, m)[i], pending_walk(ts, a0, m)[i + 1]),
    decreases m,
{
    if m > 0 {
        lemma_pending_walk(ts, a0, (m - 1) as nat);
        let w = pending_walk(ts, a0, (m - 1) as nat);
        let a = w.last();
        assert(ts[w[m - 1]].status == TaskStatus::Pending);
        assert(has_pending_dep(ts, a));
        let b = pending_dep(ts, a);
        let w2 = pending_walk(ts, a0, m);
        assert(w2 == w.push(b));
        assert forall|i: int| 0 <= i < m implies depends_on(ts, #[trigger] w2[i], w2[i + 1]) by {
            if i < m - 1 {
                assert(w2[i] == w[i] && w2[i + 1] == w[i + 1]);
            } else {
                assert(w2[i] == a);
            }
        }
        assert forall|i: int| 0 <= i <= m implies 0 <= #[trigger] w2[i] < ts.len() && ts[w2[i]].status
            == TaskStatus::Pending by {
            if i < m {
                assert(w2[i] == w[i]);
            }
        }
    }
}

/// A pending task that is not ready has a pending dependency, where every
/// dependency is known and every task is pending or completed.
proof fn lemma_pending_dep(ts: Seq<TaskSpecView>, a: int)
    requires
        all_deps_known(ts),
        forall|i: int|
            0 <= i < ts.len() ==> (#[trigger] ts[i]).status == TaskStatus::Pending || ts[i].status
                == TaskStatus::Completed,
        0 <= a < ts.len(),
        ts[a].status == TaskStatus::Pending,
        !is_ready(ts, ts[a], None),
    ensures
        has_pending_dep(ts, a),
{
    assert(!deps_completed(ts, ts[a]));
    let j = choose|j: int|
        0 <= j < ts[a].dependencies.len() && !({
            let k = index_of_id(ts, #[trigger] ts[a].dependencies[j]);
            k >= 0 && ts[k].status == TaskStatus::Completed
        });
    let k = index_of_id(ts, ts[a].dependencies[j]);
    lemma_index_in(ts, ts[a].dependencies[j]);
    assert(k >= 0);
    assert(depends_on(ts, a, k));
}

/// A walk along dependencies that comes back to a task is a cycle.
proof fn lemma_walk_cycle(ts: Seq<TaskSpecView>, w: Seq<int>, i: int, j: int)
    requires
        0 <= i < j < w.len(),
        w[i] == w[j],
        forall|t: int| 0 <= t < w.len() ==> 0 <= #[trigger] w[t] < ts.len(),
        forall|t: int| 0 <= t < w.len() - 1 ==> depends_on(ts, #[trigger] w[t], w[t + 1]),
    ensures
        has_dependency_cycle(ts),
{
    let p = w.subrange(i, j + 1);
    assert forall|t: int| 0 <= t < p.len() implies 0 <= #[trigger] p[t] < ts.len() by {
        assert(p[t] == w[i + t]);
    }
    assert forall|t: int| 0 <= t < p.len() - 1 implies depends_on(ts, #[trigger] p[t], p[t + 1]) by {
        assert(p[t] == w[i + t] && p[t + 1] == w[i + t + 1]);
    }
    assert(is_dependency_cycle(ts, p));
}

/// On a board whose tasks are pending or completed, with known
/// dependencies and no cycle, some task is ready while some task is pending.
pub proof fn lemma_some_ready(ts: Seq<TaskSpecView>)
    requires
        all_deps_known(ts),
        !has_dependency_cycle(ts),
        forall|i: int|
            0 <= i < ts.len() ==> (#[trigger] ts[i]).status == TaskStatus::Pending || ts[i].status
                == TaskStatus::Completed,
        exists|i: int| 0 <= i < ts.len() && (#[trigger] ts[i]).status == TaskStatus::Pending,
    ensures
        exists|i: int| 0 <= i < ts.len() && is_ready(ts, #[trigger] ts[i], None),
{
    if !(exists|i: int| 0 <= i < ts.len() && is_ready(ts, #[trigger] ts[i], None)) {
        assert forall|a: int| 0 <= a < ts.len() && ts[a].status == TaskStatus::Pending implies #[trigger] has_pending_dep(
            ts,
            a,
        ) by {
            assert(!is_ready(ts, ts[a], None));
            lemma_pending_dep(ts, a);
        }
        let a0 = choose|i: int| 0 <= i < ts.len() && (#[trigger] ts[i]).status == TaskStatus::Pending;
        assert(has_dependency_cycle(ts)) by {
            let n = ts.len() as nat;
            lemma_pending_walk(ts, a0, n);
            let w = pending_walk(ts, a0, n);
            lemma_pigeonhole(w, ts.len() as int);
            let (i, j) = choose|i: int, j: int| 0 <= i < j < w.len() && w[i] == w[j];
            lemma_walk_cycle(ts, w, i, j);
        }
    }
}

// ------------------------------------------------------------------
// Boards that differ only in statuses
// ------------------------------------------------------------------

/// Boards that differ only in statuses give the same positions.
proof fn lemma_same_index(b0: Seq<TaskSpecView>, b: Seq<TaskSpecView>, id: Seq<char>)
    requires
        same_but_status(b0, b),
    ensures
        index_of_id(b, id) == index_of_id(b0, id),
{
    assert forall|i: int| 0 <= i < b0.len() implies b0[i].id == b[i].id by {
        assert((TaskSpecView { status: b0[i].status, ..b[i] }) == b0[i]);
    }
    lemma_index_same_ids(b0, b, id, b0.len() as int);
}

/// Changing the status of one task keeps the board the same but for
/// statuses.
proof fn lemma_same_update(b0: Seq<TaskSpecView>, b: Seq<TaskSpecView>, k: int, st: TaskStatus)
    requires
        same_but_status(b0, b),
        0 <= k < b.len(),
    ensures
        same_but_status(b0, b.update(k, TaskSpecView { status: st, ..b[k] })),
{
    let c = b.update(k, TaskSpecView { status: st, ..b[k] });
    assert forall|i: int| 0 <= i < b0.len() implies (TaskSpecView { status: b0[i].status, ..#[trigger] c[i] })
        == b0[i] by {
        assert((TaskSpecView { status: b0[i].status, ..b[i] }) == b0[i]);
    }
}

/// Dependencies completed on a board stay completed on a board where every
/// completed task stays completed.
proof fn lemma_deps_mono(b0: Seq<TaskSpecView>, b: Seq<TaskSpecView>, c: Seq<TaskSpecView>, i: int)
    requires
        same_but_status(b0, b),
        same_but_status(b0, c),
        0 <= i < b.len(),
        forall|t: int| 0 <= t < b.len() && b[t].status == TaskStatus::Completed ==> #[trigger] c[t].status
            == TaskStatus::Completed,
        deps_completed(b, b[i]),
    ensures
        deps_completed(c, c[i]),
{
    assert((TaskSpecView { status: b0[i].status, ..b[i] }) == b0[i]);
    assert((TaskSpecView { status: b0[i].status, ..c[i] }) == b0[i]);
    assert(c[i].dependencies == b[i].dependencies);
    assert forall|j: int| 0 <= j < c[i].dependencies.len() implies {
        let k = index_of_id(c, #[trigger] c[i].dependencies[j]);
        k >= 0 && c[k].status == TaskStatus::Completed
    } by {
        let d = c[i].dependencies[j];
        assert(d == b[i].dependencies[j]);
        lemma_same_index(b0, b, d);
        lemma_same_index(b0, c, d);
        lemma_index_in(b, d);
    }
}

/// Boards that differ only in statuses have the same dependencies: one has
/// known dependencies and no cycle when the other has.
proof fn lemma_same_graph(b0: Seq<TaskSpecView>, b: Seq<TaskSpecView>)
    requires
        same_but_status(b0, b),
        all_deps_known(b0),
        !has_dependency_cycle(b0),
    ensures
        all_deps_known(b),
        !has_dependency_cycle(b),
{
    assert forall|a: int| 0 <= a < b.len() implies #[trigger] b[a].dependencies == b0[a].dependencies by {
        assert((TaskSpecView { status: b0[a].status, ..b[a] }) == b0[a]);
    }
    assert forall|a: int, j: int| 0 <= a < b.len() && 0 <= j < b[a].dependencies.len() implies index_of_id(
        b,
        #[trigger] b[a].dependencies[j],
    ) >= 0 by {
        assert(b[a].dependencies == b0[a].dependencies);
        lemma_same_index(b0, b, b[a].dependencies[j]);
        assert(index_of_id(b0, b0[a].dependencies[j]) >= 0);
    }
    if has_dependency_cycle(b) {
        let p = choose|p: Seq<int>| is_dependency_cycle(b, p);
        assert forall|t: int| 0 <= t < p.len() - 1 implies depends_on(b0, #[trigger] p[t], p[t + 1]) by {
            assert(depends_on(b, p[t], p[t + 1]));
            let a = p[t];
            let j = choose|j: int|
                0 <= j < b[a].dependencies.len() && index_of_id(b, #[trigger] b[a].dependencies[j]) == p[t + 1];
            assert(b[a].dependencies == b0[a].dependencies);
            lemma_same_index(b0, b, b[a].dependencies[j]);
            assert(index_of_id(b0, b0[a].dependencies[j]) == p[t + 1]);
        }
        assert(is_dependency_cycle(b0, p));
    }
}

/// No task of the board is completed: the count is zero.
proof fn lemma_count_zero(ts: Seq<TaskSpecView>, n: int)
    requires
        0 <= n <= ts.len(),
        forall|i: int| 0 <= i < n ==> (#[trigger] ts[i]).status != TaskStatus::Completed,
    ensures
        completed_count(ts, n) == 0,
    decreases n,
{
    if n > 0 {
        lemma_count_zero(ts, n - 1);
    }
}

// ------------------------------------------------------------------
// A run in which every agent succeeds
// ------------------------------------------------------------------

/// The report of a run in which every agent succeeds: the review approves,
/// every task succeeds.
pub open spec fn success_reply(a: ActionView) -> RunEventView {
    match a {
        ActionView::Review(_) => RunEventView::ReviewEnded(ReviewEndView::Approved),
        _ => RunEventView::TaskEnded(TaskEndView::Succeeded),
    }
}

/// Step `n` of the run from `v` in which every agent succeeds: step 0 is the
/// start, each later step handles the success of what the one before asked.
pub open spec fn success_trace(v: RunView, n: nat) -> StepView
    decreases n,
{
    if n == 0 {
        start_step(v)
    } else {
        let s = success_trace(v, (n - 1) as nat);
        run_step(s.run, success_reply(s.action))
    }
}

/// The task a step starts (empty when it starts none).
pub open spec fn dispatched(s: StepView) -> Seq<char> {
    match s.action {
        ActionView::RunTask(id) => id,
        _ => Seq::empty(),
    }
}

/// What a run may start from for the law: not started, no task to continue
/// from, distinct identifiers, known dependencies without a cycle, every
/// task pending.
pub open spec fn fresh_run(v: RunView) -> bool {
    &&& v.phase is Idle
    &&& v.continue_from is None
    &&& distinct_ids(v.board)
    &&& all_deps_known(v.board)
    &&& !has_dependency_cycle(v.board)
    &&& forall|i: int| 0 <= i < v.board.len() ==> (#[trigger] v.board[i]).status == TaskStatus::Pending
}

/// Where step `k` of a successful run from `v0` stands, while it runs a
/// task: `k` tasks completed, each task started before it completed, the
/// task it starts in progress with its dependencies completed, the rest of
/// the queue pending and ready, every other task pending or completed.
pub open spec fn running_at(v0: RunView, k: nat, run: RunView, action: ActionView) -> bool {
    let b0 = v0.board;
    let b = run.board;
    &&& same_but_status(b0, b)
    &&& run.continue_from is None
    &&& completed_count(b, b.len() as int) == k
    &&& forall|k2: nat|
        k2 < k ==> {
            let i = index_of_id(b0, dispatched(#[trigger] success_trace(v0, k2)));
            0 <= i < b.len() && b[i].status == TaskStatus::Completed
        }
    &&& match run.phase {
        PhaseView::AwaitingTask { queue, next } => {
            let cur = index_of_id(b0, queue[next]);
            &&& 0 <= next < queue.len()
            &&& action == ActionView::RunTask(queue[next])
            &&& 0 <= cur < b.len()
            &&& b[cur].status == TaskStatus::InProgress
            &&& deps_completed(b, b[cur])
            &&& forall|m: int|
                next < m < queue.len() ==> {
                    let i = index_of_id(b0, #[trigger] queue[m]);
                    0 <= i < b.len() && b[i].status == TaskStatus::Pending && deps_completed(b, b[i])
                }
            &&& forall|m1: int, m2: int| next <= m1 < m2 < queue.len() ==> queue[m1] != queue[m2]
            &&& forall|i: int|
                0 <= i < b.len() ==> (#[trigger] b[i]).status == TaskStatus::Pending || b[i].status
                    == TaskStatus::Completed || i == cur
        },
        _ => false,
    }
}

/// Starting `queue[m]` on a board of pending and completed tasks where the
/// rest of the queue is pending and ready gives a running step.
proof fn lemma_begin(v0: RunView, k: nat, v1: RunView, queue: Seq<Seq<char>>, m: int)
    requires
        fresh_run(v0),
        same_but_status(v0.board, v1.board),
        v1.continue_from is None,
        completed_count(v1.board, v1.board.len() as int) == k,
        forall|k2: nat|
            k2 < k ==> {
                let i = index_of_id(v0.board, dispatched(#[trigger] success_trace(v0, k2)));
                0 <= i < v1.board.len() && v1.board[i].status == TaskStatus::Completed
            },
        0 <= m < queue.len(),
        forall|t: int|
            m <= t < queue.len() ==> {
                let i = index_of_id(v0.board, #[trigger] queue[t]);
                0 <= i < v1.board.len() && v1.board[i].status == TaskStatus::Pending && deps_completed(
                    v1.board,
                    v1.board[i],
                )
            },
        forall|m1: int, m2: int| m <= m1 < m2 < queue.len() ==> queue[m1] != queue[m2],
        forall|i: int|
            0 <= i < v1.board.len() ==> (#[trigger] v1.board[i]).status == TaskStatus::Pending
                || v1.board[i].status == TaskStatus::Completed,
    ensures
        running_at(v0, k, begin_task(v1, queue, m).run, begin_task(v1, queue, m).action),
{
    let b0 = v0.board;
    let b1 = v1.board;
    let id = queue[m];
    assert(m <= m < queue.len());
    let im = index_of_id(b0, id);
    lemma_same_index(b0, b1, id);
    let b2 = with_status(b1, id, TaskStatus::InProgress);
    assert(b2 == b1.update(im, TaskSpecView { status: TaskStatus::InProgress, ..b1[im] }));
    lemma_same_update(b0, b1, im, TaskStatus::InProgress);
    lemma_count_update(b1, im, TaskSpecView { status: TaskStatus::InProgress, ..b1[im] }, b1.len() as int);
    assert forall|t: int| 0 <= t < b1.len() && b1[t].status == TaskStatus::Completed implies #[trigger] b2[t].status
        == TaskStatus::Completed by {
        if t == im {
            assert(b1[im].status == TaskStatus::Pending);
        }
    }
    let s = begin_task(v1, queue, m);
    assert(s.run.board == b2);
    assert(s.run.phase == PhaseView::AwaitingTask { queue, next: m });
    lemma_deps_mono(b0, b1, b2, im);
    assert forall|t: int| m < t < queue.len() implies {
        let i = index_of_id(b0, #[trigger] queue[t]);
        0 <= i < b2.len() && b2[i].status == TaskStatus::Pending && deps_completed(b2, b2[i])
    } by {
        let i = index_of_id(b0, queue[t]);
        assert(m <= t < queue.len());
        lemma_index_in(b0, queue[t]);
        lemma_index_in(b0, id);
        if i == im {
            assert(queue[t] == queue[m]);
        }
        lemma_deps_mono(b0, b1, b2, i);
    }
    assert forall|k2: nat| k2 < k implies {
        let i = index_of_id(b0, dispatched(#[trigger] success_trace(v0, k2)));
        0 <= i < b2.len() && b2[i].status == TaskStatus::Completed
    } by {
        let i = index_of_id(b0, dispatched(success_trace(v0, k2)));
        assert(0 <= i < b1.len() && b1[i].status == TaskStatus::Completed);
    }
}

/// The step after a running step of a successful run: the task completes;
/// the next task of the queue or of a new choice starts while some task is
/// not completed, else the final review is asked for.
proof fn lemma_after_task(v0: RunView, k: nat)
    requires
        fresh_run(v0),
        running_at(v0, k, success_trace(v0, k).run, success_trace(v0, k).action),
    ensures
        k + 1 < v0.board.len() ==> running_at(
            v0,
            k + 1,
            success_trace(v0, k + 1).run,
            success_trace(v0, k + 1).action,
        ),
        k + 1 >= v0.board.len() ==> {
            let s2 = success_trace(v0, k + 1);
            &&& s2.action is Review
            &&& s2.run.phase == PhaseView::AwaitingReview
            &&& all_completed(s2.run.board)
            &&& s2.run.board.len() == v0.board.len()
        },
{
    let b0 = v0.board;
    let s = success_trace(v0, k);
    let v = s.run;
    let b = v.board;
    let (queue, next) = match v.phase {
        PhaseView::AwaitingTask { queue, next } => (queue, next),
        _ => (seq![], 0),
    };
    let id = queue[next];
    let cur = index_of_id(b0, id);
    lemma_same_index(b0, b, id);
    let b1 = with_status(b, id, TaskStatus::Completed);
    assert(b1 == b.update(cur, TaskSpecView { status: TaskStatus::Completed, ..b[cur] }));
    let v1 = RunView { board: b1, completed: add_once(v.completed, id), ..v };
    let s2 = success_trace(v0, k + 1);
    assert(s2 == run_step(v, RunEventView::TaskEnded(TaskEndView::Succeeded)));
    lemma_same_update(b0, b, cur, TaskStatus::Completed);
    lemma_count_update(b, cur, TaskSpecView { status: TaskStatus::Completed, ..b[cur] }, b.len() as int);
    assert(completed_count(b1, b1.len() as int) == k + 1);
    assert forall|t: int| 0 <= t < b.len() && b[t].status == TaskStatus::Completed implies #[trigger] b1[t].status
        == TaskStatus::Completed by {}
    assert forall|i: int| 0 <= i < b1.len() implies (#[trigger] b1[i]).status == TaskStatus::Pending
        || b1[i].status == TaskStatus::Completed by {
        assert(b[i].status == TaskStatus::Pending || b[i].status == TaskStatus::Completed || i == cur);
    }
    assert forall|k2: nat| k2 < k + 1 implies {
        let i = index_of_id(b0, dispatched(#[trigger] success_trace(v0, k2)));
        0 <= i < b1.len() && b1[i].status == TaskStatus::Completed
    } by {
        if k2 < k {
            let i = index_of_id(b0, dispatched(success_trace(v0, k2)));
            assert(0 <= i < b.len() && b[i].status == TaskStatus::Completed);
        } else {
            assert(dispatched(success_trace(v0, k2)) == id);
        }
    }
    assert forall|t: int| next + 1 <= t < queue.len() implies {
        let i = index_of_id(b0, #[trigger] queue[t]);
        0 <= i < b1.len() && b1[i].status == TaskStatus::Pending && deps_completed(b1, b1[i])
    } by {
        let i = index_of_id(b0, queue[t]);
        assert(next < t < queue.len());
        lemma_deps_mono(b0, b, b1, i);
    }
    lemma_count_all(b1, b1.len() as int);
    if next < queue.len() - 1 {
        assert(s2.run == begin_task(v1, queue, next + 1).run);
        assert(s2.action == begin_task(v1, queue, next + 1).action);
        if k + 1 < b0.len() {
            lemma_begin(v0, k + 1, v1, queue, next + 1);
        } else {
            let i = index_of_id(b0, queue[next + 1]);
            assert(next + 1 <= next + 1 < queue.len());
            assert(b1[i].status == TaskStatus::Pending);
        }
    } else {
        let ready = ready_ids(b1, b1.len() as int, None);
        lemma_ready(b1, b1.len() as int, None);
        assert(distinct_ids(b1)) by {
            assert forall|i: int, j: int| 0 <= i < j < b1.len() implies b1[i].id != b1[j].id by {
                assert((TaskSpecView { status: b0[i].status, ..b1[i] }) == b0[i]);
                assert((TaskSpecView { status: b0[j].status, ..b1[j] }) == b0[j]);
            }
        }
        lemma_ready(b1, b1.len() as int, None);
        assert(s2.run == schedule(v1).run && s2.action == schedule(v1).action);
        if k + 1 < b0.len() {
            let p = choose|i: int| 0 <= i < b1.len() && b1[i].status != TaskStatus::Completed;
            assert(b1[p].status == TaskStatus::Pending);
            lemma_same_graph(b0, b1);
            lemma_some_ready(b1);
            assert(ready.len() > 0);
            assert(s2.run == begin_task(v1, ready, 0).run);
            assert(s2.action == begin_task(v1, ready, 0).action);
            assert forall|t: int| 0 <= t < ready.len() implies {
                let i = index_of_id(b0, #[trigger] ready[t]);
                0 <= i < b1.len() && b1[i].status == TaskStatus::Pending && deps_completed(b1, b1[i])
            } by {
                lemma_same_index(b0, b1, ready[t]);
            }
            lemma_begin(v0, k + 1, v1, ready, 0);
        } else {
            if ready.len() > 0 {
                lemma_same_index(b0, b1, ready[0]);
                assert(b1[index_of_id(b1, ready[0])].status == TaskStatus::Pending);
            }
            assert(all_completed(b1));
        }
    }
}

/// The start of a successful run: the first task starts, or, with no task,
/// the final review is asked for.
proof fn lemma_start(v0: RunView)
    requires
        fresh_run(v0),
    ensures
        v0.board.len() > 0 ==> running_at(v0, 0, success_trace(v0, 0).run, success_trace(v0, 0).action),
        v0.board.len() == 0 ==> {
            let s = success_trace(v0, 0);
            &&& s.action is Review
            &&& s.run.phase == PhaseView::AwaitingReview
            &&& all_completed(s.run.board)
            &&& s.run.board.len() == v0.board.len()
        },
{
    let b0 = v0.board;
    let s = success_trace(v0, 0);
    assert(s.run == schedule(v0).run && s.action == schedule(v0).action);
    let ready = ready_ids(b0, b0.len() as int, None);
    if b0.len() > 0 {
        assert(b0[0].status == TaskStatus::Pending);
        lemma_some_ready(b0);
        lemma_ready(b0, b0.len() as int, None);
        assert(s.run == begin_task(v0, ready, 0).run && s.action == begin_task(v0, ready, 0).action);
        assert(same_but_status(b0, b0)) by {
            assert forall|i: int| 0 <= i < b0.len() implies (TaskSpecView { status: b0[i].status, ..#[trigger] b0[i] })
                == b0[i] by {}
        }
        lemma_count_zero(b0, b0.len() as int);
        lemma_begin(v0, 0, v0, ready, 0);
    }
}

/// Every step before the last task completes runs a task.
proof fn lemma_running_upto(v0: RunView, k: nat)
    requires
        fresh_run(v0),
        k < v0.board.len(),
    ensures
        running_at(v0, k, success_trace(v0, k).run, success_trace(v0, k).action),
    decreases k,
{
    if k == 0 {
        lemma_start(v0);
    } else {
        lemma_running_upto(v0, (k - 1) as nat);
        lemma_after_task(v0, (k - 1) as nat);
    }
}

/// A run in which every agent succeeds, started on tasks that are all
/// pending, with distinct identifiers, known dependencies and no cycle, and
/// no task to continue from: the first `n` steps (one per task) each start
/// a task whose dependencies are all completed at that point; no task is
/// started twice and every task is started; step `n` asks for the final
/// review, and the step after it ends the run with every task completed.
pub proof fn lemma_successful_run(v: RunView)
    requires
        fresh_run(v),
    ensures
        forall|k: nat|
            k < v.board.len() ==> {
                let s = #[trigger] success_trace(v, k);
                let i = index_of_id(v.board, dispatched(s));
                &&& s.action == ActionView::RunTask(dispatched(s))
                &&& 0 <= i < v.board.len()
                &&& v.board[i].id == dispatched(s)
                &&& deps_completed(s.run.board, s.run.board[i])
            },
        forall|k1: nat, k2: nat|
            k1 < k2 < v.board.len() ==> dispatched(#[trigger] success_trace(v, k1)) != dispatched(
                #[trigger] success_trace(v, k2),
            ),
        forall|i: int|
            0 <= i < v.board.len() ==> exists|k: nat|
                k < v.board.len() && dispatched(#[trigger] success_trace(v, k)) == (#[trigger] v.board[i]).id,
        success_trace(v, v.board.len() as nat).action is Review,
        success_trace(v, v.board.len() as nat + 1).action == ActionView::Finish,
        success_trace(v, v.board.len() as nat + 1).run.phase == PhaseView::Finished,
        success_trace(v, v.board.len() as nat + 1).run.board.len() == v.board.len(),
        all_completed(success_trace(v, v.board.len() as nat + 1).run.board),
{
    let b0 = v.board;
    let n = b0.len() as nat;
    assert forall|k: nat| k < n implies {
        let s = #[trigger] success_trace(v, k);
        let i = index_of_id(b0, dispatched(s));
        &&& s.action == ActionView::RunTask(dispatched(s))
        &&& 0 <= i < b0.len()
        &&& b0[i].id == dispatched(s)
        &&& deps_completed(s.run.board, s.run.board[i])
    } by {
        lemma_running_upto(v, k);
        let s = success_trace(v, k);
        lemma_index_in(b0, dispatched(s));
    }
    assert forall|k1: nat, k2: nat| k1 < k2 < n implies dispatched(#[trigger] success_trace(v, k1)) != dispatched(
        #[trigger] success_trace(v, k2),
    ) by {
        lemma_running_upto(v, k2);
        let s1 = success_trace(v, k1);
        let s2 = success_trace(v, k2);
        let i1 = index_of_id(b0, dispatched(s1));
        let i2 = index_of_id(b0, dispatched(s2));
        assert(s2.run.board[i1].status == TaskStatus::Completed);
        assert(s2.run.board[i2].status == TaskStatus::InProgress);
    }
    let idx = Seq::new(n, |k: int| index_of_id(b0, dispatched(success_trace(v, k as nat))));
    assert forall|a: int, b: int| 0 <= a < idx.len() && 0 <= b < idx.len() && a != b implies idx[a] != idx[b] by {
        let sa = success_trace(v, a as nat);
        let sb = success_trace(v, b as nat);
        lemma_index_in(b0, dispatched(sa));
        lemma_index_in(b0, dispatched(sb));
        if a < b {
            assert(dispatched(success_trace(v, a as nat)) != dispatched(success_trace(v, b as nat)));
        } else {
            assert(dispatched(success_trace(v, b as nat)) != dispatched(success_trace(v, a as nat)));
        }
    }
    idx.unique_seq_to_set();
    vstd::set_lib::lemma_int_range(0, n as int);
    assert forall|x: int| idx.to_set().contains(x) implies vstd::set_lib::set_int_range(0, n as int).contains(x) by {
        assert(idx.contains(x));
        let a = choose|a: int| 0 <= a < idx.len() && idx[a] == x;
        assert(success_trace(v, a as nat) == success_trace(v, a as nat));
    }
    vstd::seq_lib::seq_to_set_is_finite(idx);
    vstd::set_lib::lemma_subset_equality(idx.to_set(), vstd::set_lib::set_int_range(0, n as int));
    assert forall|i: int| 0 <= i < n implies exists|k: nat|
        k < n && dispatched(#[trigger] success_trace(v, k)) == (#[trigger] b0[i]).id by {
        assert(vstd::set_lib::set_int_range(0, n as int).contains(i));
        assert(idx.to_set().contains(i));
        assert(idx.contains(i));
        let a = choose|a: int| 0 <= a < idx.len() && idx[a] == i;
        let s = success_trace(v, a as nat);
        lemma_index_in(b0, dispatched(s));
        assert(dispatched(success_trace(v, a as nat)) == b0[i].id);
    }
    if n == 0 {
        lemma_start(v);
    } else {
        lemma_running_upto(v, (n - 1) as nat);
        lemma_after_task(v, (n - 1) as nat);
    }
    let last = success_trace(v, n);
    assert(success_trace(v, n + 1) == run_step(last.run, RunEventView::ReviewEnded(ReviewEndView::Approved)));
}

} // verus!
