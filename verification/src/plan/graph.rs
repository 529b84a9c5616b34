//! The dependency graph of a plan's tasks, held in a `petgraph` graph.
use vstd::prelude::*;
use crate::errors::{ParseError, ParseErrorView};
use crate::plan::parser::{syntax_at, tasks_view};
use crate::text::{owned, push_str};
use crate::types::{TaskSpec, TaskSpecView, TaskStatus};

verus! {

#[verifier::external_type_specification]
#[verifier::external_body]
#[verifier::reject_recursive_types(N)]
#[verifier::reject_recursive_types(E)]
#[verifier::reject_recursive_types(Ty)]
#[verifier::reject_recursive_types(Ix)]
pub struct ExGraph<N, E, Ty, Ix>(petgraph::graph::Graph<N, E, Ty, Ix>);

#[verifier::external_type_specification]
#[verifier::external_body]
pub struct ExDirected(petgraph::Directed);

/// The node weights of a dependency graph, in the order the nodes were added.
pub uninterp spec fn dep_graph_nodes(g: petgraph::graph::Graph<usize, (), petgraph::Directed, u32>) -> Seq<usize>;

/// The edges of a dependency graph, as pairs of node positions, in the order
/// they were added.
pub uninterp spec fn dep_graph_edges(g: petgraph::graph::Graph<usize, (), petgraph::Directed, u32>) -> Seq<(usize, usize)>;

/// `Graph::new` for a directed graph: no nodes and no edges.
#[verifier::external_body]
fn dep_graph_new() -> (g: petgraph::graph::Graph<usize, (), petgraph::Directed, u32>)
    ensures
        dep_graph_nodes(g) == Seq::<usize>::empty(),
        dep_graph_edges(g) == Seq::<(usize, usize)>::empty(),
{
    petgraph::graph::Graph::new()
}

/// `Graph::add_node`: appends a node with weight `w` and returns its
/// position. The crate panics when the node count reaches `u32::MAX`, which
/// `requires` leaves out.
#[verifier::external_body]
fn dep_graph_add_node(g: &mut petgraph::graph::Graph<usize, (), petgraph::Directed, u32>, w: usize) -> (i: usize)
    requires
        dep_graph_nodes(*old(g)).len() < u32::MAX,
    ensures
        i == dep_graph_nodes(*old(g)).len(),
        dep_graph_nodes(*final(g)) == dep_graph_nodes(*old(g)).push(w),
        dep_graph_edges(*final(g)) == dep_graph_edges(*old(g)),
{
    g.add_node(w).index()
}

/// `Graph::add_edge`: appends an edge from node `a` to node `b`. The crate
/// panics when a node does not exist or the edge count reaches `u32::MAX`,
/// which `requires` leaves out.
#[verifier::external_body]
fn dep_graph_add_edge(g: &mut petgraph::graph::Graph<usize, (), petgraph::Directed, u32>, a: usize, b: usize)
    requires
        a < dep_graph_nodes(*old(g)).len(),
        b < dep_graph_nodes(*old(g)).len(),
        dep_graph_edges(*old(g)).len() < u32::MAX,
    ensures
        dep_graph_nodes(*final(g)) == dep_graph_nodes(*old(g)),
        dep_graph_edges(*final(g)) == dep_graph_edges(*old(g)).push((a, b)),
{
    g.add_edge(petgraph::graph::NodeIndex::new(a), petgraph::graph::NodeIndex::new(b), ());
}

/// A closed walk of at least one edge through `n` nodes along `edges`.
pub open spec fn is_cycle_walk(n: int, edges: Seq<(usize, usize)>, p: Seq<int>) -> bool {
    &&& p.len() >= 2
    &&& p[0] == p.last()
    &&& forall|i: int| 0 <= i < p.len() ==> 0 <= #[trigger] p[i] < n
    &&& forall|i: int|
        0 <= i < p.len() - 1 ==> edges.contains((#[trigger] p[i] as usize, p[i + 1] as usize))
}

/// The graph with `n` nodes and these edges has a cycle (a self loop counts).
pub open spec fn has_cycle(n: int, edges: Seq<(usize, usize)>) -> bool {
    exists|p: Seq<int>| is_cycle_walk(n, edges, p)
}

/// `petgraph::algo::toposort`, told apart by success: its documentation
/// says it succeeds exactly when the graph has no cycle, self loops counting
/// as cycles.
#[verifier::external_body]
fn dep_graph_is_acyclic(g: &petgraph::graph::Graph<usize, (), petgraph::Directed, u32>) -> (r: bool)
    ensures
        r == !has_cycle(dep_graph_nodes(*g).len() as int, dep_graph_edges(*g)),
{
    petgraph::algo::toposort(g, None).is_ok()
}

// ------------------------------------------------------------------
// Dependencies between tasks
// ------------------------------------------------------------------

/// The last position of a task with identifier `id` among `ts[..k]`, or -1.
pub open spec fn last_index_before(ts: Seq<TaskSpecView>, id: Seq<char>, k: int) -> int
    decreases k,
{
    if k <= 0 {
        -1
    } else if ts[k - 1].id == id {
        k - 1
    } else {
        last_index_before(ts, id, k - 1)
    }
}

/// The last position of a task with identifier `id`, or -1: the task that
/// an identifier names when several share it.
pub open spec fn index_of_id(ts: Seq<TaskSpecView>, id: Seq<char>) -> int {
    last_index_before(ts, id, ts.len() as int)
}

/// `last_index_before` is -1 or a position below `k` holding the identifier,
/// with no later one before `k`.
pub proof fn lemma_last_index(ts: Seq<TaskSpecView>, id: Seq<char>, k: int)
    requires
        0 <= k <= ts.len(),
    ensures
        -1 <= last_index_before(ts, id, k) < k,
        last_index_before(ts, id, k) >= 0 ==> ts[last_index_before(ts, id, k)].id == id,
        forall|t: int| last_index_before(ts, id, k) < t < k ==> ts[t].id != id,
    decreases k,
{
    if k > 0 && ts[k - 1].id != id {
        lemma_last_index(ts, id, k - 1);
    }
}

/// Task `a` depends on task `b`: one of the identifiers `a` depends on names `b`.
pub open spec fn depends_on(ts: Seq<TaskSpecView>, a: int, b: int) -> bool {
    &&& 0 <= a < ts.len()
    &&& 0 <= b
    &&& exists|j: int|
        0 <= j < ts[a].dependencies.len() && index_of_id(ts, #[trigger] ts[a].dependencies[j])
            == b
}

/// Every dependency of every task names a task of the list.
pub open spec fn all_deps_known(ts: Seq<TaskSpecView>) -> bool {
    forall|a: int, j: int|
        0 <= a < ts.len() && 0 <= j < ts[a].dependencies.len() ==> index_of_id(
            ts,
            #[trigger] ts[a].dependencies[j],
        ) >= 0
}

/// A closed walk of at least one step along `depends_on`.
pub open spec fn is_dependency_cycle(ts: Seq<TaskSpecView>, p: Seq<int>) -> bool {
    &&& p.len() >= 2
    &&& p[0] == p.last()
    &&& forall|i: int| 0 <= i < p.len() ==> 0 <= #[trigger] p[i] < ts.len()
    &&& forall|i: int| 0 <= i < p.len() - 1 ==> depends_on(ts, #[trigger] p[i], p[i + 1])
}

/// The dependencies of the tasks run in a circle (a task depending on itself
/// counts).
pub open spec fn has_dependency_cycle(ts: Seq<TaskSpecView>) -> bool {
    exists|p: Seq<int>| is_dependency_cycle(ts, p)
}

/// The number of dependency entries of `ts[..k]`.
pub open spec fn dep_count(ts: Seq<TaskSpecView>, k: int) -> nat
    decreases k,
{
    if k <= 0 {
        0
    } else {
        dep_count(ts, k - 1) + ts[k - 1].dependencies.len()
    }
}

/// The first unknown dependency, by task and then by entry, starting at task
/// `a` entry `j`: its task position and entry position.
pub open spec fn first_unknown_dep(ts: Seq<TaskSpecView>, a: int, j: int) -> Option<(int, int)>
    decreases ts.len() - a, ts[a].dependencies.len() - j,
{
    if a < 0 || a >= ts.len() {
        None
    } else if j < 0 || j >= ts[a].dependencies.len() {
        first_unknown_dep(ts, a + 1, 0)
    } else if index_of_id(ts, ts[a].dependencies[j]) < 0 {
        Some((a, j))
    } else {
        first_unknown_dep(ts, a, j + 1)
    }
}

/// Builds the graph over `ts` or reports the first unknown dependency.
pub open spec fn graph_check(ts: Seq<TaskSpecView>) -> Result<(), ParseErrorView> {
    match first_unknown_dep(ts, 0, 0) {
        Some((a, j)) => Err(
            syntax_at(
                0,
                "Task "@ + ts[a].id + " depends on unknown task "@ + ts[a].dependencies[j],
            ),
        ),
        None => Ok(()),
    }
}

/// `first_unknown_dep` finds nothing exactly when every later dependency is known.
pub proof fn lemma_first_unknown(ts: Seq<TaskSpecView>, a: int, j: int)
    requires
        0 <= a <= ts.len(),
        0 <= j,
    ensures
        first_unknown_dep(ts, a, j) is None <==> (forall|b: int, k: int|
            (a <= b < ts.len() && 0 <= k < ts[b].dependencies.len() && (b > a || k >= j))
                ==> index_of_id(ts, #[trigger] ts[b].dependencies[k]) >= 0),
    decreases ts.len() - a, (if a < ts.len() {
        ts[a].dependencies.len() - j
    } else {
        0
    }),
{
    if a < ts.len() {
        if j >= ts[a].dependencies.len() {
            lemma_first_unknown(ts, a + 1, 0);
        } else if index_of_id(ts, ts[a].dependencies[j]) < 0 {
        } else {
            lemma_first_unknown(ts, a, j + 1);
            assert forall|b: int, k: int|
                (a <= b < ts.len() && 0 <= k < ts[b].dependencies.len() && (b > a || k >= j + 1))
                    ==> index_of_id(ts, #[trigger] ts[b].dependencies[k]) >= 0 implies (a <= b
                < ts.len() && 0 <= k < ts[b].dependencies.len() && (b > a || k >= j)) ==> index_of_id(ts, ts[b].dependencies[k]) >= 0 by {
            }
        }
    }
}

// ------------------------------------------------------------------
// The graph
// ------------------------------------------------------------------

/// Dependency graph for the tasks of a plan: node `i` stands for task `i`,
/// and there is an edge from each task to each task it depends on.
pub struct TaskGraph {
    graph: petgraph::graph::Graph<usize, (), petgraph::Directed, u32>,
    tasks: Vec<TaskSpec>,
}

impl View for TaskGraph {
    type V = Seq<TaskSpecView>;

    closed spec fn view(&self) -> Seq<TaskSpecView> {
        tasks_view(self.tasks@)
    }
}

/// The edge `(x, y)` is among those of the tasks before `a`, or of task `a`'s
/// entries before `k`.
pub open spec fn edge_before(ts: Seq<TaskSpecView>, a: int, k: int, x: int, y: int) -> bool {
    ||| (0 <= x < a && depends_on(ts, x, y))
    ||| (x == a && 0 <= y && exists|j: int|
        0 <= j < k && j < ts[a].dependencies.len() && index_of_id(
            ts,
            #[trigger] ts[a].dependencies[j],
        ) == y)
}

impl TaskGraph {
    /// The graph holds one node per task, in order, and exactly the edges of
    /// `depends_on`.
    pub closed spec fn wf(&self) -> bool {
        let ts = tasks_view(self.tasks@);
        &&& dep_graph_nodes(self.graph).len() == ts.len()
        &&& forall|e: (usize, usize)|
            #![trigger dep_graph_edges(self.graph).contains(e)]
            dep_graph_edges(self.graph).contains(e) <==> depends_on(ts, e.0 as int, e.1 as int)
        &&& forall|e: (usize, usize)|
            dep_graph_edges(self.graph).contains(e) ==> (e.0 as int) < ts.len() && (e.1 as int)
                < ts.len()
    }

    /// Creates the dependency graph of `tasks`.
    ///
    /// Fails on the first dependency (in task order, then entry order) that
    /// names no task. Where several tasks share an identifier, a dependency
    /// on it names the last of them.
    pub fn new(tasks: Vec<TaskSpec>) -> (r: Result<Self, ParseError>)
        requires
            tasks@.len() < u32::MAX,
            dep_count(tasks_view(tasks@), tasks@.len() as int) < u32::MAX,
        ensures
            match graph_check(tasks_view(tasks@)) {
                Ok(()) => r matches Ok(g) && g.wf() && g@ == tasks_view(tasks@),
                Err(e) => r matches Err(x) && x@ == e,
            },
            r is Ok <==> all_deps_known(tasks_view(tasks@)),
    {
        let ghost ts = tasks_view(tasks@);
        let n = tasks.len();
        let mut graph = dep_graph_new();
        let mut i: usize = 0;
        while i < n
            invariant
                n == tasks@.len(),
                n < u32::MAX,
                i <= n,
                dep_graph_nodes(graph).len() == i,
                dep_graph_edges(graph).len() == 0,
            decreases n - i,
        {
            let _ = dep_graph_add_node(&mut graph, i);
            i = i + 1;
        }
        proof {
            lemma_first_unknown(ts, 0, 0);
        }
        let mut a: usize = 0;
        while a < n
            invariant
                n == tasks@.len(),
                ts == tasks_view(tasks@),
                a <= n,
                dep_graph_nodes(graph).len() == n,
                dep_graph_edges(graph).len() == dep_count(ts, a as int),
                dep_count(ts, n as int) < u32::MAX,
                first_unknown_dep(ts, 0, 0) == first_unknown_dep(ts, a as int, 0),
                forall|e: (usize, usize)|
                    #![trigger dep_graph_edges(graph).contains(e)]
                    dep_graph_edges(graph).contains(e) <==> edge_before(
                        ts,
                        a as int,
                        0,
                        e.0 as int,
                        e.1 as int,
                    ),
                forall|e: (usize, usize)|
                    dep_graph_edges(graph).contains(e) ==> (e.0 as int) < n && (e.1 as int) < n,
            decreases n - a,
        {
            let deps = &tasks[a].dependencies;
            let mut k: usize = 0;
            while k < deps.len()
                invariant
                    n == tasks@.len(),
                    ts == tasks_view(tasks@),
                    a < n,
                    deps@ == tasks@[a as int].dependencies@,
                    k <= deps@.len(),
                    dep_graph_nodes(graph).len() == n,
                    dep_graph_edges(graph).len() == dep_count(ts, a as int) + k,
                    dep_count(ts, n as int) < u32::MAX,
                    first_unknown_dep(ts, 0, 0) == first_unknown_dep(ts, a as int, k as int),
                    forall|e: (usize, usize)|
                        #![trigger dep_graph_edges(graph).contains(e)]
                        dep_graph_edges(graph).contains(e) <==> edge_before(
                            ts,
                            a as int,
                            k as int,
                            e.0 as int,
                            e.1 as int,
                        ),
                    forall|e: (usize, usize)|
                        dep_graph_edges(graph).contains(e) ==> (e.0 as int) < n && (e.1 as int)
                            < n,
                decreases deps@.len() - k,
            {
                let found = find_last(&tasks, &deps[k]);
                match found {
                    None => {
                        let mut m = owned("Task ");
                        push_str(&mut m, tasks[a].id.as_str());
                        push_str(&mut m, " depends on unknown task ");
                        push_str(&mut m, deps[k].as_str());
                        proof {
                            assert(ts[a as int].dependencies[k as int] == deps@[k as int]@);
                            assert(first_unknown_dep(ts, a as int, k as int) == Some(
                                (a as int, k as int),
                            ));
                            assert(!all_deps_known(ts)) by {
                                assert(index_of_id(ts, ts[a as int].dependencies[k as int]) < 0);
                            }
                        }
                        return Err(ParseError::syntax(0, m));
                    },
                    Some(b) => {
                        proof {
                            assert(ts[a as int].dependencies[k as int] == deps@[k as int]@);
                            lemma_last_index(ts, deps@[k as int]@, ts.len() as int);
                            assert(dep_count(ts, a as int) + k < dep_count(ts, n as int)) by {
                                lemma_dep_count_mono(ts, a as int + 1, n as int);
                            }
                        }
                        let ghost before = dep_graph_edges(graph);
                        dep_graph_add_edge(&mut graph, a, b);
                        proof {
                            assert forall|e: (usize, usize)|
                                #![trigger dep_graph_edges(graph).contains(e)]
                                dep_graph_edges(graph).contains(e) <==> edge_before(
                                    ts,
                                    a as int,
                                    k + 1,
                                    e.0 as int,
                                    e.1 as int,
                                ) by {
                                if e == (a, b) {
                                    assert(dep_graph_edges(graph).last() == e);
                                    assert(index_of_id(ts, ts[a as int].dependencies[k as int])
                                        == b as int);
                                } else {
                                    assert(dep_graph_edges(graph).contains(e)
                                        <==> before.contains(e)) by {
                                        if dep_graph_edges(graph).contains(e) {
                                            let t = choose|t: int|
                                                0 <= t < dep_graph_edges(graph).len()
                                                    && dep_graph_edges(graph)[t] == e;
                                            assert(t < before.len());
                                            assert(before[t] == e);
                                        }
                                        if before.contains(e) {
                                            let t = choose|t: int|
                                                0 <= t < before.len() && before[t] == e;
                                            assert(dep_graph_edges(graph)[t] == e);
                                        }
                                    }
                                    if edge_before(ts, a as int, k + 1, e.0 as int, e.1 as int)
                                        && !edge_before(ts, a as int, k as int, e.0 as int, e.1 as int) {
                                        let j = choose|j: int|
                                            0 <= j < k + 1 && j < ts[a as int].dependencies.len()
                                                && index_of_id(
                                                ts,
                                                #[trigger] ts[a as int].dependencies[j],
                                            ) == e.1 as int;
                                        assert(j == k);
                                        assert(e.0 == a);
                                    }
                                }
                            }
                            assert forall|e: (usize, usize)|
                                dep_graph_edges(graph).contains(e) implies (e.0 as int) < n && (
                                e.1 as int) < n by {
                                if e != (a, b) {
                                    let t = choose|t: int|
                                        0 <= t < dep_graph_edges(graph).len()
                                            && dep_graph_edges(graph)[t] == e;
                                    assert(t < before.len());
                                    assert(before.contains(e));
                                }
                            }
                        }
                    },
                }
                k = k + 1;
            }
            proof {
                assert forall|e: (usize, usize)|
                    #![trigger dep_graph_edges(graph).contains(e)]
                    dep_graph_edges(graph).contains(e) <==> edge_before(
                        ts,
                        a + 1,
                        0,
                        e.0 as int,
                        e.1 as int,
                    ) by {
                    if edge_before(ts, a as int, k as int, e.0 as int, e.1 as int) && e.0 == a {
                        let j = choose|j: int|
                            0 <= j < k && j < ts[a as int].dependencies.len() && index_of_id(
                                ts,
                                #[trigger] ts[a as int].dependencies[j],
                            ) == e.1 as int;
                        assert(depends_on(ts, a as int, e.1 as int));
                    }
                    if depends_on(ts, e.0 as int, e.1 as int) && e.0 == a {
                        let j = choose|j: int|
                            0 <= j < ts[a as int].dependencies.len() && index_of_id(
                                ts,
                                #[trigger] ts[a as int].dependencies[j],
                            ) == e.1 as int;
                        assert(edge_before(ts, a as int, k as int, e.0 as int, e.1 as int));
                    }
                }
                assert(dep_count(ts, a + 1) == dep_count(ts, a as int) + ts[a as int].dependencies.len());
            }
            a = a + 1;
        }
        proof {
            lemma_first_unknown(ts, n as int, 0);
            assert(all_deps_known(ts)) by {
                lemma_first_unknown(ts, 0, 0);
            }
        }
        let g = TaskGraph { graph, tasks };
        proof {
            assert forall|e: (usize, usize)|
                #![trigger dep_graph_edges(g.graph).contains(e)]
                dep_graph_edges(g.graph).contains(e) <==> depends_on(ts, e.0 as int, e.1 as int) by {
                if depends_on(ts, e.0 as int, e.1 as int) {
                    assert(edge_before(ts, n as int, 0, e.0 as int, e.1 as int));
                }
            }
        }
        Ok(g)
    }

    /// Validates the task graph: fails exactly when the dependencies run in a
    /// circle.
    pub fn validate(&self) -> (r: Result<(), ParseError>)
        requires
            self.wf(),
        ensures
            r is Ok <==> !has_dependency_cycle(self@),
            r matches Err(e) ==> e@ == syntax_at(0, "Plan contains cycles in task dependencies"@),
    {
        let acyclic = dep_graph_is_acyclic(&self.graph);
        let _ = self.tasks.len();
        proof {
            let ts = tasks_view(self.tasks@);
            let n = ts.len() as int;
            let edges = dep_graph_edges(self.graph);
            if has_cycle(n, edges) {
                lemma_walk_to_dependency_cycle(ts, edges);
            }
            if has_dependency_cycle(ts) {
                lemma_dependency_cycle_to_walk(ts, edges);
            }
        }
        if !acyclic {
            return Err(ParseError::syntax(0, owned("Plan contains cycles in task dependencies")));
        }
        Ok(())
    }

    /// The tasks of the graph, in order.
    pub fn tasks(&self) -> (r: &Vec<TaskSpec>)
        ensures
            tasks_view(r@) == self@,
    {
        &self.tasks
    }

    /// Gets the task with identifier `id` (the last one, when several share it).
    pub fn get_task(&self, id: &str) -> (r: Option<&TaskSpec>)
        ensures
            index_of_id(self@, id@) < 0 ==> r is None,
            index_of_id(self@, id@) >= 0 ==> (r matches Some(t) && t@ == self@[index_of_id(
                self@,
                id@,
            )]),
    {
        let key = owned(id);
        match find_last(&self.tasks, &key) {
            Some(k) => Some(&self.tasks[k]),
            None => None,
        }
    }

    /// The tasks ready to run: neither completed nor in progress, and every
    /// task they depend on completed.
    pub fn get_runnable_tasks(&self) -> (r: Vec<&TaskSpec>)
        ensures
            r@.map_values(|t: &TaskSpec| t@) == runnable_prefix(self@, self@.len() as int),
            forall|k: int|
                0 <= k < r@.len() ==> {
                    let t = (#[trigger] r@[k])@;
                    &&& t.status != TaskStatus::Completed
                    &&& t.status != TaskStatus::InProgress
                    &&& deps_completed(self@, t)
                },
            forall|a: int|
                0 <= a < self@.len() && (#[trigger] self@[a]).status != TaskStatus::Completed
                    && self@[a].status != TaskStatus::InProgress && deps_completed(self@, self@[a])
                    ==> exists|k: int| 0 <= k < r@.len() && r@[k]@ == self@[a],
    {
        let ghost ts = tasks_view(self.tasks@);
        let mut out: Vec<&TaskSpec> = Vec::new();
        let mut i: usize = 0;
        while i < self.tasks.len()
            invariant
                ts == tasks_view(self.tasks@),
                ts == self@,
                i <= self.tasks@.len(),
                out@.map_values(|t: &TaskSpec| t@) == runnable_prefix(ts, i as int),
            decreases self.tasks@.len() - i,
        {
            let task = &self.tasks[i];
            let ready = self.is_ready(task);
            let ghost before = out@;
            if ready {
                out.push(task);
                assert(out@.map_values(|t: &TaskSpec| t@) =~= before.map_values(
                    |t: &TaskSpec| t@,
                ).push(task@));
            }
            i = i + 1;
        }
        proof {
            lemma_runnable_tasks(ts);
            let rp = runnable_prefix(ts, ts.len() as int);
            assert forall|k: int| 0 <= k < out@.len() implies (#[trigger] out@[k])@ == rp[k] by {
                assert(out@.map_values(|t: &TaskSpec| t@)[k] == out@[k]@);
            }
            assert forall|a: int|
                0 <= a < ts.len() && (#[trigger] ts[a]).status != TaskStatus::Completed && ts[a].status
                    != TaskStatus::InProgress && deps_completed(ts, ts[a]) implies exists|k: int|
                0 <= k < out@.len() && out@[k]@ == ts[a] by {
                assert(rp.contains(ts[a]));
                let k = choose|k: int| 0 <= k < rp.len() && rp[k] == ts[a];
                assert(out@[k]@ == rp[k]);
            }
        }
        out
    }

    /// Whether `task` is ready to run among the tasks of this graph.
    fn is_ready(&self, task: &TaskSpec) -> (r: bool)
        ensures
            r == is_runnable(self@, task@),
    {
        if task.status == TaskStatus::Completed || task.status == TaskStatus::InProgress {
            return false;
        }
        let mut k: usize = 0;
        while k < task.dependencies.len()
            invariant
                k <= task.dependencies@.len(),
                task@.status != TaskStatus::Completed && task@.status != TaskStatus::InProgress,
                forall|j: int| 0 <= j < k ==> dep_satisfied(self@, #[trigger] task@.dependencies[j]),
            decreases task.dependencies@.len() - k,
        {
            match find_last(&self.tasks, &task.dependencies[k]) {
                Some(b) => {
                    if self.tasks[b].status != TaskStatus::Completed {
                        assert(task@.dependencies[k as int] == task.dependencies@[k as int]@);
                        assert(!dep_satisfied(self@, task@.dependencies[k as int]));
                        return false;
                    }
                },
                None => {
                    assert(task@.dependencies[k as int] == task.dependencies@[k as int]@);
                },
            }
            assert(task@.dependencies[k as int] == task.dependencies@[k as int]@);
            k = k + 1;
        }
        true
    }
}

/// A closed walk along edges that are exactly `depends_on` is a dependency cycle.
pub proof fn lemma_walk_to_dependency_cycle(ts: Seq<TaskSpecView>, edges: Seq<(usize, usize)>)
    requires
        ts.len() <= usize::MAX,
        forall|e: (usize, usize)|
            #![trigger edges.contains(e)]
            edges.contains(e) <==> depends_on(ts, e.0 as int, e.1 as int),
        has_cycle(ts.len() as int, edges),
    ensures
        has_dependency_cycle(ts),
{
    let p = choose|p: Seq<int>| is_cycle_walk(ts.len() as int, edges, p);
    assert forall|i: int| 0 <= i < p.len() - 1 implies depends_on(ts, #[trigger] p[i], p[i + 1]) by {
        let e = (p[i] as usize, p[i + 1] as usize);
        assert(edges.contains(e));
        assert(0 <= p[i] < ts.len() && 0 <= p[i + 1] < ts.len());
    }
    assert(is_dependency_cycle(ts, p));
}

/// A dependency cycle is a closed walk along edges that are exactly `depends_on`.
pub proof fn lemma_dependency_cycle_to_walk(ts: Seq<TaskSpecView>, edges: Seq<(usize, usize)>)
    requires
        ts.len() <= usize::MAX,
        forall|e: (usize, usize)|
            #![trigger edges.contains(e)]
            edges.contains(e) <==> depends_on(ts, e.0 as int, e.1 as int),
        has_dependency_cycle(ts),
    ensures
        has_cycle(ts.len() as int, edges),
{
    let p = choose|p: Seq<int>| is_dependency_cycle(ts, p);
    assert forall|i: int| 0 <= i < p.len() - 1 implies edges.contains(
        (#[trigger] p[i] as usize, p[i + 1] as usize),
    ) by {
        assert(depends_on(ts, p[i], p[i + 1]));
        assert(0 <= p[i] < ts.len() && 0 <= p[i + 1] < ts.len());
        let e = (p[i] as usize, p[i + 1] as usize);
        assert(e.0 as int == p[i] && e.1 as int == p[i + 1]);
        assert(edges.contains(e));
    }
    assert(is_cycle_walk(ts.len() as int, edges, p));
}

/// A dependency that names a task is satisfied once that task is completed;
/// one that names no task is passed over.
pub open spec fn dep_satisfied(ts: Seq<TaskSpecView>, dep: Seq<char>) -> bool {
    index_of_id(ts, dep) >= 0 ==> ts[index_of_id(ts, dep)].status == TaskStatus::Completed
}

/// A task is ready to run: neither completed nor in progress, and all its
/// dependencies satisfied.
pub open spec fn is_runnable(ts: Seq<TaskSpecView>, t: TaskSpecView) -> bool {
    &&& t.status != TaskStatus::Completed
    &&& t.status != TaskStatus::InProgress
    &&& forall|j: int| 0 <= j < t.dependencies.len() ==> dep_satisfied(ts, #[trigger] t.dependencies[j])
}

/// The tasks of `ts[..i]` that are ready to run, in order.
pub open spec fn runnable_prefix(ts: Seq<TaskSpecView>, i: int) -> Seq<TaskSpecView>
    decreases i,
{
    if i <= 0 {
        seq![]
    } else if is_runnable(ts, ts[i - 1]) {
        runnable_prefix(ts, i - 1).push(ts[i - 1])
    } else {
        runnable_prefix(ts, i - 1)
    }
}

/// Every dependency of `t` that names a task of `ts` names a completed task.
pub open spec fn deps_completed(ts: Seq<TaskSpecView>, t: TaskSpecView) -> bool {
    forall|j: int|
        0 <= j < t.dependencies.len() && index_of_id(ts, #[trigger] t.dependencies[j]) >= 0
            ==> ts[index_of_id(ts, t.dependencies[j])].status == TaskStatus::Completed
}

/// A task is ready to run exactly when it is neither completed nor in
/// progress and its known dependencies are all completed.
pub proof fn lemma_runnable_iff(ts: Seq<TaskSpecView>, t: TaskSpecView)
    ensures
        is_runnable(ts, t) <==> (t.status != TaskStatus::Completed && t.status
            != TaskStatus::InProgress && deps_completed(ts, t)),
{
    if deps_completed(ts, t) {
        assert forall|j: int| 0 <= j < t.dependencies.len() implies dep_satisfied(
            ts,
            #[trigger] t.dependencies[j],
        ) by {}
    }
    if is_runnable(ts, t) {
        assert forall|j: int|
            0 <= j < t.dependencies.len() && index_of_id(ts, #[trigger] t.dependencies[j]) >= 0
                implies ts[index_of_id(ts, t.dependencies[j])].status == TaskStatus::Completed by {
            assert(dep_satisfied(ts, t.dependencies[j]));
        }
    }
}

/// The tasks of `ts[..i]` picked by `runnable_prefix` are tasks of that
/// prefix that are ready to run, and every ready task of it is picked.
proof fn lemma_runnable_prefix_members(ts: Seq<TaskSpecView>, i: int)
    requires
        0 <= i <= ts.len(),
    ensures
        forall|k: int|
            0 <= k < runnable_prefix(ts, i).len() ==> is_runnable(
                ts,
                #[trigger] runnable_prefix(ts, i)[k],
            ),
        forall|k: int|
            0 <= k < runnable_prefix(ts, i).len() ==> exists|a: int|
                0 <= a < i && ts[a] == #[trigger] runnable_prefix(ts, i)[k],
        forall|a: int|
            0 <= a < i && is_runnable(ts, #[trigger] ts[a]) ==> runnable_prefix(ts, i).contains(ts[a]),
    decreases i,
{
    if i > 0 {
        lemma_runnable_prefix_members(ts, i - 1);
        let prev = runnable_prefix(ts, i - 1);
        let r = runnable_prefix(ts, i);
        if is_runnable(ts, ts[i - 1]) {
            assert(r == prev.push(ts[i - 1]));
            assert forall|k: int| 0 <= k < r.len() implies is_runnable(ts, #[trigger] r[k]) by {
                if k < prev.len() {
                    assert(r[k] == prev[k]);
                }
            }
            assert forall|k: int| 0 <= k < r.len() implies exists|a: int|
                0 <= a < i && ts[a] == #[trigger] r[k] by {
                if k < prev.len() {
                    assert(r[k] == prev[k]);
                    let a = choose|a: int| 0 <= a < i - 1 && ts[a] == prev[k];
                    assert(ts[a] == r[k]);
                } else {
                    assert(ts[i - 1] == r[k]);
                }
            }
            assert forall|a: int| 0 <= a < i && is_runnable(ts, #[trigger] ts[a]) implies r.contains(
                ts[a],
            ) by {
                if a < i - 1 {
                    assert(prev.contains(ts[a]));
                    let k = choose|k: int| 0 <= k < prev.len() && prev[k] == ts[a];
                    assert(r[k] == ts[a]);
                } else {
                    assert(r[prev.len() as int] == ts[a]);
                }
            }
        } else {
            assert(r == prev);
            assert forall|k: int| 0 <= k < r.len() implies exists|a: int|
                0 <= a < i && ts[a] == #[trigger] r[k] by {
                let a = choose|a: int| 0 <= a < i - 1 && ts[a] == prev[k];
                assert(ts[a] == r[k]);
            }
        }
    }
}

/// The tasks handed out as runnable are exactly the tasks of the plan that
/// are neither completed nor in progress and whose every dependency that
/// names a task names a completed one: a task in progress is never handed
/// out again, and no ready task is left out.
pub proof fn lemma_runnable_tasks(ts: Seq<TaskSpecView>)
    ensures
        forall|k: int|
            0 <= k < runnable_prefix(ts, ts.len() as int).len() ==> {
                let t = #[trigger] runnable_prefix(ts, ts.len() as int)[k];
                &&& t.status != TaskStatus::Completed
                &&& t.status != TaskStatus::InProgress
                &&& deps_completed(ts, t)
                &&& ts.contains(t)
            },
        forall|a: int|
            0 <= a < ts.len() && (#[trigger] ts[a]).status != TaskStatus::Completed && ts[a].status
                != TaskStatus::InProgress && deps_completed(ts, ts[a]) ==> runnable_prefix(
                ts,
                ts.len() as int,
            ).contains(ts[a]),
{
    let n = ts.len() as int;
    lemma_runnable_prefix_members(ts, n);
    let rp = runnable_prefix(ts, n);
    assert forall|k: int| 0 <= k < rp.len() implies {
        let t = #[trigger] rp[k];
        &&& t.status != TaskStatus::Completed
        &&& t.status != TaskStatus::InProgress
        &&& deps_completed(ts, t)
        &&& ts.contains(t)
    } by {
        lemma_runnable_iff(ts, rp[k]);
        let a = choose|a: int| 0 <= a < n && ts[a] == rp[k];
        assert(ts[a] == rp[k]);
    }
    assert forall|a: int|
        0 <= a < ts.len() && (#[trigger] ts[a]).status != TaskStatus::Completed && ts[a].status
            != TaskStatus::InProgress && deps_completed(ts, ts[a]) implies rp.contains(ts[a]) by {
        lemma_runnable_iff(ts, ts[a]);
    }
}

/// `dep_count` grows with the prefix.
pub proof fn lemma_dep_count_mono(ts: Seq<TaskSpecView>, a: int, b: int)
    requires
        0 <= a <= b <= ts.len(),
    ensures
        dep_count(ts, a) <= dep_count(ts, b),
    decreases b - a,
{
    if a < b {
        lemma_dep_count_mono(ts, a, b - 1);
    }
}

/// The last position of a task whose identifier is `id`, as `index_of_id` says.
pub fn find_last(tasks: &Vec<TaskSpec>, id: &String) -> (r: Option<usize>)
    ensures
        index_of_id(tasks_view(tasks@), id@) < 0 ==> r is None,
        index_of_id(tasks_view(tasks@), id@) >= 0 ==> r == Some(
            index_of_id(tasks_view(tasks@), id@) as usize,
        ),
        r matches Some(b) ==> b < tasks@.len() && tasks@[b as int].id@ == id@ && b as int
            == index_of_id(tasks_view(tasks@), id@),
{
    let ghost ts = tasks_view(tasks@);
    proof {
        lemma_last_index(ts, id@, ts.len() as int);
    }
    let mut k = tasks.len();
    while k > 0
        invariant
            k <= tasks@.len(),
            ts == tasks_view(tasks@),
            index_of_id(ts, id@) == last_index_before(ts, id@, k as int),
        decreases k,
    {
        if tasks[k - 1].id == *id {
            return Some(k - 1);
        }
        k = k - 1;
    }
    None
}

} // verus!
