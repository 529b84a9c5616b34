//! Plan- and task-level validators.
use vstd::prelude::*;
use crate::errors::{ParseError, ParseErrorView};
use crate::plan::graph::{dep_count, graph_check, has_dependency_cycle, TaskGraph};
use crate::plan::parser::{ids_of, syntax_at, tasks_view};
use crate::text::{is_blank, trim, chars_of, owned};
use crate::types::{TaskSpec, TaskSpecView};

verus! {

/// The first position at or after `i` whose identifier was used by an
/// earlier task.
pub open spec fn first_duplicate(ts: Seq<TaskSpecView>, i: int) -> Option<int>
    decreases ts.len() - i,
{
    if i < 0 || i >= ts.len() {
        None
    } else if ids_of(ts.subrange(0, i)).contains(ts[i].id) {
        Some(i)
    } else {
        first_duplicate(ts, i + 1)
    }
}

/// The identifiers from position `i` on are each used once only:
/// `first_duplicate` finds none exactly when no task at or after `i` has
/// the identifier of an earlier task, and what it finds is a task whose
/// identifier an earlier task already has.
pub proof fn lemma_first_duplicate(ts: Seq<TaskSpecView>, i: int)
    requires
        0 <= i <= ts.len(),
    ensures
        first_duplicate(ts, i) is None <==> forall|a: int, b: int|
            0 <= a < b < ts.len() && i <= b ==> #[trigger] ts[a].id != #[trigger] ts[b].id,
        first_duplicate(ts, i) matches Some(d) ==> i <= d < ts.len() && exists|a: int|
            0 <= a < d && #[trigger] ts[a].id == ts[d].id,
    decreases ts.len() - i,
{
    if i < ts.len() {
        lemma_first_duplicate(ts, i + 1);
        let earlier = ids_of(ts.subrange(0, i));
        if earlier.contains(ts[i].id) {
            let a = choose|a: int| 0 <= a < earlier.len() && earlier[a] == ts[i].id;
            assert(ts[a].id == ts[i].id);
        } else {
            assert forall|a: int, b: int|
                0 <= a < b < ts.len() && i <= b && (forall|x: int, y: int|
                    0 <= x < y < ts.len() && i + 1 <= y ==> #[trigger] ts[x].id
                        != #[trigger] ts[y].id) implies #[trigger] ts[a].id != #[trigger] ts[b].id by {
                if b == i {
                    assert(earlier[a] == ts[a].id);
                }
            }
        }
    }
}

/// A plan passes validation only if its task identifiers are pairwise
/// distinct.
pub proof fn lemma_plan_ids_distinct(ts: Seq<TaskSpecView>)
    ensures
        plan_check(ts) is Ok ==> forall|a: int, b: int|
            0 <= a < b < ts.len() ==> #[trigger] ts[a].id != #[trigger] ts[b].id,
        (exists|a: int, b: int| 0 <= a < b < ts.len() && #[trigger] ts[a].id == #[trigger] ts[b].id)
            ==> plan_check(ts) is Err,
{
    lemma_first_duplicate(ts, 0);
}

/// What validating a plan gives: the first repeated identifier, else the
/// first dependency naming no task, else a dependency cycle, else success.
pub open spec fn plan_check(ts: Seq<TaskSpecView>) -> Result<(), ParseErrorView> {
    match first_duplicate(ts, 0) {
        Some(i) => Err(ParseErrorView::DuplicateId { line: 0, id: ts[i].id }),
        None => match graph_check(ts) {
            Err(e) => Err(e),
            Ok(()) => if has_dependency_cycle(ts) {
                Err(syntax_at(0, "Plan contains cycles in task dependencies"@))
            } else {
                Ok(())
            },
        },
    }
}

/// A copy of every task of `tasks`.
pub fn copy_tasks(tasks: &[TaskSpec]) -> (r: Vec<TaskSpec>)
    ensures
        tasks_view(r@) == tasks_view(tasks@),
{
    let mut r: Vec<TaskSpec> = Vec::new();
    let mut i: usize = 0;
    while i < tasks.len()
        invariant
            i <= tasks@.len(),
            r@.len() == i,
            forall|k: int| 0 <= k < i ==> (#[trigger] r@[k])@ == tasks@[k]@,
        decreases tasks@.len() - i,
    {
        r.push(tasks[i].duplicate());
        i = i + 1;
    }
    assert(tasks_view(r@) =~= tasks_view(tasks@));
    r
}

/// Validates a plan: identifiers are unique, every dependency names a task,
/// and the dependencies have no cycle.
pub fn validate_plan(tasks: &[TaskSpec]) -> (r: Result<(), ParseError>)
    requires
        tasks@.len() < u32::MAX,
        dep_count(tasks_view(tasks@), tasks@.len() as int) < u32::MAX,
    ensures
        match plan_check(tasks_view(tasks@)) {
            Ok(()) => r is Ok,
            Err(e) => r matches Err(x) && x@ == e,
        },
        r is Ok ==> forall|a: int, b: int|
            0 <= a < b < tasks@.len() ==> #[trigger] tasks@[a].id@ != #[trigger] tasks@[b].id@,
{
    let ghost ts = tasks_view(tasks@);
    proof {
        lemma_plan_ids_distinct(ts);
        assert forall|a: int, b: int|
            0 <= a < b < tasks@.len() && plan_check(ts) is Ok implies #[trigger] tasks@[a].id@
                != #[trigger] tasks@[b].id@ by {
            assert(ts[a].id == tasks@[a].id@ && ts[b].id == tasks@[b].id@);
        }
    }
    let mut i: usize = 0;
    while i < tasks.len()
        invariant
            i <= tasks@.len(),
            ts == tasks_view(tasks@),
            first_duplicate(ts, 0) == first_duplicate(ts, i as int),
        decreases tasks@.len() - i,
    {
        let mut k: usize = 0;
        while k < i
            invariant
                k <= i < tasks@.len(),
                ts == tasks_view(tasks@),
                first_duplicate(ts, 0) == first_duplicate(ts, i as int),
                forall|t: int| 0 <= t < k ==> tasks@[t].id@ != tasks@[i as int].id@,
            decreases i - k,
        {
            if tasks[k].id == tasks[i].id {
                assert(ids_of(ts.subrange(0, i as int))[k as int] == ts[i as int].id);
                assert(first_duplicate(ts, i as int) == Some(i as int));
                return Err(ParseError::DuplicateId { line: 0, id: tasks[i].id.clone() });
            }
            k = k + 1;
        }
        proof {
            if ids_of(ts.subrange(0, i as int)).contains(ts[i as int].id) {
                let t = choose|t: int|
                    0 <= t < ids_of(ts.subrange(0, i as int)).len() && ids_of(
                        ts.subrange(0, i as int),
                    )[t] == ts[i as int].id;
                assert(tasks@[t].id@ == tasks@[i as int].id@);
            }
        }
        i = i + 1;
    }
    let copy = copy_tasks(tasks);
    let graph = TaskGraph::new(copy);
    match graph {
        Err(e) => Err(e),
        Ok(g) => g.validate(),
    }
}

/// Validates a task's files. File paths are held as text, so every one of
/// them is a valid path and this always succeeds.
pub fn validate_task_files(task: &TaskSpec) -> (r: Result<(), ParseError>)
    ensures
        r is Ok,
{
    Ok(())
}

/// The first contract, from position `k` on, that is blank.
pub open spec fn first_blank_contract(t: TaskSpecView, k: int) -> Option<int>
    decreases t.contracts.len() - k,
{
    if k < 0 || k >= t.contracts.len() {
        None
    } else if trim(t.contracts[k]).len() == 0 {
        Some(k)
    } else {
        first_blank_contract(t, k + 1)
    }
}

/// Validates a task's contracts: none of them may be blank.
pub fn validate_task_contracts(task: &TaskSpec) -> (r: Result<(), ParseError>)
    ensures
        r is Ok <==> first_blank_contract(task@, 0) is None,
        r matches Err(e) ==> e@ == syntax_at(0, "Contract cannot be empty"@),
{
    let mut k: usize = 0;
    while k < task.contracts.len()
        invariant
            k <= task.contracts@.len(),
            first_blank_contract(task@, 0) == first_blank_contract(task@, k as int),
        decreases task.contracts@.len() - k,
    {
        let c = chars_of(task.contracts[k].as_str());
        let blank = is_blank(&c, 0, c.len());
        assert(c@.subrange(0, c@.len() as int) =~= task@.contracts[k as int]);
        if blank {
            return Err(ParseError::syntax(0, owned("Contract cannot be empty")));
        }
        k = k + 1;
    }
    Ok(())
}

/// The errors that validating every task and then the plan gives, in order.
pub open spec fn all_task_errors(ts: Seq<TaskSpecView>) -> Seq<ParseErrorView> {
    task_errors_upto(ts, ts.len() as int) + match plan_check(ts) {
        Ok(()) => seq![],
        Err(e) => seq![e],
    }
}

/// The contract errors of the tasks `ts[..i]`, one per task with a blank
/// contract.
pub open spec fn task_errors_upto(ts: Seq<TaskSpecView>, i: int) -> Seq<ParseErrorView>
    decreases i,
{
    if i <= 0 {
        seq![]
    } else if first_blank_contract(ts[i - 1], 0) is Some {
        task_errors_upto(ts, i - 1).push(syntax_at(0, "Contract cannot be empty"@))
    } else {
        task_errors_upto(ts, i - 1)
    }
}

/// Validates all tasks and then the plan, collecting every error found.
pub fn validate_all_tasks(tasks: &[TaskSpec]) -> (r: Vec<ParseError>)
    requires
        tasks@.len() < u32::MAX,
        dep_count(tasks_view(tasks@), tasks@.len() as int) < u32::MAX,
    ensures
        r@.map_values(|e: ParseError| e@) == all_task_errors(tasks_view(tasks@)),
{
    let ghost ts = tasks_view(tasks@);
    let mut errors: Vec<ParseError> = Vec::new();
    let mut i: usize = 0;
    while i < tasks.len()
        invariant
            i <= tasks@.len(),
            ts == tasks_view(tasks@),
            errors@.map_values(|e: ParseError| e@) == task_errors_upto(ts, i as int),
        decreases tasks@.len() - i,
    {
        let ghost before = errors@;
        if let Err(e) = validate_task_files(&tasks[i]) {
            errors.push(e);
        }
        if let Err(e) = validate_task_contracts(&tasks[i]) {
            errors.push(e);
        }
        assert(errors@.map_values(|e: ParseError| e@) =~= task_errors_upto(ts, i + 1));
        i = i + 1;
    }
    let ghost before = errors@;
    if let Err(e) = validate_plan(tasks) {
        errors.push(e);
    }
    assert(errors@.map_values(|e: ParseError| e@) =~= all_task_errors(ts));
    errors
}

} // verus!
