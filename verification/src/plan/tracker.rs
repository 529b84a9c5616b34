//! Reading and rewriting the status markers of tasks in plan content.
//!
//! A marker is the bracketed text of `- [S] ... (ID)`. A marker line for a
//! task is found by scanning for `- [`, the bracketed text up to the next
//! `]`, then `] `, and then the first ` (ID)` on the same line.
use vstd::prelude::*;
use crate::errors::{ParseError, ParseErrorView};
use crate::plan::grammar::{
    lemma_marker_roundtrip, marker_of_status, marker_of_status_exec, status_of_marker,
    status_of_marker_exec,
};
use crate::plan::parser::syntax_at;
use crate::text::{
    chars_of, find_exec, find_from, lemma_find_from, occurs_at, occurs_at_exec, owned, push_char,
    push_range, push_str,
};
use crate::types::TaskStatus;

verus! {

/// `- [` as characters.
pub open spec fn open_marker() -> Seq<char> {
    seq!['-', ' ', '[']
}

/// ` (ID)`: what ends a task line naming `id`.
pub open spec fn id_pattern(id: Seq<char>) -> Seq<char> {
    seq![' ', '('] + id + seq![')']
}

/// No line feed in `c[a..b]`.
pub open spec fn no_newline(c: Seq<char>, a: int, b: int) -> bool {
    forall|k: int| a <= k < b ==> c[k] != '\n'
}

/// The first `]` at or after `i`, or the length.
pub open spec fn next_close(c: Seq<char>, i: int) -> int
    decreases c.len() - i,
{
    if i >= c.len() {
        c.len() as int
    } else if c[i] == ']' {
        i
    } else {
        next_close(c, i + 1)
    }
}

/// `next_close` lies between `i` and the length and holds `]` when inside.
pub proof fn lemma_next_close(c: Seq<char>, i: int)
    requires
        0 <= i <= c.len(),
    ensures
        i <= next_close(c, i) <= c.len(),
        next_close(c, i) < c.len() ==> c[next_close(c, i)] == ']',
        forall|t: int| i <= t < next_close(c, i) ==> c[t] != ']',
    decreases c.len() - i,
{
    if i < c.len() && c[i] != ']' {
        lemma_next_close(c, i + 1);
    }
}

/// A marker to rewrite starts at `i`: `- [`, a non-empty bracketed text up
/// to the first `]`, then `] `, then on the same line the first occurrence
/// of `pat`. Gives the position of that `]` and the end of the match.
pub open spec fn update_match_at(c: Seq<char>, pat: Seq<char>, i: int) -> Option<(int, int)> {
    if occurs_at(c, open_marker(), i) {
        let q = next_close(c, i + 3);
        if q < c.len() && q > i + 3 && q + 1 < c.len() && c[q + 1] == ' ' {
            match find_from(c, pat, q + 2) {
                Some(t) => if no_newline(c, q + 2, t) {
                    Some((q, t + pat.len()))
                } else {
                    None
                },
                None => None,
            }
        } else {
            None
        }
    } else {
        None
    }
}

/// Bounds of a rewrite match.
pub proof fn lemma_update_match_bounds(c: Seq<char>, pat: Seq<char>, i: int)
    requires
        update_match_at(c, pat, i) is Some,
    ensures
        i + 3 < update_match_at(c, pat, i).unwrap().0 < update_match_at(c, pat, i).unwrap().1
            <= c.len(),
{
    lemma_next_close(c, i + 3);
    let q = next_close(c, i + 3);
    lemma_find_from(c, pat, q + 2);
}

/// The first position at or after `p` where a marker to rewrite starts.
pub open spec fn first_update_match(c: Seq<char>, pat: Seq<char>, p: int) -> Option<int>
    decreases c.len() + 1 - p,
{
    if p < 0 || p > c.len() {
        None
    } else if update_match_at(c, pat, p) is Some {
        Some(p)
    } else {
        first_update_match(c, pat, p + 1)
    }
}

/// `first_update_match` finds a position at or after `p`.
pub proof fn lemma_first_update_match(c: Seq<char>, pat: Seq<char>, p: int)
    requires
        0 <= p,
    ensures
        first_update_match(c, pat, p) matches Some(i) ==> p <= i && update_match_at(c, pat, i) is Some,
    decreases c.len() + 1 - p,
{
    if p <= c.len() && update_match_at(c, pat, p) is None {
        lemma_first_update_match(c, pat, p + 1);
    }
}

/// `c[p..]` with the bracketed text of every marker to rewrite (scanning
/// left to right, without overlap) replaced by the single character `m`.
pub open spec fn replace_markers(c: Seq<char>, pat: Seq<char>, p: int, m: char) -> Seq<char>
    decreases c.len() - p,
{
    if p < 0 || p > c.len() {
        seq![]
    } else {
        match first_update_match(c, pat, p) {
            None => c.subrange(p, c.len() as int),
            Some(i) => {
                proof {
                    lemma_first_update_match(c, pat, p);
                    lemma_update_match_bounds(c, pat, i);
                }
                let (q, e) = update_match_at(c, pat, i).unwrap();
                c.subrange(p, i + 3).push(m) + c.subrange(q, e) + replace_markers(c, pat, e, m)
            },
        }
    }
}

/// What rewriting the marker of task `id` to `status` gives: the rewritten
/// text when a task line naming `id` exists (the same text when every such
/// marker already reads that way), an error when none exists.
pub open spec fn update_marker_result(c: Seq<char>, id: Seq<char>, status: TaskStatus) -> Result<
    Seq<char>,
    ParseErrorView,
> {
    if first_update_match(c, id_pattern(id), 0) is Some {
        Ok(replace_markers(c, id_pattern(id), 0, marker_of_status(status)))
    } else {
        Err(syntax_at(0, "Task not found: "@ + id))
    }
}

/// A marker to read starts at `i`: `- [`, one status character, `] `, then
/// on the same line the first occurrence of `pat`.
pub open spec fn read_match_at(c: Seq<char>, pat: Seq<char>, i: int) -> bool {
    &&& occurs_at(c, open_marker(), i)
    &&& i + 5 < c.len()
    &&& status_of_marker(c[i + 3]) is Some
    &&& c[i + 4] == ']'
    &&& c[i + 5] == ' '
    &&& match find_from(c, pat, i + 6) {
        Some(t) => no_newline(c, i + 6, t),
        None => false,
    }
}

/// The first position at or after `p` where a marker to read starts.
pub open spec fn first_read_match(c: Seq<char>, pat: Seq<char>, p: int) -> Option<int>
    decreases c.len() + 1 - p,
{
    if p < 0 || p > c.len() {
        None
    } else if read_match_at(c, pat, p) {
        Some(p)
    } else {
        first_read_match(c, pat, p + 1)
    }
}

/// What reading the marker of task `id` gives.
pub open spec fn read_marker_result(c: Seq<char>, id: Seq<char>) -> Result<
    TaskStatus,
    ParseErrorView,
> {
    match first_read_match(c, id_pattern(id), 0) {
        Some(i) => Ok(status_of_marker(c[i + 3]).unwrap()),
        None => Err(syntax_at(0, "Task not found: "@ + id)),
    }
}

/// `id_pattern(id)` as a vector.
fn id_pattern_exec(id: &str) -> (v: Vec<char>)
    ensures
        v@ == id_pattern(id@),
{
    let idc = chars_of(id);
    let mut v: Vec<char> = Vec::new();
    v.push(' ');
    v.push('(');
    let mut k: usize = 0;
    while k < idc.len()
        invariant
            k <= idc@.len(),
            v@ == seq![' ', '('] + idc@.subrange(0, k as int),
        decreases idc@.len() - k,
    {
        v.push(idc[k]);
        k = k + 1;
        assert(v@ =~= seq![' ', '('] + idc@.subrange(0, k as int));
    }
    v.push(')');
    assert(v@ =~= id_pattern(id@));
    v
}

/// Decides whether `c[a..b]` holds no line feed.
fn no_newline_exec(c: &Vec<char>, a: usize, b: usize) -> (r: bool)
    requires
        a <= b <= c@.len(),
    ensures
        r == no_newline(c@, a as int, b as int),
{
    let mut k = a;
    while k < b
        invariant
            a <= k <= b <= c@.len(),
            no_newline(c@, a as int, k as int),
        decreases b - k,
    {
        if c[k] == '\n' {
            return false;
        }
        k = k + 1;
    }
    true
}

/// Decides `update_match_at`.
fn update_match_at_exec(c: &Vec<char>, pat: &Vec<char>, i: usize) -> (r: Option<(usize, usize)>)
    requires
        i <= c@.len(),
    ensures
        r matches Some(x) ==> update_match_at(c@, pat@, i as int) == Some((x.0 as int, x.1 as int)),
        r is None ==> update_match_at(c@, pat@, i as int) is None,
{
    let open = vec!['-', ' ', '['];
    assert(open@ == open_marker());
    if !occurs_at_exec(c, c.len(), i, &open) {
        assert(c@.subrange(0, c@.len() as int) =~= c@);
        return None;
    }
    assert(c@.subrange(0, c@.len() as int) =~= c@);
    let mut q = i + 3;
    while q < c.len() && c[q] != ']'
        invariant
            i + 3 <= q <= c@.len(),
            next_close(c@, i + 3) == next_close(c@, q as int),
        decreases c@.len() - q,
    {
        q = q + 1;
    }
    if !(q < c.len() && q > i + 3 && q + 1 < c.len() && c[q + 1] == ' ') {
        return None;
    }
    match find_exec(c, c.len(), q + 2, pat) {
        None => None,
        Some(t) => {
            proof {
                lemma_find_from(c@, pat@, q + 2);
            }
            if no_newline_exec(c, q + 2, t) {
                Some((q, t + pat.len()))
            } else {
                None
            }
        },
    }
}

/// The first marker to rewrite at or after `p`: where it starts, where its
/// `]` is, and where it ends.
fn next_update_match(c: &Vec<char>, pat: &Vec<char>, p: usize) -> (r: Option<(usize, usize, usize)>)
    requires
        p <= c@.len(),
    ensures
        r matches Some(x) ==> first_update_match(c@, pat@, p as int) == Some(x.0 as int)
            && update_match_at(c@, pat@, x.0 as int) == Some((x.1 as int, x.2 as int)),
        r is None ==> first_update_match(c@, pat@, p as int) is None,
{
    let mut i = p;
    while i < c.len()
        invariant
            p <= i <= c@.len(),
            first_update_match(c@, pat@, p as int) == first_update_match(c@, pat@, i as int),
        decreases c@.len() - i,
    {
        match update_match_at_exec(c, pat, i) {
            Some((q, e)) => {
                return Some((i, q, e));
            },
            None => {},
        }
        i = i + 1;
    }
    assert(update_match_at(c@, pat@, i as int) is None);
    assert(first_update_match(c@, pat@, i as int + 1) is None);
    None
}

/// Decides `read_match_at`.
fn read_match_at_exec(c: &Vec<char>, pat: &Vec<char>, i: usize) -> (r: bool)
    requires
        i <= c@.len(),
    ensures
        r == read_match_at(c@, pat@, i as int),
{
    let open = vec!['-', ' ', '['];
    assert(open@ == open_marker());
    assert(c@.subrange(0, c@.len() as int) =~= c@);
    if !occurs_at_exec(c, c.len(), i, &open) {
        return false;
    }
    if !(c.len() > 5 && i < c.len() - 5 && status_of_marker_exec(c[i + 3]).is_some() && c[i + 4]
        == ']' && c[i + 5] == ' ') {
        return false;
    }
    match find_exec(c, c.len(), i + 6, pat) {
        None => false,
        Some(t) => {
            proof {
                lemma_find_from(c@, pat@, i + 6);
            }
            no_newline_exec(c, i + 6, t)
        },
    }
}

/// Marker tracker for reading and updating task statuses in plan content.
pub struct MarkerTracker;

impl MarkerTracker {
    /// Rewrites the marker of every task line naming `task_id` (scanning left
    /// to right) to the character of `status`. Fails only when no such line
    /// exists; a task already in `status` keeps its text.
    pub fn update_marker_in_content(content: &str, task_id: &str, status: TaskStatus) -> (r:
        Result<String, ParseError>)
        ensures
            match update_marker_result(content@, task_id@, status) {
                Ok(s) => r matches Ok(x) && x@ == s,
                Err(e) => r matches Err(x) && x@ == e,
            },
    {
        let c = chars_of(content);
        let pat = id_pattern_exec(task_id);
        let m = marker_of_status_exec(status);
        let ghost pv = pat@;
        let ghost whole = replace_markers(c@, pv, 0, m);
        let mut out = String::new();
        let mut p: usize = 0;
        let mut found = false;
        loop
            invariant_except_break
                whole == out@ + replace_markers(c@, pv, p as int, m),
                !found ==> first_update_match(c@, pv, 0) == first_update_match(c@, pv, p as int),
            invariant
                p <= c@.len(),
                pat@ == pv,
                whole == replace_markers(c@, pv, 0, m),
                found ==> first_update_match(c@, pv, 0) is Some,
            ensures
                whole == out@,
                found <==> first_update_match(c@, pv, 0) is Some,
            decreases c@.len() - p,
        {
            match next_update_match(&c, &pat, p) {
                None => {
                    push_range(&mut out, &c, p, c.len());
                    break;
                },
                Some((i, q, e)) => {
                    proof {
                        lemma_update_match_bounds(c@, pv, i as int);
                        lemma_first_update_match(c@, pv, p as int);
                    }
                    push_range(&mut out, &c, p, i + 3);
                    push_char(&mut out, m);
                    push_range(&mut out, &c, q, e);
                    p = e;
                    found = true;
                },
            }
        }
        assert(out@ == whole);
        assert(c@ == content@);
        if !found {
            let mut msg = owned("Task not found: ");
            push_str(&mut msg, task_id);
            return Err(ParseError::syntax(0, msg));
        }
        Ok(out)
    }

    /// Reads the status of the first task line naming `task_id`.
    pub fn read_marker_from_content(content: &str, task_id: &str) -> (r: Result<
        TaskStatus,
        ParseError,
    >)
        ensures
            match read_marker_result(content@, task_id@) {
                Ok(s) => r == Ok::<TaskStatus, ParseError>(s),
                Err(e) => r matches Err(x) && x@ == e,
            },
    {
        let c = chars_of(content);
        let pat = id_pattern_exec(task_id);
        let mut i: usize = 0;
        while i < c.len()
            invariant
                i <= c@.len(),
                c@ == content@,
                pat@ == id_pattern(task_id@),
                first_read_match(c@, pat@, 0) == first_read_match(c@, pat@, i as int),
            decreases c@.len() - i,
        {
            if read_match_at_exec(&c, &pat, i) {
                let st = status_of_marker_exec(c[i + 3]);
                assert(first_read_match(c@, pat@, i as int) == Some(i as int));
                return Ok(st.unwrap());
            }
            i = i + 1;
        }
        assert(!read_match_at(c@, pat@, i as int));
        assert(first_read_match(c@, pat@, i as int + 1) is None);
        let mut msg = owned("Task not found: ");
        push_str(&mut msg, task_id);
        Err(ParseError::syntax(0, msg))
    }
}

/// `find_from` gives `j` when `p` occurs at `j` and nowhere in `[i, j)`.
proof fn lemma_find_from_at(s: Seq<char>, p: Seq<char>, i: int, j: int)
    requires
        0 <= i <= j,
        occurs_at(s, p, j),
        forall|t: int| i <= t < j ==> !occurs_at(s, p, t),
    ensures
        find_from(s, p, i) == Some(j),
    decreases j - i,
{
    if i < j {
        assert(!occurs_at(s, p, i));
        lemma_find_from_at(s, p, i + 1, j);
    }
}

/// `first_read_match` gives `i` when a marker to read starts at `i` and at
/// no position in `[p, i)`.
proof fn lemma_first_read_at(c: Seq<char>, pat: Seq<char>, p: int, i: int)
    requires
        0 <= p <= i,
        read_match_at(c, pat, i),
        forall|j: int| p <= j < i ==> !read_match_at(c, pat, j),
    ensures
        first_read_match(c, pat, p) == Some(i),
    decreases i - p,
{
    if p < i {
        assert(!read_match_at(c, pat, p));
        lemma_first_read_at(c, pat, p + 1, i);
    }
}

/// No marker to rewrite starts before the one that `first_update_match` finds.
proof fn lemma_first_update_min(c: Seq<char>, pat: Seq<char>, p: int)
    requires
        0 <= p,
    ensures
        first_update_match(c, pat, p) matches Some(i) ==> (forall|j: int|
            p <= j < i ==> update_match_at(c, pat, j) is None),
    decreases c.len() + 1 - p,
{
    if p <= c.len() && update_match_at(c, pat, p) is None {
        lemma_first_update_min(c, pat, p + 1);
        if let Some(i) = first_update_match(c, pat, p) {
            assert forall|j: int| p <= j < i implies update_match_at(c, pat, j) is None by {
                if j > p {
                }
            }
        }
    }
}

/// ` (ID)` holds a line feed only where the identifier does.
proof fn lemma_id_pattern_no_newline(id: Seq<char>)
    requires
        forall|k: int| 0 <= k < id.len() ==> id[k] != '\n',
    ensures
        forall|k: int| 0 <= k < id_pattern(id).len() ==> id_pattern(id)[k] != '\n',
{
    let pat = id_pattern(id);
    assert forall|k: int| 0 <= k < pat.len() implies pat[k] != '\n' by {
        if k < 2 {
        } else if k < 2 + id.len() {
            assert(pat[k] == id[k - 2]);
        } else {
            assert(pat[k] == ')');
        }
    }
}

/// Reading the marker of a task right after rewriting it gives the status
/// that was written. This holds where the identifier holds no line feed and
/// the bracketed text of the first marker that the rewrite replaced holds
/// none either.
#[verifier::rlimit(40)]
pub proof fn lemma_read_after_update(c: Seq<char>, id: Seq<char>, s: TaskStatus)
    requires
        update_marker_result(c, id, s) is Ok,
        forall|k: int| 0 <= k < id.len() ==> id[k] != '\n',
        first_update_match(c, id_pattern(id), 0) matches Some(i) ==> no_newline(
            c,
            i + 3,
            next_close(c, i + 3),
        ),
    ensures
        update_marker_result(c, id, s) matches Ok(out) && read_marker_result(out, id) == Ok::<
            TaskStatus,
            ParseErrorView,
        >(s),
{
    let pat = id_pattern(id);
    let m = marker_of_status(s);
    let out = replace_markers(c, pat, 0, m);
    lemma_first_update_match(c, pat, 0);
    lemma_first_update_min(c, pat, 0);
    let i0 = first_update_match(c, pat, 0).unwrap();
    lemma_update_match_bounds(c, pat, i0);
    lemma_next_close(c, i0 + 3);
    let q = next_close(c, i0 + 3);
    lemma_find_from(c, pat, q + 2);
    let t = find_from(c, pat, q + 2).unwrap();
    let e = t + pat.len();
    let d = q - i0 - 4;
    assert(update_match_at(c, pat, i0) == Some((q, e)));
    assert(out == c.subrange(0, i0 + 3).push(m) + c.subrange(q, e) + replace_markers(c, pat, e, m));
    assert(out.len() >= e - d);
    assert forall|x: int| 0 <= x < i0 + 3 implies out[x] == c[x] by {}
    assert(out[i0 + 3] == m);
    assert forall|x: int| i0 + 4 <= x < e - d implies out[x] == c[x + d] by {}
    lemma_marker_roundtrip(s);
    lemma_id_pattern_no_newline(id);
    // A marker to read starts where the first rewrite happened.
    assert(c.subrange(i0, i0 + 3) == open_marker());
    assert(out.subrange(i0, i0 + 3) =~= c.subrange(i0, i0 + 3));
    assert(occurs_at(c, pat, t));
    assert(out.subrange(t - d, t - d + pat.len()) =~= c.subrange(t, e));
    assert forall|u: int| i0 + 6 <= u < t - d implies !occurs_at(out, pat, u) by {
        if occurs_at(out, pat, u) {
            assert(c.subrange(u + d, u + d + pat.len()) =~= out.subrange(u, u + pat.len()));
            assert(occurs_at(c, pat, u + d));
        }
    }
    lemma_find_from_at(out, pat, i0 + 6, t - d);
    assert(no_newline(c, q + 2, t));
    assert forall|k: int| i0 + 6 <= k < t - d implies out[k] != '\n' by {
        assert(out[k] == c[k + d]);
    }
    assert(read_match_at(out, pat, i0));
    // No marker to read starts earlier.
    assert forall|j: int| 0 <= j < i0 implies !read_match_at(out, pat, j) by {
        if read_match_at(out, pat, j) {
            if j == i0 - 1 {
                assert(out[j + 4] == m);
            } else if j == i0 - 2 {
                assert(c.subrange(i0, i0 + 3)[2] == c[i0 + 2]);
                assert(out[j + 4] == c[i0 + 2]);
            } else {
                lemma_find_from(out, pat, j + 6);
                let tj = find_from(out, pat, j + 6).unwrap();
                assert(c.subrange(j, j + 3) =~= out.subrange(j, j + 3));
                assert(c[j + 3] == out[j + 3]);
                assert(c[j + 4] == out[j + 4]);
                assert(c[j + 5] == out[j + 5]);
                assert(next_close(c, j + 4) == j + 4);
                assert(next_close(c, j + 3) == j + 4);
                if tj + pat.len() <= i0 + 3 {
                    assert(c.subrange(tj, tj + pat.len()) =~= out.subrange(tj, tj + pat.len()));
                    assert forall|u: int| j + 6 <= u < tj implies !occurs_at(c, pat, u) by {
                        if occurs_at(c, pat, u) {
                            assert(out.subrange(u, u + pat.len()) =~= c.subrange(u, u + pat.len()));
                            assert(occurs_at(out, pat, u));
                        }
                    }
                    lemma_find_from_at(c, pat, j + 6, tj);
                    assert forall|k: int| j + 6 <= k < tj implies c[k] != '\n' by {
                        assert(out[k] == c[k]);
                    }
                } else {
                    assert forall|k: int| j + 6 <= k < t implies c[k] != '\n' by {
                        if k < i0 + 3 {
                            assert(out[k] == c[k]);
                            if k >= tj {
                                assert(out.subrange(tj, tj + pat.len())[k - tj] == out[k]);
                            }
                        } else if k < q {
                        } else if k < q + 2 {
                        } else {
                        }
                    }
                    lemma_find_from(c, pat, j + 6);
                    assert(occurs_at(c, pat, t));
                    let tc = find_from(c, pat, j + 6).unwrap();
                    assert(tc <= t);
                    assert(no_newline(c, j + 6, tc));
                }
                assert(update_match_at(c, pat, j) is Some);
            }
        }
    }
    lemma_first_read_at(out, pat, 0, i0);
    assert(update_marker_result(c, id, s) == Ok::<Seq<char>, ParseErrorView>(out));
}

} // verus!
