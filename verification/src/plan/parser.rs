//! Parsing plan content into task specifications.
use vstd::prelude::*;
use vstd::relations::{sorted_by, total_ordering};
use crate::errors::{ParseError, ParseErrorView};
use crate::plan::grammar::{
    contract_line, depends_line, files_line, is_blank_line, is_blank_line_exec, is_comment_line,
    is_comment_line_exec, keyword_value_exec, kw_contract_exec, kw_depends_exec, kw_files_exec,
    match_task_line, match_view, task_line,
};
use crate::text::{
    chars_of, decimal, is_ascii_digit, line_ranges, lines, owned, push_decimal, push_range,
    push_str, split_trimmed, split_trimmed_exec, string_of,
};
use crate::types::{new_task_view, strings_view, TaskSpec, TaskSpecView};

verus! {

/// The values of a sequence of tasks.
pub open spec fn tasks_view(v: Seq<TaskSpec>) -> Seq<TaskSpecView> {
    v.map_values(|t: TaskSpec| t@)
}

/// The identifiers of a sequence of task values.
pub open spec fn ids_of(v: Seq<TaskSpecView>) -> Seq<Seq<char>> {
    v.map_values(|t: TaskSpecView| t.id)
}

/// The syntax error that the parser reports at a line (numbered from one).
pub open spec fn syntax_at(line: int, message: Seq<char>) -> ParseErrorView {
    ParseErrorView::SyntaxError { line: line as u32, message }
}

/// `t` with every item of `items` appended to its files.
pub open spec fn with_files(t: TaskSpecView, items: Seq<Seq<char>>) -> TaskSpecView {
    TaskSpecView { files: t.files + items, ..t }
}

/// `t` with every item of `items` appended to its dependencies.
pub open spec fn with_deps(t: TaskSpecView, items: Seq<Seq<char>>) -> TaskSpecView {
    TaskSpecView { dependencies: t.dependencies + items, ..t }
}

/// The detail lines of a task, from line `j` on: files, contracts and
/// dependencies are added to `t` until a blank line, a task line or the end;
/// comment lines are passed over; any other line is an error. On success,
/// gives the completed task and the index of the first line after it.
pub open spec fn parse_details(ls: Seq<Seq<char>>, j: int, t: TaskSpecView) -> Result<
    (TaskSpecView, int),
    ParseErrorView,
>
    decreases ls.len() - j,
{
    if j < 0 || j >= ls.len() {
        Ok((t, j))
    } else {
        let line = ls[j];
        if is_blank_line(line) || task_line(line) is Some {
            Ok((t, j))
        } else if is_comment_line(line) {
            parse_details(ls, j + 1, t)
        } else if let Some(fs) = files_line(line) {
            parse_details(
                ls,
                j + 1,
                if fs.len() == 0 {
                    t
                } else {
                    with_files(t, split_trimmed(fs, ','))
                },
            )
        } else if let Some(ct) = contract_line(line) {
            parse_details(
                ls,
                j + 1,
                if ct.len() == 0 {
                    t
                } else {
                    TaskSpecView { contracts: t.contracts.push(ct), ..t }
                },
            )
        } else if let Some(ds) = depends_line(line) {
            parse_details(
                ls,
                j + 1,
                if ds.len() == 0 {
                    t
                } else {
                    with_deps(t, split_trimmed(ds, ','))
                },
            )
        } else {
            Err(syntax_at(j + 1, "Invalid line: "@ + line))
        }
    }
}

/// Detail parsing moves forward.
pub proof fn lemma_details_progress(ls: Seq<Seq<char>>, j: int, t: TaskSpecView)
    requires
        0 <= j,
    ensures
        parse_details(ls, j, t) matches Ok((_, k)) ==> j <= k && (j <= ls.len() ==> k <= ls.len()),
    decreases ls.len() - j,
{
    if j < ls.len() {
        let line = ls[j];
        if is_blank_line(line) || task_line(line) is Some {
        } else if is_comment_line(line) {
            lemma_details_progress(ls, j + 1, t);
        } else if let Some(fs) = files_line(line) {
            lemma_details_progress(
                ls,
                j + 1,
                if fs.len() == 0 {
                    t
                } else {
                    with_files(t, split_trimmed(fs, ','))
                },
            );
        } else if let Some(ct) = contract_line(line) {
            lemma_details_progress(
                ls,
                j + 1,
                if ct.len() == 0 {
                    t
                } else {
                    TaskSpecView { contracts: t.contracts.push(ct), ..t }
                },
            );
        } else if let Some(ds) = depends_line(line) {
            lemma_details_progress(
                ls,
                j + 1,
                if ds.len() == 0 {
                    t
                } else {
                    with_deps(t, split_trimmed(ds, ','))
                },
            );
        }
    }
}

/// The lines of a plan from line `i` on, after the tasks in `acc`: blank and
/// comment lines are passed over, every other line must be a task line with
/// an identifier not used before, followed by its detail lines.
pub open spec fn parse_from(ls: Seq<Seq<char>>, i: int, acc: Seq<TaskSpecView>) -> Result<
    Seq<TaskSpecView>,
    ParseErrorView,
>
    decreases ls.len() - i,
{
    if i < 0 || i >= ls.len() {
        Ok(acc)
    } else {
        let line = ls[i];
        if is_blank_line(line) || is_comment_line(line) {
            parse_from(ls, i + 1, acc)
        } else {
            match task_line(line) {
                None => Err(syntax_at(i + 1, "Invalid line format: "@ + line)),
                Some(tl) => match tl.id {
                    None => Err(syntax_at(i + 1, "Task missing identifier"@)),
                    Some(id) => if ids_of(acc).contains(id) {
                        Err(ParseErrorView::DuplicateId { line: (i + 1) as u32, id })
                    } else {
                        let t0 = TaskSpecView { status: tl.status, ..new_task_view(id, tl.title) };
                        match parse_details(ls, i + 1, t0) {
                            Err(e) => Err(e),
                            Ok((t, j)) => {
                                proof {
                                    lemma_details_progress(ls, i + 1, t0);
                                }
                                parse_from(ls, j, acc.push(t))
                            },
                        }
                    },
                },
            }
        }
    }
}

// ------------------------------------------------------------------
// Numeric identifiers
// ------------------------------------------------------------------

/// The value of a string of decimal digits.
pub open spec fn digits_value(s: Seq<char>) -> nat
    decreases s.len(),
{
    if s.len() == 0 {
        0
    } else {
        digits_value(s.drop_last()) * 10 + ((s.last() as nat) - 48) as nat
    }
}

/// `s` without one leading `+`.
pub open spec fn unsigned_digits(s: Seq<char>) -> Seq<char> {
    if s.len() > 0 && s[0] == '+' {
        s.drop_first()
    } else {
        s
    }
}

/// Every character of `d` is an ASCII digit.
pub open spec fn all_digits(d: Seq<char>) -> bool {
    forall|i: int| 0 <= i < d.len() ==> is_ascii_digit(#[trigger] d[i])
}

/// `str::parse::<u32>`: an optional `+`, then one or more ASCII digits whose
/// value fits in 32 bits.
pub open spec fn parse_u32(s: Seq<char>) -> Option<u32> {
    let d = unsigned_digits(s);
    if d.len() > 0 && all_digits(d) && digits_value(d) <= u32::MAX {
        Some(digits_value(d) as u32)
    } else {
        None
    }
}

/// A longer run of digits is worth at least as much.
proof fn lemma_digits_value_push(s: Seq<char>, c: char)
    requires
        is_ascii_digit(c),
    ensures
        digits_value(s.push(c)) == digits_value(s) * 10 + ((c as nat) - 48) as nat,
        digits_value(s.push(c)) >= digits_value(s),
{
    assert(s.push(c).drop_last() =~= s);
    assert(digits_value(s) * 10 >= digits_value(s)) by (nonlinear_arith);
}

/// Parses a 32-bit unsigned number as `str::parse::<u32>` does.
pub fn parse_u32_exec(s: &String) -> (r: Option<u32>)
    ensures
        r == parse_u32(s@),
{
    let c = chars_of(s.as_str());
    let ghost sv = s@;
    let start: usize = if c.len() > 0 && c[0] == '+' {
        1
    } else {
        0
    };
    let ghost d = unsigned_digits(sv);
    assert(d =~= c@.subrange(start as int, c@.len() as int));
    if start >= c.len() {
        return None;
    }
    let mut acc: u64 = 0;
    let mut big = false;
    let mut i = start;
    while i < c.len()
        invariant
            start <= i <= c@.len(),
            d == c@.subrange(start as int, c@.len() as int),
            sv == s@,
            d == unsigned_digits(sv),
            forall|t: int| start <= t < i ==> is_ascii_digit(#[trigger] c@[t]),
            !big ==> acc as nat == digits_value(c@.subrange(start as int, i as int)),
            !big ==> acc <= u32::MAX,
            big ==> digits_value(c@.subrange(start as int, i as int)) > u32::MAX,
        decreases c@.len() - i,
    {
        let ch = c[i];
        if !('0' <= ch && ch <= '9') {
            assert(!is_ascii_digit(d[i - start]));
            assert(!all_digits(d));
            assert(parse_u32(s@) is None);
            return None;
        }
        let dv = (ch as u32 - 48) as u64;
        proof {
            lemma_digits_value_push(c@.subrange(start as int, i as int), ch);
            assert(c@.subrange(start as int, i as int).push(ch) =~= c@.subrange(
                start as int,
                i + 1,
            ));
        }
        if !big {
            let next = acc * 10 + dv;
            if next > 0xFFFF_FFFFu64 {
                big = true;
            } else {
                acc = next;
            }
        }
        i = i + 1;
    }
    assert(c@.subrange(start as int, c@.len() as int) == d);
    if big {
        None
    } else {
        Some(acc as u32)
    }
}

/// The first index, at or after `i`, of a task whose identifier is not a
/// 32-bit number, or the length.
pub open spec fn first_non_numeric(ts: Seq<TaskSpecView>, i: int) -> int
    decreases ts.len() - i,
{
    if i < 0 || i >= ts.len() {
        ts.len() as int
    } else if parse_u32(ts[i].id) is None {
        i
    } else {
        first_non_numeric(ts, i + 1)
    }
}

/// The numbers of the identifiers, when every identifier is one.
pub open spec fn numeric_ids(ts: Seq<TaskSpecView>) -> Seq<u32> {
    ts.map_values(|t: TaskSpecView| parse_u32(t.id).unwrap())
}

/// The order of unsigned numbers.
pub open spec fn u32_leq() -> spec_fn(u32, u32) -> bool {
    |a: u32, b: u32| a <= b
}

/// The first position `i` at or after `k` of the sorted numbers `s` where
/// `s[i]` is not `i + 1`, or the length.
pub open spec fn first_gap(s: Seq<u32>, k: int) -> int
    decreases s.len() - k,
{
    if k < 0 || k >= s.len() {
        s.len() as int
    } else if s[k] != ((k + 1) as u32) {
        k
    } else {
        first_gap(s, k + 1)
    }
}

/// The check that identifiers are the numbers 1 to n, each once.
pub open spec fn sequential_ids_check(ts: Seq<TaskSpecView>) -> Result<(), ParseErrorView> {
    let bad = first_non_numeric(ts, 0);
    if bad < ts.len() {
        Err(syntax_at(0, "Task ID must be numeric: "@ + ts[bad].id))
    } else {
        let s = numeric_ids(ts).sort_by(u32_leq());
        let g = first_gap(s, 0);
        if g < s.len() {
            Err(
                syntax_at(
                    0,
                    "Tasks must have sequential numeric IDs. Expected "@ + decimal(
                        ((g + 1) as u32) as nat,
                    ) + " but found "@ + decimal(s[g] as nat),
                ),
            )
        } else {
            Ok(())
        }
    }
}

/// `first_non_numeric` reaches the end exactly when every identifier from
/// `i` on is a 32-bit number.
proof fn lemma_first_non_numeric(ts: Seq<TaskSpecView>, i: int)
    requires
        0 <= i <= ts.len(),
    ensures
        first_non_numeric(ts, i) <= ts.len(),
        first_non_numeric(ts, i) == ts.len() <==> forall|j: int|
            i <= j < ts.len() ==> (#[trigger] parse_u32(ts[j].id)) is Some,
    decreases ts.len() - i,
{
    if i < ts.len() {
        lemma_first_non_numeric(ts, i + 1);
        if parse_u32(ts[i].id) is None {
            assert(first_non_numeric(ts, i) == i);
        }
    }
}

/// `first_gap` reaches the end exactly when each number from `k` on is its
/// position plus one, taken as a 32-bit number.
proof fn lemma_first_gap(s: Seq<u32>, k: int)
    requires
        0 <= k <= s.len(),
    ensures
        first_gap(s, k) <= s.len(),
        first_gap(s, k) == s.len() <==> forall|j: int|
            k <= j < s.len() ==> #[trigger] s[j] == ((j + 1) as u32),
    decreases s.len() - k,
{
    if k < s.len() {
        lemma_first_gap(s, k + 1);
    }
}

/// In ascending numbers where each is its position plus one as a 32-bit
/// number, each is its position plus one exactly.
proof fn lemma_no_wrap(s: Seq<u32>, j: int)
    requires
        sorted_by(s, u32_leq()),
        forall|i: int| 0 <= i < s.len() ==> #[trigger] s[i] == ((i + 1) as u32),
        0 <= j < s.len(),
    ensures
        s[j] as int == j + 1,
    decreases j,
{
    if j > 0 {
        lemma_no_wrap(s, j - 1);
        assert(u32_leq()(s[j - 1], s[j]));
        if j + 1 > u32::MAX {
            assert(j + 1 == 0x1_0000_0000int);
            let x: u64 = 0x1_0000_0000u64;
            assert(x as u32 == 0u32) by (bit_vector)
                requires
                    x == 0x1_0000_0000u64,
            ;
            assert((j + 1) as u32 == x as u32);
            assert(s[j] == 0u32);
        }
    }
}

/// The sequential-identifier check succeeds exactly when every identifier
/// is a 32-bit number and the numbers, in ascending order, are 1, 2, ..., n:
/// the k-th smallest is k + 1, so the smallest is 1 and none is missing or
/// repeated.
pub proof fn lemma_sequential_ids(ts: Seq<TaskSpecView>)
    ensures
        sequential_ids_check(ts) is Ok <==> {
            &&& forall|i: int| 0 <= i < ts.len() ==> (#[trigger] parse_u32(ts[i].id)) is Some
            &&& forall|k: int|
                0 <= k < ts.len() ==> (#[trigger] numeric_ids(ts).sort_by(u32_leq())[k]) as int
                    == k + 1
        },
{
    lemma_first_non_numeric(ts, 0);
    let leq = u32_leq();
    let s = numeric_ids(ts).sort_by(leq);
    assert(total_ordering(leq));
    numeric_ids(ts).lemma_sort_by_ensures(leq);
    assert(s.len() == ts.len()) by {
        vstd::seq_lib::to_multiset_len(s);
        vstd::seq_lib::to_multiset_len(numeric_ids(ts));
    }
    lemma_first_gap(s, 0);
    if first_gap(s, 0) == s.len() {
        assert forall|k: int| 0 <= k < s.len() implies (#[trigger] s[k]) as int == k + 1 by {
            lemma_no_wrap(s, k);
        }
    }
    if forall|k: int| 0 <= k < s.len() ==> (#[trigger] s[k]) as int == k + 1 {
        assert forall|j: int| 0 <= j < s.len() implies #[trigger] s[j] == ((j + 1) as u32) by {
            assert(s[j] as int == j + 1);
        }
    }
}

/// Calls `slice::sort_unstable`: afterwards the numbers are in ascending
/// order and are the same numbers as before, as its documentation says.
#[verifier::external_body]
fn sort_u32(v: &mut Vec<u32>)
    ensures
        sorted_by(final(v)@, u32_leq()),
        final(v)@.to_multiset() == old(v)@.to_multiset(),
{
    v.sort_unstable();
}

/// Validates that tasks have the sequential numeric identifiers 1 to n.
pub fn validate_sequential_ids(tasks: &Vec<TaskSpec>) -> (r: Result<(), ParseError>)
    ensures
        match sequential_ids_check(tasks_view(tasks@)) {
            Ok(()) => r is Ok,
            Err(e) => r matches Err(x) && x@ == e,
        },
        r is Ok <==> {
            &&& forall|i: int|
                0 <= i < tasks@.len() ==> (#[trigger] parse_u32(tasks@[i].id@)) is Some
            &&& forall|k: int|
                0 <= k < tasks@.len() ==> (#[trigger] numeric_ids(tasks_view(tasks@)).sort_by(
                    u32_leq(),
                )[k]) as int == k + 1
        },
{
    let ghost ts = tasks_view(tasks@);
    proof {
        lemma_sequential_ids(ts);
    }
    let mut nums: Vec<u32> = Vec::new();
    let mut i: usize = 0;
    while i < tasks.len()
        invariant
            i <= tasks@.len(),
            ts == tasks_view(tasks@),
            first_non_numeric(ts, 0) == first_non_numeric(ts, i as int),
            nums@ == numeric_ids(ts).subrange(0, i as int),
        decreases tasks@.len() - i,
    {
        match parse_u32_exec(&tasks[i].id) {
            Some(n) => {
                nums.push(n);
                assert(nums@ =~= numeric_ids(ts).subrange(0, i + 1));
            },
            None => {
                let mut m = owned("Task ID must be numeric: ");
                push_str(&mut m, tasks[i].id.as_str());
                return Err(ParseError::syntax(0, m));
            },
        }
        i = i + 1;
    }
    assert(nums@ =~= numeric_ids(ts));
    let ghost unsorted = nums@;
    sort_u32(&mut nums);
    proof {
        let leq = u32_leq();
        assert(total_ordering(leq));
        unsorted.lemma_sort_by_ensures(leq);
        vstd::seq_lib::lemma_sorted_unique(nums@, unsorted.sort_by(leq), leq);
    }
    let mut k: usize = 0;
    while k < nums.len()
        invariant
            k <= nums@.len(),
            first_gap(nums@, 0) == first_gap(nums@, k as int),
            nums@ == numeric_ids(ts).sort_by(u32_leq()),
            first_non_numeric(ts, 0) == ts.len(),
            ts == tasks_view(tasks@),
        decreases nums@.len() - k,
    {
        let expected = (k + 1) as u32;
        if nums[k] != expected {
            assert(first_gap(nums@, k as int) == k as int);
            assert(expected as u64 as nat == ((k as int + 1) as u32) as nat);
            let mut m = owned("Tasks must have sequential numeric IDs. Expected ");
            push_decimal(&mut m, expected as u64);
            push_str(&mut m, " but found ");
            push_decimal(&mut m, nums[k] as u64);
            let ghost sorted = numeric_ids(ts).sort_by(u32_leq());
            assert(first_gap(sorted, 0) == k as int);
            assert(m@ == "Tasks must have sequential numeric IDs. Expected "@ + decimal(
                ((k as int + 1) as u32) as nat,
            ) + " but found "@ + decimal(sorted[k as int] as nat));
            assert(first_non_numeric(ts, 0) >= ts.len());
            proof {
                lemma_sequential_ids(ts);
            }
            return Err(ParseError::syntax(0, m));
        }
        k = k + 1;
    }
    proof {
        lemma_sequential_ids(ts);
        assert forall|i: int| 0 <= i < tasks@.len() implies (#[trigger] parse_u32(
            tasks@[i].id@,
        )) is Some by {
            assert(ts[i].id == tasks@[i].id@);
            assert(parse_u32(ts[i].id) is Some);
        }
    }
    Ok(())
}

// ------------------------------------------------------------------
// The whole plan
// ------------------------------------------------------------------

/// What parsing plan content gives: the tasks of its lines, provided their
/// identifiers are the numbers 1 to n.
pub open spec fn plan_of(content: Seq<char>) -> Result<Seq<TaskSpecView>, ParseErrorView> {
    match parse_from(lines(content), 0, seq![]) {
        Err(e) => Err(e),
        Ok(ts) => match sequential_ids_check(ts) {
            Err(e) => Err(e),
            Ok(()) => Ok(ts),
        },
    }
}

/// Whether `tasks` already holds a task with identifier `id`.
fn has_id(tasks: &Vec<TaskSpec>, id: &String) -> (r: bool)
    ensures
        r == ids_of(tasks_view(tasks@)).contains(id@),
{
    let mut i: usize = 0;
    while i < tasks.len()
        invariant
            i <= tasks@.len(),
            forall|k: int| 0 <= k < i ==> tasks@[k].id@ != id@,
        decreases tasks@.len() - i,
    {
        if tasks[i].id == *id {
            assert(ids_of(tasks_view(tasks@))[i as int] == id@);
            return true;
        }
        i = i + 1;
    }
    proof {
        if ids_of(tasks_view(tasks@)).contains(id@) {
            let k = choose|k: int|
                0 <= k < ids_of(tasks_view(tasks@)).len() && ids_of(tasks_view(tasks@))[k] == id@;
            assert(tasks@[k].id@ == id@);
        }
    }
    false
}

/// Appends a copy of each string of `items`, in order.
fn push_all(target: &mut Vec<String>, items: Vec<String>)
    ensures
        strings_view(final(target)@) == strings_view(old(target)@) + strings_view(items@),
{
    let ghost start = target@;
    let mut k: usize = 0;
    while k < items.len()
        invariant
            k <= items@.len(),
            target@.len() == start.len() + k,
            forall|t: int| 0 <= t < start.len() ==> (#[trigger] target@[t])@ == start[t]@,
            forall|t: int| 0 <= t < k ==> (#[trigger] target@[start.len() + t])@ == items@[t]@,
        decreases items@.len() - k,
    {
        let s = items[k].clone();
        target.push(s);
        k = k + 1;
    }
    assert forall|t: int| 0 <= t < target@.len() implies strings_view(target@)[t] == (
    strings_view(start) + strings_view(items@))[t] by {
        if t >= start.len() {
            assert(target@[start.len() + (t - start.len())] == target@[t]);
        }
    }
    assert(strings_view(target@) =~= strings_view(start) + strings_view(items@));
}

/// Parses plan content.
///
/// Errors: a line that is neither blank, a comment nor a task line; a task
/// line without an identifier; an identifier used twice; a detail line that
/// is none of `Files:`, `Contract`, `Depends on`, a comment; identifiers
/// that are not the numbers 1 to n.
pub fn parse_plan_content(content: &str) -> (r: Result<Vec<TaskSpec>, ParseError>)
    ensures
        match plan_of(content@) {
            Ok(ts) => r matches Ok(v) && tasks_view(v@) == ts,
            Err(e) => r matches Err(x) && x@ == e,
        },
{
    let c = chars_of(content);
    let ls = line_ranges(&c);
    let ghost lv = lines(c@);
    let ghost whole = parse_from(lv, 0, seq![]);
    assert(lines(content@) == lv);
    let mut tasks: Vec<TaskSpec> = Vec::new();
    let mut i: usize = 0;
    assert(tasks_view(tasks@) =~= seq![]);
    let kw_f = kw_files_exec();
    let kw_c = kw_contract_exec();
    let kw_d = kw_depends_exec();
    while i < ls.len()
        invariant
            ls@.len() == lv.len(),
            lv == lines(c@),
            forall|k: int|
                0 <= k < ls@.len() ==> {
                    &&& (#[trigger] ls@[k]).0 <= ls@[k].1 <= c@.len()
                    &&& c@.subrange(ls@[k].0 as int, ls@[k].1 as int) == lv[k]
                },
            i <= ls@.len(),
            parse_from(lv, i as int, tasks_view(tasks@)) == whole,
            whole == parse_from(lv, 0, seq![]),
            lines(content@) == lv,
            kw_f@ == crate::plan::grammar::kw_files(),
            kw_c@ == crate::plan::grammar::kw_contract(),
            kw_d@ == crate::plan::grammar::kw_depends(),
        decreases ls@.len() - i,
    {
        let (lo, hi) = ls[i];
        let ghost line = lv[i as int];
        assert(line == c@.subrange(lo as int, hi as int));
        if is_blank_line_exec(&c, lo, hi) || is_comment_line_exec(&c, lo, hi) {
            i = i + 1;
            continue;
        }
        let tm = match_task_line(&c, lo, hi);
        if tm.is_none() {
            let mut m = owned("Invalid line format: ");
            push_range(&mut m, &c, lo, hi);
            let e = ParseError::syntax((i + 1) as u32, m);
            assert(whole == Err::<Seq<TaskSpecView>, ParseErrorView>(e@));
            assert(plan_of(content@) == Err::<Seq<TaskSpecView>, ParseErrorView>(e@));
            return Err(e);
        }
        let tm = tm.unwrap();
        let ghost tl = match_view(c@, tm);
        if tm.id.is_none() {
            let e = ParseError::syntax((i + 1) as u32, owned("Task missing identifier"));
            assert(whole == Err::<Seq<TaskSpecView>, ParseErrorView>(e@));
            assert(plan_of(content@) == Err::<Seq<TaskSpecView>, ParseErrorView>(e@));
            return Err(e);
        }
        let (ilo, ihi) = tm.id.unwrap();
        let id = string_of(&c, ilo, ihi);
        if has_id(&tasks, &id) {
            let e = ParseError::DuplicateId { line: (i + 1) as u32, id };
            assert(whole == Err::<Seq<TaskSpecView>, ParseErrorView>(e@));
            assert(plan_of(content@) == Err::<Seq<TaskSpecView>, ParseErrorView>(e@));
            return Err(e);
        }
        let title = string_of(&c, tm.title_lo, tm.title_hi);
        let mut task = TaskSpec::from_parts(id, title);
        task.set_status(tm.status);
        let ghost t0 = task@;
        assert(t0 == TaskSpecView { status: tl.status, ..new_task_view(tl.id.unwrap(), tl.title) });
        assert(whole == match parse_details(lv, i + 1, t0) {
            Err(e) => Err(e),
            Ok((t, j)) => parse_from(lv, j, tasks_view(tasks@).push(t)),
        });
        let mut j = i + 1;
        loop
            invariant_except_break
                parse_details(lv, i + 1, t0) == parse_details(lv, j as int, task@),
            invariant
                ls@.len() == lv.len(),
                lv == lines(c@),
                forall|k: int|
                    0 <= k < ls@.len() ==> {
                        &&& (#[trigger] ls@[k]).0 <= ls@[k].1 <= c@.len()
                        &&& c@.subrange(ls@[k].0 as int, ls@[k].1 as int) == lv[k]
                    },
                i < j <= ls@.len(),
                kw_f@ == crate::plan::grammar::kw_files(),
                kw_c@ == crate::plan::grammar::kw_contract(),
                kw_d@ == crate::plan::grammar::kw_depends(),
                whole == parse_from(lv, 0, seq![]),
                whole == match parse_details(lv, i + 1, t0) {
                    Err(e) => Err(e),
                    Ok((t, j)) => parse_from(lv, j, tasks_view(tasks@).push(t)),
                },
                lines(content@) == lv,
            ensures
                parse_details(lv, i + 1, t0) == Ok::<(TaskSpecView, int), ParseErrorView>(
                    (task@, j as int),
                ),
                i < j <= ls@.len(),
            decreases ls@.len() - j,
        {
            if j >= ls.len() {
                break;
            }
            let (dlo, dhi) = ls[j];
            let ghost dline = lv[j as int];
            assert(dline == c@.subrange(dlo as int, dhi as int));
            if is_blank_line_exec(&c, dlo, dhi) || match_task_line(&c, dlo, dhi).is_some() {
                break;
            }
            if is_comment_line_exec(&c, dlo, dhi) {
                j = j + 1;
                continue;
            }
            if let Some((a, b)) = keyword_value_exec(&c, dlo, dhi, &kw_f, false) {
                if a < b {
                    let items = split_trimmed_exec(&c, a, b, ',');
                    let ghost iv = items@.map_values(|x: String| x@);
                    assert(strings_view(items@) == iv);
                    push_all(&mut task.files, items);
                }
                j = j + 1;
                continue;
            }
            if let Some((a, b)) = keyword_value_exec(&c, dlo, dhi, &kw_c, true) {
                if a < b {
                    let ct = string_of(&c, a, b);
                    task.push_contract(ct);
                }
                j = j + 1;
                continue;
            }
            if let Some((a, b)) = keyword_value_exec(&c, dlo, dhi, &kw_d, true) {
                if a < b {
                    let items = split_trimmed_exec(&c, a, b, ',');
                    let ghost iv = items@.map_values(|x: String| x@);
                    assert(strings_view(items@) == iv);
                    push_all(&mut task.dependencies, items);
                }
                j = j + 1;
                continue;
            }
            let mut m = owned("Invalid line: ");
            push_range(&mut m, &c, dlo, dhi);
            let e = ParseError::syntax((j + 1) as u32, m);
            assert(parse_details(lv, j as int, task@) == Err::<(TaskSpecView, int), ParseErrorView>(e@));
            assert(whole == Err::<Seq<TaskSpecView>, ParseErrorView>(e@));
            assert(plan_of(content@) == Err::<Seq<TaskSpecView>, ParseErrorView>(e@));
            return Err(e);
        }
        let ghost acc_before = tasks_view(tasks@);
        tasks.push(task);
        assert(tasks_view(tasks@) =~= acc_before.push(task@));
        i = j;
    }
    assert(parse_from(lv, i as int, tasks_view(tasks@)) == Ok::<
        Seq<TaskSpecView>,
        ParseErrorView,
    >(tasks_view(tasks@)));
    match validate_sequential_ids(&tasks) {
        Ok(()) => Ok(tasks),
        Err(e) => Err(e),
    }
}

} // verus!
