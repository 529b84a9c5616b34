//! The line grammar of plan files.
//!
//! A plan is a sequence of lines. A task line reads `- [S] Title (ID)`
//! where `S` is one of ` `, `x`, `!`, `~`, `-`; detail lines under it read
//! `Files: a, b`, `Contract: text` or `Depends on: 1, 2`; blank lines and
//! lines starting with `#` are ignored.
use vstd::prelude::*;
use crate::text::{
    char_is_ws, range_starts_with, regex_word_or_hyphen, starts_with, trim, trim_range, trim_start,
    word_or_hyphen, is_blank,
};
use crate::types::TaskStatus;

verus! {

/// The status that a marker character stands for.
pub open spec fn status_of_marker(c: char) -> Option<TaskStatus> {
    if c == ' ' {
        Some(TaskStatus::Pending)
    } else if c == 'x' {
        Some(TaskStatus::Completed)
    } else if c == '!' {
        Some(TaskStatus::Failed)
    } else if c == '~' {
        Some(TaskStatus::InProgress)
    } else if c == '-' {
        Some(TaskStatus::Skipped)
    } else {
        None
    }
}

/// The marker character written for a status.
pub open spec fn marker_of_status(s: TaskStatus) -> char {
    match s {
        TaskStatus::Pending => ' ',
        TaskStatus::InProgress => '~',
        TaskStatus::Completed => 'x',
        TaskStatus::Failed => '!',
        TaskStatus::Skipped => '-',
    }
}

/// Decides `status_of_marker`.
pub fn status_of_marker_exec(c: char) -> (r: Option<TaskStatus>)
    ensures
        r == status_of_marker(c),
{
    if c == ' ' {
        Some(TaskStatus::Pending)
    } else if c == 'x' {
        Some(TaskStatus::Completed)
    } else if c == '!' {
        Some(TaskStatus::Failed)
    } else if c == '~' {
        Some(TaskStatus::InProgress)
    } else if c == '-' {
        Some(TaskStatus::Skipped)
    } else {
        None
    }
}

/// Computes `marker_of_status`.
pub fn marker_of_status_exec(s: TaskStatus) -> (r: char)
    ensures
        r == marker_of_status(s),
{
    match s {
        TaskStatus::Pending => ' ',
        TaskStatus::InProgress => '~',
        TaskStatus::Completed => 'x',
        TaskStatus::Failed => '!',
        TaskStatus::Skipped => '-',
    }
}

/// Every status has a marker, and reading that marker gives the status back.
pub proof fn lemma_marker_roundtrip(s: TaskStatus)
    ensures
        status_of_marker(marker_of_status(s)) == Some(s),
{
}

/// `r` ends, from position `k` on, with ` (ID)` where the identifier is a
/// non-empty run of `[\w-]` characters.
pub open spec fn id_suffix_at(r: Seq<char>, k: int) -> bool {
    &&& 0 <= k
    &&& k + 3 < r.len() + 0
    &&& r[k] == ' '
    &&& r[k + 1] == '('
    &&& r.last() == ')'
    &&& forall|t: int| k + 2 <= t < r.len() - 1 ==> regex_word_or_hyphen(#[trigger] r[t])
}

/// Where the identifier suffix of `r` starts, if `r` has one.
pub open spec fn id_split(r: Seq<char>) -> Option<int> {
    if exists|k: int| id_suffix_at(r, k) {
        Some(choose|k: int| id_suffix_at(r, k))
    } else {
        None
    }
}

/// The parts of a task line: its status, its trimmed title and, when the
/// line ends with ` (ID)`, its identifier.
pub struct TaskLineView {
    pub status: TaskStatus,
    pub title: Seq<char>,
    pub id: Option<Seq<char>>,
}

/// Matches `line` against `- [S] TITLE( (ID))?` anchored at both ends.
pub open spec fn task_line(line: Seq<char>) -> Option<TaskLineView> {
    if line.len() >= 6 && line[0] == '-' && line[1] == ' ' && line[2] == '[' && status_of_marker(
        line[3],
    ) is Some && line[4] == ']' && line[5] == ' ' {
        let r = line.subrange(6, line.len() as int);
        let st = status_of_marker(line[3]).unwrap();
        match id_split(r) {
            Some(k) => Some(
                TaskLineView {
                    status: st,
                    title: trim(r.subrange(0, k)),
                    id: Some(r.subrange(k + 2, r.len() - 1)),
                },
            ),
            None => Some(TaskLineView { status: st, title: trim(r), id: None }),
        }
    } else {
        None
    }
}

/// `Files:` as characters.
pub open spec fn kw_files() -> Seq<char> {
    seq!['F', 'i', 'l', 'e', 's', ':']
}

/// `Contract` as characters.
pub open spec fn kw_contract() -> Seq<char> {
    seq!['C', 'o', 'n', 't', 'r', 'a', 'c', 't']
}

/// `Depends on` as characters.
pub open spec fn kw_depends() -> Seq<char> {
    seq!['D', 'e', 'p', 'e', 'n', 'd', 's', ' ', 'o', 'n']
}

/// `#` as characters.
pub open spec fn kw_hash() -> Seq<char> {
    seq!['#']
}

/// A blank line: nothing but white space.
pub open spec fn is_blank_line(line: Seq<char>) -> bool {
    trim(line).len() == 0
}

/// A comment line: its first non-space character is `#`.
pub open spec fn is_comment_line(line: Seq<char>) -> bool {
    starts_with(trim(line), kw_hash())
}

/// The text after a keyword that starts `trim_start(line)`, with one colon
/// after the keyword dropped when `optional_colon` and it is there, trimmed.
pub open spec fn keyword_value(line: Seq<char>, kw: Seq<char>, optional_colon: bool) -> Option<
    Seq<char>,
> {
    let t = trim_start(line);
    if starts_with(t, kw) {
        let rest = t.subrange(kw.len() as int, t.len() as int);
        if optional_colon && rest.len() > 0 && rest[0] == ':' {
            Some(trim(rest.drop_first()))
        } else {
            Some(trim(rest))
        }
    } else {
        None
    }
}

/// `Files: ...`: the trimmed list.
pub open spec fn files_line(line: Seq<char>) -> Option<Seq<char>> {
    keyword_value(line, kw_files(), false)
}

/// `Contract:? ...`: the trimmed contract text.
pub open spec fn contract_line(line: Seq<char>) -> Option<Seq<char>> {
    keyword_value(line, kw_contract(), true)
}

/// `Depends on:? ...`: the trimmed list.
pub open spec fn depends_line(line: Seq<char>) -> Option<Seq<char>> {
    keyword_value(line, kw_depends(), true)
}

// ------------------------------------------------------------------
// Deciding the grammar on ranges of a character vector
// ------------------------------------------------------------------

/// `kw_files()` as a vector.
pub fn kw_files_exec() -> (v: Vec<char>)
    ensures
        v@ == kw_files(),
{
    vec!['F', 'i', 'l', 'e', 's', ':']
}

/// `kw_contract()` as a vector.
pub fn kw_contract_exec() -> (v: Vec<char>)
    ensures
        v@ == kw_contract(),
{
    vec!['C', 'o', 'n', 't', 'r', 'a', 'c', 't']
}

/// `kw_depends()` as a vector.
pub fn kw_depends_exec() -> (v: Vec<char>)
    ensures
        v@ == kw_depends(),
{
    vec!['D', 'e', 'p', 'e', 'n', 'd', 's', ' ', 'o', 'n']
}

/// The first position at or after `lo` that is not white space, as
/// `trim_start` finds it.
pub fn skip_ws(c: &Vec<char>, lo: usize, hi: usize) -> (a: usize)
    requires
        lo <= hi <= c@.len(),
    ensures
        lo <= a <= hi,
        c@.subrange(a as int, hi as int) == trim_start(c@.subrange(lo as int, hi as int)),
{
    let mut a = lo;
    while a < hi && char_is_ws(c[a])
        invariant
            lo <= a <= hi,
            hi <= c@.len(),
            trim_start(c@.subrange(lo as int, hi as int)) == trim_start(
                c@.subrange(a as int, hi as int),
            ),
        decreases hi - a,
    {
        assert(c@.subrange(a as int, hi as int).drop_first() =~= c@.subrange(a + 1, hi as int));
        a = a + 1;
    }
    a
}

/// Whether `c[lo..hi]` is a blank line.
pub fn is_blank_line_exec(c: &Vec<char>, lo: usize, hi: usize) -> (r: bool)
    requires
        lo <= hi <= c@.len(),
    ensures
        r == is_blank_line(c@.subrange(lo as int, hi as int)),
{
    is_blank(c, lo, hi)
}

/// Whether `c[lo..hi]` is a comment line.
pub fn is_comment_line_exec(c: &Vec<char>, lo: usize, hi: usize) -> (r: bool)
    requires
        lo <= hi <= c@.len(),
    ensures
        r == is_comment_line(c@.subrange(lo as int, hi as int)),
{
    let (a, b) = trim_range(c, lo, hi);
    let r = a < b && c[a] == '#';
    proof {
        let t = c@.subrange(a as int, b as int);
        assert(kw_hash().len() == 1 && kw_hash()[0] == '#');
        if a < b {
            assert(t[0] == c@[a as int]);
            if r {
                assert(t.subrange(0, 1) =~= kw_hash());
            } else {
                assert(t.subrange(0, 1)[0] != kw_hash()[0]);
            }
        }
        assert(r == starts_with(t, kw_hash()));
    }
    r
}

/// The value after a keyword, as `keyword_value` describes it, by its bounds.
pub fn keyword_value_exec(c: &Vec<char>, lo: usize, hi: usize, kw: &Vec<char>, optional_colon: bool) -> (r: Option<(usize, usize)>)
    requires
        lo <= hi <= c@.len(),
    ensures
        r matches Some(p) ==> p.0 <= p.1 <= c@.len() && keyword_value(
            c@.subrange(lo as int, hi as int),
            kw@,
            optional_colon,
        ) == Some(c@.subrange(p.0 as int, p.1 as int)),
        r is None ==> keyword_value(c@.subrange(lo as int, hi as int), kw@, optional_colon) is None,
{
    let a = skip_ws(c, lo, hi);
    if !range_starts_with(c, a, hi, kw) {
        return None;
    }
    let mut b = a + kw.len();
    let ghost t = c@.subrange(a as int, hi as int);
    let ghost rest = t.subrange(kw@.len() as int, t.len() as int);
    assert(rest =~= c@.subrange(b as int, hi as int));
    if optional_colon && b < hi && c[b] == ':' {
        assert(rest.drop_first() =~= c@.subrange(b + 1, hi as int));
        b = b + 1;
    }
    let (x, y) = trim_range(c, b, hi);
    Some((x, y))
}

/// The parts of a matched task line, by their bounds in the text.
pub struct TaskLineMatch {
    pub status: TaskStatus,
    pub title_lo: usize,
    pub title_hi: usize,
    pub id: Option<(usize, usize)>,
}

/// The value that a match stands for.
pub open spec fn match_view(c: Seq<char>, m: TaskLineMatch) -> TaskLineView {
    TaskLineView {
        status: m.status,
        title: c.subrange(m.title_lo as int, m.title_hi as int),
        id: match m.id {
            Some(p) => Some(c.subrange(p.0 as int, p.1 as int)),
            None => None,
        },
    }
}

/// At most one position starts an identifier suffix.
pub proof fn lemma_id_suffix_unique(r: Seq<char>, k1: int, k2: int)
    requires
        id_suffix_at(r, k1),
        id_suffix_at(r, k2),
        !regex_word_or_hyphen('('),
    ensures
        k1 == k2,
{
    if k1 < k2 {
        assert(k1 + 2 <= k2 + 1 < r.len() - 1);
        assert(regex_word_or_hyphen(r[k2 + 1]));
    } else if k2 < k1 {
        assert(regex_word_or_hyphen(r[k1 + 1]));
    }
}

/// The ASCII characters that matter to the identifier grammar are not in
/// `[\w-]`: decided by asking the same class once.
pub fn open_paren_not_word() -> (r: bool)
    ensures
        r == regex_word_or_hyphen('('),
        !r,
{
    word_or_hyphen('(')
}

/// Matches a task line held in `c[lo..hi]`.
pub fn match_task_line(c: &Vec<char>, lo: usize, hi: usize) -> (r: Option<TaskLineMatch>)
    requires
        lo <= hi <= c@.len(),
    ensures
        r matches Some(m) ==> {
            &&& m.title_lo <= m.title_hi <= c@.len()
            &&& m.id matches Some(p) ==> p.0 <= p.1 <= c@.len()
            &&& task_line(c@.subrange(lo as int, hi as int)) == Some(match_view(c@, m))
        },
        r is None ==> task_line(c@.subrange(lo as int, hi as int)) is None,
{
    let ghost line = c@.subrange(lo as int, hi as int);
    if hi - lo < 6 {
        return None;
    }
    let st = status_of_marker_exec(c[lo + 3]);
    if !(c[lo] == '-' && c[lo + 1] == ' ' && c[lo + 2] == '[' && st.is_some() && c[lo + 4] == ']'
        && c[lo + 5] == ' ') {
        return None;
    }
    let status = st.unwrap();
    let s = lo + 6;
    let ghost r = line.subrange(6, line.len() as int);
    assert(r =~= c@.subrange(s as int, hi as int));
    let _ = open_paren_not_word();
    // Look for ` (ID)` at the end.
    let mut found: Option<usize> = None;
    if hi > s && c[hi - 1] == ')' {
        let mut j = hi - 1;
        while j > s && word_or_hyphen(c[j - 1])
            invariant
                s < hi,
                s <= j <= hi - 1,
                hi <= c@.len(),
                forall|t: int| j <= t < hi - 1 ==> regex_word_or_hyphen(#[trigger] c@[t]),
            decreases j - s,
        {
            j = j - 1;
        }
        if j + 1 < hi && j >= s + 2 && c[j - 1] == '(' && c[j - 2] == ' ' {
            found = Some(j - 2);
            proof {
                let k = (j - 2 - s) as int;
                assert forall|t: int| k + 2 <= t < r.len() - 1 implies regex_word_or_hyphen(
                    #[trigger] r[t],
                ) by {
                    assert(r[t] == c@[s + t]);
                }
                assert(id_suffix_at(r, k));
            }
        } else {
            proof {
                assert forall|k: int| !id_suffix_at(r, k) by {
                    if id_suffix_at(r, k) {
                        // every character after `(` up to `)` is a word character, and
                        // the scan stopped at the first one that is not
                        assert(r[k + 1] == c@[s + k + 1]);
                        if s + k + 2 < j {
                            assert(regex_word_or_hyphen(r[j - 1 - s]));
                            assert(r[j - 1 - s] == c@[j - 1]);
                        } else if s + k + 2 > j {
                            assert(c@[s + k + 1] == r[k + 1]);
                            assert(j <= s + k + 1 < hi - 1);
                            assert(regex_word_or_hyphen(c@[s + k + 1]));
                        }
                    }
                }
            }
        }
    } else {
        proof {
            assert forall|k: int| !id_suffix_at(r, k) by {
                if id_suffix_at(r, k) {
                    assert(r.last() == c@[hi - 1]);
                }
            }
        }
    }
    match found {
        Some(k) => {
            let ghost kk = (k - s) as int;
            proof {
                assert(id_suffix_at(r, kk));
                let ch = choose|x: int| id_suffix_at(r, x);
                lemma_id_suffix_unique(r, ch, kk);
            }
            let (a, b) = trim_range(c, s, k);
            assert(r.subrange(0, kk) =~= c@.subrange(s as int, k as int));
            assert(r.subrange(kk + 2, r.len() - 1) =~= c@.subrange(k + 2, hi - 1));
            Some(TaskLineMatch { status, title_lo: a, title_hi: b, id: Some((k + 2, hi - 1)) })
        },
        None => {
            let (a, b) = trim_range(c, s, hi);
            Some(TaskLineMatch { status, title_lo: a, title_hi: b, id: None })
        },
    }
}

} // verus!
