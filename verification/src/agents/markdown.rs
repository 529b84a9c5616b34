//! Finding the JSON text inside a model's Markdown answer.
//!
//! The agents ask the model for JSON, and the model often wraps it in a
//! fenced code block. Each agent looks for it in its own way; the three
//! ways are stated here over the characters of the answer.
use vstd::prelude::*;
use crate::text::{
    char_is_alphabetic, chars_of, find_exec, find_from, last_char_before, lemma_find_bound,
    string_of, trim, trim_range, unicode_alphabetic,
};

verus! {

/// A fence: three backticks.
pub open spec fn fence() -> Seq<char> {
    seq!['`', '`', '`']
}

/// A fence that names the JSON language.
pub open spec fn json_fence() -> Seq<char> {
    seq!['`', '`', '`', 'j', 's', 'o', 'n']
}

/// The trimmed text between `b` and the first fence at or after `b`.
pub open spec fn body_until_fence(s: Seq<char>, b: int) -> Option<Seq<char>> {
    match find_from(s, fence(), b) {
        Some(e) => Some(trim(s.subrange(b, e))),
        None => None,
    }
}

/// The trimmed body of the first block opened by a JSON fence, if that block
/// is closed.
pub open spec fn json_block(s: Seq<char>) -> Option<Seq<char>> {
    match find_from(s, json_fence(), 0) {
        Some(st) => body_until_fence(s, st + 7),
        None => None,
    }
}

/// Where the body of a block opened by a fence at `st` starts when a
/// language name is skipped: after the first line feed, if the fence is
/// followed by a letter and a line feed comes later.
pub open spec fn body_start_after_letter(s: Seq<char>, st: int) -> int {
    let a = st + 3;
    if a < s.len() && unicode_alphabetic(s[a]) {
        match find_from(s, seq!['\n'], a) {
            Some(nl) => nl + 1,
            None => a,
        }
    } else {
        a
    }
}

/// Where the body of a block opened by a fence at `st` starts when the rest
/// of the fence's line is always skipped.
pub open spec fn body_start_after_line(s: Seq<char>, st: int) -> int {
    match find_from(s, seq!['\n'], st + 3) {
        Some(nl) => nl + 1,
        None => st + 3,
    }
}

/// The trimmed body of the first fenced block, with a language name skipped
/// as `body_start_after_letter` says.
pub open spec fn any_block(s: Seq<char>) -> Option<Seq<char>> {
    match find_from(s, fence(), 0) {
        Some(st) => body_until_fence(s, body_start_after_letter(s, st)),
        None => None,
    }
}

/// The text from the first `{` to the last `}`, when the last comes after
/// the first.
pub open spec fn braced(s: Seq<char>) -> Option<Seq<char>> {
    let b = last_char_before(s, '}', s.len() as int);
    match find_from(s, seq!['{'], 0) {
        Some(a) => if b > a {
            Some(s.subrange(a, b + 1))
        } else {
            None
        },
        None => None,
    }
}

/// The JSON that the code agent reads from an answer: a JSON block, else
/// any fenced block.
pub open spec fn code_json(s: Seq<char>) -> Option<Seq<char>> {
    if json_block(s) is Some {
        json_block(s)
    } else {
        any_block(s)
    }
}

/// The JSON that the review agent reads from an answer: a JSON block, else
/// any fenced block, else the braced text.
pub open spec fn review_json(s: Seq<char>) -> Option<Seq<char>> {
    if code_json(s) is Some {
        code_json(s)
    } else {
        braced(s)
    }
}

/// The JSON that the ask agent reads from an answer: a JSON block, else any
/// fenced block (whose first line is always skipped), else the whole answer
/// trimmed.
pub open spec fn ask_json(s: Seq<char>) -> Seq<char> {
    if json_block(s) is Some {
        json_block(s).unwrap()
    } else {
        let any = match find_from(s, fence(), 0) {
            Some(st) => body_until_fence(s, body_start_after_line(s, st)),
            None => None,
        };
        match any {
            Some(t) => t,
            None => trim(s),
        }
    }
}

fn fence_exec() -> (v: Vec<char>)
    ensures
        v@ == fence(),
{
    let v = vec!['`', '`', '`'];
    assert(v@ =~= fence());
    v
}

/// The trimmed text of `c` between `b` and the next fence.
fn body_until_fence_exec(c: &Vec<char>, b: usize) -> (r: Option<String>)
    requires
        b <= c@.len(),
    ensures
        r matches Some(t) ==> body_until_fence(c@, b as int) == Some(t@),
        r is None ==> body_until_fence(c@, b as int) is None,
{
    let n = c.len();
    assert(c@.subrange(0, n as int) =~= c@);
    let f = fence_exec();
    match find_exec(c, n, b, &f) {
        Some(e) => {
            proof {
                lemma_find_bound(c@, fence(), b as int);
            }
            let (x, y) = trim_range(c, b, e);
            Some(string_of(c, x, y))
        },
        None => None,
    }
}

/// The first fence of `c` at or after `i`.
fn find_fence(c: &Vec<char>, i: usize) -> (r: Option<usize>)
    requires
        i <= c@.len(),
    ensures
        r matches Some(j) ==> find_from(c@, fence(), i as int) == Some(j as int) && j + 3 <= c@.len(),
        r is None ==> find_from(c@, fence(), i as int) is None,
{
    let n = c.len();
    assert(c@.subrange(0, n as int) =~= c@);
    let f = fence_exec();
    let r = find_exec(c, n, i, &f);
    proof {
        lemma_find_bound(c@, fence(), i as int);
    }
    r
}

/// The first line feed of `c` at or after `i`.
fn find_newline(c: &Vec<char>, i: usize) -> (r: Option<usize>)
    requires
        i <= c@.len(),
    ensures
        r matches Some(j) ==> find_from(c@, seq!['\n'], i as int) == Some(j as int) && j < c@.len(),
        r is None ==> find_from(c@, seq!['\n'], i as int) is None,
{
    let n = c.len();
    assert(c@.subrange(0, n as int) =~= c@);
    let nl = vec!['\n'];
    assert(nl@ =~= seq!['\n']);
    let r = find_exec(c, n, i, &nl);
    proof {
        lemma_find_bound(c@, seq!['\n'], i as int);
    }
    r
}

/// The body of the first JSON block of `c`.
fn json_block_exec(c: &Vec<char>) -> (r: Option<String>)
    ensures
        r matches Some(t) ==> json_block(c@) == Some(t@),
        r is None ==> json_block(c@) is None,
{
    let n = c.len();
    assert(c@.subrange(0, n as int) =~= c@);
    let jf = vec!['`', '`', '`', 'j', 's', 'o', 'n'];
    assert(jf@ =~= json_fence());
    match find_exec(c, n, 0, &jf) {
        Some(st) => {
            proof {
                lemma_find_bound(c@, json_fence(), 0);
            }
            body_until_fence_exec(c, st + 7)
        },
        None => None,
    }
}

/// The body of the first fenced block of `c`, with a language name skipped
/// when the fence is followed by a letter.
fn any_block_exec(c: &Vec<char>) -> (r: Option<String>)
    ensures
        r matches Some(t) ==> any_block(c@) == Some(t@),
        r is None ==> any_block(c@) is None,
{
    let n = c.len();
    match find_fence(c, 0) {
        Some(st) => {
            let a = st + 3;
            let mut b = a;
            if a < c.len() && char_is_alphabetic(c[a]) {
                match find_newline(c, a) {
                    Some(nl) => {
                        b = nl + 1;
                    },
                    None => {},
                }
            }
            assert(b == body_start_after_letter(c@, st as int));
            body_until_fence_exec(c, b)
        },
        None => None,
    }
}

/// Extracts the JSON of a code agent's answer: the body of the first
/// ```` ```json ```` block, else of the first fenced block (skipping a
/// language name), else nothing.
pub fn extract_code_json(content: &str) -> (r: Option<String>)
    ensures
        r matches Some(t) ==> code_json(content@) == Some(t@),
        r is None ==> code_json(content@) is None,
{
    let c = chars_of(content);
    match json_block_exec(&c) {
        Some(t) => Some(t),
        None => any_block_exec(&c),
    }
}

/// Extracts the JSON of a review agent's answer: as the code agent does,
/// and failing that the text from the first `{` to the last `}`.
pub fn extract_json_from_markdown(content: &str) -> (r: Option<String>)
    ensures
        r matches Some(t) ==> review_json(content@) == Some(t@),
        r is None ==> review_json(content@) is None,
{
    let c = chars_of(content);
    let code = extract_code_json(content);
    if let Some(t) = code {
        return Some(t);
    }
    assert(code_json(content@) is None);
    let n = c.len();
    assert(c@.subrange(0, n as int) =~= c@);
    let ob = vec!['{'];
    assert(ob@ =~= seq!['{']);
    let first = find_exec(&c, n, 0, &ob);
    let last = crate::text::rfind_char(&c, n, '}');
    assert(c@ == content@);
    if let Some(a) = first {
        if let Some(b) = last {
            if b > a {
                assert(find_from(c@, seq!['{'], 0) == Some(a as int));
                assert(last_char_before(c@, '}', c@.len() as int) == b as int);
                assert(braced(c@) == Some(c@.subrange(a as int, b + 1)));
                return Some(string_of(&c, a, b + 1));
            }
        }
    }
    None
}

/// Extracts the JSON of an ask agent's answer: the body of the first
/// ```` ```json ```` block, else of the first fenced block (skipping the rest
/// of the fence's line), else the whole answer trimmed.
pub fn extract_ask_json(content: &str) -> (r: String)
    ensures
        r@ == ask_json(content@),
{
    let c = chars_of(content);
    let n = c.len();
    match json_block_exec(&c) {
        Some(t) => {
            return t;
        },
        None => {},
    }
    match find_fence(&c, 0) {
        Some(st) => {
            let b = match find_newline(&c, st + 3) {
                Some(nl) => nl + 1,
                None => st + 3,
            };
            assert(b == body_start_after_line(c@, st as int));
            match body_until_fence_exec(&c, b) {
                Some(t) => {
                    return t;
                },
                None => {},
            }
        },
        None => {},
    }
    let (x, y) = trim_range(&c, 0, c.len());
    assert(c@.subrange(0, c@.len() as int) =~= c@);
    string_of(&c, x, y)
}

} // verus!
