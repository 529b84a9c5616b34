//! Character-level text helpers shared by the plan grammar, the marker
//! tracker and the agents' response handling.
//!
//! Text is handled as a `Vec<char>` together with half-open ranges
//! `[lo, hi)` into it; every helper is specified over `Seq<char>`.
use vstd::prelude::*;

verus! {

// ------------------------------------------------------------------
// Characters
// ------------------------------------------------------------------

/// The Unicode `White_Space` property, which is what `char::is_whitespace`
/// and the regular-expression class `\s` accept.
pub open spec fn is_ws(c: char) -> bool {
    let u = c as u32;
    ||| 0x09 <= u <= 0x0D
    ||| u == 0x20
    ||| u == 0x85
    ||| u == 0xA0
    ||| u == 0x1680
    ||| 0x2000 <= u <= 0x200A
    ||| u == 0x2028
    ||| u == 0x2029
    ||| u == 0x202F
    ||| u == 0x205F
    ||| u == 0x3000
}

/// Decides `is_ws`.
pub fn char_is_ws(c: char) -> (r: bool)
    ensures
        r == is_ws(c),
{
    let u = c as u32;
    (0x09 <= u && u <= 0x0D) || u == 0x20 || u == 0x85 || u == 0xA0 || u == 0x1680 || (0x2000
        <= u && u <= 0x200A) || u == 0x2028 || u == 0x2029 || u == 0x202F || u == 0x205F || u
        == 0x3000
}

/// ASCII letters and digits.
pub open spec fn is_ascii_alnum(c: char) -> bool {
    ('a' <= c <= 'z') || ('A' <= c <= 'Z') || ('0' <= c <= '9')
}

/// ASCII decimal digits.
pub open spec fn is_ascii_digit(c: char) -> bool {
    '0' <= c <= '9'
}

/// Whether `c` belongs to the character class `[\w-]` of the `regex` crate
/// (Unicode word characters and the hyphen).
pub uninterp spec fn regex_word_or_hyphen(c: char) -> bool;

/// Asks the `regex` crate whether the one-character string `c` matches the
/// class `[\w-]` (`Regex::is_match`). The contract names the answer
/// `regex_word_or_hyphen(c)` and states what the crate's documentation
/// gives for ASCII input: `\w` is `[0-9A-Za-z_]` there. The answer for
/// other characters (the Unicode word tables) is left unsaid.
#[verifier::external_body]
pub fn word_or_hyphen(c: char) -> (r: bool)
    ensures
        r == regex_word_or_hyphen(c),
        (c as u32) < 128 ==> (r <==> (is_ascii_alnum(c) || c == '_' || c == '-')),
{
    let mut buf = [0u8;4];
    regex::Regex::new(r"^[\w-]$").unwrap().is_match(c.encode_utf8(&mut buf))
}

/// The Unicode `Alphabetic` property that `char::is_alphabetic` tests.
pub uninterp spec fn unicode_alphabetic(c: char) -> bool;

/// Calls `char::is_alphabetic`. The contract names the answer and states
/// what its documentation gives for ASCII: exactly the letters are
/// alphabetic. The Unicode tables for other characters are left unsaid.
#[verifier::external_body]
pub fn char_is_alphabetic(c: char) -> (r: bool)
    ensures
        r == unicode_alphabetic(c),
        (c as u32) < 128 ==> (r <==> (('a' <= c <= 'z') || ('A' <= c <= 'Z'))),
{
    c.is_alphabetic()
}

/// The lowercase mapping that `str::to_lowercase` applies.
pub uninterp spec fn unicode_lowercase(s: Seq<char>) -> Seq<char>;

/// ASCII lowercase of one character.
pub open spec fn ascii_lower(c: char) -> char {
    if 'A' <= c <= 'Z' {
        ((c as u32) + 32) as char
    } else {
        c
    }
}

/// Calls `str::to_lowercase`. The contract names the result and states
/// what its documentation gives for ASCII-only input: each letter is
/// lowered and every other character is kept. Other characters follow the
/// Unicode tables, which are left unsaid.
#[verifier::external_body]
pub fn to_lowercase(s: &str) -> (r: String)
    ensures
        r@ == unicode_lowercase(s@),
        (forall|i: int| 0 <= i < s@.len() ==> (#[trigger] s@[i] as u32) < 128) ==> r@ == s@.map_values(
            |c: char| ascii_lower(c),
        ),
{
    s.to_lowercase()
}

// ------------------------------------------------------------------
// Owned text
// ------------------------------------------------------------------

/// Calls `String::push`: appends one character.
#[verifier::external_body]
pub fn push_char(s: &mut String, c: char)
    ensures
        final(s)@ == old(s)@.push(c),
{
    s.push(c)
}

/// The characters of `s`, in order.
pub fn chars_of(s: &str) -> (v: Vec<char>)
    ensures
        v@ == s@,
{
    let n = s.unicode_len();
    let mut v: Vec<char> = Vec::new();
    let mut i: usize = 0;
    while i < n
        invariant
            n == s@.len(),
            i <= n,
            v@ == s@.subrange(0, i as int),
        decreases n - i,
    {
        let c = s.get_char(i);
        v.push(c);
        i = i + 1;
        assert(v@ =~= s@.subrange(0, i as int));
    }
    assert(v@ =~= s@);
    v
}

/// A `String` holding `c[lo..hi]`.
pub fn string_of(c: &Vec<char>, lo: usize, hi: usize) -> (s: String)
    requires
        lo <= hi <= c@.len(),
    ensures
        s@ == c@.subrange(lo as int, hi as int),
{
    let mut s = String::new();
    let mut i = lo;
    while i < hi
        invariant
            lo <= i <= hi,
            hi <= c@.len(),
            s@ == c@.subrange(lo as int, i as int),
        decreases hi - i,
    {
        push_char(&mut s, c[i]);
        i = i + 1;
        assert(s@ =~= c@.subrange(lo as int, i as int));
    }
    s
}

/// Appends `c[lo..hi]` to `s`.
pub fn push_range(s: &mut String, c: &Vec<char>, lo: usize, hi: usize)
    requires
        lo <= hi <= c@.len(),
    ensures
        final(s)@ == old(s)@ + c@.subrange(lo as int, hi as int),
{
    let ghost start = s@;
    let mut i = lo;
    while i < hi
        invariant
            lo <= i <= hi,
            hi <= c@.len(),
            s@ == start + c@.subrange(lo as int, i as int),
        decreases hi - i,
    {
        push_char(s, c[i]);
        i = i + 1;
        assert(s@ =~= start + c@.subrange(lo as int, i as int));
    }
}

/// Appends all of `t` to `s`.
pub fn push_str(s: &mut String, t: &str)
    ensures
        final(s)@ == old(s)@ + t@,
{
    s.append(t);
}

/// A `String` holding the characters of `t`.
pub fn owned(t: &str) -> (s: String)
    ensures
        s@ == t@,
{
    String::from_str(t)
}

/// A `String` holding the characters of the sequence `v`.
pub fn string_from_chars(v: &Vec<char>) -> (s: String)
    ensures
        s@ == v@,
{
    let s = string_of(v, 0, v.len());
    assert(v@.subrange(0, v@.len() as int) =~= v@);
    s
}

// ------------------------------------------------------------------
// Trimming
// ------------------------------------------------------------------

/// `s` without its leading white space.
pub open spec fn trim_start(s: Seq<char>) -> Seq<char>
    decreases s.len(),
{
    if s.len() > 0 && is_ws(s[0]) {
        trim_start(s.drop_first())
    } else {
        s
    }
}

/// `s` without its trailing white space.
pub open spec fn trim_end(s: Seq<char>) -> Seq<char>
    decreases s.len(),
{
    if s.len() > 0 && is_ws(s.last()) {
        trim_end(s.drop_last())
    } else {
        s
    }
}

/// `str::trim`: `s` without leading and trailing white space.
pub open spec fn trim(s: Seq<char>) -> Seq<char> {
    trim_end(trim_start(s))
}

/// The bounds of `trim(c[lo..hi])` inside `c`.
pub fn trim_range(c: &Vec<char>, lo: usize, hi: usize) -> (r: (usize, usize))
    requires
        lo <= hi <= c@.len(),
    ensures
        lo <= r.0 <= r.1 <= hi,
        c@.subrange(r.0 as int, r.1 as int) == trim(c@.subrange(lo as int, hi as int)),
{
    let mut a = lo;
    while a < hi && char_is_ws(c[a])
        invariant
            lo <= a <= hi,
            hi <= c@.len(),
            trim_start(c@.subrange(lo as int, hi as int)) == trim_start(
                c@.subrange(a as int, hi as int),
            ),
        decreases hi - a,
    {
        assert(c@.subrange(a as int, hi as int).drop_first() =~= c@.subrange(a + 1, hi as int));
        a = a + 1;
    }
    assert(trim_start(c@.subrange(a as int, hi as int)) == c@.subrange(a as int, hi as int));
    let mut b = hi;
    while b > a && char_is_ws(c[b - 1])
        invariant
            lo <= a <= b <= hi,
            hi <= c@.len(),
            trim_end(c@.subrange(a as int, hi as int)) == trim_end(c@.subrange(a as int, b as int)),
        decreases b - a,
    {
        assert(c@.subrange(a as int, b as int).drop_last() =~= c@.subrange(a as int, b - 1));
        b = b - 1;
    }
    (a, b)
}

/// Whether `trim(c[lo..hi])` is empty.
pub fn is_blank(c: &Vec<char>, lo: usize, hi: usize) -> (r: bool)
    requires
        lo <= hi <= c@.len(),
    ensures
        r == (trim(c@.subrange(lo as int, hi as int)).len() == 0),
{
    let (a, b) = trim_range(c, lo, hi);
    a == b
}

// ------------------------------------------------------------------
// Prefixes, suffixes and searching
// ------------------------------------------------------------------

/// `p` is a prefix of `s`.
pub open spec fn starts_with(s: Seq<char>, p: Seq<char>) -> bool {
    p.len() <= s.len() && s.subrange(0, p.len() as int) == p
}

/// `p` is a suffix of `s`.
pub open spec fn ends_with(s: Seq<char>, p: Seq<char>) -> bool {
    p.len() <= s.len() && s.subrange(s.len() - p.len(), s.len() as int) == p
}

/// `p` occurs in `s` at position `i`.
pub open spec fn occurs_at(s: Seq<char>, p: Seq<char>, i: int) -> bool {
    0 <= i && i + p.len() <= s.len() && s.subrange(i, i + p.len()) == p
}

/// `p` occurs somewhere in `s` (`str::contains`).
pub open spec fn contains(s: Seq<char>, p: Seq<char>) -> bool {
    exists|i: int| occurs_at(s, p, i)
}

/// Whether `p` occurs in `c` at position `i`, within `c[..hi]`.
pub fn occurs_at_exec(c: &Vec<char>, hi: usize, i: usize, p: &Vec<char>) -> (r: bool)
    requires
        hi <= c@.len(),
    ensures
        r == (i + p@.len() <= hi && c@.subrange(i as int, i + p@.len()) == p@),
{
    if i > hi || hi - i < p.len() {
        return false;
    }
    let mut k: usize = 0;
    while k < p.len()
        invariant
            i + p@.len() <= hi,
            hi <= c@.len(),
            k <= p@.len(),
            forall|t: int| 0 <= t < k ==> c@[i + t] == p@[t],
        decreases p@.len() - k,
    {
        if c[i + k] != p[k] {
            assert(c@.subrange(i as int, i + p@.len())[k as int] != p@[k as int]);
            return false;
        }
        k = k + 1;
    }
    assert(c@.subrange(i as int, i + p@.len()) =~= p@);
    true
}

/// Whether `c[lo..hi]` starts with `p`.
pub fn range_starts_with(c: &Vec<char>, lo: usize, hi: usize, p: &Vec<char>) -> (r: bool)
    requires
        lo <= hi <= c@.len(),
    ensures
        r == starts_with(c@.subrange(lo as int, hi as int), p@),
{
    let r = occurs_at_exec(c, hi, lo, p);
    proof {
        if p@.len() <= hi - lo {
            assert(c@.subrange(lo as int, hi as int).subrange(0, p@.len() as int) =~= c@.subrange(
                lo as int,
                lo + p@.len(),
            ));
        }
    }
    r
}

/// Whether `c[lo..hi]` ends with `p`.
pub fn range_ends_with(c: &Vec<char>, lo: usize, hi: usize, p: &Vec<char>) -> (r: bool)
    requires
        lo <= hi <= c@.len(),
    ensures
        r == ends_with(c@.subrange(lo as int, hi as int), p@),
{
    if hi - lo < p.len() {
        return false;
    }
    let r = occurs_at_exec(c, hi, hi - p.len(), p);
    assert(c@.subrange(lo as int, hi as int).subrange(
        (hi - lo) - p@.len(),
        (hi - lo) as int,
    ) =~= c@.subrange(hi - p@.len(), hi as int));
    r
}

/// The first position `j >= i` at which `p` occurs in `s`, if any.
pub open spec fn find_from(s: Seq<char>, p: Seq<char>, i: int) -> Option<int>
    decreases s.len() + 1 - i,
{
    if i < 0 || i + p.len() > s.len() {
        None
    } else if occurs_at(s, p, i) {
        Some(i)
    } else {
        find_from(s, p, i + 1)
    }
}

/// `find_from` at a position inside `s`, when it finds something, finds the
/// first occurrence.
pub proof fn lemma_find_from(s: Seq<char>, p: Seq<char>, i: int)
    requires
        0 <= i,
    ensures
        find_from(s, p, i) matches Some(j) ==> i <= j && occurs_at(s, p, j) && forall|t: int|
            i <= t < j ==> !occurs_at(s, p, t),
        find_from(s, p, i) is None ==> forall|t: int| i <= t ==> !occurs_at(s, p, t),
    decreases s.len() + 1 - i,
{
    if i + p.len() > s.len() {
    } else if occurs_at(s, p, i) {
    } else {
        lemma_find_from(s, p, i + 1);
        assert forall|t: int| i <= t && !(i + 1 <= t) implies !occurs_at(s, p, t) by {}
    }
}

/// `contains(s, p)` exactly when `find_from(s, p, 0)` finds something.
pub proof fn lemma_contains_find(s: Seq<char>, p: Seq<char>)
    ensures
        contains(s, p) <==> find_from(s, p, 0) is Some,
{
    lemma_find_from(s, p, 0);
    if let Some(j) = find_from(s, p, 0) {
        assert(occurs_at(s, p, j));
    }
}

/// The first occurrence of `p` in `c[..hi]` at or after `i`, as
/// `find_from(c[..hi], p, i)` says.
pub fn find_exec(c: &Vec<char>, hi: usize, i: usize, p: &Vec<char>) -> (r: Option<usize>)
    requires
        hi <= c@.len(),
        i <= hi,
    ensures
        r matches Some(j) ==> find_from(c@.subrange(0, hi as int), p@, i as int) == Some(j as int),
        r is None ==> find_from(c@.subrange(0, hi as int), p@, i as int) is None,
{
    let ghost s = c@.subrange(0, hi as int);
    let mut j = i;
    while j <= hi
        invariant
            i <= j,
            hi <= c@.len(),
            s == c@.subrange(0, hi as int),
            find_from(s, p@, i as int) == find_from(s, p@, j as int),
        decreases hi + 1 - j,
    {
        if hi - j < p.len() {
            return None;
        }
        let o = occurs_at_exec(c, hi, j, p);
        assert(occurs_at(s, p@, j as int) == o) by {
            assert(s.subrange(j as int, j + p@.len()) =~= c@.subrange(j as int, j + p@.len()));
        }
        if o {
            return Some(j);
        }
        if j >= hi {
            assert(find_from(s, p@, j + 1) is None);
            return None;
        }
        j = j + 1;
    }
    None
}

// ------------------------------------------------------------------
// Lines
// ------------------------------------------------------------------

/// The first position `j >= i` holding a line feed, or `s.len()`.
pub open spec fn next_nl(s: Seq<char>, i: int) -> int
    decreases s.len() - i,
{
    if i >= s.len() {
        s.len() as int
    } else if s[i] == '\n' {
        i
    } else {
        next_nl(s, i + 1)
    }
}

/// Removes one trailing carriage return.
pub open spec fn strip_cr(s: Seq<char>) -> Seq<char> {
    if s.len() > 0 && s.last() == '\r' {
        s.drop_last()
    } else {
        s
    }
}

/// `str::lines` applied to `s[i..]`: pieces ended by `\n` (with one `\r`
/// before it removed); a last piece without `\n` is kept as it is.
pub open spec fn lines_from(s: Seq<char>, i: int) -> Seq<Seq<char>>
    decreases s.len() - i,
{
    if i < 0 || i >= s.len() {
        seq![]
    } else {
        let j = next_nl(s, i);
        proof {
            lemma_next_nl(s, i);
        }
        if j >= s.len() {
            seq![s.subrange(i, s.len() as int)]
        } else {
            seq![strip_cr(s.subrange(i, j))] + lines_from(s, j + 1)
        }
    }
}

/// `str::lines` of `s`.
pub open spec fn lines(s: Seq<char>) -> Seq<Seq<char>> {
    lines_from(s, 0)
}

/// `next_nl` is a position at or after `i`, and every position between
/// holds something other than a line feed.
pub proof fn lemma_next_nl(s: Seq<char>, i: int)
    requires
        0 <= i <= s.len(),
    ensures
        i <= next_nl(s, i) <= s.len(),
        next_nl(s, i) < s.len() ==> s[next_nl(s, i)] == '\n',
        forall|t: int| i <= t < next_nl(s, i) ==> s[t] != '\n',
    decreases s.len() - i,
{
    if i < s.len() && s[i] != '\n' {
        lemma_next_nl(s, i + 1);
    }
}

/// The ranges of `str::lines(c)` inside `c`.
pub fn line_ranges(c: &Vec<char>) -> (r: Vec<(usize, usize)>)
    ensures
        r@.len() == lines(c@).len(),
        forall|k: int|
            0 <= k < r@.len() ==> {
                &&& (#[trigger] r@[k]).0 <= r@[k].1 <= c@.len()
                &&& c@.subrange(r@[k].0 as int, r@[k].1 as int) == lines(c@)[k]
            },
{
    let n = c.len();
    let mut r: Vec<(usize, usize)> = Vec::new();
    let mut i: usize = 0;
    while i < n
        invariant
            n == c@.len(),
            i <= n,
            lines(c@) == r@.map_values(|p: (usize, usize)| c@.subrange(p.0 as int, p.1 as int))
                + lines_from(c@, i as int),
            forall|k: int| 0 <= k < r@.len() ==> (#[trigger] r@[k]).0 <= r@[k].1 <= n,
        decreases n - i,
    {
        let ghost old_r = r@;
        let mut j = i;
        while j < n && c[j] != '\n'
            invariant
                i <= j <= n,
                n == c@.len(),
                next_nl(c@, i as int) == next_nl(c@, j as int),
            decreases n - j,
        {
            j = j + 1;
        }
        if j >= n {
            r.push((i, n));
            proof {
                assert(lines_from(c@, n as int) =~= seq![]);
                assert(r@.map_values(|p: (usize, usize)| c@.subrange(p.0 as int, p.1 as int))
                    =~= old_r.map_values(|p: (usize, usize)| c@.subrange(p.0 as int, p.1 as int))
                    + seq![c@.subrange(i as int, n as int)]);
            }
            i = n;
        } else {
            let e = if j > i && c[j - 1] == '\r' {
                j - 1
            } else {
                j
            };
            r.push((i, e));
            proof {
                if j > i && c@[j - 1] == '\r' {
                    assert(strip_cr(c@.subrange(i as int, j as int)) =~= c@.subrange(
                        i as int,
                        e as int,
                    ));
                }
                assert(r@.map_values(|p: (usize, usize)| c@.subrange(p.0 as int, p.1 as int))
                    =~= old_r.map_values(|p: (usize, usize)| c@.subrange(p.0 as int, p.1 as int))
                    + seq![strip_cr(c@.subrange(i as int, j as int))]);
            }
            i = j + 1;
        }
    }
    proof {
        assert(lines_from(c@, n as int) =~= seq![]);
        let m = r@.map_values(|p: (usize, usize)| c@.subrange(p.0 as int, p.1 as int));
        assert(lines(c@) =~= m);
        assert forall|k: int| 0 <= k < r@.len() implies c@.subrange(
            r@[k].0 as int,
            r@[k].1 as int,
        ) == lines(c@)[k] by {
            assert(m[k] == c@.subrange(r@[k].0 as int, r@[k].1 as int));
        }
    }
    r
}

// ------------------------------------------------------------------
// Splitting on a separator character
// ------------------------------------------------------------------

/// The first position `j >= i` holding `sep`, or `s.len()`.
pub open spec fn next_sep(s: Seq<char>, sep: char, i: int) -> int
    decreases s.len() - i,
{
    if i >= s.len() {
        s.len() as int
    } else if s[i] == sep {
        i
    } else {
        next_sep(s, sep, i + 1)
    }
}

/// `str::split(sep)` applied from position `i`, which is at most `s.len()`:
/// always at least one piece.
pub open spec fn split_from(s: Seq<char>, sep: char, i: int) -> Seq<Seq<char>>
    decreases s.len() - i,
{
    if i < 0 || i > s.len() {
        seq![]
    } else {
        let j = next_sep(s, sep, i);
        proof {
            lemma_next_sep(s, sep, i);
        }
        if j >= s.len() {
            seq![s.subrange(i, s.len() as int)]
        } else {
            seq![s.subrange(i, j)] + split_from(s, sep, j + 1)
        }
    }
}

/// `str::split(sep)` of `s`.
pub open spec fn split(s: Seq<char>, sep: char) -> Seq<Seq<char>> {
    split_from(s, sep, 0)
}

/// `trim` of every piece of `split(s, sep)`.
pub open spec fn split_trimmed(s: Seq<char>, sep: char) -> Seq<Seq<char>> {
    split(s, sep).map_values(|p: Seq<char>| trim(p))
}

/// `next_sep` stays between `i` and `s.len()`.
pub proof fn lemma_next_sep(s: Seq<char>, sep: char, i: int)
    requires
        0 <= i <= s.len(),
    ensures
        i <= next_sep(s, sep, i) <= s.len(),
        next_sep(s, sep, i) < s.len() ==> s[next_sep(s, sep, i)] == sep,
    decreases s.len() - i,
{
    if i < s.len() && s[i] != sep {
        lemma_next_sep(s, sep, i + 1);
    }
}

/// The pieces of `c[lo..hi]` split on `sep`, each trimmed, as owned strings.
pub fn split_trimmed_exec(c: &Vec<char>, lo: usize, hi: usize, sep: char) -> (r: Vec<String>)
    requires
        lo <= hi <= c@.len(),
    ensures
        r@.map_values(|x: String| x@) == split_trimmed(c@.subrange(lo as int, hi as int), sep),
{
    let ghost s = c@.subrange(lo as int, hi as int);
    let ghost mut pieces: Seq<Seq<char>> = seq![];
    let mut r: Vec<String> = Vec::new();
    let mut i = lo;
    loop
        invariant_except_break
            split(s, sep) == pieces + split_from(s, sep, i - lo),
        invariant
            lo <= i <= hi,
            hi <= c@.len(),
            s == c@.subrange(lo as int, hi as int),
            r@.len() == pieces.len(),
            forall|k: int| 0 <= k < r@.len() ==> (#[trigger] r@[k])@ == trim(pieces[k]),
        ensures
            split(s, sep) == pieces,
            r@.len() == pieces.len(),
            forall|k: int| 0 <= k < r@.len() ==> (#[trigger] r@[k])@ == trim(pieces[k]),
        decreases hi - i,
    {
        let mut j = i;
        while j < hi && c[j] != sep
            invariant
                i <= j <= hi,
                hi <= c@.len(),
                s == c@.subrange(lo as int, hi as int),
                lo <= i,
                next_sep(s, sep, i - lo) == next_sep(s, sep, j - lo),
            decreases hi - j,
        {
            j = j + 1;
        }
        let (a, b) = trim_range(c, i, j);
        let piece = string_of(c, a, b);
        r.push(piece);
        proof {
            assert(s.subrange(i - lo, j - lo) =~= c@.subrange(i as int, j as int));
            pieces = pieces.push(c@.subrange(i as int, j as int));
        }
        if j >= hi {
            proof {
                assert(s.subrange(i - lo, s.len() as int) =~= c@.subrange(i as int, j as int));
                assert(split(s, sep) =~= pieces);
            }
            break;
        }
        proof {
            assert(split(s, sep) =~= pieces + split_from(s, sep, j + 1 - lo));
        }
        i = j + 1;
    }
    proof {
        assert(r@.map_values(|x: String| x@) =~= split_trimmed(s, sep));
    }
    r
}


/// The pieces of `c[lo..hi]` split on `sep`, as owned strings.
pub fn split_exec(c: &Vec<char>, lo: usize, hi: usize, sep: char) -> (r: Vec<String>)
    requires
        lo <= hi <= c@.len(),
    ensures
        r@.map_values(|x: String| x@) == split(c@.subrange(lo as int, hi as int), sep),
{
    let ghost s = c@.subrange(lo as int, hi as int);
    let ghost mut pieces: Seq<Seq<char>> = seq![];
    let mut r: Vec<String> = Vec::new();
    let mut i = lo;
    loop
        invariant_except_break
            split(s, sep) == pieces + split_from(s, sep, i - lo),
        invariant
            lo <= i <= hi,
            hi <= c@.len(),
            s == c@.subrange(lo as int, hi as int),
            r@.len() == pieces.len(),
            forall|k: int| 0 <= k < r@.len() ==> (#[trigger] r@[k])@ == pieces[k],
        ensures
            split(s, sep) == pieces,
            r@.len() == pieces.len(),
            forall|k: int| 0 <= k < r@.len() ==> (#[trigger] r@[k])@ == pieces[k],
        decreases hi - i,
    {
        let mut j = i;
        while j < hi && c[j] != sep
            invariant
                i <= j <= hi,
                hi <= c@.len(),
                s == c@.subrange(lo as int, hi as int),
                lo <= i,
                next_sep(s, sep, i - lo) == next_sep(s, sep, j - lo),
            decreases hi - j,
        {
            j = j + 1;
        }
        let piece = string_of(c, i, j);
        r.push(piece);
        proof {
            assert(s.subrange(i - lo, j - lo) =~= c@.subrange(i as int, j as int));
            pieces = pieces.push(c@.subrange(i as int, j as int));
        }
        if j >= hi {
            proof {
                assert(s.subrange(i - lo, s.len() as int) =~= c@.subrange(i as int, j as int));
                assert(split(s, sep) =~= pieces);
            }
            break;
        }
        proof {
            assert(split(s, sep) =~= pieces + split_from(s, sep, j + 1 - lo));
        }
        i = j + 1;
    }
    proof {
        assert(r@.map_values(|x: String| x@) =~= split(s, sep));
    }
    r
}

/// A copy of `c[lo..hi]`.
pub fn sub_chars(c: &Vec<char>, lo: usize, hi: usize) -> (v: Vec<char>)
    requires
        lo <= hi <= c@.len(),
    ensures
        v@ == c@.subrange(lo as int, hi as int),
{
    let mut v: Vec<char> = Vec::new();
    let mut i = lo;
    while i < hi
        invariant
            lo <= i <= hi,
            hi <= c@.len(),
            v@ == c@.subrange(lo as int, i as int),
        decreases hi - i,
    {
        v.push(c[i]);
        i = i + 1;
        assert(v@ =~= c@.subrange(lo as int, i as int));
    }
    v
}

/// Whether `p` occurs in `c` (`str::contains`).
pub fn contains_exec(c: &Vec<char>, p: &Vec<char>) -> (r: bool)
    ensures
        r == contains(c@, p@),
{
    let n = c.len();
    assert(c@.subrange(0, n as int) =~= c@);
    proof {
        lemma_contains_find(c@, p@);
    }
    find_exec(c, n, 0, p).is_some()
}

/// Whether `c` starts with `p` (`str::starts_with`).
pub fn starts_with_exec(c: &Vec<char>, p: &Vec<char>) -> (r: bool)
    ensures
        r == starts_with(c@, p@),
{
    let n = c.len();
    assert(c@.subrange(0, n as int) =~= c@);
    range_starts_with(c, 0, n, p)
}

/// The pieces `ps` joined with `sep` between each two (`[T]::join`).
pub open spec fn join(ps: Seq<Seq<char>>, sep: Seq<char>) -> Seq<char>
    decreases ps.len(),
{
    if ps.len() == 0 {
        seq![]
    } else if ps.len() == 1 {
        ps[0]
    } else {
        join(ps.drop_last(), sep) + sep + ps.last()
    }
}

/// The strings of `v` joined with `sep` between each two.
pub fn join_strings(v: &Vec<String>, sep: &str) -> (r: String)
    ensures
        r@ == join(v@.map_values(|x: String| x@), sep@),
{
    let ghost vs = v@.map_values(|x: String| x@);
    let mut r = String::new();
    let mut i: usize = 0;
    while i < v.len()
        invariant
            i <= v@.len(),
            vs == v@.map_values(|x: String| x@),
            r@ == join(vs.take(i as int), sep@),
        decreases v@.len() - i,
    {
        proof {
            assert(vs.take(i + 1).drop_last() =~= vs.take(i as int));
            assert(vs.take(i + 1).last() == v@[i as int]@);
        }
        if i > 0 {
            push_str(&mut r, sep);
        } else {
            assert(r@ =~= seq![]);
        }
        push_str(&mut r, v[i].as_str());
        i = i + 1;
        assert(r@ =~= join(vs.take(i as int), sep@));
    }
    assert(vs.take(vs.len() as int) =~= vs);
    r
}

// ------------------------------------------------------------------
// Searching inside a range
// ------------------------------------------------------------------

/// The last position below `k` holding `ch`, or -1.
pub open spec fn last_char_before(c: Seq<char>, ch: char, k: int) -> int
    decreases k,
{
    if k <= 0 {
        -1
    } else if c[k - 1] == ch {
        k - 1
    } else {
        last_char_before(c, ch, k - 1)
    }
}

/// The last position holding `ch` in `c[..hi]`, as `last_char_before` says.
pub fn rfind_char(c: &Vec<char>, hi: usize, ch: char) -> (r: Option<usize>)
    requires
        hi <= c@.len(),
    ensures
        last_char_before(c@, ch, hi as int) < 0 ==> r is None,
        last_char_before(c@, ch, hi as int) >= 0 ==> r == Some(
            last_char_before(c@, ch, hi as int) as usize,
        ),
        r matches Some(j) ==> j < hi,
        last_char_before(c@, ch, hi as int) < hi,
{
    let mut k = hi;
    while k > 0
        invariant
            k <= hi <= c@.len(),
            last_char_before(c@, ch, hi as int) == last_char_before(c@, ch, k as int),
        decreases k,
    {
        if c[k - 1] == ch {
            return Some(k - 1);
        }
        k = k - 1;
    }
    None
}

/// `find_from` finds at most at the end.
pub proof fn lemma_find_bound(s: Seq<char>, p: Seq<char>, i: int)
    requires
        0 <= i,
    ensures
        find_from(s, p, i) matches Some(j) ==> i <= j && j + p.len() <= s.len(),
{
    lemma_find_from(s, p, i);
}


// ------------------------------------------------------------------
// Decimal numbers
// ------------------------------------------------------------------

/// The decimal digit `d` (below ten) as a character.
pub open spec fn digit_char(d: nat) -> char {
    ((d + 48) as u8) as char
}

/// The decimal representation of `n`, as `Display` for unsigned integers
/// writes it.
pub open spec fn decimal(n: nat) -> Seq<char>
    decreases n,
{
    if n < 10 {
        seq![digit_char(n)]
    } else {
        decimal(n / 10).push(digit_char(n % 10))
    }
}

/// Appends the decimal representation of `n` to `s`.
pub fn push_decimal(s: &mut String, n: u64)
    ensures
        final(s)@ == old(s)@ + decimal(n as nat),
    decreases n,
{
    if n >= 10 {
        push_decimal(s, n / 10);
    }
    let d = (n % 10) as u8;
    push_char(s, (d + 48) as char);
    proof {
        if n >= 10 {
            assert(decimal(n as nat) == decimal((n / 10) as nat).push(digit_char((n % 10) as nat)));
        }
    }
    assert(s@ =~= old(s)@ + decimal(n as nat));
}

} // verus!
