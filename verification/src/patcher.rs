//! Surgical patches: replacing a piece of a file's text with another.
//!
//! The files are given as they were read (their text, or why there is
//! none), and patching gives the new texts and a result for each patch;
//! reading and writing the files happen around these functions.
use vstd::prelude::*;
use crate::text::{chars_of, contains, find_exec, find_from, lemma_contains_find, lemma_find_bound, owned, push_range, push_str};

verus! {

/// A patch of one file: every occurrence of `original` becomes
/// `replacement`.
#[derive(Debug, Clone)]
pub struct FilePatch {
    pub file_path: String,
    /// Text to replace.
    pub original: String,
    /// New text.
    pub replacement: String,
}

/// The result of a patch.
#[derive(Debug, Clone)]
pub enum PatchResult {
    /// The patch applies (or was applied).
    Success,
    /// The patch could not be applied, with the reason.
    Failure(String),
    /// The file does not exist.
    FileNotFound,
    /// The file does not hold the text to replace.
    ContentMismatch,
}

/// What reading a file gave.
#[derive(Debug, Clone)]
pub enum FileState {
    /// The file does not exist.
    Missing,
    /// The file could not be read, with the reason.
    Unreadable(String),
    /// The file's text.
    Text(String),
}

/// A file and what reading it gave.
#[derive(Debug, Clone)]
pub struct FileEntry {
    pub path: String,
    pub state: FileState,
}

/// The mathematical value of a file's state.
pub enum FileStateView {
    Missing,
    Unreadable(Seq<char>),
    Text(Seq<char>),
}

/// The mathematical value of a patch result.
pub enum PatchResultView {
    Success,
    Failure(Seq<char>),
    FileNotFound,
    ContentMismatch,
}

impl View for FileState {
    type V = FileStateView;

    open spec fn view(&self) -> FileStateView {
        match self {
            FileState::Missing => FileStateView::Missing,
            FileState::Unreadable(e) => FileStateView::Unreadable(e@),
            FileState::Text(t) => FileStateView::Text(t@),
        }
    }
}

impl View for PatchResult {
    type V = PatchResultView;

    open spec fn view(&self) -> PatchResultView {
        match self {
            PatchResult::Success => PatchResultView::Success,
            PatchResult::Failure(e) => PatchResultView::Failure(e@),
            PatchResult::FileNotFound => PatchResultView::FileNotFound,
            PatchResult::ContentMismatch => PatchResultView::ContentMismatch,
        }
    }
}

/// The files as paths and states.
pub open spec fn files_view(f: Seq<FileEntry>) -> Seq<(Seq<char>, FileStateView)> {
    f.map_values(|e: FileEntry| (e.path@, e.state@))
}

/// `str::replace` with an empty pattern: `r` before each character and at
/// the end.
pub open spec fn interleave(s: Seq<char>, r: Seq<char>) -> Seq<char>
    decreases s.len(),
{
    if s.len() == 0 {
        r
    } else {
        r + seq![s[0]] + interleave(s.drop_first(), r)
    }
}

/// `str::replace` from position `i`: each occurrence of `p` found from the
/// left, without overlap, becomes `r`.
pub open spec fn replace_from(s: Seq<char>, p: Seq<char>, r: Seq<char>, i: int) -> Seq<char>
    decreases s.len() - i,
{
    if p.len() == 0 || i < 0 || i > s.len() {
        seq![]
    } else {
        match find_from(s, p, i) {
            Some(j) => if j >= i && j + p.len() <= s.len() {
                s.subrange(i, j) + r + replace_from(s, p, r, j + p.len())
            } else {
                seq![]
            },
            None => s.subrange(i, s.len() as int),
        }
    }
}

/// `str::replace`: every occurrence of `p` in `s` becomes `r`.
pub open spec fn replace_all(s: Seq<char>, p: Seq<char>, r: Seq<char>) -> Seq<char> {
    if p.len() == 0 {
        interleave(s, r)
    } else {
        replace_from(s, p, r, 0)
    }
}

/// The first file whose path is `path`, or -1.
pub open spec fn file_index(f: Seq<(Seq<char>, FileStateView)>, path: Seq<char>, k: int) -> int
    decreases f.len() - k,
{
    if k < 0 || k >= f.len() {
        -1
    } else if f[k].0 == path {
        k
    } else {
        file_index(f, path, k + 1)
    }
}

/// The message of a file that could not be read.
pub open spec fn read_failure(e: Seq<char>) -> Seq<char> {
    "Failed to read file: "@ + e
}

/// Whether a patch applies to the files, as verifying it says.
pub open spec fn verify_one(f: Seq<(Seq<char>, FileStateView)>, path: Seq<char>, original: Seq<char>) -> PatchResultView {
    let k = file_index(f, path, 0);
    if k < 0 {
        PatchResultView::FileNotFound
    } else {
        match f[k].1 {
            FileStateView::Missing => PatchResultView::FileNotFound,
            FileStateView::Unreadable(e) => PatchResultView::Failure(read_failure(e)),
            FileStateView::Text(c) => if contains(c, original) {
                PatchResultView::Success
            } else {
                PatchResultView::ContentMismatch
            },
        }
    }
}

/// The files after applying one patch: the patched file gets its new text
/// when the patch applies.
pub open spec fn apply_one(f: Seq<(Seq<char>, FileStateView)>, path: Seq<char>, original: Seq<char>, replacement: Seq<char>) -> Seq<(Seq<char>, FileStateView)> {
    let k = file_index(f, path, 0);
    if k < 0 {
        f
    } else {
        match f[k].1 {
            FileStateView::Text(c) => if contains(c, original) {
                f.update(k, (path, FileStateView::Text(replace_all(c, original, replacement))))
            } else {
                f
            },
            _ => f,
        }
    }
}

/// The files after applying the first `n` patches in order.
pub open spec fn apply_upto(f: Seq<(Seq<char>, FileStateView)>, ps: Seq<FilePatch>, n: int) -> Seq<(Seq<char>, FileStateView)>
    decreases n,
{
    if n <= 0 {
        f
    } else {
        let prev = apply_upto(f, ps, n - 1);
        apply_one(prev, ps[n - 1].file_path@, ps[n - 1].original@, ps[n - 1].replacement@)
    }
}

/// Whether `p` occurs in the text `s`.
fn text_contains(s: &String, p: &String) -> (r: bool)
    ensures
        r == contains(s@, p@),
{
    let a = chars_of(s.as_str());
    let b = chars_of(p.as_str());
    crate::text::contains_exec(&a, &b)
}

/// Every occurrence of `p` in `s` replaced by `r`, as `str::replace` does.
pub fn replace_all_exec(s: &str, p: &str, r: &str) -> (out: String)
    ensures
        out@ == replace_all(s@, p@, r@),
{
    let c = chars_of(s);
    let pc = chars_of(p);
    let n = c.len();
    let mut out = String::new();
    if pc.len() == 0 {
        assert(c@.subrange(0, n as int) =~= c@);
        let mut i: usize = 0;
        while i < n
            invariant
                i <= n,
                n == c@.len(),
                c@ == s@,
                out@ + interleave(c@.subrange(i as int, n as int), r@) == interleave(s@, r@),
            decreases n - i,
        {
            let ghost rest = c@.subrange(i as int, n as int);
            assert(rest.drop_first() =~= c@.subrange(i + 1, n as int));
            assert(interleave(rest, r@) == r@ + seq![c@[i as int]] + interleave(rest.drop_first(), r@));
            let ghost before = out@;
            push_str(&mut out, r);
            crate::text::push_char(&mut out, c[i]);
            assert(out@ == before + r@ + seq![c@[i as int]]);
            i = i + 1;
        }
        assert(c@.subrange(n as int, n as int) =~= Seq::<char>::empty());
        push_str(&mut out, r);
        return out;
    }
    assert(c@.subrange(0, n as int) =~= c@);
    let mut i: usize = 0;
    while i <= n
        invariant
            i <= n,
            n == c@.len(),
            c@ == s@,
            pc@ == p@,
            pc@.len() > 0,
            c@.subrange(0, n as int) == c@,
            out@ + replace_from(s@, p@, r@, i as int) == replace_all(s@, p@, r@),
        decreases n + 1 - i,
    {
        proof {
            lemma_find_bound(c@, pc@, i as int);
        }
        match find_exec(&c, n, i, &pc) {
            Some(j) => {
                let ghost before = out@;
                push_range(&mut out, &c, i, j);
                push_str(&mut out, r);
                assert(out@ == before + c@.subrange(i as int, j as int) + r@);
                i = j + pc.len();
            },
            None => {
                push_range(&mut out, &c, i, n);
                return out;
            },
        }
    }
    out
}

/// The file named `path`, as `file_index` says, or the number of files.
fn find_file(files: &Vec<FileEntry>, path: &String) -> (k: usize)
    ensures
        file_index(files_view(files@), path@, 0) < 0 ==> k == files@.len(),
        file_index(files_view(files@), path@, 0) >= 0 ==> k as int == file_index(files_view(files@), path@, 0),
        k <= files@.len(),
        file_index(files_view(files@), path@, 0) < files@.len(),
{
    let ghost fv = files_view(files@);
    let mut k: usize = 0;
    while k < files.len()
        invariant
            k <= files@.len(),
            fv == files_view(files@),
            file_index(fv, path@, 0) == file_index(fv, path@, k as int),
        decreases files@.len() - k,
    {
        assert(fv[k as int].0 == files@[k as int].path@);
        if files[k].path == *path {
            return k;
        }
        k = k + 1;
    }
    files.len()
}

/// The result of verifying one patch against the files.
fn verify_in(files: &Vec<FileEntry>, patch: &FilePatch) -> (r: PatchResult)
    ensures
        r@ == verify_one(files_view(files@), patch.file_path@, patch.original@),
{
    let k = find_file(files, &patch.file_path);
    if k >= files.len() {
        return PatchResult::FileNotFound;
    }
    assert(files_view(files@)[k as int].1 == files@[k as int].state@);
    match &files[k].state {
        FileState::Missing => PatchResult::FileNotFound,
        FileState::Unreadable(e) => {
            let mut m = owned("Failed to read file: ");
            push_str(&mut m, e.as_str());
            PatchResult::Failure(m)
        },
        FileState::Text(c) => {
            if text_contains(c, &patch.original) {
                PatchResult::Success
            } else {
                PatchResult::ContentMismatch
            }
        },
    }
}

/// Patches of files.
pub struct Patcher;

impl Patcher {
    /// A patcher.
    pub fn new() -> (r: Patcher) {
        Patcher
    }

    /// Verifies each patch against the files as they are, giving each
    /// patch's path and result in order: the file must exist, be readable
    /// and hold the text to replace.
    pub fn verify_patches(patches: &Vec<FilePatch>, files: &Vec<FileEntry>) -> (r: Vec<(String, PatchResult)>)
        ensures
            r@.len() == patches@.len(),
            forall|i: int| 0 <= i < patches@.len() ==> (#[trigger] r@[i]).0@ == patches@[i].file_path@ && r@[i].1@
                == verify_one(files_view(files@), patches@[i].file_path@, patches@[i].original@),
    {
        let mut r: Vec<(String, PatchResult)> = Vec::new();
        let mut i: usize = 0;
        while i < patches.len()
            invariant
                i <= patches@.len(),
                r@.len() == i,
                forall|k: int| 0 <= k < i ==> (#[trigger] r@[k]).0@ == patches@[k].file_path@ && r@[k].1@
                    == verify_one(files_view(files@), patches@[k].file_path@, patches@[k].original@),
            decreases patches@.len() - i,
        {
            let res = verify_in(files, &patches[i]);
            r.push((patches[i].file_path.clone(), res));
            i = i + 1;
        }
        r
    }

    /// Applies the patches in order to the files, each to the text the
    /// earlier ones left: a patch that applies replaces every occurrence of
    /// its text in its file. Gives each patch's path and result, as
    /// verifying it against the files at that point says.
    pub fn apply_patches(patches: &Vec<FilePatch>, files: &mut Vec<FileEntry>) -> (r: Vec<(String, PatchResult)>)
        ensures
            files_view(final(files)@) == apply_upto(files_view(old(files)@), patches@, patches@.len() as int),
            r@.len() == patches@.len(),
            forall|i: int| 0 <= i < patches@.len() ==> (#[trigger] r@[i]).0@ == patches@[i].file_path@ && r@[i].1@
                == verify_one(apply_upto(files_view(old(files)@), patches@, i), patches@[i].file_path@, patches@[i].original@),
    {
        let ghost f0 = files_view(files@);
        let mut r: Vec<(String, PatchResult)> = Vec::new();
        let mut i: usize = 0;
        while i < patches.len()
            invariant
                i <= patches@.len(),
                r@.len() == i,
                files_view(files@) == apply_upto(f0, patches@, i as int),
                forall|k: int| 0 <= k < i ==> (#[trigger] r@[k]).0@ == patches@[k].file_path@ && r@[k].1@
                    == verify_one(apply_upto(f0, patches@, k), patches@[k].file_path@, patches@[k].original@),
            decreases patches@.len() - i,
        {
            let patch = &patches[i];
            let res = verify_in(files, patch);
            let ghost fv = files_view(files@);
            let k = find_file(files, &patch.file_path);
            if k < files.len() {
                assert(fv[k as int].1 == files@[k as int].state@);
                let new_text = match &files[k].state {
                    FileState::Text(c) => {
                        if text_contains(c, &patch.original) {
                            Some(replace_all_exec(c.as_str(), patch.original.as_str(), patch.replacement.as_str()))
                        } else {
                            None
                        }
                    },
                    _ => None,
                };
                match new_text {
                    Some(t) => {
                        let ghost tv = t@;
                        files.set(k, FileEntry { path: patch.file_path.clone(), state: FileState::Text(t) });
                        assert(files_view(files@) =~= fv.update(k as int, (patch.file_path@, FileStateView::Text(tv))));
                    },
                    None => {},
                }
            }
            r.push((patch.file_path.clone(), res));
            i = i + 1;
        }
        r
    }
}

} // verus!
