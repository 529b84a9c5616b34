//! Choosing the files of a codebase to index and cutting their text into
//! overlapping chunks with line numbers.
//!
//! Walking the directories and reading the files happen around these
//! functions, which decide what is indexed and how.
use vstd::prelude::*;
use crate::text::{chars_of, lines, owned, push_str, string_of};
use crate::types::strings_view;

verus! {

/// A chunk of a file's text.
#[derive(Debug, Clone)]
pub struct Chunk {
    /// Path of the file, relative to the crawl's root.
    pub file_path: String,
    /// Position of the chunk in the file.
    pub chunk_index: usize,
    /// The text of the chunk.
    pub content: String,
    /// First line of the chunk (from one).
    pub start_line: usize,
    /// Last line of the chunk (from one), at most the file's line count.
    pub end_line: usize,
}

/// Why a crawl failed.
#[derive(Debug, Clone)]
pub enum CrawlerError {
    /// A directory could not be walked.
    WalkError { path: String, message: String },
    /// A file could not be read.
    ReadError { path: String, message: String },
}

/// The message of a crawler error.
pub open spec fn crawler_message(e: CrawlerError) -> Seq<char> {
    match e {
        CrawlerError::WalkError { path, message } => "Failed to walk directory at "@ + path@ + ": "@
            + message@,
        CrawlerError::ReadError { path, message } => "Failed to read file "@ + path@ + ": "@ + message@,
    }
}

impl CrawlerError {
    /// The error of walking the directory `path`.
    pub fn walk_error(path: &str, message: &str) -> (r: CrawlerError)
        ensures
            r matches CrawlerError::WalkError { path: p, message: m } && p@ == path@ && m@
                == message@,
    {
        CrawlerError::WalkError { path: owned(path), message: owned(message) }
    }

    /// The error of reading the file `path`.
    pub fn read_error(path: &str, message: &str) -> (r: CrawlerError)
        ensures
            r matches CrawlerError::ReadError { path: p, message: m } && p@ == path@ && m@
                == message@,
    {
        CrawlerError::ReadError { path: owned(path), message: owned(message) }
    }

    /// The message of the error, as its `Display` form writes it.
    pub fn message(&self) -> (r: String)
        ensures
            r@ == crawler_message(*self),
    {
        match self {
            CrawlerError::WalkError { path, message } => {
                let mut r = owned("Failed to walk directory at ");
                push_str(&mut r, path.as_str());
                push_str(&mut r, ": ");
                push_str(&mut r, message.as_str());
                r
            },
            CrawlerError::ReadError { path, message } => {
                let mut r = owned("Failed to read file ");
                push_str(&mut r, path.as_str());
                push_str(&mut r, ": ");
                push_str(&mut r, message.as_str());
                r
            },
        }
    }
}

/// The number of line feeds in `s[..k]`.
pub open spec fn newlines_before(s: Seq<char>, k: int) -> nat
    decreases k,
{
    if k <= 0 || s.len() == 0 {
        0
    } else if k > s.len() {
        newlines_before(s, s.len() as int)
    } else {
        newlines_before(s, k - 1) + if s[k - 1] == '\n' {
            1nat
        } else {
            0nat
        }
    }
}

/// Where the last character of the chunk `s[start..end]` stands: `end - 1`,
/// or `start` for an empty chunk.
pub open spec fn last_position(start: int, end: int) -> int {
    if end > start {
        end - 1
    } else {
        start
    }
}

/// The lines that a chunk `s[start..end]` covers, counted from one: the
/// line of its first character and the line of its last character (a line
/// feed that ends the chunk belongs to the line it ends), the latter capped
/// at the number of lines.
pub open spec fn line_range(s: Seq<char>, start: int, end: int, line_count: nat) -> (nat, nat) {
    let e = 1 + newlines_before(s, last_position(start, end));
    (1 + newlines_before(s, start), if e <= line_count {
        e
    } else {
        line_count
    })
}

/// The mathematical value of a chunk, without its file.
pub struct ChunkView {
    pub index: nat,
    pub content: Seq<char>,
    pub start_line: nat,
    pub end_line: nat,
}

/// The chunks of `s` from `start` on, numbered from `index`: each holds up
/// to `size` characters, and the next starts `overlap` characters before
/// the end of the previous one.
pub open spec fn chunks_from(s: Seq<char>, size: nat, overlap: nat, start: nat, index: nat) -> Seq<ChunkView>
    decreases s.len() - start,
{
    if start >= s.len() || size <= overlap {
        seq![]
    } else {
        let end: nat = if start + size <= s.len() {
            (start + size) as nat
        } else {
            s.len()
        };
        let (a, b) = line_range(s, start as int, end as int, lines(s).len());
        let c = ChunkView {
            index,
            content: s.subrange(start as int, end as int),
            start_line: a,
            end_line: b,
        };
        if end >= s.len() {
            seq![c]
        } else {
            seq![c] + chunks_from(s, size, overlap, (end - overlap) as nat, index + 1)
        }
    }
}

/// The chunks of a text: none for an empty text; when one chunk holds the
/// whole text it is the only one; otherwise `chunks_from`.
pub open spec fn chunks_of(s: Seq<char>, size: nat, overlap: nat) -> Seq<ChunkView> {
    if s.len() == 0 {
        seq![]
    } else if s.len() <= size {
        let (a, b) = line_range(s, 0, s.len() as int, lines(s).len());
        seq![ChunkView { index: 0, content: s, start_line: a, end_line: b }]
    } else {
        chunks_from(s, size, overlap, 0, 0)
    }
}

/// The view of a chunk, without its file.
pub open spec fn chunk_view(c: Chunk) -> ChunkView {
    ChunkView {
        index: c.chunk_index as nat,
        content: c.content@,
        start_line: c.start_line as nat,
        end_line: c.end_line as nat,
    }
}

/// Walks a codebase and cuts its files into chunks.
#[derive(Debug, Clone)]
pub struct Crawler {
    ignored_dirs: Vec<String>,
    indexed_extensions: Vec<String>,
    chunk_size: usize,
    chunk_overlap: usize,
}

/// The extension of a file name, as `Path::extension` reads it: the text
/// after the last dot, unless the only dot starts the name.
pub open spec fn extension_of(name: Seq<char>) -> Option<Seq<char>> {
    let d = crate::text::last_char_before(name, '.', name.len() as int);
    if d <= 0 {
        None
    } else {
        Some(name.subrange(d + 1, name.len() as int))
    }
}

impl Crawler {
    /// The directory names that are skipped.
    pub closed spec fn ignored(&self) -> Seq<Seq<char>> {
        strings_view(self.ignored_dirs@)
    }

    /// The extensions, with their dot, of the files that are indexed.
    pub closed spec fn extensions(&self) -> Seq<Seq<char>> {
        strings_view(self.indexed_extensions@)
    }

    /// Characters per chunk.
    pub closed spec fn size(&self) -> nat {
        self.chunk_size as nat
    }

    /// Characters shared by consecutive chunks.
    pub closed spec fn overlap(&self) -> nat {
        self.chunk_overlap as nat
    }

    /// A crawler that skips the directories `ignored_dirs`, indexes the
    /// files with one of `indexed_extensions` (written with their dot), and
    /// cuts chunks of `chunk_size` characters that overlap by
    /// `chunk_overlap`.
    pub fn new(
        ignored_dirs: Vec<String>,
        indexed_extensions: Vec<String>,
        chunk_size: usize,
        chunk_overlap: usize,
    ) -> (r: Crawler)
        ensures
            r.ignored() == strings_view(ignored_dirs@),
            r.extensions() == strings_view(indexed_extensions@),
            r.size() == chunk_size,
            r.overlap() == chunk_overlap,
    {
        Crawler { ignored_dirs, indexed_extensions, chunk_size, chunk_overlap }
    }

    /// Whether a directory with this name is walked into.
    pub fn should_include_dir(&self, name: &String) -> (r: bool)
        ensures
            r == !self.ignored().contains(name@),
    {
        let mut i: usize = 0;
        while i < self.ignored_dirs.len()
            invariant
                i <= self.ignored_dirs@.len(),
                forall|k: int| 0 <= k < i ==> self.ignored()[k] != name@,
            decreases self.ignored_dirs@.len() - i,
        {
            assert(self.ignored()[i as int] == self.ignored_dirs@[i as int]@);
            if self.ignored_dirs[i] == *name {
                assert(self.ignored()[i as int] == name@);
                return false;
            }
            i = i + 1;
        }
        true
    }

    /// Whether a file with this name is indexed: it has an extension, and
    /// that extension with its dot is one of the indexed ones.
    pub fn is_indexed_file(&self, file_name: &str) -> (r: bool)
        ensures
            r == match extension_of(file_name@) {
                Some(e) => self.extensions().contains(seq!['.'] + e),
                None => false,
            },
    {
        let c = chars_of(file_name);
        let n = c.len();
        let d = crate::text::rfind_char(&c, n, '.');
        let dot = match d {
            Some(k) => k,
            None => {
                return false;
            },
        };
        if dot == 0 {
            return false;
        }
        proof {
            reveal_strlit(".");
        }
        let mut ext = owned(".");
        let tail = string_of(&c, dot + 1, n);
        push_str(&mut ext, tail.as_str());
        assert(ext@ == seq!['.'] + file_name@.subrange(dot + 1, n as int));
        assert(extension_of(file_name@) == Some(file_name@.subrange(dot + 1, n as int)));
        let mut i: usize = 0;
        while i < self.indexed_extensions.len()
            invariant
                i <= self.indexed_extensions@.len(),
                extension_of(file_name@) == Some(file_name@.subrange(dot + 1, n as int)),
                ext@ == seq!['.'] + file_name@.subrange(dot + 1, n as int),
                forall|k: int| 0 <= k < i ==> self.extensions()[k] != ext@,
            decreases self.indexed_extensions@.len() - i,
        {
            assert(self.extensions()[i as int] == self.indexed_extensions@[i as int]@);
            if self.indexed_extensions[i] == ext {
                assert(self.extensions()[i as int] == ext@);
                assert(self.extensions().contains(ext@));
                return true;
            }
            i = i + 1;
        }
        false
    }

    /// The lines that the chunk `chars[start..end]` covers, as `line_range`
    /// says, with `line_count` lines in the file.
    pub fn calculate_line_range(chars: &Vec<char>, start: usize, end: usize, line_count: usize) -> (r: (usize, usize))
        requires
            chars@.len() < usize::MAX,
        ensures
            (r.0 as nat, r.1 as nat) == line_range(chars@, start as int, end as int, line_count as nat),
    {
        let last: usize = if end > start {
            end - 1
        } else {
            start
        };
        assert(last as int == last_position(start as int, end as int));
        let mut start_line: usize = 1;
        let mut end_line: usize = 1;
        let mut i: usize = 0;
        while i < chars.len()
            invariant
                i <= chars@.len(),
                chars@.len() < usize::MAX,
                start_line == 1 + newlines_before(chars@, if (start as int) < (i as int) { start as int } else { i as int }),
                end_line == 1 + newlines_before(chars@, if (last as int) < (i as int) { last as int } else { i as int }),
                newlines_before(chars@, i as int) <= i,
            decreases chars@.len() - i,
        {
            proof {
                lemma_newlines_cap(chars@, if (start as int) < (i as int) { start as int } else { i as int });
                lemma_newlines_cap(chars@, if (last as int) < (i as int) { last as int } else { i as int });
            }
            if chars[i] == '\n' {
                if i < start {
                    start_line = start_line + 1;
                }
                if i < last {
                    end_line = end_line + 1;
                }
            }
            i = i + 1;
        }
        proof {
            lemma_newlines_cap(chars@, start as int);
            lemma_newlines_cap(chars@, last as int);
        }
        if end_line > line_count {
            end_line = line_count;
        }
        (start_line, end_line)
    }

    /// Cuts a file's text into chunks for the file `relative_path`, as
    /// `chunks_of` says. (A text longer than one chunk needs chunks larger
    /// than their overlap, else cutting would not advance.)
    pub fn chunk_content(&self, content: &str, relative_path: &str) -> (r: Vec<Chunk>)
        requires
            content@.len() <= self.size() || self.size() > self.overlap(),
            content@.len() < usize::MAX,
        ensures
            r@.map_values(|c: Chunk| chunk_view(c)) == chunks_of(content@, self.size(), self.overlap()),
            forall|i: int| 0 <= i < r@.len() ==> (#[trigger] r@[i]).file_path@ == relative_path@,
    {
        let c = chars_of(content);
        let total = c.len();
        let mut r: Vec<Chunk> = Vec::new();
        if total == 0 {
            assert(r@.map_values(|c: Chunk| chunk_view(c)) =~= Seq::<ChunkView>::empty());
            return r;
        }
        let ranges = crate::text::line_ranges(&c);
        let line_count = ranges.len();
        let size = self.chunk_size;
        let overlap = self.chunk_overlap;
        if total <= size {
            let (a, b) = Self::calculate_line_range(&c, 0, total, line_count);
            assert(c@.subrange(0, total as int) =~= c@);
            r.push(Chunk {
                file_path: owned(relative_path),
                chunk_index: 0,
                content: string_of(&c, 0, total),
                start_line: a,
                end_line: b,
            });
            assert(r@.map_values(|c: Chunk| chunk_view(c)) =~= chunks_of(content@, self.size(), self.overlap()));
            return r;
        }
        let mut start: usize = 0;
        let mut index: usize = 0;
        loop
            invariant
                c@ == content@,
                total == c@.len(),
                total > size,
                total < usize::MAX,
                size > overlap,
                size == self.size(),
                overlap == self.overlap(),
                line_count == lines(c@).len(),
                start < total,
                index <= start,
                r@.map_values(|c: Chunk| chunk_view(c)) + chunks_from(c@, size as nat, overlap as nat, start as nat, index as nat)
                    == chunks_of(content@, self.size(), self.overlap()),
                forall|i: int| 0 <= i < r@.len() ==> (#[trigger] r@[i]).file_path@ == relative_path@,
            decreases total - start,
        {
            let end = if total - start >= size {
                start + size
            } else {
                total
            };
            let (a, b) = Self::calculate_line_range(&c, start, end, line_count);
            let ghost before = r@.map_values(|c: Chunk| chunk_view(c));
            let chunk = Chunk {
                file_path: owned(relative_path),
                chunk_index: index,
                content: string_of(&c, start, end),
                start_line: a,
                end_line: b,
            };
            let ghost cv = chunk_view(chunk);
            r.push(chunk);
            assert(r@.map_values(|c: Chunk| chunk_view(c)) =~= before.push(cv));
            if end >= total {
                assert(before.push(cv) =~= before + chunks_from(c@, size as nat, overlap as nat, start as nat, index as nat));
                return r;
            }
            assert(before.push(cv) + chunks_from(c@, size as nat, overlap as nat, (end - overlap) as nat, (index + 1) as nat) =~= before
                + chunks_from(c@, size as nat, overlap as nat, start as nat, index as nat));
            start = end - overlap;
            index = index + 1;
        }
    }
}

/// At most one line feed per character.
proof fn lemma_newlines_cap(s: Seq<char>, k: int)
    ensures
        newlines_before(s, k) <= if k < 0 { 0 } else { k },
    decreases k,
{
    if k > 0 && s.len() > 0 {
        if k > s.len() {
            lemma_newlines_cap(s, s.len() as int);
        } else {
            lemma_newlines_cap(s, k - 1);
        }
    }
}

} // verus!
