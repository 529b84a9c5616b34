//! The codebase index: its configuration, the outcome of updating it, and
//! its errors.
use vstd::prelude::*;
use crate::crawler::CrawlerError;
use crate::text::owned;
use crate::types::strings_view;

verus! {

/// Configuration of the index.
#[derive(Debug, Clone)]
pub struct IndexConfig {
    /// Address of the embedding service.
    pub ollama_url: String,
    /// Address of the vector store.
    pub qdrant_url: String,
    /// Name of the store's collection.
    pub collection_name: String,
    /// Directories skipped when crawling.
    pub ignored_dirs: Vec<String>,
    /// Extensions, with their dot, of the files that are indexed.
    pub indexed_extensions: Vec<String>,
    /// Characters per chunk.
    pub chunk_size: usize,
    /// Characters shared by consecutive chunks.
    pub chunk_overlap: usize,
}

impl Default for IndexConfig {
    /// Local services, the collection "telisq_codebase", the usual build
    /// and tool directories skipped, source, text and configuration files
    /// indexed, chunks of 500 characters overlapping by 50.
    fn default() -> (r: Self)
        ensures
            r.ollama_url@ == "http://localhost:11434"@,
            r.qdrant_url@ == "http://localhost:6334"@,
            r.collection_name@ == "telisq_codebase"@,
            strings_view(r.ignored_dirs@) == seq![".git"@, "node_modules"@, "target"@, "dist"@, "build"@],
            strings_view(r.indexed_extensions@) == seq![
                ".rs"@,
                ".ts"@,
                ".js"@,
                ".py"@,
                ".md"@,
                ".json"@,
                ".toml"@,
                ".yaml"@,
                ".yml"@,
            ],
            r.chunk_size == 500,
            r.chunk_overlap == 50,
    {
        let ignored_dirs = vec![
            owned(".git"),
            owned("node_modules"),
            owned("target"),
            owned("dist"),
            owned("build"),
        ];
        let indexed_extensions = vec![
            owned(".rs"),
            owned(".ts"),
            owned(".js"),
            owned(".py"),
            owned(".md"),
            owned(".json"),
            owned(".toml"),
            owned(".yaml"),
            owned(".yml"),
        ];
        let r = IndexConfig {
            ollama_url: owned("http://localhost:11434"),
            qdrant_url: owned("http://localhost:6334"),
            collection_name: owned("telisq_codebase"),
            ignored_dirs,
            indexed_extensions,
            chunk_size: 500,
            chunk_overlap: 50,
        };
        assert(strings_view(r.ignored_dirs@) =~= seq![".git"@, "node_modules"@, "target"@, "dist"@, "build"@]);
        assert(strings_view(r.indexed_extensions@) =~= seq![
            ".rs"@,
            ".ts"@,
            ".js"@,
            ".py"@,
            ".md"@,
            ".json"@,
            ".toml"@,
            ".yaml"@,
            ".yml"@,
        ]);
        r
    }
}

/// What processing a batch of file changes did.
#[derive(Debug, Clone)]
pub struct ProcessingResult {
    /// Chunks updated.
    pub updated: usize,
    /// Chunks deleted.
    pub deleted: usize,
    /// Files that failed, with the reason.
    pub errors: Vec<(String, String)>,
}

impl ProcessingResult {
    /// Whether anything was updated or deleted.
    pub fn has_changes(&self) -> (r: bool)
        ensures
            r == (self.updated > 0 || self.deleted > 0),
    {
        self.updated > 0 || self.deleted > 0
    }

    /// A result with no change and no error.
    pub fn no_changes() -> (r: ProcessingResult)
        ensures
            r.updated == 0,
            r.deleted == 0,
            r.errors@.len() == 0,
    {
        ProcessingResult { updated: 0, deleted: 0, errors: Vec::new() }
    }
}

/// Why embedding failed.
#[derive(Debug, Clone)]
pub enum EmbedderError {
    ConnectionFailed(String),
    ApiError { status: u16, message: String },
    ParseError(String),
    UnknownError(String),
}

/// Why watching files failed.
#[derive(Debug, Clone)]
pub enum WatcherError {
    /// The file notification service failed.
    NotifyError(String),
    CrawlerError(CrawlerError),
    EmbedderError(EmbedderError),
    /// The vector store failed, with its message.
    StoreError(String),
}


// ------------------------------------------------------------------
// Retrying an embedding
// ------------------------------------------------------------------

/// Two to the power `n`.
pub open spec fn pow2(n: nat) -> nat
    decreases n,
{
    if n == 0 {
        1
    } else {
        2 * pow2((n - 1) as nat)
    }
}

/// How one request for an embedding went.
#[derive(Debug, Clone)]
pub enum EmbedAttempt {
    /// The embedding came back.
    Succeeded,
    /// The request failed with this error.
    Failed(EmbedderError),
}

/// What follows an attempt.
#[derive(Debug, Clone)]
pub enum EmbedNext {
    /// Wait this many milliseconds, then send the request (again).
    Try { delay_ms: u64 },
    /// Every attempt failed: the last error.
    GiveUp(EmbedderError),
    /// The embedding came back.
    Finished,
    /// The report came when no request was out; nothing changed.
    Ignore,
}

/// The requests for one embedding: the first at once, then up to
/// `max_retries` more, the `k`-th retry after `base_delay_ms * 2^(k-1)`
/// milliseconds.
#[derive(Debug, Clone)]
pub struct EmbedRetry {
    max_retries: u32,
    base_delay_ms: u64,
    attempts: u32,
    done: bool,
}

impl EmbedRetry {
    /// The retry limit.
    pub closed spec fn max_of(&self) -> nat {
        self.max_retries as nat
    }

    /// The delay before the first retry, in milliseconds.
    pub closed spec fn base_of(&self) -> nat {
        self.base_delay_ms as nat
    }

    /// The requests sent so far.
    pub closed spec fn attempts_of(&self) -> nat {
        self.attempts as nat
    }

    /// Whether the requests are over.
    pub closed spec fn is_done(&self) -> bool {
        self.done
    }

    /// The invariant: the limits keep the delays within range, and no more
    /// requests than allowed were sent.
    pub closed spec fn wf(&self) -> bool {
        &&& self.max_retries <= 32
        &&& self.base_delay_ms <= u32::MAX
        &&& self.attempts <= self.max_retries + 1
    }

    /// No request yet. The limits keep `base_delay_ms * 2^max_retries`
    /// within range.
    pub fn new(max_retries: u32, base_delay_ms: u64) -> (r: EmbedRetry)
        requires
            max_retries <= 32,
            base_delay_ms <= u32::MAX,
        ensures
            r.wf(),
            r.max_of() == max_retries,
            r.base_of() == base_delay_ms,
            r.attempts_of() == 0,
            !r.is_done(),
    {
        EmbedRetry { max_retries, base_delay_ms, attempts: 0, done: false }
    }

    /// The first request, at once. Once begun, the call is ignored.
    pub fn begin(&mut self) -> (r: EmbedNext)
        requires
            old(self).wf(),
        ensures
            final(self).wf(),
            final(self).max_of() == old(self).max_of(),
            final(self).base_of() == old(self).base_of(),
            final(self).is_done() == old(self).is_done(),
            old(self).attempts_of() == 0 && !old(self).is_done() ==> final(self).attempts_of() == 1
                && r == (EmbedNext::Try { delay_ms: 0 }),
            !(old(self).attempts_of() == 0 && !old(self).is_done()) ==> final(self).attempts_of()
                == old(self).attempts_of() && r is Ignore,
    {
        if self.attempts == 0 && !self.done {
            self.attempts = 1;
            EmbedNext::Try { delay_ms: 0 }
        } else {
            EmbedNext::Ignore
        }
    }

    /// The step after a request: a success ends the requests; a failure
    /// leads to the next retry, after its delay, or, with every retry
    /// spent, gives up with that failure's error.
    pub fn report(&mut self, a: EmbedAttempt) -> (r: EmbedNext)
        requires
            old(self).wf(),
        ensures
            final(self).wf(),
            final(self).max_of() == old(self).max_of(),
            final(self).base_of() == old(self).base_of(),
            old(self).attempts_of() == 0 || old(self).is_done() ==> r is Ignore && final(self).attempts_of()
                == old(self).attempts_of() && final(self).is_done() == old(self).is_done(),
            old(self).attempts_of() > 0 && !old(self).is_done() ==> match a {
                EmbedAttempt::Succeeded => r is Finished && final(self).is_done() && final(self).attempts_of()
                    == old(self).attempts_of(),
                EmbedAttempt::Failed(e) => if old(self).attempts_of() <= old(self).max_of() {
                    &&& r == (EmbedNext::Try {
                        delay_ms: (old(self).base_of() * pow2((old(self).attempts_of() - 1) as nat)) as u64,
                    })
                    &&& old(self).base_of() * pow2((old(self).attempts_of() - 1) as nat) <= u64::MAX
                    &&& final(self).attempts_of() == old(self).attempts_of() + 1
                    &&& !final(self).is_done()
                } else {
                    r == EmbedNext::GiveUp(e) && final(self).is_done() && final(self).attempts_of()
                        == old(self).attempts_of()
                },
            },
    {
        if self.attempts == 0 || self.done {
            return EmbedNext::Ignore;
        }
        match a {
            EmbedAttempt::Succeeded => {
                self.done = true;
                EmbedNext::Finished
            },
            EmbedAttempt::Failed(e) => {
                if self.attempts <= self.max_retries {
                    let k = self.attempts - 1;
                    let mut d: u64 = self.base_delay_ms;
                    let mut i: u32 = 0;
                    assert(pow2(0) == 1);
                    while i < k
                        invariant
                            i <= k,
                            k <= 31,
                            self.base_delay_ms <= u32::MAX,
                            d == self.base_delay_ms * pow2(i as nat),
                            d <= u32::MAX * pow2(i as nat),
                        decreases k - i,
                    {
                        proof {
                            assert(pow2((i + 1) as nat) == 2 * pow2(i as nat));
                            lemma_pow2_bound(i as nat);
                            assert(d * 2 <= 0xffff_ffff * 0x8000_0000nat) by (nonlinear_arith)
                                requires
                                    pow2(i as nat) <= 0x4000_0000nat,
                                    d <= 0xffff_ffff * pow2(i as nat),
                            ;
                        }
                        d = d * 2;
                        assert(d == self.base_delay_ms * pow2((i + 1) as nat)) by (nonlinear_arith)
                            requires d == 2 * (self.base_delay_ms * pow2(i as nat)), pow2((i + 1) as nat) == 2 * pow2(i as nat);
                        assert(d <= u32::MAX * pow2((i + 1) as nat)) by (nonlinear_arith)
                            requires d == self.base_delay_ms * pow2((i + 1) as nat), self.base_delay_ms <= u32::MAX;
                        i = i + 1;
                    }
                    self.attempts = self.attempts + 1;
                    EmbedNext::Try { delay_ms: d }
                } else {
                    self.done = true;
                    EmbedNext::GiveUp(e)
                }
            },
        }
    }
}

/// Powers of two below the 31st stay at most 2^30.
proof fn lemma_pow2_bound(n: nat)
    requires
        n < 31,
    ensures
        pow2(n) <= 0x4000_0000,
    decreases 30 - n,
{
    if n < 30 {
        lemma_pow2_bound(n + 1);
        assert(pow2(n + 1) == 2 * pow2(n));
    } else {
        reveal_with_fuel(pow2, 31);
        assert(pow2(30) == 0x4000_0000);
    }
}


// ------------------------------------------------------------------
// Messages of the errors
// ------------------------------------------------------------------

/// The message of an embedding error.
pub open spec fn embedder_message(e: EmbedderError) -> Seq<char> {
    match e {
        EmbedderError::ConnectionFailed(m) => "Connection failed: "@ + m@,
        EmbedderError::ApiError { status, message } => "API error (status "@ + crate::text::decimal(
            status as nat,
        ) + "): "@ + message@,
        EmbedderError::ParseError(m) => "Failed to parse response: "@ + m@,
        EmbedderError::UnknownError(m) => "Unknown error: "@ + m@,
    }
}

impl EmbedderError {
    /// The error's message, as `embedder_message` says.
    pub fn message(&self) -> (r: String)
        ensures
            r@ == embedder_message(*self),
    {
        match self {
            EmbedderError::ConnectionFailed(m) => {
                let mut r = owned("Connection failed: ");
                crate::text::push_str(&mut r, m.as_str());
                r
            },
            EmbedderError::ApiError { status, message } => {
                let mut r = owned("API error (status ");
                crate::text::push_decimal(&mut r, *status as u64);
                crate::text::push_str(&mut r, "): ");
                crate::text::push_str(&mut r, message.as_str());
                r
            },
            EmbedderError::ParseError(m) => {
                let mut r = owned("Failed to parse response: ");
                crate::text::push_str(&mut r, m.as_str());
                r
            },
            EmbedderError::UnknownError(m) => {
                let mut r = owned("Unknown error: ");
                crate::text::push_str(&mut r, m.as_str());
                r
            },
        }
    }
}

impl WatcherError {
    /// The error's message: its kind, then the message of the error it
    /// carries.
    pub fn message(&self) -> (r: String)
        ensures
            match *self {
                WatcherError::NotifyError(m) => r@ == "Notify error: "@ + m@,
                WatcherError::CrawlerError(e) => r@ == "Crawler error: "@ + crate::crawler::crawler_message(e),
                WatcherError::EmbedderError(e) => r@ == "Embedder error: "@ + embedder_message(e),
                WatcherError::StoreError(m) => r@ == "Store error: "@ + m@,
            },
    {
        match self {
            WatcherError::NotifyError(m) => {
                let mut r = owned("Notify error: ");
                crate::text::push_str(&mut r, m.as_str());
                r
            },
            WatcherError::CrawlerError(e) => {
                let mut r = owned("Crawler error: ");
                let t = e.message();
                crate::text::push_str(&mut r, t.as_str());
                r
            },
            WatcherError::EmbedderError(e) => {
                let mut r = owned("Embedder error: ");
                let t = e.message();
                crate::text::push_str(&mut r, t.as_str());
                r
            },
            WatcherError::StoreError(m) => {
                let mut r = owned("Store error: ");
                crate::text::push_str(&mut r, m.as_str());
                r
            },
        }
    }
}

// ------------------------------------------------------------------
// Building the index
// ------------------------------------------------------------------

/// The error when a service answers its health check with failure, or
/// cannot be reached: none when it is healthy.
pub fn unreachable_message(service: &str, check: &Result<bool, String>) -> (r: Option<String>)
    ensures
        match *check {
            Ok(true) => r is None,
            Ok(false) => r matches Some(m) && m@ == service@ + " is not reachable"@,
            Err(e) => r matches Some(m) && m@ == service@ + " is not reachable: "@ + e@,
        },
{
    match check {
        Ok(true) => None,
        Ok(false) => {
            let mut m = owned(service);
            crate::text::push_str(&mut m, " is not reachable");
            Some(m)
        },
        Err(e) => {
            let mut m = owned(service);
            crate::text::push_str(&mut m, " is not reachable: ");
            crate::text::push_str(&mut m, e.as_str());
            Some(m)
        },
    }
}

/// The identifier of a chunk's point in the store: "path:index".
pub fn point_id(file_path: &str, chunk_index: usize) -> (r: String)
    ensures
        r@ == file_path@ + ":"@ + crate::text::decimal(chunk_index as nat),
{
    let mut r = owned(file_path);
    crate::text::push_str(&mut r, ":");
    crate::text::push_decimal(&mut r, chunk_index as u64);
    r
}

/// The progress of building the index: the embedded chunks that wait to be
/// stored, in batches of a hundred, and the chunks that failed.
#[derive(Debug, Clone)]
pub struct IndexBuild {
    pub chunks: usize,
    pub pending: usize,
    pub errors: usize,
}

impl IndexBuild {
    /// Nothing embedded yet, over `chunks` chunks.
    pub fn new(chunks: usize) -> (r: IndexBuild)
        ensures
            r.chunks == chunks,
            r.pending == 0,
            r.errors == 0,
    {
        IndexBuild { chunks, pending: 0, errors: 0 }
    }

    /// A chunk was embedded and waits to be stored. Whether the waiting
    /// ones are stored now: when they make a batch of a hundred.
    pub fn embedded(&mut self) -> (store_now: bool)
        requires
            old(self).pending < 100,
        ensures
            store_now == (old(self).pending + 1 >= 100),
            final(self).pending == if store_now {
                0
            } else {
                old(self).pending + 1
            },
            final(self).pending < 100,
            final(self).errors == old(self).errors,
            final(self).chunks == old(self).chunks,
    {
        if self.pending + 1 >= 100 {
            self.pending = 0;
            true
        } else {
            self.pending = self.pending + 1;
            false
        }
    }

    /// A chunk could not be embedded.
    pub fn failed(&mut self)
        requires
            old(self).errors < usize::MAX,
        ensures
            final(self).errors == old(self).errors + 1,
            final(self).pending == old(self).pending,
            final(self).chunks == old(self).chunks,
    {
        self.errors = self.errors + 1;
    }

    /// Whether embedded chunks still wait to be stored at the end.
    pub fn store_rest(&self) -> (r: bool)
        ensures
            r == (self.pending > 0),
    {
        self.pending > 0
    }

    /// The lines that report the build: the chunks processed, the errors
    /// and the collection.
    pub fn summary(&self, collection: &str) -> (r: Vec<String>)
        ensures
            r@.len() == 4,
            r@[0]@ == "\n\u{2705} Index build completed!"@,
            r@[1]@ == "   Chunks processed: "@ + crate::text::decimal(self.chunks as nat),
            r@[2]@ == "   Errors: "@ + crate::text::decimal(self.errors as nat),
            r@[3]@ == "   Collection: "@ + collection@,
    {
        let mut r: Vec<String> = Vec::new();
        r.push(owned("\n\u{2705} Index build completed!"));
        let mut a = owned("   Chunks processed: ");
        crate::text::push_decimal(&mut a, self.chunks as u64);
        r.push(a);
        let mut b = owned("   Errors: ");
        crate::text::push_decimal(&mut b, self.errors as u64);
        r.push(b);
        let mut c = owned("   Collection: ");
        crate::text::push_str(&mut c, collection);
        r.push(c);
        r
    }
}

} // verus!
