//! The books of the tool-server registry: which servers run, how often
//! each failed and whether it is degraded, which servers offer each tool,
//! and how a tool call goes from server to server.
//!
//! The server processes and the calls themselves are handled outside; the
//! books and every choice between servers are kept here.
use vstd::prelude::*;
use crate::config::McpServerConfig;
use crate::text::{owned, push_str};
use crate::types::strings_view;

verus! {

/// Why the registry could not do what was asked.
#[derive(Debug, Clone)]
pub enum McpRegistryError {
    ServerNotFound(String),
    DispatchFailed(String),
    /// A server failed, with its message.
    ServerError(String),
    ToolNotAvailable(String),
}

impl McpRegistryError {
    /// The error's message, as its `Display` form writes it.
    pub fn message(&self) -> (r: String)
        ensures
            r@ == match *self {
                McpRegistryError::ServerNotFound(s) => "Server not found: "@ + s@,
                McpRegistryError::DispatchFailed(s) => "Failed to dispatch tool call: "@ + s@,
                McpRegistryError::ServerError(s) => "MCP server error: "@ + s@,
                McpRegistryError::ToolNotAvailable(s) => "No available server provides tool '"@ + s@
                    + "'"@,
            },
    {
        match self {
            McpRegistryError::ServerNotFound(s) => {
                let mut r = owned("Server not found: ");
                push_str(&mut r, s.as_str());
                r
            },
            McpRegistryError::DispatchFailed(s) => {
                let mut r = owned("Failed to dispatch tool call: ");
                push_str(&mut r, s.as_str());
                r
            },
            McpRegistryError::ServerError(s) => {
                let mut r = owned("MCP server error: ");
                push_str(&mut r, s.as_str());
                r
            },
            McpRegistryError::ToolNotAvailable(s) => {
                let mut r = owned("No available server provides tool '");
                push_str(&mut r, s.as_str());
                push_str(&mut r, "'");
                r
            },
        }
    }
}

/// What the registry records of one server.
#[derive(Debug, Clone)]
pub struct ServerRecord {
    pub name: String,
    /// Calls that failed since it last started.
    pub failed_attempts: usize,
    /// Whether calls no longer go to it.
    pub degraded: bool,
}

/// The mathematical value of a server's record.
pub struct ServerView {
    pub name: Seq<char>,
    pub failed_attempts: nat,
    pub degraded: bool,
}

/// The value of a record.
pub open spec fn server_view(r: ServerRecord) -> ServerView {
    ServerView { name: r.name@, failed_attempts: r.failed_attempts as nat, degraded: r.degraded }
}

/// The position of the server named `name`, or -1.
pub open spec fn find_server(ss: Seq<ServerView>, name: Seq<char>) -> int
    decreases ss.len(),
{
    if ss.len() == 0 {
        -1
    } else if ss.last().name == name {
        ss.len() - 1
    } else {
        find_server(ss.drop_last(), name)
    }
}

/// The position of the tool `tool` in the index, or -1.
pub open spec fn find_tool(ix: Seq<(Seq<char>, Seq<Seq<char>>)>, tool: Seq<char>) -> int
    decreases ix.len(),
{
    if ix.len() == 0 {
        -1
    } else if ix.last().0 == tool {
        ix.len() - 1
    } else {
        find_tool(ix.drop_last(), tool)
    }
}

/// The index with `name` added to the servers of `tool` (a new entry at
/// the end for a new tool).
pub open spec fn index_add(ix: Seq<(Seq<char>, Seq<Seq<char>>)>, tool: Seq<char>, name: Seq<char>) -> Seq<
    (Seq<char>, Seq<Seq<char>>),
> {
    let k = find_tool(ix, tool);
    if k >= 0 {
        ix.update(k, (tool, ix[k].1.push(name)))
    } else {
        ix.push((tool, seq![name]))
    }
}

/// The index with `name` added to the servers of each of `tools`, in order.
pub open spec fn index_add_all(ix: Seq<(Seq<char>, Seq<Seq<char>>)>, tools: Seq<Seq<char>>, name: Seq<char>) -> Seq<
    (Seq<char>, Seq<Seq<char>>),
>
    decreases tools.len(),
{
    if tools.len() == 0 {
        ix
    } else {
        index_add(index_add_all(ix, tools.drop_last(), name), tools.last(), name)
    }
}

/// The servers with `name` recorded afresh: no failure, not degraded; it
/// replaces a record of the same name, or comes last.
pub open spec fn servers_started(ss: Seq<ServerView>, name: Seq<char>) -> Seq<ServerView> {
    let fresh = ServerView { name, failed_attempts: 0, degraded: false };
    let k = find_server(ss, name);
    if k >= 0 {
        ss.update(k, fresh)
    } else {
        ss.push(fresh)
    }
}

proof fn lemma_find_server(ss: Seq<ServerView>, name: Seq<char>)
    ensures
        -1 <= find_server(ss, name) < ss.len(),
        find_server(ss, name) >= 0 ==> ss[find_server(ss, name)].name == name,
        find_server(ss, name) < 0 ==> forall|i: int| 0 <= i < ss.len() ==> ss[i].name != name,
    decreases ss.len(),
{
    if ss.len() > 0 && ss.last().name != name {
        lemma_find_server(ss.drop_last(), name);
        assert forall|i: int| 0 <= i < ss.len() - 1 implies ss[i] == ss.drop_last()[i] by {}
    }
}

proof fn lemma_find_tool(ix: Seq<(Seq<char>, Seq<Seq<char>>)>, tool: Seq<char>)
    ensures
        -1 <= find_tool(ix, tool) < ix.len(),
        find_tool(ix, tool) >= 0 ==> ix[find_tool(ix, tool)].0 == tool,
        find_tool(ix, tool) < 0 ==> forall|i: int| 0 <= i < ix.len() ==> ix[i].0 != tool,
    decreases ix.len(),
{
    if ix.len() > 0 && ix.last().0 != tool {
        lemma_find_tool(ix.drop_last(), tool);
        assert forall|i: int| 0 <= i < ix.len() - 1 implies ix[i] == ix.drop_last()[i] by {}
    }
}

/// The registry's books.
#[derive(Debug, Clone)]
pub struct RegistryBook {
    config: Vec<McpServerConfig>,
    servers: Vec<ServerRecord>,
    tool_index: Vec<(String, Vec<String>)>,
    max_respawn_attempts: usize,
}

impl RegistryBook {
    /// The configured servers.
    pub closed spec fn config_of(&self) -> Seq<McpServerConfig> {
        self.config@
    }

    /// The records of the servers that started.
    pub closed spec fn servers_of(&self) -> Seq<ServerView> {
        self.servers@.map_values(|r: ServerRecord| server_view(r))
    }

    /// Each tool with the servers that offer it, in the order they started.
    pub closed spec fn index_of(&self) -> Seq<(Seq<char>, Seq<Seq<char>>)> {
        self.tool_index@.map_values(|e: (String, Vec<String>)| (e.0@, strings_view(e.1@)))
    }

    /// How many failures in a row a server may have before it is degraded
    /// instead of restarted.
    pub closed spec fn max_respawns(&self) -> nat {
        self.max_respawn_attempts as nat
    }

    /// The books of a registry of these servers, none started; a server is
    /// restarted once before it is degraded.
    pub fn new(config: Vec<McpServerConfig>) -> (r: RegistryBook)
        ensures
            r.config_of() == config@,
            r.servers_of() == Seq::<ServerView>::empty(),
            r.index_of() == Seq::<(Seq<char>, Seq<Seq<char>>)>::empty(),
            r.max_respawns() == 1,
    {
        let r = RegistryBook { config, servers: Vec::new(), tool_index: Vec::new(), max_respawn_attempts: 1 };
        assert(r.servers_of() =~= Seq::<ServerView>::empty());
        assert(r.index_of() =~= Seq::<(Seq<char>, Seq<Seq<char>>)>::empty());
        r
    }

    /// The configured servers.
    pub fn config(&self) -> (r: &Vec<McpServerConfig>)
        ensures
            r@ == self.config_of(),
    {
        &self.config
    }

    fn server_pos(&self, name: &String) -> (r: Option<usize>)
        ensures
            match r {
                Some(k) => k == find_server(self.servers_of(), name@) && k < self.servers@.len(),
                None => find_server(self.servers_of(), name@) < 0,
            },
    {
        proof {
            lemma_find_server(self.servers_of(), name@);
        }
        let mut i = self.servers.len();
        assert(self.servers_of().take(i as int) =~= self.servers_of());
        while i > 0
            invariant
                i <= self.servers@.len(),
                find_server(self.servers_of(), name@) == find_server(self.servers_of().take(i as int), name@),
            decreases i,
        {
            assert(self.servers_of().take(i as int).drop_last() =~= self.servers_of().take(i - 1));
            if self.servers[i - 1].name == *name {
                return Some(i - 1);
            }
            i = i - 1;
        }
        assert(self.servers_of().take(0) =~= Seq::<ServerView>::empty());
        None
    }

    fn tool_pos(&self, tool: &String) -> (r: Option<usize>)
        ensures
            match r {
                Some(k) => k == find_tool(self.index_of(), tool@) && k < self.tool_index@.len(),
                None => find_tool(self.index_of(), tool@) < 0,
            },
    {
        let mut i = self.tool_index.len();
        assert(self.index_of().take(i as int) =~= self.index_of());
        while i > 0
            invariant
                i <= self.tool_index@.len(),
                find_tool(self.index_of(), tool@) == find_tool(self.index_of().take(i as int), tool@),
            decreases i,
        {
            assert(self.index_of().take(i as int).drop_last() =~= self.index_of().take(i - 1));
            if self.tool_index[i - 1].0 == *tool {
                return Some(i - 1);
            }
            i = i - 1;
        }
        assert(self.index_of().take(0) =~= Seq::<(Seq<char>, Seq<Seq<char>>)>::empty());
        None
    }

    fn set_record(&mut self, k: usize, failed: usize, degraded: bool)
        requires
            k < old(self).servers@.len(),
        ensures
            final(self).config_of() == old(self).config_of(),
            final(self).index_of() == old(self).index_of(),
            final(self).max_respawns() == old(self).max_respawns(),
            final(self).servers_of() == old(self).servers_of().update(
                k as int,
                ServerView { name: old(self).servers_of()[k as int].name, failed_attempts: failed as nat, degraded },
            ),
    {
        let ghost ss = self.servers_of();
        let rec = ServerRecord { name: self.servers[k].name.clone(), failed_attempts: failed, degraded };
        self.servers.set(k, rec);
        assert(self.servers_of() =~= ss.update(
            k as int,
            ServerView { name: ss[k as int].name, failed_attempts: failed as nat, degraded },
        ));
    }

    fn config_pos(&self, name: &String) -> (r: Option<usize>)
        ensures
            match r {
                Some(c) => c == find_config(self.config_of(), name@, self.config_of().len() as int)
                    && c < self.config@.len(),
                None => find_config(self.config_of(), name@, self.config_of().len() as int) < 0,
            },
    {
        let mut i: usize = 0;
        while i < self.config.len()
            invariant
                i <= self.config@.len(),
                find_config(self.config_of(), name@, i as int) < 0,
            decreases self.config@.len() - i,
        {
            if self.config[i].name == *name {
                proof {
                    lemma_find_config_prefix(self.config_of(), name@, i as int + 1, self.config_of().len() as int);
                }
                return Some(i);
            }
            i = i + 1;
        }
        None
    }

    /// Records that the server `name` started and offers `tools`: its
    /// record starts afresh, and it is added to the servers of each tool.
    pub fn server_started(&mut self, name: &String, tools: &Vec<String>)
        ensures
            final(self).config_of() == old(self).config_of(),
            final(self).max_respawns() == old(self).max_respawns(),
            final(self).servers_of() == servers_started(old(self).servers_of(), name@),
            final(self).index_of() == index_add_all(old(self).index_of(), strings_view(tools@), name@),
    {
        let fresh = ServerRecord { name: name.clone(), failed_attempts: 0, degraded: false };
        let ghost ss = self.servers_of();
        match self.server_pos(name) {
            Some(k) => {
                self.servers.set(k, fresh);
                assert(self.servers_of() =~= ss.update(k as int, server_view(fresh)));
            },
            None => {
                self.servers.push(fresh);
                assert(self.servers_of() =~= ss.push(server_view(fresh)));
            },
        }
        let ghost ix0 = self.index_of();
        let ghost tv = strings_view(tools@);
        let mut j: usize = 0;
        while j < tools.len()
            invariant
                j <= tools@.len(),
                tv == strings_view(tools@),
                self.index_of() == index_add_all(ix0, tv.take(j as int), name@),
                self.servers_of() == servers_started(ss, name@),
                self.config_of() == old(self).config_of(),
                self.max_respawns() == old(self).max_respawns(),
            decreases tools@.len() - j,
        {
            assert(tv.take(j + 1).drop_last() =~= tv.take(j as int));
            let ghost ix = self.index_of();
            proof {
                lemma_find_tool(ix, tools@[j as int]@);
            }
            match self.tool_pos(&tools[j]) {
                Some(k) => {
                    let mut e = (self.tool_index[k].0.clone(), crate::types::copy_strings(&self.tool_index[k].1));
                    e.1.push(name.clone());
                    let ghost ev = (e.0@, strings_view(e.1@));
                    assert(strings_view(e.1@) =~= ix[k as int].1.push(name@));
                    self.tool_index.set(k, e);
                    assert(self.index_of() =~= ix.update(k as int, (tools@[j as int]@, ix[k as int].1.push(name@))));
                },
                None => {
                    let mut v: Vec<String> = Vec::new();
                    v.push(name.clone());
                    assert(strings_view(v@) =~= seq![name@]);
                    self.tool_index.push((tools[j].clone(), v));
                    assert(self.index_of() =~= ix.push((tools@[j as int]@, seq![name@])));
                },
            }
            j = j + 1;
        }
        assert(tv.take(tv.len() as int) =~= tv);
    }

    /// The tools that some server offers, in the order they were first
    /// offered.
    pub fn available_tools(&self) -> (r: Vec<String>)
        ensures
            strings_view(r@) == self.index_of().map_values(|e: (Seq<char>, Seq<Seq<char>>)| e.0),
    {
        let mut r: Vec<String> = Vec::new();
        let mut i: usize = 0;
        while i < self.tool_index.len()
            invariant
                i <= self.tool_index@.len(),
                strings_view(r@) == self.index_of().take(i as int).map_values(
                    |e: (Seq<char>, Seq<Seq<char>>)| e.0,
                ),
            decreases self.tool_index@.len() - i,
        {
            let ghost before = strings_view(r@);
            r.push(self.tool_index[i].0.clone());
            assert(strings_view(r@) =~= before.push(self.index_of()[i as int].0));
            assert(self.index_of().take(i + 1).map_values(|e: (Seq<char>, Seq<Seq<char>>)| e.0)
                =~= self.index_of().take(i as int).map_values(|e: (Seq<char>, Seq<Seq<char>>)| e.0).push(
                self.index_of()[i as int].0,
            ));
            i = i + 1;
        }
        assert(self.index_of().take(self.index_of().len() as int) =~= self.index_of());
        r
    }

    /// Whether the server `name` started and is not degraded (whether its
    /// process still runs is asked outside).
    pub fn is_server_listed(&self, name: &String) -> (r: bool)
        ensures
            r == {
                let k = find_server(self.servers_of(), name@);
                k >= 0 && !self.servers_of()[k].degraded
            },
    {
        match self.server_pos(name) {
            Some(k) => !self.servers[k].degraded,
            None => false,
        }
    }

    /// Forgets every server and tool.
    pub fn clear(&mut self)
        ensures
            final(self).config_of() == old(self).config_of(),
            final(self).max_respawns() == old(self).max_respawns(),
            final(self).servers_of() == Seq::<ServerView>::empty(),
            final(self).index_of() == Seq::<(Seq<char>, Seq<Seq<char>>)>::empty(),
    {
        self.servers = Vec::new();
        self.tool_index = Vec::new();
        assert(self.servers_of() =~= Seq::<ServerView>::empty());
        assert(self.index_of() =~= Seq::<(Seq<char>, Seq<Seq<char>>)>::empty());
    }
}


// ------------------------------------------------------------------
// Dispatching a tool call
// ------------------------------------------------------------------

/// The server takes calls: it started and is not degraded.
pub open spec fn listed(ss: Seq<ServerView>, name: Seq<char>) -> bool {
    let k = find_server(ss, name);
    k >= 0 && !ss[k].degraded
}

/// The first position at or after `from` of a candidate that takes calls,
/// or the number of candidates when none does.
pub open spec fn next_listed(ss: Seq<ServerView>, cands: Seq<Seq<char>>, from: int) -> int
    decreases cands.len() - from,
{
    if from >= cands.len() {
        cands.len() as int
    } else if from >= 0 && listed(ss, cands[from]) {
        from
    } else {
        next_listed(ss, cands, from + 1)
    }
}

/// The position of the first configuration named `name`, or -1.
pub open spec fn find_config(cfgs: Seq<McpServerConfig>, name: Seq<char>, n: int) -> int
    decreases n,
{
    if n <= 0 {
        -1
    } else {
        let k = find_config(cfgs, name, n - 1);
        if k >= 0 {
            k
        } else if cfgs[n - 1].name@ == name {
            n - 1
        } else {
            -1
        }
    }
}

/// Once found, the first configuration of a name stays the first.
proof fn lemma_find_config_prefix(cfgs: Seq<McpServerConfig>, name: Seq<char>, n: int, m: int)
    requires
        0 <= n <= m,
        find_config(cfgs, name, n) >= 0,
    ensures
        find_config(cfgs, name, m) == find_config(cfgs, name, n),
    decreases m - n,
{
    if m > n {
        lemma_find_config_prefix(cfgs, name, n, m - 1);
    }
}

/// The servers with the record of `name` (if there is one) given these
/// counts.
pub open spec fn with_record(ss: Seq<ServerView>, name: Seq<char>, failed: nat, degraded: bool) -> Seq<
    ServerView,
> {
    let k = find_server(ss, name);
    if k >= 0 {
        ss.update(k, ServerView { name: ss[k].name, failed_attempts: failed, degraded })
    } else {
        ss
    }
}

/// How a call, or a restart, went.
#[derive(Debug, Clone)]
pub enum DispatchReport {
    /// The server answered the call.
    CallSucceeded,
    /// The call failed, with the reason.
    CallFailed(String),
    /// The server was restarted.
    Respawned,
    /// The server could not be restarted, with the reason.
    RespawnFailed(String),
}

/// What to do next for a tool call.
#[derive(Debug, Clone)]
pub enum DispatchStep {
    /// Call the tool on this server.
    Call(String),
    /// Restart the server of this configuration.
    Respawn(McpServerConfig),
    /// The call was answered.
    Succeeded,
    /// No server could answer.
    Failed(McpRegistryError),
    /// The report did not fit what the call waits for; nothing changed.
    Ignore,
}

/// What a tool call waits for.
#[derive(Debug, Clone)]
pub enum DispatchPhase {
    Idle,
    /// The answer of this server.
    AwaitingCall(String),
    /// The restart of this server.
    AwaitingRespawn(String),
    Done,
}

/// One tool call, going from server to server.
#[derive(Debug, Clone)]
pub struct Dispatch {
    tool: String,
    candidates: Vec<String>,
    next: usize,
    phase: DispatchPhase,
}

/// The failures of `n` after one more failed call (counts stop at the
/// largest `usize`); 0 when it has no record.
pub open spec fn failed_once_more(ss: Seq<ServerView>, n: Seq<char>) -> nat {
    let k = find_server(ss, n);
    if k >= 0 {
        if ss[k].failed_attempts < usize::MAX {
            ss[k].failed_attempts + 1
        } else {
            ss[k].failed_attempts
        }
    } else {
        0
    }
}

/// `post` and `s` are what trying the next candidates of `pre` gives,
/// with the servers recorded as `ss`: a call of the first candidate from
/// the next position that takes calls, or the failure when none does.
pub open spec fn advanced(ss: Seq<ServerView>, pre: Dispatch, post: Dispatch, s: DispatchStep) -> bool {
    let j = next_listed(ss, pre.candidates_of(), pre.next_of());
    &&& post.tool_of() == pre.tool_of()
    &&& post.candidates_of() == pre.candidates_of()
    &&& if j < pre.candidates_of().len() {
        &&& s matches DispatchStep::Call(x) && x@ == pre.candidates_of()[j]
        &&& post.awaited() == Some(pre.candidates_of()[j])
        &&& !post.awaits_respawn()
        &&& post.next_of() == j + 1
    } else {
        &&& s matches DispatchStep::Failed(McpRegistryError::DispatchFailed(m)) && m@
            == dispatch_failed_text(pre.tool_of())
        &&& post.is_done()
    }
}

/// Two configurations say the same: name, command and arguments.
pub open spec fn same_config(a: McpServerConfig, b: McpServerConfig) -> bool {
    &&& a.name@ == b.name@
    &&& a.command@ == b.command@
    &&& strings_view(a.args@) == strings_view(b.args@)
}

/// The failure when no server could answer.
pub open spec fn dispatch_failed_text(tool: Seq<char>) -> Seq<char> {
    "No available server could handle tool '"@ + tool + "'"@
}

impl Dispatch {
    /// The tool.
    pub closed spec fn tool_of(&self) -> Seq<char> {
        self.tool@
    }

    /// The servers that offer the tool, in order.
    pub closed spec fn candidates_of(&self) -> Seq<Seq<char>> {
        strings_view(self.candidates@)
    }

    /// The position of the next candidate to try.
    pub closed spec fn next_of(&self) -> int {
        self.next as int
    }

    /// The server whose answer or restart is awaited, if any.
    pub closed spec fn awaited(&self) -> Option<Seq<char>> {
        match self.phase {
            DispatchPhase::AwaitingCall(s) => Some(s@),
            DispatchPhase::AwaitingRespawn(s) => Some(s@),
            _ => None,
        }
    }

    /// Whether a restart is awaited.
    pub closed spec fn awaits_respawn(&self) -> bool {
        self.phase is AwaitingRespawn
    }

    /// Whether the call is over.
    pub closed spec fn is_done(&self) -> bool {
        self.phase is Done
    }

    /// Whether the call has started.
    pub closed spec fn is_idle(&self) -> bool {
        self.phase is Idle
    }

    /// The invariant: the next candidate is within the list.
    pub closed spec fn wf(&self) -> bool {
        self.next <= self.candidates@.len()
    }

    /// A call of the tool, not started.
    pub fn new(tool: &str) -> (r: Dispatch)
        ensures
            r.wf(),
            r.tool_of() == tool@,
            r.is_idle(),
    {
        Dispatch { tool: owned(tool), candidates: Vec::new(), next: 0, phase: DispatchPhase::Idle }
    }

    /// Calls the next candidate that takes calls, or fails when none is left.
    fn advance(&mut self, book: &RegistryBook) -> (r: DispatchStep)
        requires
            old(self).wf(),
        ensures
            final(self).wf(),
            advanced(book.servers_of(), *old(self), *final(self), r),
    {
        let ghost cands = self.candidates_of();
        let ghost start = self.next as int;
        while self.next < self.candidates.len()
            invariant
                self.next <= self.candidates@.len(),
                cands == self.candidates_of(),
                cands == old(self).candidates_of(),
                start == old(self).next_of(),
                self.tool_of() == old(self).tool_of(),
                start <= self.next,
                next_listed(book.servers_of(), cands, start) == next_listed(book.servers_of(), cands, self.next as int),
            decreases self.candidates@.len() - self.next,
        {
            let name = &self.candidates[self.next];
            assert(cands[self.next as int] == self.candidates@[self.next as int]@);
            if book.is_server_listed(name) {
                assert(next_listed(book.servers_of(), cands, self.next as int) == self.next as int);
                let s = name.clone();
                self.phase = DispatchPhase::AwaitingCall(s.clone());
                self.next = self.next + 1;
                return DispatchStep::Call(s);
            }
            self.next = self.next + 1;
        }
        self.phase = DispatchPhase::Done;
        let mut m = owned("No available server could handle tool '");
        push_str(&mut m, self.tool.as_str());
        push_str(&mut m, "'");
        DispatchStep::Failed(McpRegistryError::DispatchFailed(m))
    }

    /// Starts the call: the servers that offer the tool are tried in the
    /// order they started; with none, the tool is not available. Once
    /// started, the call is ignored.
    pub fn start(&mut self, book: &RegistryBook) -> (r: DispatchStep)
        requires
            old(self).wf(),
        ensures
            final(self).wf(),
            final(self).tool_of() == old(self).tool_of(),
            !old(self).is_idle() ==> r is Ignore && *final(self) == *old(self),
            old(self).is_idle() ==> {
                let k = find_tool(book.index_of(), old(self).tool_of());
                if k < 0 {
                    &&& r matches DispatchStep::Failed(McpRegistryError::ToolNotAvailable(t)) && t@
                        == old(self).tool_of()
                    &&& final(self).is_done()
                } else {
                    let cands = book.index_of()[k].1;
                    let j = next_listed(book.servers_of(), cands, 0);
                    &&& final(self).candidates_of() == cands
                    &&& j < cands.len() ==> (r matches DispatchStep::Call(s) && s@ == cands[j]
                        && final(self).awaited() == Some(cands[j]) && final(self).next_of() == j + 1)
                    &&& j >= cands.len() ==> (r matches DispatchStep::Failed(
                        McpRegistryError::DispatchFailed(m),
                    ) && m@ == dispatch_failed_text(old(self).tool_of()) && final(self).is_done())
                }
            },
    {
        match self.phase {
            DispatchPhase::Idle => {},
            _ => {
                return DispatchStep::Ignore;
            },
        }
        proof {
            lemma_find_tool(book.index_of(), self.tool@);
        }
        match book.tool_pos(&self.tool) {
            None => {
                self.phase = DispatchPhase::Done;
                DispatchStep::Failed(McpRegistryError::ToolNotAvailable(self.tool.clone()))
            },
            Some(k) => {
                self.candidates = crate::types::copy_strings(&book.tool_index[k].1);
                self.next = 0;
                self.advance(book)
            },
        }
    }

    /// The step after the awaited server reported. An answered call is
    /// over. A failed call counts a failure of the server: within the
    /// registry's limit the server is restarted (degraded when it has no
    /// configuration), beyond it the server is degraded; then the next
    /// candidate is tried. A restart clears the server's failures and its
    /// degradation; a failed restart degrades it; then the next candidate
    /// is tried. (Counts stop at the largest `usize`.)
    pub fn report(&mut self, book: &mut RegistryBook, r: DispatchReport) -> (s: DispatchStep)
        requires
            old(self).wf(),
        ensures
            final(self).wf(),
            final(self).tool_of() == old(self).tool_of(),
            final(self).candidates_of() == old(self).candidates_of(),
            final(book).config_of() == old(book).config_of(),
            final(book).index_of() == old(book).index_of(),
            final(book).max_respawns() == old(book).max_respawns(),
            ({
                let ss = old(book).servers_of();
                match (old(self).awaited(), old(self).awaits_respawn(), r) {
                    (Some(n), false, DispatchReport::CallSucceeded) => s is Succeeded && final(self).is_done()
                        && final(book).servers_of() == ss,
                    (Some(n), false, DispatchReport::CallFailed(_)) => {
                        let k = find_server(ss, n);
                        let f = failed_once_more(ss, n);
                        let c = find_config(old(book).config_of(), n, old(book).config_of().len() as int);
                        if k >= 0 && f <= old(book).max_respawns() && c >= 0 {
                            &&& final(book).servers_of() == with_record(ss, n, f, ss[k].degraded)
                            &&& s matches DispatchStep::Respawn(cf) && same_config(cf, old(book).config_of()[c])
                            &&& final(self).awaited() == Some(n) && final(self).awaits_respawn()
                            &&& final(self).next_of() == old(self).next_of()
                        } else {
                            let ss2 = if k >= 0 {
                                with_record(ss, n, f, true)
                            } else {
                                ss
                            };
                            &&& final(book).servers_of() == ss2
                            &&& advanced(ss2, *old(self), *final(self), s)
                        }
                    },
                    (Some(n), true, DispatchReport::Respawned) => {
                        let ss2 = with_record(ss, n, 0, false);
                        final(book).servers_of() == ss2 && advanced(ss2, *old(self), *final(self), s)
                    },
                    (Some(n), true, DispatchReport::RespawnFailed(_)) => {
                        let k = find_server(ss, n);
                        let ss2 = with_record(ss, n, if k >= 0 { ss[k].failed_attempts } else { 0 }, true);
                        final(book).servers_of() == ss2 && advanced(ss2, *old(self), *final(self), s)
                    },
                    _ => s is Ignore && final(book).servers_of() == ss && *final(self) == *old(self),
                }
            }),
    {
        let name = match &self.phase {
            DispatchPhase::AwaitingCall(n) => n.clone(),
            DispatchPhase::AwaitingRespawn(n) => n.clone(),
            _ => {
                return DispatchStep::Ignore;
            },
        };
        let respawning = match self.phase {
            DispatchPhase::AwaitingRespawn(_) => true,
            _ => false,
        };
        proof {
            lemma_find_server(book.servers_of(), name@);
        }
        match r {
            DispatchReport::CallSucceeded => {
                if respawning {
                    return DispatchStep::Ignore;
                }
                self.phase = DispatchPhase::Done;
                DispatchStep::Succeeded
            },
            DispatchReport::CallFailed(_) => {
                if respawning {
                    return DispatchStep::Ignore;
                }
                match book.server_pos(&name) {
                    None => self.advance(book),
                    Some(k) => {
                        let old_f = book.servers[k].failed_attempts;
                        let f = if old_f < usize::MAX {
                            old_f + 1
                        } else {
                            old_f
                        };
                        let deg = book.servers[k].degraded;
                        if f <= book.max_respawn_attempts {
                            match book.config_pos(&name) {
                                Some(c) => {
                                    book.set_record(k, f, deg);
                                    let cfg = McpServerConfig {
                                        name: book.config[c].name.clone(),
                                        command: book.config[c].command.clone(),
                                        args: crate::types::copy_strings(&book.config[c].args),
                                    };
                                    self.phase = DispatchPhase::AwaitingRespawn(name);
                                    DispatchStep::Respawn(cfg)
                                },
                                None => {
                                    book.set_record(k, f, true);
                                    self.advance(book)
                                },
                            }
                        } else {
                            book.set_record(k, f, true);
                            self.advance(book)
                        }
                    },
                }
            },
            DispatchReport::Respawned => {
                if !respawning {
                    return DispatchStep::Ignore;
                }
                match book.server_pos(&name) {
                    None => {},
                    Some(k) => {
                        book.set_record(k, 0, false);
                    },
                }
                self.advance(book)
            },
            DispatchReport::RespawnFailed(_) => {
                if !respawning {
                    return DispatchStep::Ignore;
                }
                match book.server_pos(&name) {
                    None => {},
                    Some(k) => {
                        let f = book.servers[k].failed_attempts;
                        book.set_record(k, f, true);
                    },
                }
                self.advance(book)
            },
        }
    }
}

} // verus!
