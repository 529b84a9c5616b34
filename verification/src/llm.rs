//! Chat messages and the plain records exchanged with a language model.
use vstd::prelude::*;
use crate::text::{lines, owned, starts_with, trim};

verus! {

/// The author of a chat message.
#[derive(Debug, Clone, Copy, PartialEq, Eq, Structural)]
pub enum Role {
    System,
    User,
    Assistant,
    Function,
}

/// One message of a chat conversation.
#[derive(Debug, Clone)]
pub struct Message {
    pub role: Role,
    pub content: String,
    /// The function's name, for a function response.
    pub name: Option<String>,
}

/// A call of a function that the model requested.
#[derive(Debug, Clone)]
pub struct FunctionCall {
    pub name: String,
    /// The arguments, as the model wrote them (JSON text).
    pub arguments: String,
}

/// The function the model is forced to call.
#[derive(Debug, Clone)]
pub struct FunctionCallChoice {
    pub name: String,
}

/// How the model may use the tools it is offered.
#[derive(Debug, Clone)]
pub enum ToolChoice {
    /// The model calls no tool (`"none"` on the wire).
    NoTool,
    Auto,
    Required,
    Function(FunctionCallChoice),
}

/// Token counts of one completion.
#[derive(Debug, Clone, Copy, PartialEq, Eq, Structural)]
pub struct Usage {
    pub prompt_tokens: u32,
    pub completion_tokens: u32,
    pub total_tokens: u32,
}

impl Message {
    /// A system message with the given content.
    pub fn system(content: &str) -> (m: Message)
        ensures
            m.role == Role::System,
            m.content@ == content@,
            m.name is None,
    {
        Message { role: Role::System, content: owned(content), name: None }
    }

    /// A user message with the given content.
    pub fn user(content: &str) -> (m: Message)
        ensures
            m.role == Role::User,
            m.content@ == content@,
            m.name is None,
    {
        Message { role: Role::User, content: owned(content), name: None }
    }

    /// An assistant message with the given content.
    pub fn assistant(content: &str) -> (m: Message)
        ensures
            m.role == Role::Assistant,
            m.content@ == content@,
            m.name is None,
    {
        Message { role: Role::Assistant, content: owned(content), name: None }
    }

    /// The response of the function `name`, with the given content.
    pub fn function(name: &str, content: &str) -> (m: Message)
        ensures
            m.role == Role::Function,
            m.content@ == content@,
            m.name matches Some(n) && n@ == name@,
    {
        Message { role: Role::Function, content: owned(content), name: Some(owned(name)) }
    }
}

/// A tool call that the model made.
#[derive(Debug, Clone)]
pub struct ToolCall {
    pub id: String,
    pub type_: String,
    pub function: FunctionCall,
}

/// A function that the model may call: its name, what it does, and the
/// JSON schema of its parameters.
#[derive(Debug, Clone)]
pub struct FunctionDefinition {
    pub name: String,
    pub description: String,
    pub parameters: serde_json::Value,
    pub required: Option<Vec<String>>,
}

/// A tool offered to the model.
#[derive(Debug, Clone)]
pub struct Tool {
    pub type_: String,
    pub function: FunctionDefinition,
}

impl Tool {
    /// The tool that offers a tool server's tool as a function: same name,
    /// description and input schema, no required list.
    pub fn from_mcp(tool: &crate::mcp::ToolDefinition) -> (r: Tool)
        ensures
            r.type_@ == "function"@,
            r.function.name@ == tool.name@,
            r.function.description@ == tool.description@,
            r.function.parameters == tool.input_schema,
            r.function.required is None,
    {
        Tool {
            type_: owned("function"),
            function: FunctionDefinition {
                name: tool.name.clone(),
                description: tool.description.clone(),
                parameters: tool.input_schema.clone(),
                required: None,
            },
        }
    }
}

/// A request for a chat completion.
#[derive(Debug, Clone)]
pub struct ChatCompletionRequest {
    pub messages: Vec<Message>,
    pub tools: Option<Vec<Tool>>,
    pub tool_choice: Option<ToolChoice>,
    pub stream: bool,
}

impl ChatCompletionRequest {
    /// A request with these messages, no tools, no tool choice and no
    /// streaming.
    pub fn new(messages: Vec<Message>) -> (r: ChatCompletionRequest)
        ensures
            r.messages == messages,
            r.tools is None,
            r.tool_choice is None,
            !r.stream,
    {
        ChatCompletionRequest { messages, tools: None, tool_choice: None, stream: false }
    }

    /// The request with these tools offered.
    pub fn with_tools(self, tools: Vec<Tool>) -> (r: ChatCompletionRequest)
        ensures
            r == (ChatCompletionRequest { tools: Some(tools), ..self }),
    {
        ChatCompletionRequest { tools: Some(tools), ..self }
    }

    /// The request with this tool choice.
    pub fn with_tool_choice(self, tool_choice: ToolChoice) -> (r: ChatCompletionRequest)
        ensures
            r == (ChatCompletionRequest { tool_choice: Some(tool_choice), ..self }),
    {
        ChatCompletionRequest { tool_choice: Some(tool_choice), ..self }
    }

    /// The request with streaming on or off.
    pub fn with_stream(self, stream: bool) -> (r: ChatCompletionRequest)
        ensures
            r == (ChatCompletionRequest { stream, ..self }),
    {
        ChatCompletionRequest { stream, ..self }
    }
}

/// The message of one choice of a completion.
#[derive(Debug, Clone)]
pub struct CompletionMessage {
    pub role: Role,
    pub content: Option<String>,
    pub function_call: Option<FunctionCall>,
    pub tool_calls: Option<Vec<ToolCall>>,
}

/// One choice of a completion.
#[derive(Debug, Clone)]
pub struct ChatCompletionChoice {
    pub index: u32,
    pub message: CompletionMessage,
    pub finish_reason: String,
}

/// A chat completion.
#[derive(Debug, Clone)]
pub struct ChatCompletionResponse {
    pub id: String,
    pub object: String,
    pub created: u64,
    pub model: String,
    pub choices: Vec<ChatCompletionChoice>,
    pub usage: Usage,
}

/// The text of the first choice of a completion, or the empty text when
/// there is no choice or it has no text.
pub fn first_content(response: &ChatCompletionResponse) -> (r: String)
    ensures
        r@ == if response.choices@.len() > 0 {
            match response.choices@[0].message.content {
                Some(c) => c@,
                None => Seq::<char>::empty(),
            }
        } else {
            Seq::<char>::empty()
        },
{
    if response.choices.len() > 0 {
        match &response.choices[0].message.content {
            Some(c) => c.clone(),
            None => String::new(),
        }
    } else {
        String::new()
    }
}

// ------------------------------------------------------------------
// Streamed answers
// ------------------------------------------------------------------

/// A piece of a streamed answer.
#[derive(Debug, Clone)]
pub enum StreamChunk {
    /// Some text of the answer.
    Content(String),
    /// A complete tool call.
    ToolCall(ToolCall),
    /// The answer is complete.
    Done,
}

/// One event of a stream, as the service sends it.
#[derive(Debug, Clone)]
pub struct StreamEvent {
    pub id: Option<String>,
    pub choices: Option<Vec<StreamChoice>>,
    pub is_done: Option<bool>,
}

/// One choice of a stream event.
#[derive(Debug, Clone)]
pub struct StreamChoice {
    pub delta: StreamDelta,
    pub finish_reason: Option<String>,
}

/// What a choice adds to the answer.
#[derive(Debug, Clone)]
pub struct StreamDelta {
    pub content: Option<String>,
    pub tool_calls: Option<Vec<StreamToolCall>>,
}

/// A tool call, possibly in part.
#[derive(Debug, Clone)]
pub struct StreamToolCall {
    pub index: Option<u32>,
    pub id: Option<String>,
    pub type_: Option<String>,
    pub function: Option<StreamFunctionCall>,
}

/// A function call, possibly in part.
#[derive(Debug, Clone)]
pub struct StreamFunctionCall {
    pub name: Option<String>,
    pub arguments: Option<String>,
}

/// The mathematical value of a chunk: `Content` text, a tool call as its
/// identifier, type, function name and arguments, or the end.
pub enum ChunkView {
    Content(Seq<char>),
    ToolCall(Seq<char>, Seq<char>, Seq<char>, Seq<char>),
    Done,
}

/// The view of a chunk.
pub open spec fn chunk_view(c: StreamChunk) -> ChunkView {
    match c {
        StreamChunk::Content(t) => ChunkView::Content(t@),
        StreamChunk::ToolCall(tc) => ChunkView::ToolCall(tc.id@, tc.type_@, tc.function.name@, tc.function.arguments@),
        StreamChunk::Done => ChunkView::Done,
    }
}

/// The views of chunks.
pub open spec fn chunks_view(v: Seq<StreamChunk>) -> Seq<ChunkView> {
    v.map_values(|c: StreamChunk| chunk_view(c))
}

/// The tool call that a streamed one stands for, when all its parts are
/// there.
pub open spec fn complete_call(t: StreamToolCall) -> Option<ChunkView> {
    match (t.id, t.type_, t.function) {
        (Some(id), Some(ty), Some(f)) => match (f.name, f.arguments) {
            (Some(n), Some(a)) => Some(ChunkView::ToolCall(id@, ty@, n@, a@)),
            _ => None,
        },
        _ => None,
    }
}

/// The complete tool calls among the first `n`, in order.
pub open spec fn calls_chunks(ts: Seq<StreamToolCall>, n: int) -> Seq<ChunkView>
    decreases n,
{
    if n <= 0 {
        seq![]
    } else {
        let prev = calls_chunks(ts, n - 1);
        match complete_call(ts[n - 1]) {
            Some(c) => prev.push(c),
            None => prev,
        }
    }
}

/// What one choice yields: its text when not empty, its complete tool
/// calls, and the end when it finished by stopping or for tool calls.
pub open spec fn choice_chunks(c: StreamChoice) -> Seq<ChunkView> {
    let content = match c.delta.content {
        Some(t) => if t@.len() > 0 {
            seq![ChunkView::Content(t@)]
        } else {
            seq![]
        },
        None => seq![],
    };
    let calls = match c.delta.tool_calls {
        Some(ts) => calls_chunks(ts@, ts@.len() as int),
        None => seq![],
    };
    let done = match c.finish_reason {
        Some(r) => if r@ == "stop"@ || r@ == "tool_calls"@ {
            seq![ChunkView::Done]
        } else {
            seq![]
        },
        None => seq![],
    };
    content + calls + done
}

/// What the first `n` choices yield, in order.
pub open spec fn choices_chunks(cs: Seq<StreamChoice>, n: int) -> Seq<ChunkView>
    decreases n,
{
    if n <= 0 {
        seq![]
    } else {
        choices_chunks(cs, n - 1) + choice_chunks(cs[n - 1])
    }
}

/// What a stream event yields.
pub open spec fn event_chunks_spec(e: StreamEvent) -> Seq<ChunkView> {
    match e.choices {
        Some(cs) => choices_chunks(cs@, cs@.len() as int),
        None => seq![],
    }
}

fn same_text(a: &String, b: &str) -> (r: bool)
    ensures
        r == (a@ == b@),
{
    *a == owned(b)
}

/// Appends what one choice yields.
fn push_choice_chunks(out: &mut Vec<StreamChunk>, c: &StreamChoice)
    ensures
        chunks_view(final(out)@) == chunks_view(old(out)@) + choice_chunks(*c),
{
    let ghost start = chunks_view(out@);
    match &c.delta.content {
        Some(t) => {
            if !t.as_str().is_empty() {
                out.push(StreamChunk::Content(t.clone()));
            }
        },
        None => {},
    }
    let ghost mid = chunks_view(out@);
    assert(mid =~= start + match c.delta.content {
        Some(t) => if t@.len() > 0 {
            seq![ChunkView::Content(t@)]
        } else {
            seq![]
        },
        None => seq![],
    });
    match &c.delta.tool_calls {
        Some(ts) => {
            let mut i: usize = 0;
            while i < ts.len()
                invariant
                    i <= ts@.len(),
                    chunks_view(out@) == mid + calls_chunks(ts@, i as int),
                decreases ts@.len() - i,
            {
                let t = &ts[i];
                let ghost before = chunks_view(out@);
                match (&t.id, &t.type_, &t.function) {
                    (Some(id), Some(ty), Some(f)) => match (&f.name, &f.arguments) {
                        (Some(n), Some(a)) => {
                            out.push(
                                StreamChunk::ToolCall(
                                    ToolCall {
                                        id: id.clone(),
                                        type_: ty.clone(),
                                        function: FunctionCall { name: n.clone(), arguments: a.clone() },
                                    },
                                ),
                            );
                            assert(chunks_view(out@) =~= before.push(ChunkView::ToolCall(id@, ty@, n@, a@)));
                        },
                        _ => {},
                    },
                    _ => {},
                }
                i = i + 1;
            }
        },
        None => {},
    }
    let ghost mid2 = chunks_view(out@);
    match &c.finish_reason {
        Some(r) => {
            if same_text(r, "stop") || same_text(r, "tool_calls") {
                out.push(StreamChunk::Done);
                assert(chunks_view(out@) =~= mid2.push(ChunkView::Done));
            }
        },
        None => {},
    }
    assert(chunks_view(out@) =~= chunks_view(old(out)@) + choice_chunks(*c));
}

/// What a stream event yields, as `event_chunks_spec` says.
pub fn event_chunks(e: &StreamEvent) -> (r: Vec<StreamChunk>)
    ensures
        chunks_view(r@) == event_chunks_spec(*e),
{
    let mut out: Vec<StreamChunk> = Vec::new();
    match &e.choices {
        Some(cs) => {
            let mut i: usize = 0;
            while i < cs.len()
                invariant
                    i <= cs@.len(),
                    chunks_view(out@) == choices_chunks(cs@, i as int),
                decreases cs@.len() - i,
            {
                push_choice_chunks(&mut out, &cs[i]);
                i = i + 1;
            }
        },
        None => {
            assert(chunks_view(out@) =~= Seq::<ChunkView>::empty());
        },
    }
    out
}

/// A line of an event stream, read: its data, or the end of the stream.
#[derive(Debug, Clone)]
pub enum SsePayload {
    Data(String),
    Done,
}

/// The data of a line of an event stream: what follows "data: " on the
/// trimmed line.
pub open spec fn line_data(line: Seq<char>) -> Option<Seq<char>> {
    let t = trim(line);
    if starts_with(t, "data: "@) {
        Some(t.subrange(6, t.len() as int))
    } else {
        None
    }
}

/// The payloads of the first `n` lines: their data in order, up to and
/// with the end marker "[DONE]" (true when reached).
pub open spec fn payloads_upto(ls: Seq<Seq<char>>, n: int) -> (Seq<Option<Seq<char>>>, bool)
    decreases n,
{
    if n <= 0 {
        (seq![], false)
    } else {
        let (prev, done) = payloads_upto(ls, n - 1);
        if done {
            (prev, true)
        } else {
            match line_data(ls[n - 1]) {
                Some(d) => if d == "[DONE]"@ {
                    (prev.push(None), true)
                } else {
                    (prev.push(Some(d)), false)
                },
                None => (prev, false),
            }
        }
    }
}

/// The view of a payload: its data, or none for the end.
pub open spec fn payload_view(p: SsePayload) -> Option<Seq<char>> {
    match p {
        SsePayload::Data(d) => Some(d@),
        SsePayload::Done => None,
    }
}

/// Reads the lines of an event stream's body: the data of each line that
/// carries data, in order, up to the end marker.
pub fn sse_payloads(body: &str) -> (r: Vec<SsePayload>)
    ensures
        r@.map_values(|p: SsePayload| payload_view(p)) == payloads_upto(lines(body@), lines(body@).len() as int).0,
{
    let c = crate::text::chars_of(body);
    let ranges = crate::text::line_ranges(&c);
    let ghost ls = lines(c@);
    let data = crate::text::chars_of("data: ");
    proof {
        reveal_strlit("data: ");
        assert("data: "@.len() == 6);
    }
    let mut r: Vec<SsePayload> = Vec::new();
    let mut i: usize = 0;
    while i < ranges.len()
        invariant
            i <= ranges@.len(),
            ranges@.len() == ls.len(),
            ls == lines(c@),
            c@ == body@,
            data@ == "data: "@,
            data@.len() == 6,
            forall|k: int|
                0 <= k < ranges@.len() ==> {
                    &&& (#[trigger] ranges@[k]).0 <= ranges@[k].1 <= c@.len()
                    &&& c@.subrange(ranges@[k].0 as int, ranges@[k].1 as int) == ls[k]
                },
            r@.map_values(|p: SsePayload| payload_view(p)) == payloads_upto(ls, i as int).0,
            !payloads_upto(ls, i as int).1,
        decreases ranges@.len() - i,
    {
        let (lo, hi) = ranges[i];
        let (a, b) = crate::text::trim_range(&c, lo, hi);
        let t = crate::text::sub_chars(&c, a, b);
        assert(t@ == trim(ls[i as int]));
        let ghost before = r@.map_values(|p: SsePayload| payload_view(p));
        if crate::text::starts_with_exec(&t, &data) {
            let d = crate::text::string_of(&t, 6, t.len());
            if same_text(&d, "[DONE]") {
                r.push(SsePayload::Done);
                assert(r@.map_values(|p: SsePayload| payload_view(p)) =~= before.push(None));
                assert(payloads_upto(ls, i + 1).0 == before.push(None));
                assert(ls.len() >= i + 1);
                proof {
                    lemma_payloads_done(ls, i + 1, ls.len() as int);
                }
                return r;
            }
            r.push(SsePayload::Data(d));
            assert(r@.map_values(|p: SsePayload| payload_view(p)) =~= before.push(Some(t@.subrange(6, t@.len() as int))));
        }
        i = i + 1;
    }
    r
}

/// Once the end marker is reached, later lines add nothing.
proof fn lemma_payloads_done(ls: Seq<Seq<char>>, m: int, n: int)
    requires
        0 < m <= n,
        payloads_upto(ls, m).1,
    ensures
        payloads_upto(ls, n) == payloads_upto(ls, m),
    decreases n - m,
{
    if n > m {
        lemma_payloads_done(ls, m, n - 1);
    }
}

/// A payload of an event stream as the caller read it.
#[derive(Debug, Clone)]
pub enum DecodedPayload {
    /// An event.
    Event(StreamEvent),
    /// Data that is not an event.
    Invalid,
    /// The end of the stream.
    Done,
}

/// What the first `n` payloads yield: each event's chunks, nothing for
/// data that is not an event, and the end.
pub open spec fn decoded_chunks(ps: Seq<DecodedPayload>, n: int) -> Seq<ChunkView>
    decreases n,
{
    if n <= 0 {
        seq![]
    } else {
        decoded_chunks(ps, n - 1) + match ps[n - 1] {
            DecodedPayload::Event(e) => event_chunks_spec(e),
            DecodedPayload::Invalid => seq![],
            DecodedPayload::Done => seq![ChunkView::Done],
        }
    }
}

/// The chunks of a stream's payloads, in order, as `decoded_chunks` says.
pub fn parse_sse_events(payloads: &Vec<DecodedPayload>) -> (r: Vec<StreamChunk>)
    ensures
        chunks_view(r@) == decoded_chunks(payloads@, payloads@.len() as int),
{
    let mut out: Vec<StreamChunk> = Vec::new();
    let mut i: usize = 0;
    while i < payloads.len()
        invariant
            i <= payloads@.len(),
            chunks_view(out@) == decoded_chunks(payloads@, i as int),
        decreases payloads@.len() - i,
    {
        let ghost before = chunks_view(out@);
        match &payloads[i] {
            DecodedPayload::Event(e) => {
                let cs = event_chunks(e);
                let mut k: usize = 0;
                while k < cs.len()
                    invariant
                        k <= cs@.len(),
                        chunks_view(out@) == before + chunks_view(cs@).take(k as int),
                    decreases cs@.len() - k,
                {
                    let ghost b2 = chunks_view(out@);
                    out.push(cs[k].clone_chunk());
                    assert(chunks_view(cs@).take(k + 1) =~= chunks_view(cs@).take(k as int).push(chunk_view(cs@[k as int])));
                    assert(chunks_view(out@) =~= b2.push(chunk_view(cs@[k as int])));
                    k = k + 1;
                }
                assert(chunks_view(cs@).take(cs@.len() as int) =~= chunks_view(cs@));
            },
            DecodedPayload::Invalid => {
                assert(chunks_view(out@) =~= before + Seq::<ChunkView>::empty());
            },
            DecodedPayload::Done => {
                out.push(StreamChunk::Done);
                assert(chunks_view(out@) =~= before + seq![ChunkView::Done]);
            },
        }
        i = i + 1;
    }
    out
}

impl StreamChunk {
    /// A copy of the chunk.
    pub fn clone_chunk(&self) -> (r: StreamChunk)
        ensures
            chunk_view(r) == chunk_view(*self),
    {
        match self {
            StreamChunk::Content(t) => StreamChunk::Content(t.clone()),
            StreamChunk::ToolCall(tc) => StreamChunk::ToolCall(
                ToolCall {
                    id: tc.id.clone(),
                    type_: tc.type_.clone(),
                    function: FunctionCall { name: tc.function.name.clone(), arguments: tc.function.arguments.clone() },
                },
            ),
            StreamChunk::Done => StreamChunk::Done,
        }
    }
}

// ------------------------------------------------------------------
// Polling a stream
// ------------------------------------------------------------------

/// Where a streamed answer stands.
#[derive(Debug, Clone)]
pub enum StreamPhase {
    /// The request is not sent yet.
    Initial,
    /// The request is on its way.
    Requesting,
    /// Lines of the answer arrive in the buffer.
    Streaming,
    /// Nothing more comes.
    Done,
    /// The stream failed, with the reason.
    Error(String),
}

/// What one step of polling gives.
#[derive(Debug)]
pub enum PollStep {
    /// A chunk, or an error.
    Ready(Result<StreamChunk, String>),
    /// The data of a line, to be read as an event.
    Data(String),
    /// Poll again at once.
    Again,
    /// Wait for more of the answer.
    Pending,
    /// The stream is over.
    End,
}

/// The first position of a line feed in `s`, or -1.
pub open spec fn first_newline(s: Seq<char>) -> int {
    match crate::text::find_from(s, seq!['\n'], 0) {
        Some(i) => i,
        None => -1,
    }
}

/// One step of polling a stream. Before the request, the request is built:
/// if that failed (`build_error`) the stream fails, otherwise it is sent
/// and the caller waits for the answer. Once the answer arrives (the poll
/// of a request on its way), its lines are read: while streaming, the first
/// line of the buffer is taken out, its data, if it carries any, is given
/// to be read, and the end marker ends the stream. A failed stream gives
/// its error once, then ends.
pub fn poll_step(phase: &mut StreamPhase, buffer: &mut String, build_error: Option<String>) -> (r: PollStep)
    ensures
        match *old(phase) {
            StreamPhase::Initial => match build_error {
                Some(e) => r is Again && *final(phase) == StreamPhase::Error(e) && *final(buffer) == *old(buffer),
                None => r is Pending && *final(phase) == StreamPhase::Requesting && *final(buffer)
                    == *old(buffer),
            },
            StreamPhase::Requesting => r is Again && *final(phase) == StreamPhase::Streaming
                && *final(buffer) == *old(buffer),
            StreamPhase::Streaming => {
                let b = old(buffer)@;
                let i = first_newline(b);
                if i < 0 {
                    r is Pending && *final(phase) == StreamPhase::Streaming && *final(buffer) == *old(buffer)
                } else {
                    &&& final(buffer)@ == b.subrange(i + 1, b.len() as int)
                    &&& match line_data(b.subrange(0, i)) {
                        Some(d) => if d == "[DONE]"@ {
                            r matches PollStep::Ready(Ok(StreamChunk::Done)) && *final(phase) == StreamPhase::Done
                        } else {
                            r matches PollStep::Data(x) && x@ == d && *final(phase) == StreamPhase::Streaming
                        },
                        None => r is Again && *final(phase) == StreamPhase::Streaming,
                    }
                }
            },
            StreamPhase::Done => r is End && *final(phase) == StreamPhase::Done && *final(buffer) == *old(buffer),
            StreamPhase::Error(e) => r matches PollStep::Ready(Err(m)) && m == e && *final(phase) == StreamPhase::Done
                && *final(buffer) == *old(buffer),
        },
{
    match phase {
        StreamPhase::Initial => {
            match build_error {
                Some(e) => {
                    *phase = StreamPhase::Error(e);
                    PollStep::Again
                },
                None => {
                    *phase = StreamPhase::Requesting;
                    PollStep::Pending
                },
            }
        },
        StreamPhase::Requesting => {
            *phase = StreamPhase::Streaming;
            PollStep::Again
        },
        StreamPhase::Streaming => {
            let c = crate::text::chars_of(buffer.as_str());
            let n = c.len();
            assert(c@.subrange(0, n as int) =~= c@);
            let nl = vec!['\n'];
            assert(nl@ =~= seq!['\n']);
            proof {
                crate::text::lemma_find_bound(c@, seq!['\n'], 0);
            }
            match crate::text::find_exec(&c, n, 0, &nl) {
                Some(i) => {
                    let (a, b) = crate::text::trim_range(&c, 0, i);
                    let t = crate::text::sub_chars(&c, a, b);
                    *buffer = crate::text::string_of(&c, i + 1, n);
                    assert(c@.subrange(0, i as int).subrange(0, i as int) =~= c@.subrange(0, i as int));
                    assert(t@ == trim(c@.subrange(0, i as int)));
                    let data = crate::text::chars_of("data: ");
                    proof {
                        reveal_strlit("data: ");
                        assert("data: "@.len() == 6);
                    }
                    if crate::text::starts_with_exec(&t, &data) {
                        let d = crate::text::string_of(&t, 6, t.len());
                        if same_text(&d, "[DONE]") {
                            *phase = StreamPhase::Done;
                            PollStep::Ready(Ok(StreamChunk::Done))
                        } else {
                            PollStep::Data(d)
                        }
                    } else {
                        PollStep::Again
                    }
                },
                None => PollStep::Pending,
            }
        },
        StreamPhase::Done => PollStep::End,
        StreamPhase::Error(e) => {
            let m = e.clone();
            *phase = StreamPhase::Done;
            PollStep::Ready(Err(m))
        },
    }
}

/// The first chunk an event yields, as the stream gives it (the rest of
/// the event is not given).
pub fn first_event_chunk(e: &StreamEvent) -> (r: Option<StreamChunk>)
    ensures
        event_chunks_spec(*e).len() == 0 ==> r is None,
        event_chunks_spec(*e).len() > 0 ==> (r matches Some(c) && chunk_view(c) == event_chunks_spec(*e)[0]),
{
    let v = event_chunks(e);
    if v.len() == 0 {
        None
    } else {
        Some(v[0].clone_chunk())
    }
}

// ------------------------------------------------------------------
// Requests: retries, tool turns, collected streams
// ------------------------------------------------------------------

/// Whether a failed request with this HTTP status is worth retrying: rate
/// limited (429) or a server error (500 to 599).
pub fn is_retryable_error(status: u16) -> (r: bool)
    ensures
        r == (status == 429 || (500 <= status && status < 600)),
{
    status == 429 || (500 <= status && status < 600)
}

/// Whether a request that failed on attempt `attempt` (counted from zero)
/// is sent again: while attempts remain and the failure is retryable.
pub fn should_retry_request(attempt: u32, max_retries: u32, retryable: bool) -> (r: bool)
    ensures
        r == (attempt < max_retries && retryable),
{
    attempt < max_retries && retryable
}

/// The error of a conversation that needed more tool turns than allowed.
pub fn too_many_turns(turn: u32, max_turns: u32) -> (r: Option<String>)
    ensures
        turn < max_turns ==> r is None,
        turn >= max_turns ==> (r matches Some(m) && m@ == "Exceeded maximum tool call turns ("@
            + crate::text::decimal(max_turns as nat) + ")"@),
{
    if turn >= max_turns {
        let mut m = owned("Exceeded maximum tool call turns (");
        crate::text::push_decimal(&mut m, max_turns as u64);
        crate::text::push_str(&mut m, ")");
        Some(m)
    } else {
        None
    }
}

/// The content of the message that answers a tool call: its result, or
/// "Error: " and the error.
pub open spec fn tool_reply(r: Result<String, String>) -> Seq<char> {
    match r {
        Ok(x) => x@,
        Err(e) => "Error: "@ + e@,
    }
}

/// Adds one turn of tool calls to a conversation: the assistant's message
/// (its content, or nothing), then one function message per call, named
/// after the call's function, holding its result or error.
pub fn add_tool_turn(
    messages: &mut Vec<Message>,
    assistant_content: Option<String>,
    calls: &Vec<ToolCall>,
    results: &Vec<Result<String, String>>,
)
    requires
        results@.len() == calls@.len(),
    ensures
        final(messages)@.len() == old(messages)@.len() + 1 + calls@.len(),
        final(messages)@.subrange(0, old(messages)@.len() as int) == old(messages)@,
        final(messages)@[old(messages)@.len() as int].role == Role::Assistant,
        final(messages)@[old(messages)@.len() as int].content@ == match assistant_content {
            Some(c) => c@,
            None => Seq::<char>::empty(),
        },
        final(messages)@[old(messages)@.len() as int].name is None,
        forall|k: int|
            0 <= k < calls@.len() ==> {
                let m = #[trigger] final(messages)@[old(messages)@.len() + 1 + k];
                &&& m.role == Role::Function
                &&& m.content@ == tool_reply(results@[k])
                &&& m.name matches Some(n) && n@ == calls@[k].function.name@
            },
{
    let ghost start = old(messages)@;
    let content = match assistant_content {
        Some(c) => c,
        None => String::new(),
    };
    messages.push(Message { role: Role::Assistant, content, name: None });
    let mut i: usize = 0;
    while i < calls.len()
        invariant
            i <= calls@.len(),
            results@.len() == calls@.len(),
            messages@.len() == start.len() + 1 + i,
            messages@.subrange(0, start.len() as int) == start,
            messages@[start.len() as int].role == Role::Assistant,
            messages@[start.len() as int].content@ == match assistant_content {
                Some(c) => c@,
                None => Seq::<char>::empty(),
            },
            messages@[start.len() as int].name is None,
            forall|k: int|
                0 <= k < i ==> {
                    let m = #[trigger] messages@[start.len() + 1 + k];
                    &&& m.role == Role::Function
                    &&& m.content@ == tool_reply(results@[k])
                    &&& m.name matches Some(n) && n@ == calls@[k].function.name@
                },
        decreases calls@.len() - i,
    {
        let content = match &results[i] {
            Ok(x) => x.clone(),
            Err(e) => {
                let mut m = owned("Error: ");
                crate::text::push_str(&mut m, e.as_str());
                m
            },
        };
        let ghost before = messages@;
        messages.push(Message { role: Role::Function, content, name: Some(calls[i].function.name.clone()) });
        assert(messages@.subrange(0, start.len() as int) =~= before.subrange(0, start.len() as int));
        i = i + 1;
    }
}

/// The text collected from a stream's chunks: the contents up to the end,
/// or the first error before it.
pub open spec fn collected(chunks: Seq<Result<StreamChunk, String>>, n: int) -> Result<Seq<char>, Seq<char>>
    decreases n,
{
    if n <= 0 {
        Ok(Seq::<char>::empty())
    } else {
        match collected(chunks, n - 1) {
            Err(e) => Err(e),
            Ok(t) => match chunks[n - 1] {
                Ok(StreamChunk::Content(c)) => if ends_stream(chunks, n - 1) {
                    Ok(t)
                } else {
                    Ok(t + c@)
                },
                Err(e) => if ends_stream(chunks, n - 1) {
                    Ok(t)
                } else {
                    Err(e@)
                },
                _ => Ok(t),
            },
        }
    }
}

/// The chunk is the end of the stream.
pub open spec fn is_end(c: Result<StreamChunk, String>) -> bool {
    c matches Ok(StreamChunk::Done)
}

/// Some chunk among the first `n` ends the stream.
pub open spec fn ends_stream(chunks: Seq<Result<StreamChunk, String>>, n: int) -> bool {
    exists|k: int| 0 <= k < n && #[trigger] is_end(chunks[k])
}

/// Collects the text of a streamed answer, as `collected` says: contents
/// are joined until the end; an error before the end is the result.
pub fn collect_stream_content(chunks: &Vec<Result<StreamChunk, String>>) -> (r: Result<String, String>)
    ensures
        match collected(chunks@, chunks@.len() as int) {
            Ok(t) => r matches Ok(x) && x@ == t,
            Err(e) => r matches Err(x) && x@ == e,
        },
{
    let mut content = String::new();
    let mut i: usize = 0;
    while i < chunks.len()
        invariant
            i <= chunks@.len(),
            collected(chunks@, i as int) == Ok::<Seq<char>, Seq<char>>(content@),
            !ends_stream(chunks@, i as int),
        decreases chunks@.len() - i,
    {
        match &chunks[i] {
            Ok(StreamChunk::Content(text)) => {
                crate::text::push_str(&mut content, text.as_str());
            },
            Ok(StreamChunk::ToolCall(_)) => {},
            Ok(StreamChunk::Done) => {
                proof {
                    assert(is_end(chunks@[i as int]));
                    assert(ends_stream(chunks@, i + 1));
                    lemma_collected_after_end(chunks@, i + 1, chunks@.len() as int);
                }
                return Ok(content);
            },
            Err(e) => {
                proof {
                    lemma_collected_err(chunks@, i + 1, chunks@.len() as int);
                }
                return Err(e.clone());
            },
        }
        i = i + 1;
        assert(!ends_stream(chunks@, i as int)) by {
            if ends_stream(chunks@, i as int) {
                let k = choose|k: int| 0 <= k < i && #[trigger] is_end(chunks@[k]);
                if k < i - 1 {
                    assert(ends_stream(chunks@, i - 1));
                }
            }
        }
    }
    Ok(content)
}

/// After the end, later chunks change nothing.
proof fn lemma_collected_after_end(chunks: Seq<Result<StreamChunk, String>>, m: int, n: int)
    requires
        0 < m <= n <= chunks.len(),
        ends_stream(chunks, m),
        collected(chunks, m) is Ok,
    ensures
        collected(chunks, n) == collected(chunks, m),
    decreases n - m,
{
    if n > m {
        lemma_collected_after_end(chunks, m, n - 1);
        assert(ends_stream(chunks, n - 1)) by {
            let k = choose|k: int| 0 <= k < m && #[trigger] is_end(chunks[k]);
            assert(0 <= k < n - 1);
        }
    }
}

/// After an error, later chunks change nothing.
proof fn lemma_collected_err(chunks: Seq<Result<StreamChunk, String>>, m: int, n: int)
    requires
        0 < m <= n <= chunks.len(),
        collected(chunks, m) is Err,
    ensures
        collected(chunks, n) == collected(chunks, m),
    decreases n - m,
{
    if n > m {
        lemma_collected_err(chunks, m, n - 1);
    }
}

} // verus!
