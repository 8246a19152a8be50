//! Messages, content blocks, models and stream events exchanged with a language model,
//! each with a mathematical view.
use vstd::prelude::*;
use crate::json::{Json, JsonVal};
use crate::text::{owned, concat_strings, seq_concat, strings_view};

verus! {

// ---------------------------------------------------------------------------
// Clock
// ---------------------------------------------------------------------------

#[verifier::external_type_specification]
#[verifier::external_body]
pub struct ExSystemTime(std::time::SystemTime);

/// Calls `std::time::SystemTime::now`. Nothing is stated of the result: it is the clock.
#[verifier::external_body]
fn system_now() -> std::time::SystemTime {
    std::time::SystemTime::now()
}

/// Calls `SystemTime::duration_since(UNIX_EPOCH)`, the error turned into `None`.
/// Nothing is stated of the result: it depends on the clock reading passed in.
#[verifier::external_body]
fn since_unix_epoch(t: &std::time::SystemTime) -> Option<core::time::Duration> {
    t.duration_since(std::time::UNIX_EPOCH).ok()
}

/// Calls `Duration::as_millis`. Nothing is stated of the result (the duration is opaque here).
#[verifier::external_body]
fn duration_millis(d: &core::time::Duration) -> u128 {
    d.as_millis()
}

/// The timestamp kept for a clock reading: the milliseconds since the Unix epoch, cut to
/// their low 64 bits, or 0 where the clock stood before the epoch (`None`).
pub fn timestamp_of(reading: Option<u128>) -> (r: u64)
    ensures
        r == match reading {
            Some(ms) => ms as u64,
            None => 0u64,
        },
{
    match reading {
        Some(ms) => ms as u64,
        None => 0,
    }
}

/// Milliseconds since the Unix epoch by the system clock (0 where the clock is before it).
/// The reading itself is the clock's; what is kept of it is `timestamp_of` the reading.
pub fn now_ms() -> u64 {
    let reading: Option<u128> = match since_unix_epoch(&system_now()) {
        Some(d) => Some(duration_millis(&d)),
        None => None,
    };
    timestamp_of(reading)
}

// ---------------------------------------------------------------------------
// Content blocks
// ---------------------------------------------------------------------------

/// A block of user or tool content.
#[derive(Debug)]
pub enum ContentBlock {
    Text { text: String },
}

impl View for ContentBlock {
    type V = Seq<char>;

    open spec fn view(&self) -> Seq<char> {
        match self {
            ContentBlock::Text { text } => text@,
        }
    }
}

impl Clone for ContentBlock {
    fn clone(&self) -> (r: Self)
        ensures
            r@ == self@,
    {
        match self {
            ContentBlock::Text { text } => ContentBlock::Text { text: text.clone() },
        }
    }
}

impl ContentBlock {
    pub fn text(s: &str) -> (r: Self)
        ensures
            r@ == s@,
    {
        ContentBlock::Text { text: owned(s) }
    }

    pub fn as_text(&self) -> (r: Option<&str>)
        ensures
            r matches Some(t) && t@ == self@,
    {
        match self {
            ContentBlock::Text { text } => Some(text.as_str()),
        }
    }
}

/// The views of a sequence of content blocks.
pub open spec fn blocks_view(v: Seq<ContentBlock>) -> Seq<Seq<char>> {
    v.map_values(|b: ContentBlock| b@)
}

/// A call of a tool that the model asked for.
#[derive(Debug)]
pub struct ToolCall {
    pub id: String,
    pub name: String,
    pub arguments: Json,
}

pub struct ToolCallV {
    pub id: Seq<char>,
    pub name: Seq<char>,
    pub arguments: JsonVal,
}

impl View for ToolCall {
    type V = ToolCallV;

    open spec fn view(&self) -> ToolCallV {
        ToolCallV { id: self.id@, name: self.name@, arguments: self.arguments@ }
    }
}

impl Clone for ToolCall {
    fn clone(&self) -> (r: Self)
        ensures
            r@ == self@,
    {
        ToolCall { id: self.id.clone(), name: self.name.clone(), arguments: self.arguments.clone() }
    }
}

/// The views of a sequence of tool calls.
pub open spec fn tool_calls_view(v: Seq<ToolCall>) -> Seq<ToolCallV> {
    v.map_values(|t: ToolCall| t@)
}

/// A block of assistant output.
#[derive(Debug)]
pub enum AssistantContentBlock {
    Text { text: String },
    ToolUse(ToolCall),
    Thinking { thinking: String },
}

pub enum AssistantBlockV {
    Text(Seq<char>),
    ToolUse(ToolCallV),
    Thinking(Seq<char>),
}

impl View for AssistantContentBlock {
    type V = AssistantBlockV;

    open spec fn view(&self) -> AssistantBlockV {
        match self {
            AssistantContentBlock::Text { text } => AssistantBlockV::Text(text@),
            AssistantContentBlock::ToolUse(tc) => AssistantBlockV::ToolUse(tc@),
            AssistantContentBlock::Thinking { thinking } => AssistantBlockV::Thinking(thinking@),
        }
    }
}

impl Clone for AssistantContentBlock {
    fn clone(&self) -> (r: Self)
        ensures
            r@ == self@,
    {
        match self {
            AssistantContentBlock::Text { text } => AssistantContentBlock::Text { text: text.clone() },
            AssistantContentBlock::ToolUse(tc) => AssistantContentBlock::ToolUse(tc.clone()),
            AssistantContentBlock::Thinking { thinking } => AssistantContentBlock::Thinking {
                thinking: thinking.clone(),
            },
        }
    }
}

/// The views of a sequence of assistant blocks.
pub open spec fn assistant_blocks_view(v: Seq<AssistantContentBlock>) -> Seq<AssistantBlockV> {
    v.map_values(|b: AssistantContentBlock| b@)
}

/// The text of the assistant output: the `Text` blocks concatenated in order.
pub open spec fn text_of_blocks(bs: Seq<AssistantBlockV>) -> Seq<char>
    decreases bs.len(),
{
    if bs.len() == 0 {
        Seq::empty()
    } else {
        text_of_blocks(bs.drop_last()) + match bs.last() {
            AssistantBlockV::Text(t) => t,
            _ => Seq::empty(),
        }
    }
}

/// The tool calls of the assistant output, in order.
pub open spec fn tool_calls_of_blocks(bs: Seq<AssistantBlockV>) -> Seq<ToolCallV>
    decreases bs.len(),
{
    if bs.len() == 0 {
        Seq::empty()
    } else {
        tool_calls_of_blocks(bs.drop_last()) + match bs.last() {
            AssistantBlockV::ToolUse(tc) => seq![tc],
            _ => Seq::empty(),
        }
    }
}

// ---------------------------------------------------------------------------
// Usage & StopReason
// ---------------------------------------------------------------------------

#[derive(Debug, Clone, Copy)]
pub struct Usage {
    pub input_tokens: u64,
    pub output_tokens: u64,
    pub cache_read_tokens: u64,
    pub cache_write_tokens: u64,
}

impl Usage {
    pub open spec fn zero() -> Usage {
        Usage { input_tokens: 0, output_tokens: 0, cache_read_tokens: 0, cache_write_tokens: 0 }
    }
}

impl Default for Usage {
    fn default() -> (r: Self)
        ensures
            r == Usage::zero(),
    {
        Usage { input_tokens: 0, output_tokens: 0, cache_read_tokens: 0, cache_write_tokens: 0 }
    }
}

#[derive(Debug, Clone, Copy, PartialEq, Eq, Structural)]
pub enum StopReason {
    Stop,
    ToolUse,
    Length,
    Error,
    Aborted,
}

impl Default for StopReason {
    fn default() -> (r: Self)
        ensures
            r == StopReason::Stop,
    {
        StopReason::Stop
    }
}

// ---------------------------------------------------------------------------
// Messages
// ---------------------------------------------------------------------------

#[derive(Debug)]
pub struct UserMessage {
    pub content: Vec<ContentBlock>,
    pub timestamp: u64,
}

pub struct UserMessageV {
    pub content: Seq<Seq<char>>,
    pub timestamp: u64,
}

impl View for UserMessage {
    type V = UserMessageV;

    open spec fn view(&self) -> UserMessageV {
        UserMessageV { content: blocks_view(self.content@), timestamp: self.timestamp }
    }
}

impl Clone for UserMessage {
    fn clone(&self) -> (r: Self)
        ensures
            r@ == self@,
    {
        let content = self.content.clone();
        proof {
            assert forall|i: int| 0 <= i < self.content@.len() implies content@[i]@ == self.content@[i]@ by {
                assert(cloned::<ContentBlock>(self.content@[i], content@[i]));
            }
            assert(blocks_view(content@) =~= blocks_view(self.content@));
        }
        UserMessage { content, timestamp: self.timestamp }
    }
}

impl UserMessage {
    /// A user message holding one text block, stamped with the current time.
    pub fn new(text: &str) -> (r: Self)
        ensures
            r@.content == seq![text@],
    {
        let mut content = Vec::new();
        content.push(ContentBlock::text(text));
        proof { assert(blocks_view(content@) =~= seq![text@]); }
        UserMessage { content, timestamp: now_ms() }
    }
}

#[derive(Debug)]
pub struct AssistantMessage {
    pub content: Vec<AssistantContentBlock>,
    pub model: String,
    pub usage: Usage,
    pub stop_reason: StopReason,
    pub error_message: Option<String>,
    pub timestamp: u64,
}

pub struct AssistantMessageV {
    pub content: Seq<AssistantBlockV>,
    pub model: Seq<char>,
    pub usage: Usage,
    pub stop_reason: StopReason,
    pub error_message: Option<Seq<char>>,
    pub timestamp: u64,
}

pub open spec fn opt_string_view(o: Option<String>) -> Option<Seq<char>> {
    match o {
        Some(s) => Some(s@),
        None => None,
    }
}

impl View for AssistantMessage {
    type V = AssistantMessageV;

    open spec fn view(&self) -> AssistantMessageV {
        AssistantMessageV {
            content: assistant_blocks_view(self.content@),
            model: self.model@,
            usage: self.usage,
            stop_reason: self.stop_reason,
            error_message: opt_string_view(self.error_message),
            timestamp: self.timestamp,
        }
    }
}

/// A fresh copy of an optional string.
pub fn copy_opt_string(o: &Option<String>) -> (r: Option<String>)
    ensures
        opt_string_view(r) == opt_string_view(*o),
{
    match o {
        Some(s) => Some(s.clone()),
        None => None,
    }
}

/// A fresh copy of a vector of assistant blocks.
pub fn copy_assistant_blocks(v: &Vec<AssistantContentBlock>) -> (r: Vec<AssistantContentBlock>)
    ensures
        assistant_blocks_view(r@) == assistant_blocks_view(v@),
{
    let r = v.clone();
    proof {
        assert forall|i: int| 0 <= i < v@.len() implies r@[i]@ == v@[i]@ by {
            assert(cloned::<AssistantContentBlock>(v@[i], r@[i]));
        }
        assert(assistant_blocks_view(r@) =~= assistant_blocks_view(v@));
    }
    r
}

impl Clone for AssistantMessage {
    fn clone(&self) -> (r: Self)
        ensures
            r@ == self@,
    {
        AssistantMessage {
            content: copy_assistant_blocks(&self.content),
            model: self.model.clone(),
            usage: self.usage,
            stop_reason: self.stop_reason,
            error_message: copy_opt_string(&self.error_message),
            timestamp: self.timestamp,
        }
    }
}

impl AssistantMessageV {
    /// An empty message of the given model, as `AssistantMessage::default()` with `model` set.
    pub open spec fn empty(model: Seq<char>) -> AssistantMessageV {
        AssistantMessageV {
            content: Seq::empty(),
            model,
            usage: Usage::zero(),
            stop_reason: StopReason::Stop,
            error_message: None,
            timestamp: 0,
        }
    }
}

impl Default for AssistantMessage {
    fn default() -> (r: Self)
        ensures
            r@ == AssistantMessageV::empty(Seq::empty()),
    {
        let r = AssistantMessage {
            content: Vec::new(),
            model: String::new(),
            usage: Usage::default(),
            stop_reason: StopReason::Stop,
            error_message: None,
            timestamp: 0,
        };
        assert(r@.content =~= Seq::<AssistantBlockV>::empty());
        r
    }
}

impl AssistantMessage {
    /// An empty message naming `model`.
    pub fn empty(model: String) -> (r: Self)
        ensures
            r@ == AssistantMessageV::empty(model@),
    {
        let r = AssistantMessage {
            content: Vec::new(),
            model,
            usage: Usage::default(),
            stop_reason: StopReason::Stop,
            error_message: None,
            timestamp: 0,
        };
        assert(r@.content =~= Seq::<AssistantBlockV>::empty());
        r
    }

    /// The text output: all `Text` blocks concatenated in order.
    pub fn text_output(&self) -> (r: String)
        ensures
            r@ == text_of_blocks(self@.content),
    {
        let mut parts: Vec<String> = Vec::new();
        let mut i: usize = 0;
        while i < self.content.len()
            invariant
                i <= self.content@.len(),
                seq_concat(strings_view(parts@)) == text_of_blocks(self@.content.take(i as int)),
            decreases self.content@.len() - i,
        {
            let ghost before = parts@;
            match &self.content[i] {
                AssistantContentBlock::Text { text } => {
                    parts.push(text.clone());
                    proof {
                        assert(strings_view(parts@).drop_last() =~= strings_view(before));
                    }
                },
                _ => {
                    proof {
                        assert(strings_view(parts@) =~= strings_view(before));
                    }
                },
            }
            assert(self@.content.take(i + 1).drop_last() =~= self@.content.take(i as int));
            i = i + 1;
        }
        assert(self@.content.take(self.content@.len() as int) =~= self@.content);
        concat_strings(&parts)
    }

    /// The tool calls in the output, in order.
    pub fn tool_calls(&self) -> (r: Vec<&ToolCall>)
        ensures
            r@.map_values(|t: &ToolCall| t@) == tool_calls_of_blocks(self@.content),
    {
        let mut out: Vec<&ToolCall> = Vec::new();
        let mut i: usize = 0;
        while i < self.content.len()
            invariant
                i <= self.content@.len(),
                out@.map_values(|t: &ToolCall| t@) == tool_calls_of_blocks(self@.content.take(i as int)),
            decreases self.content@.len() - i,
        {
            let ghost before = out@;
            match &self.content[i] {
                AssistantContentBlock::ToolUse(tc) => {
                    out.push(tc);
                    proof {
                        assert(out@.map_values(|t: &ToolCall| t@) =~= before.map_values(|t: &ToolCall| t@).push(tc@));
                    }
                },
                _ => {},
            }
            assert(self@.content.take(i + 1).drop_last() =~= self@.content.take(i as int));
            i = i + 1;
        }
        assert(self@.content.take(self.content@.len() as int) =~= self@.content);
        out
    }
}

#[derive(Debug)]
pub struct ToolResultMessage {
    pub tool_call_id: String,
    pub tool_name: String,
    pub content: Vec<ContentBlock>,
    pub is_error: bool,
    pub timestamp: u64,
}

pub struct ToolResultMessageV {
    pub tool_call_id: Seq<char>,
    pub tool_name: Seq<char>,
    pub content: Seq<Seq<char>>,
    pub is_error: bool,
    pub timestamp: u64,
}

impl View for ToolResultMessage {
    type V = ToolResultMessageV;

    open spec fn view(&self) -> ToolResultMessageV {
        ToolResultMessageV {
            tool_call_id: self.tool_call_id@,
            tool_name: self.tool_name@,
            content: blocks_view(self.content@),
            is_error: self.is_error,
            timestamp: self.timestamp,
        }
    }
}

impl Clone for ToolResultMessage {
    fn clone(&self) -> (r: Self)
        ensures
            r@ == self@,
    {
        let content = self.content.clone();
        proof {
            assert forall|i: int| 0 <= i < self.content@.len() implies content@[i]@ == self.content@[i]@ by {
                assert(cloned::<ContentBlock>(self.content@[i], content@[i]));
            }
            assert(blocks_view(content@) =~= blocks_view(self.content@));
        }
        ToolResultMessage {
            tool_call_id: self.tool_call_id.clone(),
            tool_name: self.tool_name.clone(),
            content,
            is_error: self.is_error,
            timestamp: self.timestamp,
        }
    }
}

#[derive(Debug)]
pub enum Message {
    User(UserMessage),
    Assistant(AssistantMessage),
    ToolResult(ToolResultMessage),
}

pub enum MessageV {
    User(UserMessageV),
    Assistant(AssistantMessageV),
    ToolResult(ToolResultMessageV),
}

impl View for Message {
    type V = MessageV;

    open spec fn view(&self) -> MessageV {
        match self {
            Message::User(u) => MessageV::User(u@),
            Message::Assistant(a) => MessageV::Assistant(a@),
            Message::ToolResult(t) => MessageV::ToolResult(t@),
        }
    }
}

impl Clone for Message {
    fn clone(&self) -> (r: Self)
        ensures
            r@ == self@,
    {
        match self {
            Message::User(u) => Message::User(u.clone()),
            Message::Assistant(a) => Message::Assistant(a.clone()),
            Message::ToolResult(t) => Message::ToolResult(t.clone()),
        }
    }
}

/// The views of a sequence of messages.
pub open spec fn messages_view(v: Seq<Message>) -> Seq<MessageV> {
    v.map_values(|m: Message| m@)
}

// ---------------------------------------------------------------------------
// LLM context & tool spec
// ---------------------------------------------------------------------------

/// What the model is told of a tool: name, description and a JSON Schema of its parameters.
#[derive(Debug)]
pub struct ToolSpec {
    pub name: String,
    pub description: String,
    pub parameters: Json,
}

pub struct ToolSpecV {
    pub name: Seq<char>,
    pub description: Seq<char>,
    pub parameters: JsonVal,
}

impl View for ToolSpec {
    type V = ToolSpecV;

    open spec fn view(&self) -> ToolSpecV {
        ToolSpecV { name: self.name@, description: self.description@, parameters: self.parameters@ }
    }
}

impl Clone for ToolSpec {
    fn clone(&self) -> (r: Self)
        ensures
            r@ == self@,
    {
        ToolSpec {
            name: self.name.clone(),
            description: self.description.clone(),
            parameters: self.parameters.clone(),
        }
    }
}

pub open spec fn tool_specs_view(v: Seq<ToolSpec>) -> Seq<ToolSpecV> {
    v.map_values(|t: ToolSpec| t@)
}

/// What one request to the model carries.
#[derive(Debug)]
pub struct LlmContext {
    pub system_prompt: Option<String>,
    pub messages: Vec<Message>,
    pub tools: Vec<ToolSpec>,
}

// ---------------------------------------------------------------------------
// Model & Provider
// ---------------------------------------------------------------------------

#[derive(Debug, Clone, Copy, PartialEq, Eq, Structural)]
pub enum Provider {
    Anthropic,
    OpenAI,
}

#[derive(Debug)]
pub struct Model {
    pub id: String,
    pub provider: Provider,
    pub api_key: String,
    pub base_url: Option<String>,
    pub max_tokens: u32,
}

impl Clone for Model {
    fn clone(&self) -> (r: Self)
        ensures
            r.id@ == self.id@,
            r.provider == self.provider,
            r.api_key@ == self.api_key@,
            opt_string_view(r.base_url) == opt_string_view(self.base_url),
            r.max_tokens == self.max_tokens,
    {
        Model {
            id: self.id.clone(),
            provider: self.provider,
            api_key: self.api_key.clone(),
            base_url: copy_opt_string(&self.base_url),
            max_tokens: self.max_tokens,
        }
    }
}

impl Model {
    /// An Anthropic model: no base URL, 8192 output tokens.
    pub fn anthropic(id: &str, api_key: &str) -> (r: Self)
        ensures
            r.id@ == id@,
            r.provider == Provider::Anthropic,
            r.api_key@ == api_key@,
            r.base_url is None,
            r.max_tokens == 8192,
    {
        Model { id: owned(id), provider: Provider::Anthropic, api_key: owned(api_key), base_url: None, max_tokens: 8192 }
    }

    /// An OpenAI model: no base URL, 4096 output tokens.
    pub fn openai(id: &str, api_key: &str) -> (r: Self)
        ensures
            r.id@ == id@,
            r.provider == Provider::OpenAI,
            r.api_key@ == api_key@,
            r.base_url is None,
            r.max_tokens == 4096,
    {
        Model { id: owned(id), provider: Provider::OpenAI, api_key: owned(api_key), base_url: None, max_tokens: 4096 }
    }
}

/// Options of one request. The temperature is held as the text of a JSON number.
#[derive(Debug)]
pub struct StreamOptions {
    pub temperature: Option<String>,
    pub max_tokens: Option<u32>,
}

impl Clone for StreamOptions {
    fn clone(&self) -> (r: Self)
        ensures
            opt_string_view(r.temperature) == opt_string_view(self.temperature),
            r.max_tokens == self.max_tokens,
    {
        StreamOptions { temperature: copy_opt_string(&self.temperature), max_tokens: self.max_tokens }
    }
}

impl Default for StreamOptions {
    /// No temperature and the model's own output limit.
    fn default() -> (r: Self)
        ensures
            r.temperature is None,
            r.max_tokens is None,
    {
        StreamOptions { temperature: None, max_tokens: None }
    }
}

// ---------------------------------------------------------------------------
// Stream events
// ---------------------------------------------------------------------------

#[derive(Debug)]
pub enum StreamEvent {
    /// The model started answering; an empty message naming the model.
    Start(AssistantMessage),
    /// A piece of text.
    TextDelta { index: usize, delta: String },
    /// A piece of a tool call's JSON arguments.
    ToolCallDelta { index: usize, delta: String },
    /// A tool call block is complete.
    ToolCallEnd { index: usize, tool_call: ToolCall },
    /// The stream ended; the whole message.
    Done(AssistantMessage),
    /// The stream failed; the message with its error.
    Error(AssistantMessage),
}

pub enum StreamEventV {
    Start(AssistantMessageV),
    TextDelta { index: usize, delta: Seq<char> },
    ToolCallDelta { index: usize, delta: Seq<char> },
    ToolCallEnd { index: usize, tool_call: ToolCallV },
    Done(AssistantMessageV),
    Error(AssistantMessageV),
}

impl View for StreamEvent {
    type V = StreamEventV;

    open spec fn view(&self) -> StreamEventV {
        match self {
            StreamEvent::Start(m) => StreamEventV::Start(m@),
            StreamEvent::TextDelta { index, delta } => StreamEventV::TextDelta { index: *index, delta: delta@ },
            StreamEvent::ToolCallDelta { index, delta } => StreamEventV::ToolCallDelta { index: *index, delta: delta@ },
            StreamEvent::ToolCallEnd { index, tool_call } => StreamEventV::ToolCallEnd { index: *index, tool_call: tool_call@ },
            StreamEvent::Done(m) => StreamEventV::Done(m@),
            StreamEvent::Error(m) => StreamEventV::Error(m@),
        }
    }
}

impl Clone for StreamEvent {
    fn clone(&self) -> (r: Self)
        ensures
            r@ == self@,
    {
        match self {
            StreamEvent::Start(m) => StreamEvent::Start(m.clone()),
            StreamEvent::TextDelta { index, delta } => StreamEvent::TextDelta { index: *index, delta: delta.clone() },
            StreamEvent::ToolCallDelta { index, delta } => StreamEvent::ToolCallDelta { index: *index, delta: delta.clone() },
            StreamEvent::ToolCallEnd { index, tool_call } => StreamEvent::ToolCallEnd { index: *index, tool_call: tool_call.clone() },
            StreamEvent::Done(m) => StreamEvent::Done(m.clone()),
            StreamEvent::Error(m) => StreamEvent::Error(m.clone()),
        }
    }
}

pub open spec fn events_view(v: Seq<StreamEvent>) -> Seq<StreamEventV> {
    v.map_values(|e: StreamEvent| e@)
}

} // verus!
