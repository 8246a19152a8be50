//! Anthropic's messages API: the request body, and the state machine that turns the
//! server-sent events of a streamed answer into stream events and one message.
use vstd::prelude::*;
use crate::json::{Json, JsonVal, opt_as_str, or_empty, json_parse};
use crate::text::{owned, str_eq};
use crate::types::{
    AssistantContentBlock, AssistantMessage, AssistantMessageV, AssistantBlockV, StopReason, StreamEvent,
    StreamEventV, ToolCall, ToolCallV, Usage, events_view, assistant_blocks_view, text_of_blocks,
    tool_calls_of_blocks,
};

verus! {

// ---------------------------------------------------------------------------
// Model of the parser
// ---------------------------------------------------------------------------

/// What is known of a content block that is still open.
#[derive(Debug)]
pub enum BlockType {
    Text,
    Thinking(String),
    ToolUse { id: String, name: String, json_buf: String },
}

pub enum BlockTypeV {
    Text,
    Thinking(Seq<char>),
    ToolUse { id: Seq<char>, name: Seq<char>, json_buf: Seq<char> },
}

impl View for BlockType {
    type V = BlockTypeV;

    open spec fn view(&self) -> BlockTypeV {
        match self {
            BlockType::Text => BlockTypeV::Text,
            BlockType::Thinking(s) => BlockTypeV::Thinking(s@),
            BlockType::ToolUse { id, name, json_buf } => BlockTypeV::ToolUse {
                id: id@,
                name: name@,
                json_buf: json_buf@,
            },
        }
    }
}

pub struct ParseStateV {
    pub message: AssistantMessageV,
    pub blocks: Map<usize, BlockTypeV>,
}

/// `u64` of an optional JSON value, 0 where absent: `.as_u64().unwrap_or(0)`.
pub open spec fn u64_or_zero(v: JsonVal) -> u64 {
    match v.as_u64() {
        Some(n) => n,
        None => 0,
    }
}

/// The token counts of a usage object.
pub open spec fn usage_of(v: JsonVal) -> Usage {
    Usage {
        input_tokens: u64_or_zero(v.at("input_tokens"@)),
        output_tokens: u64_or_zero(v.at("output_tokens"@)),
        cache_read_tokens: u64_or_zero(v.at("cache_read_input_tokens"@)),
        cache_write_tokens: u64_or_zero(v.at("cache_creation_input_tokens"@)),
    }
}

/// The stop reason a text names (`end_turn`, `tool_use`, `max_tokens`, `error`; anything else is `Stop`).
pub open spec fn stop_reason_of(s: Seq<char>) -> StopReason {
    if s == "end_turn"@ {
        StopReason::Stop
    } else if s == "tool_use"@ {
        StopReason::ToolUse
    } else if s == "max_tokens"@ {
        StopReason::Length
    } else if s == "error"@ {
        StopReason::Error
    } else {
        StopReason::Stop
    }
}

/// Usage counts merged: each non-zero new count replaces the old one.
pub open spec fn merge_usage(old: Usage, new: Usage) -> Usage {
    Usage {
        input_tokens: if new.input_tokens > 0 { new.input_tokens } else { old.input_tokens },
        output_tokens: if new.output_tokens > 0 { new.output_tokens } else { old.output_tokens },
        cache_read_tokens: if new.cache_read_tokens > 0 { new.cache_read_tokens } else { old.cache_read_tokens },
        cache_write_tokens: if new.cache_write_tokens > 0 { new.cache_write_tokens } else { old.cache_write_tokens },
    }
}

/// The content with `delta` added to its last block if that is text, else with a new text block.
pub open spec fn append_text(content: Seq<AssistantBlockV>, delta: Seq<char>) -> Seq<AssistantBlockV> {
    if content.len() > 0 && content.last() is Text {
        content.update(content.len() - 1, AssistantBlockV::Text(content.last()->Text_0 + delta))
    } else {
        content.push(AssistantBlockV::Text(delta))
    }
}

pub open spec fn with_message(st: ParseStateV, m: AssistantMessageV) -> ParseStateV {
    ParseStateV { message: m, blocks: st.blocks }
}

pub open spec fn with_blocks(st: ParseStateV, b: Map<usize, BlockTypeV>) -> ParseStateV {
    ParseStateV { message: st.message, blocks: b }
}

pub open spec fn message_start_step(json: JsonVal, st: ParseStateV) -> (ParseStateV, Seq<StreamEventV>) {
    let m1 = match json.pointer(seq!["message"@, "usage"@]) {
        Some(u) => AssistantMessageV { usage: usage_of(u), ..st.message },
        None => st.message,
    };
    let m2 = match opt_as_str(json.pointer(seq!["message"@, "model"@])) {
        Some(m) => AssistantMessageV { model: m, ..m1 },
        None => m1,
    };
    (with_message(st, m2), seq![StreamEventV::Start(AssistantMessageV::empty(m2.model))])
}

pub open spec fn block_start_step(json: JsonVal, st: ParseStateV) -> (ParseStateV, Seq<StreamEventV>) {
    match json.at("index"@).as_u64() {
        None => (st, Seq::empty()),
        Some(i) => {
            let idx = i as usize;
            match opt_as_str(json.pointer(seq!["content_block"@, "type"@])) {
                None => (st, Seq::empty()),
                Some(t) => {
                    if t == "text"@ {
                        (with_blocks(st, st.blocks.insert(idx, BlockTypeV::Text)), Seq::empty())
                    } else if t == "thinking"@ {
                        (with_blocks(st, st.blocks.insert(idx, BlockTypeV::Thinking(Seq::empty()))), Seq::empty())
                    } else if t == "tool_use"@ {
                        let b = BlockTypeV::ToolUse {
                            id: or_empty(opt_as_str(json.pointer(seq!["content_block"@, "id"@]))),
                            name: or_empty(opt_as_str(json.pointer(seq!["content_block"@, "name"@]))),
                            json_buf: Seq::empty(),
                        };
                        (with_blocks(st, st.blocks.insert(idx, b)), Seq::empty())
                    } else {
                        (st, Seq::empty())
                    }
                },
            }
        },
    }
}

pub open spec fn block_delta_step(json: JsonVal, st: ParseStateV) -> (ParseStateV, Seq<StreamEventV>) {
    match json.at("index"@).as_u64() {
        None => (st, Seq::empty()),
        Some(i) => {
            let idx = i as usize;
            match opt_as_str(json.pointer(seq!["delta"@, "type"@])) {
                None => (st, Seq::empty()),
                Some(t) => {
                    if t == "thinking_delta"@ {
                        let delta = or_empty(opt_as_str(json.pointer(seq!["delta"@, "thinking"@])));
                        match st.blocks.get(idx) {
                            Some(BlockTypeV::Thinking(buf)) => (
                                with_blocks(st, st.blocks.insert(idx, BlockTypeV::Thinking(buf + delta))),
                                Seq::empty(),
                            ),
                            _ => (st, Seq::empty()),
                        }
                    } else if t == "text_delta"@ {
                        let delta = or_empty(opt_as_str(json.pointer(seq!["delta"@, "text"@])));
                        (
                            with_message(st, AssistantMessageV { content: append_text(st.message.content, delta), ..st.message }),
                            seq![StreamEventV::TextDelta { index: idx, delta }],
                        )
                    } else if t == "input_json_delta"@ {
                        let partial = or_empty(opt_as_str(json.pointer(seq!["delta"@, "partial_json"@])));
                        let blocks = match st.blocks.get(idx) {
                            Some(BlockTypeV::ToolUse { id, name, json_buf }) => st.blocks.insert(
                                idx,
                                BlockTypeV::ToolUse { id, name, json_buf: json_buf + partial },
                            ),
                            _ => st.blocks,
                        };
                        (with_blocks(st, blocks), seq![StreamEventV::ToolCallDelta { index: idx, delta: partial }])
                    } else {
                        (st, Seq::empty())
                    }
                },
            }
        },
    }
}

/// The arguments of a finished tool call: the parsed buffer, or an empty object.
pub open spec fn tool_arguments(buf: Seq<char>) -> JsonVal {
    match json_parse(buf) {
        Some(v) => v,
        None => JsonVal::Object(Seq::empty()),
    }
}

pub open spec fn block_stop_step(json: JsonVal, st: ParseStateV) -> (ParseStateV, Seq<StreamEventV>) {
    match json.at("index"@).as_u64() {
        None => (st, Seq::empty()),
        Some(i) => {
            let idx = i as usize;
            let blocks = st.blocks.remove(idx);
            match st.blocks.get(idx) {
                Some(BlockTypeV::ToolUse { id, name, json_buf }) => {
                    let tc = ToolCallV { id, name, arguments: tool_arguments(json_buf) };
                    (
                        ParseStateV {
                            message: AssistantMessageV {
                                content: st.message.content.push(AssistantBlockV::ToolUse(tc)),
                                ..st.message
                            },
                            blocks,
                        },
                        seq![StreamEventV::ToolCallEnd { index: idx, tool_call: tc }],
                    )
                },
                Some(BlockTypeV::Thinking(t)) => (
                    ParseStateV {
                        message: AssistantMessageV {
                            content: st.message.content.push(AssistantBlockV::Thinking(t)),
                            ..st.message
                        },
                        blocks,
                    },
                    Seq::empty(),
                ),
                Some(BlockTypeV::Text) => (with_blocks(st, blocks), Seq::empty()),
                None => (st, Seq::empty()),
            }
        },
    }
}

pub open spec fn message_delta_step(json: JsonVal, st: ParseStateV) -> (ParseStateV, Seq<StreamEventV>) {
    let m1 = match opt_as_str(json.pointer(seq!["delta"@, "stop_reason"@])) {
        Some(sr) => AssistantMessageV { stop_reason: stop_reason_of(sr), ..st.message },
        None => st.message,
    };
    let m2 = match json.get("usage"@) {
        Some(u) => AssistantMessageV { usage: merge_usage(m1.usage, usage_of(u)), ..m1 },
        None => m1,
    };
    (with_message(st, m2), Seq::empty())
}

/// What one server-sent event (its type and data) does to the parser and which stream events it yields.
/// Data that is not JSON, and unknown event types, yield nothing and change nothing.
pub open spec fn sse_step(event_type: Seq<char>, data: Seq<char>, st: ParseStateV) -> (ParseStateV, Seq<StreamEventV>) {
    match json_parse(data) {
        None => (st, Seq::empty()),
        Some(json) => sse_json_step(event_type, json, st),
    }
}

/// What one server-sent event does once its data has been read as JSON.
pub open spec fn sse_json_step(event_type: Seq<char>, json: JsonVal, st: ParseStateV) -> (ParseStateV, Seq<StreamEventV>) {
    if event_type == "message_start"@ {
        message_start_step(json, st)
    } else if event_type == "content_block_start"@ {
        block_start_step(json, st)
    } else if event_type == "content_block_delta"@ {
        block_delta_step(json, st)
    } else if event_type == "content_block_stop"@ {
        block_stop_step(json, st)
    } else if event_type == "message_delta"@ {
        message_delta_step(json, st)
    } else {
        (st, Seq::empty())
    }
}

/// The text carried by the text deltas among `evs`, in order.
pub open spec fn delta_text(evs: Seq<StreamEventV>) -> Seq<char>
    decreases evs.len(),
{
    if evs.len() == 0 {
        Seq::empty()
    } else {
        delta_text(evs.drop_last()) + match evs.last() {
            StreamEventV::TextDelta { delta, .. } => delta,
            _ => Seq::empty(),
        }
    }
}

/// The tool calls finished among `evs`, in order.
pub open spec fn ended_tool_calls(evs: Seq<StreamEventV>) -> Seq<ToolCallV>
    decreases evs.len(),
{
    if evs.len() == 0 {
        Seq::empty()
    } else {
        ended_tool_calls(evs.drop_last()) + match evs.last() {
            StreamEventV::ToolCallEnd { tool_call, .. } => seq![tool_call],
            _ => Seq::empty(),
        }
    }
}

} // verus!

verus! {

// ---------------------------------------------------------------------------
// Laws of the parser
// ---------------------------------------------------------------------------

pub(crate) proof fn lemma_append_text(c: Seq<AssistantBlockV>, d: Seq<char>)
    ensures
        text_of_blocks(append_text(c, d)) == text_of_blocks(c) + d,
        tool_calls_of_blocks(append_text(c, d)) == tool_calls_of_blocks(c),
{
    let r = append_text(c, d);
    if c.len() > 0 && c.last() is Text {
        assert(r.drop_last() =~= c.drop_last());
        assert(text_of_blocks(c) == text_of_blocks(c.drop_last()) + c.last()->Text_0);
        assert(text_of_blocks(r) == text_of_blocks(r.drop_last()) + (c.last()->Text_0 + d));
        assert(text_of_blocks(r) =~= text_of_blocks(c) + d);
    } else {
        assert(r.drop_last() =~= c);
    }
}

proof fn lemma_push_non_text(c: Seq<AssistantBlockV>, b: AssistantBlockV)
    requires
        !(b is Text),
    ensures
        text_of_blocks(c.push(b)) == text_of_blocks(c),
        tool_calls_of_blocks(c.push(b)) == tool_calls_of_blocks(c) + match b {
            AssistantBlockV::ToolUse(tc) => seq![tc],
            _ => Seq::empty(),
        },
{
    assert(c.push(b).drop_last() =~= c);
    assert(text_of_blocks(c) + Seq::<char>::empty() =~= text_of_blocks(c));
}

pub(crate) proof fn lemma_one_event(e: StreamEventV)
    ensures
        delta_text(seq![e]) == match e {
            StreamEventV::TextDelta { delta, .. } => delta,
            _ => Seq::empty(),
        },
        ended_tool_calls(seq![e]) == match e {
            StreamEventV::ToolCallEnd { tool_call, .. } => seq![tool_call],
            _ => Seq::empty(),
        },
{
    let s1 = seq![e];
    assert(s1.drop_last() =~= Seq::<StreamEventV>::empty());
    assert(s1.last() == e);
    assert(delta_text(s1.drop_last()) == Seq::<char>::empty());
    assert(ended_tool_calls(s1.drop_last()) == Seq::<ToolCallV>::empty());
    let x: Seq<char> = match e {
        StreamEventV::TextDelta { delta, .. } => delta,
        _ => Seq::empty(),
    };
    assert(Seq::<char>::empty() + x =~= x);
    let y: Seq<ToolCallV> = match e {
        StreamEventV::ToolCallEnd { tool_call, .. } => seq![tool_call],
        _ => Seq::empty(),
    };
    assert(Seq::<ToolCallV>::empty() + y =~= y);
}

pub(crate) proof fn lemma_no_events()
    ensures
        delta_text(Seq::empty()) == Seq::<char>::empty(),
        ended_tool_calls(Seq::empty()) == Seq::<ToolCallV>::empty(),
{
}

/// The step added to the text exactly the text deltas it yields, and to the tool calls
/// exactly those it reports finished.
pub open spec fn accounts_for(st: ParseStateV, out: (ParseStateV, Seq<StreamEventV>)) -> bool {
    &&& text_of_blocks(out.0.message.content) == text_of_blocks(st.message.content) + delta_text(out.1)
    &&& tool_calls_of_blocks(out.0.message.content) == tool_calls_of_blocks(st.message.content) + ended_tool_calls(out.1)
}

proof fn lemma_unchanged_content(st: ParseStateV, out: (ParseStateV, Seq<StreamEventV>))
    requires
        out.0.message.content == st.message.content,
        delta_text(out.1) == Seq::<char>::empty(),
        ended_tool_calls(out.1) == Seq::<ToolCallV>::empty(),
    ensures
        accounts_for(st, out),
{
    assert(text_of_blocks(st.message.content) + Seq::<char>::empty() =~= text_of_blocks(st.message.content));
    assert(tool_calls_of_blocks(st.message.content) + Seq::<ToolCallV>::empty() =~= tool_calls_of_blocks(st.message.content));
}

proof fn lemma_delta_step(json: JsonVal, st: ParseStateV)
    ensures
        accounts_for(st, block_delta_step(json, st)),
{
    reveal_strlit("thinking_delta");
    reveal_strlit("text_delta");
    reveal_strlit("input_json_delta");
    lemma_no_events();
    let out = block_delta_step(json, st);
    if let Some(i) = json.at("index"@).as_u64() {
        if let Some(t) = opt_as_str(json.pointer(seq!["delta"@, "type"@])) {
            if t == "text_delta"@ {
                let delta = or_empty(opt_as_str(json.pointer(seq!["delta"@, "text"@])));
                lemma_append_text(st.message.content, delta);
                lemma_one_event(StreamEventV::TextDelta { index: i as usize, delta });
            } else if t == "input_json_delta"@ {
                let partial = or_empty(opt_as_str(json.pointer(seq!["delta"@, "partial_json"@])));
                lemma_one_event(StreamEventV::ToolCallDelta { index: i as usize, delta: partial });
                lemma_unchanged_content(st, out);
            } else {
                lemma_unchanged_content(st, out);
            }
        } else {
            lemma_unchanged_content(st, out);
        }
    } else {
        lemma_unchanged_content(st, out);
    }
}

proof fn lemma_stop_step(json: JsonVal, st: ParseStateV)
    ensures
        accounts_for(st, block_stop_step(json, st)),
{
    lemma_no_events();
    let out = block_stop_step(json, st);
    let c = st.message.content;
    if let Some(i) = json.at("index"@).as_u64() {
        match st.blocks.get(i as usize) {
            Some(BlockTypeV::ToolUse { id, name, json_buf }) => {
                let tc = ToolCallV { id, name, arguments: tool_arguments(json_buf) };
                lemma_push_non_text(c, AssistantBlockV::ToolUse(tc));
                lemma_one_event(StreamEventV::ToolCallEnd { index: i as usize, tool_call: tc });
            },
            Some(BlockTypeV::Thinking(t)) => {
                lemma_push_non_text(c, AssistantBlockV::Thinking(t));
                assert(tool_calls_of_blocks(c) + Seq::<ToolCallV>::empty() =~= tool_calls_of_blocks(c));
                assert(text_of_blocks(c) + Seq::<char>::empty() =~= text_of_blocks(c));
            },
            _ => {
                lemma_unchanged_content(st, out);
            },
        }
    } else {
        lemma_unchanged_content(st, out);
    }
}

proof fn lemma_event_names_distinct()
    ensures
        "content_block_start"@ != "content_block_delta"@,
        "message_start"@ != "message_delta"@,
        "content_block_start"@ != "content_block_stop"@,
        "content_block_delta"@ != "content_block_stop"@,
        "message_start"@ != "content_block_delta"@,
        "message_start"@ != "content_block_stop"@,
{
    reveal_strlit("message_start");
    reveal_strlit("content_block_start");
    reveal_strlit("content_block_delta");
    reveal_strlit("content_block_stop");
    reveal_strlit("message_delta");
    assert("content_block_start"@[14] != "content_block_delta"@[14]);
    assert("message_start"@[8] != "message_delta"@[8]);
    assert("content_block_start"@[16] != "content_block_stop"@[16]);
    assert("content_block_delta"@[14] != "content_block_stop"@[14]);
}

/// Each event adds to the message's text exactly the text deltas it yields, and to its
/// tool calls exactly the tool calls it reports finished.
pub proof fn law_step_text_and_tools(event_type: Seq<char>, data: Seq<char>, st: ParseStateV)
    ensures
        accounts_for(st, sse_step(event_type, data, st)),
{
    reveal_strlit("message_start");
    reveal_strlit("content_block_start");
    reveal_strlit("content_block_delta");
    reveal_strlit("content_block_stop");
    reveal_strlit("message_delta");
    lemma_no_events();
    lemma_event_names_distinct();
    let out = sse_step(event_type, data, st);
    if let Some(json) = json_parse(data) {
        if event_type == "content_block_delta"@ {
            lemma_delta_step(json, st);
            assert(out == block_delta_step(json, st));
        } else if event_type == "content_block_stop"@ {
            lemma_stop_step(json, st);
            assert(out == block_stop_step(json, st));
        } else if event_type == "message_start"@ {
            lemma_one_event(StreamEventV::Start(AssistantMessageV::empty(out.0.message.model)));
            lemma_unchanged_content(st, out);
        } else {
            lemma_unchanged_content(st, out);
        }
    } else {
        lemma_unchanged_content(st, out);
    }
}

/// Runs the parser over a sequence of (event type, data) pairs, collecting the events.
pub open spec fn sse_run(input: Seq<(Seq<char>, Seq<char>)>, st: ParseStateV) -> (ParseStateV, Seq<StreamEventV>)
    decreases input.len(),
{
    if input.len() == 0 {
        (st, Seq::empty())
    } else {
        let (s1, e1) = sse_run(input.drop_last(), st);
        let (s2, e2) = sse_step(input.last().0, input.last().1, s1);
        (s2, e1 + e2)
    }
}

pub(crate) proof fn lemma_delta_text_concat(a: Seq<StreamEventV>, b: Seq<StreamEventV>)
    ensures
        delta_text(a + b) == delta_text(a) + delta_text(b),
        ended_tool_calls(a + b) == ended_tool_calls(a) + ended_tool_calls(b),
    decreases b.len(),
{
    if b.len() == 0 {
        assert(a + b =~= a);
        assert(delta_text(a) + delta_text(b) =~= delta_text(a));
        assert(ended_tool_calls(a) + ended_tool_calls(b) =~= ended_tool_calls(a));
    } else {
        lemma_delta_text_concat(a, b.drop_last());
        assert((a + b).drop_last() =~= a + b.drop_last());
        assert((a + b).last() == b.last());
        assert(delta_text(a + b) =~= delta_text(a) + delta_text(b));
        assert(ended_tool_calls(a + b) =~= ended_tool_calls(a) + ended_tool_calls(b));
    }
}

/// Over a whole stream, the message's text is the concatenation of all text deltas yielded,
/// and its tool calls are the tool calls reported finished, in the same order.
pub proof fn law_stream_text_is_concatenated_deltas(input: Seq<(Seq<char>, Seq<char>)>, st: ParseStateV)
    ensures
        ({
            let (st2, evs) = sse_run(input, st);
            &&& text_of_blocks(st2.message.content) == text_of_blocks(st.message.content) + delta_text(evs)
            &&& tool_calls_of_blocks(st2.message.content) == tool_calls_of_blocks(st.message.content) + ended_tool_calls(evs)
        }),
    decreases input.len(),
{
    if input.len() == 0 {
        lemma_no_events();
        assert(text_of_blocks(st.message.content) + Seq::<char>::empty() =~= text_of_blocks(st.message.content));
        assert(tool_calls_of_blocks(st.message.content) + Seq::<ToolCallV>::empty() =~= tool_calls_of_blocks(st.message.content));
    } else {
        law_stream_text_is_concatenated_deltas(input.drop_last(), st);
        let (s1, e1) = sse_run(input.drop_last(), st);
        let (s2, e2) = sse_step(input.last().0, input.last().1, s1);
        law_step_text_and_tools(input.last().0, input.last().1, s1);
        assert(accounts_for(s1, (s2, e2)));
        lemma_delta_text_concat(e1, e2);
        assert(text_of_blocks(s2.message.content) =~= text_of_blocks(st.message.content) + delta_text(e1 + e2));
        assert(tool_calls_of_blocks(s2.message.content) =~= tool_calls_of_blocks(st.message.content) + ended_tool_calls(e1 + e2));
    }
}

} // verus!

verus! {

// ---------------------------------------------------------------------------
// The parser
// ---------------------------------------------------------------------------

pub open spec fn block_views(m: Map<usize, BlockType>) -> Map<usize, BlockTypeV> {
    m.map_values(|b: BlockType| b@)
}

/// The state of the parser of one streamed answer.
pub struct ParseState {
    message: AssistantMessage,
    blocks: std::collections::HashMap<usize, BlockType>,
}

impl View for ParseState {
    type V = ParseStateV;

    closed spec fn view(&self) -> ParseStateV {
        ParseStateV { message: self.message@, blocks: block_views(self.blocks@) }
    }
}

/// Appends text to the message content (to its last block if that is text).
pub(crate) fn append_text_exec(content: &mut Vec<AssistantContentBlock>, delta: &str)
    ensures
        assistant_blocks_view(final(content)@) == append_text(assistant_blocks_view(old(content)@), delta@),
{
    let ghost c = assistant_blocks_view(content@);
    let n = content.len();
    if n > 0 {
        let last = content.pop().unwrap();
        match last {
            AssistantContentBlock::Text { text } => {
                let mut t = text;
                t.append(delta);
                content.push(AssistantContentBlock::Text { text: t });
                proof {
                    assert(assistant_blocks_view(content@) =~= c.update(c.len() - 1, AssistantBlockV::Text(c.last()->Text_0 + delta@)));
                }
                return;
            },
            other => {
                content.push(other);
                proof { assert(assistant_blocks_view(content@) =~= c); }
            },
        }
    }
    content.push(AssistantContentBlock::Text { text: owned(delta) });
    proof { assert(assistant_blocks_view(content@) =~= c.push(AssistantBlockV::Text(delta@))); }
}

/// The token counts of a usage object (absent counts are 0).
pub fn parse_usage(v: &Json) -> (r: Usage)
    ensures
        r == usage_of(v@),
{
    Usage {
        input_tokens: match v.u64_at("input_tokens") { Some(n) => n, None => 0 },
        output_tokens: match v.u64_at("output_tokens") { Some(n) => n, None => 0 },
        cache_read_tokens: match v.u64_at("cache_read_input_tokens") { Some(n) => n, None => 0 },
        cache_write_tokens: match v.u64_at("cache_creation_input_tokens") { Some(n) => n, None => 0 },
    }
}

/// The stop reason Anthropic names (`end_turn`, `tool_use`, `max_tokens`, `error`); others are `Stop`.
pub fn parse_stop_reason(s: &str) -> (r: StopReason)
    ensures
        r == stop_reason_of(s@),
{
    if str_eq(s, "end_turn") {
        StopReason::Stop
    } else if str_eq(s, "tool_use") {
        StopReason::ToolUse
    } else if str_eq(s, "max_tokens") {
        StopReason::Length
    } else if str_eq(s, "error") {
        StopReason::Error
    } else {
        StopReason::Stop
    }
}

impl ParseState {
    /// A parser for an answer of `model_id`: an empty message and no open blocks.
    pub fn new(model_id: String) -> (r: Self)
        ensures
            r@ == (ParseStateV { message: AssistantMessageV::empty(model_id@), blocks: Map::empty() }),
    {
        let r = ParseState { message: AssistantMessage::empty(model_id), blocks: std::collections::HashMap::new() };
        assert(r@.blocks =~= Map::<usize, BlockTypeV>::empty());
        r
    }

    /// The message assembled so far.
    pub fn message(&self) -> (r: &AssistantMessage)
        ensures
            r@ == self@.message,
    {
        &self.message
    }

    /// A copy of the message assembled so far, for the end of the stream.
    pub fn finalize(&mut self) -> (r: AssistantMessage)
        ensures
            r@ == old(self)@.message,
            final(self)@ == old(self)@,
    {
        self.message.clone()
    }

    /// The open block at `idx`, if any.
    fn block_at(&self, idx: usize) -> (r: Option<&BlockType>)
        ensures
            match r {
                Some(b) => self@.blocks.get(idx) == Some(b@),
                None => self@.blocks.get(idx) is None,
            },
    {
        broadcast use vstd::std_specs::hash::group_hash_axioms;
        self.blocks.get(&idx)
    }

    fn insert_block(&mut self, idx: usize, b: BlockType)
        ensures
            final(self)@ == with_blocks(old(self)@, old(self)@.blocks.insert(idx, b@)),
    {
        broadcast use vstd::std_specs::hash::group_hash_axioms;
        let ghost bv = b@;
        let ghost before = self@;
        self.blocks.insert(idx, b);
        assert(self@.blocks =~= before.blocks.insert(idx, bv));
    }

    fn remove_block(&mut self, idx: usize) -> (r: Option<BlockType>)
        ensures
            final(self)@ == with_blocks(old(self)@, old(self)@.blocks.remove(idx)),
            match r {
                Some(b) => old(self)@.blocks.get(idx) == Some(b@),
                None => old(self)@.blocks.get(idx) is None,
            },
    {
        broadcast use vstd::std_specs::hash::group_hash_axioms;
        let ghost before = self@;
        let r = self.blocks.remove(&idx);
        assert(self@.blocks =~= before.blocks.remove(idx));
        r
    }
}

fn index_of(json: &Json) -> (r: Option<usize>)
    ensures
        r == match json@.at("index"@).as_u64() {
            Some(i) => Some(i as usize),
            None => None,
        },
{
    match json.u64_at("index") {
        Some(i) => Some(i as usize),
        None => None,
    }
}

fn message_start(json: &Json, state: &mut ParseState) -> (r: Vec<StreamEvent>)
    ensures
        (final(state)@, events_view(r@)) == message_start_step(json@, old(state)@),
{
    match json.pointer2("message", "usage") {
        Some(u) => {
            state.message.usage = parse_usage(u);
        },
        None => {},
    }
    match json.str_at2("message", "model") {
        Some(m) => {
            state.message.model = owned(m);
        },
        None => {},
    }
    let mut evs: Vec<StreamEvent> = Vec::new();
    evs.push(StreamEvent::Start(AssistantMessage::empty(state.message.model.clone())));
    assert(events_view(evs@) =~= message_start_step(json@, old(state)@).1);
    evs
}

fn block_start(json: &Json, state: &mut ParseState) -> (r: Vec<StreamEvent>)
    ensures
        (final(state)@, events_view(r@)) == block_start_step(json@, old(state)@),
{
    let evs: Vec<StreamEvent> = Vec::new();
    assert(events_view(evs@) =~= Seq::<StreamEventV>::empty());
    let idx = match index_of(json) {
        Some(i) => i,
        None => return evs,
    };
    let t = match json.str_at2("content_block", "type") {
        Some(t) => t,
        None => return evs,
    };
    if str_eq(t, "text") {
        state.insert_block(idx, BlockType::Text);
    } else if str_eq(t, "thinking") {
        state.insert_block(idx, BlockType::Thinking(String::new()));
    } else if str_eq(t, "tool_use") {
        let id = match json.str_at2("content_block", "id") { Some(s) => owned(s), None => String::new() };
        let name = match json.str_at2("content_block", "name") { Some(s) => owned(s), None => String::new() };
        state.insert_block(idx, BlockType::ToolUse { id, name, json_buf: String::new() });
    }
    evs
}

fn block_delta(json: &Json, state: &mut ParseState) -> (r: Vec<StreamEvent>)
    ensures
        (final(state)@, events_view(r@)) == block_delta_step(json@, old(state)@),
{
    let mut evs: Vec<StreamEvent> = Vec::new();
    assert(events_view(evs@) =~= Seq::<StreamEventV>::empty());
    let idx = match index_of(json) {
        Some(i) => i,
        None => return evs,
    };
    let t = match json.str_at2("delta", "type") {
        Some(t) => t,
        None => return evs,
    };
    if str_eq(t, "thinking_delta") {
        let delta = match json.str_at2("delta", "thinking") { Some(s) => s, None => "" };
        proof { reveal_strlit(""); assert(""@ =~= Seq::<char>::empty()); }
        match state.block_at(idx) {
            Some(BlockType::Thinking(buf)) => {
                let mut nb = buf.clone();
                nb.append(delta);
                state.insert_block(idx, BlockType::Thinking(nb));
            },
            _ => {},
        }
        evs
    } else if str_eq(t, "text_delta") {
        let delta = match json.str_at2("delta", "text") { Some(s) => s, None => "" };
        proof { reveal_strlit(""); assert(""@ =~= Seq::<char>::empty()); }
        append_text_exec(&mut state.message.content, delta);
        evs.push(StreamEvent::TextDelta { index: idx, delta: owned(delta) });
        assert(events_view(evs@) =~= seq![StreamEventV::TextDelta { index: idx, delta: delta@ }]);
        evs
    } else if str_eq(t, "input_json_delta") {
        let partial = match json.str_at2("delta", "partial_json") { Some(s) => s, None => "" };
        proof { reveal_strlit(""); assert(""@ =~= Seq::<char>::empty()); }
        match state.block_at(idx) {
            Some(BlockType::ToolUse { id, name, json_buf }) => {
                let mut nb = json_buf.clone();
                nb.append(partial);
                let nid = id.clone();
                let nname = name.clone();
                state.insert_block(idx, BlockType::ToolUse { id: nid, name: nname, json_buf: nb });
            },
            _ => {},
        }
        evs.push(StreamEvent::ToolCallDelta { index: idx, delta: owned(partial) });
        assert(events_view(evs@) =~= seq![StreamEventV::ToolCallDelta { index: idx, delta: partial@ }]);
        evs
    } else {
        evs
    }
}

/// The JSON arguments of a finished tool call: its buffer parsed, or `{}` if that is not JSON.
fn tool_arguments_exec(buf: &str) -> (r: Json)
    ensures
        r@ == tool_arguments(buf@),
{
    match Json::parse(buf) {
        Some(v) => v,
        None => {
            let r = Json::Object(Vec::new());
            assert(r@->Object_0 =~= Seq::<(Seq<char>, JsonVal)>::empty());
            r
        },
    }
}

fn block_stop(json: &Json, state: &mut ParseState) -> (r: Vec<StreamEvent>)
    ensures
        (final(state)@, events_view(r@)) == block_stop_step(json@, old(state)@),
{
    let mut evs: Vec<StreamEvent> = Vec::new();
    assert(events_view(evs@) =~= Seq::<StreamEventV>::empty());
    let idx = match index_of(json) {
        Some(i) => i,
        None => return evs,
    };
    match state.remove_block(idx) {
        Some(BlockType::ToolUse { id, name, json_buf }) => {
            let arguments = tool_arguments_exec(json_buf.as_str());
            let tc = ToolCall { id, name, arguments };
            state.message.content.push(AssistantContentBlock::ToolUse(tc.clone()));
            evs.push(StreamEvent::ToolCallEnd { index: idx, tool_call: tc });
            proof {
                let s0 = old(state)@;
                assert(assistant_blocks_view(state.message.content@)
                    =~= s0.message.content.push(AssistantBlockV::ToolUse(tc@)));
                assert(events_view(evs@) =~= seq![StreamEventV::ToolCallEnd { index: idx, tool_call: tc@ }]);
            }
            evs
        },
        Some(BlockType::Thinking(thinking)) => {
            state.message.content.push(AssistantContentBlock::Thinking { thinking });
            proof {
                let s0 = old(state)@;
                assert(assistant_blocks_view(state.message.content@)
                    =~= s0.message.content.push(AssistantBlockV::Thinking(thinking@)));
            }
            evs
        },
        Some(BlockType::Text) => evs,
        None => {
            assert(old(state)@.blocks.remove(idx) =~= old(state)@.blocks);
            evs
        },
    }
}

fn message_delta(json: &Json, state: &mut ParseState) -> (r: Vec<StreamEvent>)
    ensures
        (final(state)@, events_view(r@)) == message_delta_step(json@, old(state)@),
{
    let evs: Vec<StreamEvent> = Vec::new();
    assert(events_view(evs@) =~= Seq::<StreamEventV>::empty());
    match json.str_at2("delta", "stop_reason") {
        Some(sr) => {
            state.message.stop_reason = parse_stop_reason(sr);
        },
        None => {},
    }
    match json.get("usage") {
        Some(uv) => {
            let u = parse_usage(uv);
            let old_u = state.message.usage;
            state.message.usage = Usage {
                input_tokens: if u.input_tokens > 0 { u.input_tokens } else { old_u.input_tokens },
                output_tokens: if u.output_tokens > 0 { u.output_tokens } else { old_u.output_tokens },
                cache_read_tokens: if u.cache_read_tokens > 0 { u.cache_read_tokens } else { old_u.cache_read_tokens },
                cache_write_tokens: if u.cache_write_tokens > 0 { u.cache_write_tokens } else { old_u.cache_write_tokens },
            };
        },
        None => {},
    }
    evs
}

/// Handles one server-sent event of a streamed answer: updates the parser and returns
/// the stream events it yields. Data that is not JSON yields nothing.
pub fn parse_sse_event(event_type: &str, data: &str, state: &mut ParseState) -> (r: Vec<StreamEvent>)
    ensures
        (final(state)@, events_view(r@)) == sse_step(event_type@, data@, old(state)@),
{
    match Json::parse(data) {
        Some(json) => apply_sse_json(event_type, &json, state),
        None => {
            let evs: Vec<StreamEvent> = Vec::new();
            assert(events_view(evs@) =~= Seq::<StreamEventV>::empty());
            evs
        },
    }
}

/// Handles one server-sent event whose data has been read as JSON: updates the state and
/// returns the stream events it yields.
pub fn apply_sse_json(event_type: &str, json: &Json, state: &mut ParseState) -> (r: Vec<StreamEvent>)
    ensures
        (final(state)@, events_view(r@)) == sse_json_step(event_type@, json@, old(state)@),
{
    if str_eq(event_type, "message_start") {
        message_start(json, state)
    } else if str_eq(event_type, "content_block_start") {
        block_start(json, state)
    } else if str_eq(event_type, "content_block_delta") {
        block_delta(json, state)
    } else if str_eq(event_type, "content_block_stop") {
        block_stop(json, state)
    } else if str_eq(event_type, "message_delta") {
        message_delta(json, state)
    } else {
        let evs: Vec<StreamEvent> = Vec::new();
        assert(events_view(evs@) =~= Seq::<StreamEventV>::empty());
        evs
    }
}

/// Handles one event of the stream: `message_stop` ends it with the whole message
/// (a `Done` event); every other event goes to `parse_sse_event`.
pub fn on_sse_event(event_type: &str, data: &str, state: &mut ParseState) -> (r: Vec<StreamEvent>)
    ensures
        event_type@ == "message_stop"@ ==> final(state)@ == old(state)@
            && events_view(r@) == seq![StreamEventV::Done(old(state)@.message)],
        event_type@ != "message_stop"@ ==> (final(state)@, events_view(r@)) == sse_step(event_type@, data@, old(state)@),
{
    if str_eq(event_type, "message_stop") {
        let msg = state.finalize();
        let mut evs: Vec<StreamEvent> = Vec::new();
        evs.push(StreamEvent::Done(msg));
        assert(events_view(evs@) =~= seq![StreamEventV::Done(old(state)@.message)]);
        evs
    } else {
        parse_sse_event(event_type, data, state)
    }
}

} // verus!

verus! {

// ---------------------------------------------------------------------------
// The request body
// ---------------------------------------------------------------------------

use crate::json::{member, object, array, json_vals, obj, jstr};
use crate::types::{
    Message, MessageV, ContentBlock, ToolSpec, ToolSpecV, LlmContext, Model, StreamOptions,
    messages_view, tool_specs_view, blocks_view, opt_string_view,
};

/// Where requests go when the model names no base URL.
pub const ANTHROPIC_API_URL: &'static str = "https://api.anthropic.com/v1/messages";
/// The API version sent with every request.
pub const ANTHROPIC_VERSION: &'static str = "2023-06-01";

/// `{"type": "text", "text": t}`.
pub open spec fn text_block_json(t: Seq<char>) -> JsonVal {
    obj(seq![("type"@, jstr("text"@)), ("text"@, jstr(t))])
}

pub open spec fn assistant_block_json(b: AssistantBlockV) -> JsonVal {
    match b {
        AssistantBlockV::Text(t) => text_block_json(t),
        AssistantBlockV::ToolUse(tc) => obj(seq![
            ("type"@, jstr("tool_use"@)),
            ("id"@, jstr(tc.id)),
            ("name"@, jstr(tc.name)),
            ("input"@, tc.arguments),
        ]),
        AssistantBlockV::Thinking(t) => obj(seq![("type"@, jstr("thinking"@)), ("thinking"@, jstr(t))]),
    }
}

pub open spec fn text_blocks_json(ts: Seq<Seq<char>>) -> JsonVal {
    JsonVal::Array(ts.map_values(|t: Seq<char>| text_block_json(t)))
}

/// One message as Anthropic expects it; a tool result goes as a user message holding a `tool_result` block.
pub open spec fn message_json(m: MessageV) -> JsonVal {
    match m {
        MessageV::User(u) => obj(seq![("role"@, jstr("user"@)), ("content"@, text_blocks_json(u.content))]),
        MessageV::Assistant(a) => obj(seq![
            ("role"@, jstr("assistant"@)),
            ("content"@, JsonVal::Array(a.content.map_values(|b: AssistantBlockV| assistant_block_json(b)))),
        ]),
        MessageV::ToolResult(tr) => obj(seq![
            ("role"@, jstr("user"@)),
            ("content"@, JsonVal::Array(seq![obj(seq![
                ("type"@, jstr("tool_result"@)),
                ("tool_use_id"@, jstr(tr.tool_call_id)),
                ("content"@, text_blocks_json(tr.content)),
                ("is_error"@, JsonVal::Bool(tr.is_error)),
            ])])),
        ]),
    }
}

pub open spec fn tool_json(t: ToolSpecV) -> JsonVal {
    obj(seq![("name"@, jstr(t.name)), ("description"@, jstr(t.description)), ("input_schema"@, t.parameters)])
}

fn text_block_exec(t: &str) -> (r: Json)
    ensures
        r@ == text_block_json(t@),
{
    let mut m: Vec<(String, Json)> = Vec::new();
    m.push(member("type", Json::string("text")));
    m.push(member("text", Json::string(t)));
    let r = object(m);
    assert(r@->Object_0 =~= seq![("type"@, jstr("text"@)), ("text"@, jstr(t@))]);
    r
}

fn text_blocks_exec(bs: &Vec<ContentBlock>) -> (r: Json)
    ensures
        r@ == text_blocks_json(blocks_view(bs@)),
{
    let mut out: Vec<Json> = Vec::new();
    let mut i: usize = 0;
    while i < bs.len()
        invariant
            i <= bs@.len(),
            json_vals(out@) == blocks_view(bs@).take(i as int).map_values(|t: Seq<char>| text_block_json(t)),
        decreases bs@.len() - i,
    {
        let ghost prev = json_vals(out@);
        let t = match &bs[i] {
            ContentBlock::Text { text } => text_block_exec(text.as_str()),
        };
        out.push(t);
        assert(json_vals(out@) =~= prev.push(t@));
        assert(blocks_view(bs@).take(i + 1).map_values(|t: Seq<char>| text_block_json(t))
            =~= blocks_view(bs@).take(i as int).map_values(|t: Seq<char>| text_block_json(t)).push(text_block_json(bs@[i as int]@)));
        i = i + 1;
    }
    assert(blocks_view(bs@).take(bs@.len() as int) =~= blocks_view(bs@));
    array(out)
}

fn assistant_block_exec(b: &AssistantContentBlock) -> (r: Json)
    ensures
        r@ == assistant_block_json(b@),
{
    match b {
        AssistantContentBlock::Text { text } => text_block_exec(text.as_str()),
        AssistantContentBlock::ToolUse(tc) => {
            let mut m: Vec<(String, Json)> = Vec::new();
            m.push(member("type", Json::string("tool_use")));
            m.push(member("id", Json::string(tc.id.as_str())));
            m.push(member("name", Json::string(tc.name.as_str())));
            m.push(member("input", tc.arguments.clone()));
            let r = object(m);
            assert(r@->Object_0 =~= seq![
                ("type"@, jstr("tool_use"@)),
                ("id"@, jstr(tc.id@)),
                ("name"@, jstr(tc.name@)),
                ("input"@, tc.arguments@),
            ]);
            r
        },
        AssistantContentBlock::Thinking { thinking } => {
            let mut m: Vec<(String, Json)> = Vec::new();
            m.push(member("type", Json::string("thinking")));
            m.push(member("thinking", Json::string(thinking.as_str())));
            let r = object(m);
            assert(r@->Object_0 =~= seq![("type"@, jstr("thinking"@)), ("thinking"@, jstr(thinking@))]);
            r
        },
    }
}

fn message_exec(msg: &Message) -> (r: Json)
    ensures
        r@ == message_json(msg@),
{
    match msg {
        Message::User(u) => {
            let mut m: Vec<(String, Json)> = Vec::new();
            m.push(member("role", Json::string("user")));
            m.push(member("content", text_blocks_exec(&u.content)));
            let r = object(m);
            assert(r@->Object_0 =~= seq![("role"@, jstr("user"@)), ("content"@, text_blocks_json(u@.content))]);
            r
        },
        Message::Assistant(a) => {
            let mut out: Vec<Json> = Vec::new();
            let mut i: usize = 0;
            while i < a.content.len()
                invariant
                    i <= a.content@.len(),
                    json_vals(out@) == a@.content.take(i as int).map_values(|b: AssistantBlockV| assistant_block_json(b)),
                decreases a.content@.len() - i,
            {
                let ghost prev = json_vals(out@);
                let j = assistant_block_exec(&a.content[i]);
                out.push(j);
                assert(json_vals(out@) =~= prev.push(j@));
                assert(a@.content.take(i + 1).map_values(|b: AssistantBlockV| assistant_block_json(b))
                    =~= a@.content.take(i as int).map_values(|b: AssistantBlockV| assistant_block_json(b)).push(assistant_block_json(a@.content[i as int])));
                i = i + 1;
            }
            assert(a@.content.take(a.content@.len() as int) =~= a@.content);
            let mut m: Vec<(String, Json)> = Vec::new();
            m.push(member("role", Json::string("assistant")));
            m.push(member("content", array(out)));
            let r = object(m);
            assert(r@->Object_0 =~= seq![
                ("role"@, jstr("assistant"@)),
                ("content"@, JsonVal::Array(a@.content.map_values(|b: AssistantBlockV| assistant_block_json(b)))),
            ]);
            r
        },
        Message::ToolResult(tr) => {
            let mut inner: Vec<(String, Json)> = Vec::new();
            inner.push(member("type", Json::string("tool_result")));
            inner.push(member("tool_use_id", Json::string(tr.tool_call_id.as_str())));
            inner.push(member("content", text_blocks_exec(&tr.content)));
            inner.push(member("is_error", Json::Bool(tr.is_error)));
            let block = object(inner);
            let ghost bv = obj(seq![
                ("type"@, jstr("tool_result"@)),
                ("tool_use_id"@, jstr(tr.tool_call_id@)),
                ("content"@, text_blocks_json(tr@.content)),
                ("is_error"@, JsonVal::Bool(tr.is_error)),
            ]);
            assert(block@->Object_0 =~= bv->Object_0);
            let mut arr: Vec<Json> = Vec::new();
            arr.push(block);
            let content = array(arr);
            assert(content@->Array_0 =~= seq![bv]);
            let mut m: Vec<(String, Json)> = Vec::new();
            m.push(member("role", Json::string("user")));
            m.push(member("content", content));
            let r = object(m);
            assert(r@->Object_0 =~= seq![("role"@, jstr("user"@)), ("content"@, JsonVal::Array(seq![bv]))]);
            r
        },
    }
}

/// The members of the request body, in order: model, max_tokens, stream, messages, and where
/// present the system prompt (one text block marked as a cache breakpoint), the temperature
/// and the tools.
pub open spec fn request_members(
    model_id: Seq<char>,
    max_tokens: u32,
    messages: Seq<MessageV>,
    system_prompt: Option<Seq<char>>,
    temperature: Option<Seq<char>>,
    tools: Seq<ToolSpecV>,
) -> Seq<(Seq<char>, JsonVal)> {
    let base = seq![
        ("model"@, jstr(model_id)),
        ("max_tokens"@, JsonVal::UInt(max_tokens as u64)),
        ("stream"@, JsonVal::Bool(true)),
        ("messages"@, JsonVal::Array(messages.map_values(|m: MessageV| message_json(m)))),
    ];
    let with_system = match system_prompt {
        Some(sp) => base.push(("system"@, JsonVal::Array(seq![obj(seq![
            ("type"@, jstr("text"@)),
            ("text"@, jstr(sp)),
            ("cache_control"@, obj(seq![("type"@, jstr("ephemeral"@))])),
        ])]))),
        None => base,
    };
    let with_temp = match temperature {
        Some(t) => with_system.push(("temperature"@, JsonVal::Float(t))),
        None => with_system,
    };
    if tools.len() > 0 {
        with_temp.push(("tools"@, JsonVal::Array(tools.map_values(|t: ToolSpecV| tool_json(t)))))
    } else {
        with_temp
    }
}

/// The provider for Anthropic's messages API: it builds the request; the HTTP call and the
/// event stream are driven from outside with `on_sse_event`.
pub struct AnthropicProvider;

impl AnthropicProvider {
    /// The messages as Anthropic expects them, in order.
    pub fn convert_messages(&self, messages: &Vec<Message>) -> (r: Json)
        ensures
            r@ == JsonVal::Array(messages_view(messages@).map_values(|m: MessageV| message_json(m))),
    {
        let mut out: Vec<Json> = Vec::new();
        let mut i: usize = 0;
        while i < messages.len()
            invariant
                i <= messages@.len(),
                json_vals(out@) == messages_view(messages@).take(i as int).map_values(|m: MessageV| message_json(m)),
            decreases messages@.len() - i,
        {
            let ghost prev = json_vals(out@);
            let j = message_exec(&messages[i]);
            out.push(j);
            assert(json_vals(out@) =~= prev.push(j@));
            assert(messages_view(messages@).take(i + 1).map_values(|m: MessageV| message_json(m))
                =~= messages_view(messages@).take(i as int).map_values(|m: MessageV| message_json(m)).push(message_json(messages@[i as int]@)));
            i = i + 1;
        }
        assert(messages_view(messages@).take(messages@.len() as int) =~= messages_view(messages@));
        array(out)
    }

    /// The tools as Anthropic expects them: name, description and `input_schema`.
    pub fn convert_tools(&self, tools: &Vec<ToolSpec>) -> (r: Json)
        ensures
            r@ == JsonVal::Array(tool_specs_view(tools@).map_values(|t: ToolSpecV| tool_json(t))),
    {
        let mut out: Vec<Json> = Vec::new();
        let mut i: usize = 0;
        while i < tools.len()
            invariant
                i <= tools@.len(),
                json_vals(out@) == tool_specs_view(tools@).take(i as int).map_values(|t: ToolSpecV| tool_json(t)),
            decreases tools@.len() - i,
        {
            let ghost prev = json_vals(out@);
            let t = &tools[i];
            let mut m: Vec<(String, Json)> = Vec::new();
            m.push(member("name", Json::string(t.name.as_str())));
            m.push(member("description", Json::string(t.description.as_str())));
            m.push(member("input_schema", t.parameters.clone()));
            let j = object(m);
            assert(j@->Object_0 =~= tool_json(t@)->Object_0);
            out.push(j);
            assert(json_vals(out@) =~= prev.push(j@));
            assert(tool_specs_view(tools@).take(i + 1).map_values(|t: ToolSpecV| tool_json(t))
                =~= tool_specs_view(tools@).take(i as int).map_values(|t: ToolSpecV| tool_json(t)).push(tool_json(tools@[i as int]@)));
            i = i + 1;
        }
        assert(tool_specs_view(tools@).take(tools@.len() as int) =~= tool_specs_view(tools@));
        array(out)
    }

    /// The body of a streamed request. `max_tokens` comes from the options where they set it,
    /// else from the model.
    pub fn build_request(&self, model: &Model, context: &LlmContext, options: &StreamOptions) -> (r: Json)
        ensures
            r@ == obj(request_members(
                model.id@,
                match options.max_tokens { Some(n) => n, None => model.max_tokens },
                messages_view(context.messages@),
                opt_string_view(context.system_prompt),
                opt_string_view(options.temperature),
                tool_specs_view(context.tools@),
            )),
    {
        let max_tokens = match options.max_tokens {
            Some(n) => n,
            None => model.max_tokens,
        };
        let mut m: Vec<(String, Json)> = Vec::new();
        m.push(member("model", Json::string(model.id.as_str())));
        m.push(member("max_tokens", Json::UInt(max_tokens as u64)));
        m.push(member("stream", Json::Bool(true)));
        m.push(member("messages", self.convert_messages(&context.messages)));
        match &context.system_prompt {
            Some(sp) => {
                let mut cc: Vec<(String, Json)> = Vec::new();
                cc.push(member("type", Json::string("ephemeral")));
                let cache_control = object(cc);
                assert(cache_control@->Object_0 =~= seq![("type"@, jstr("ephemeral"@))]);
                let mut b: Vec<(String, Json)> = Vec::new();
                b.push(member("type", Json::string("text")));
                b.push(member("text", Json::string(sp.as_str())));
                b.push(member("cache_control", cache_control));
                let block = object(b);
                let ghost bv = obj(seq![
                    ("type"@, jstr("text"@)),
                    ("text"@, jstr(sp@)),
                    ("cache_control"@, obj(seq![("type"@, jstr("ephemeral"@))])),
                ]);
                assert(block@->Object_0 =~= bv->Object_0);
                let mut arr: Vec<Json> = Vec::new();
                arr.push(block);
                let system = array(arr);
                assert(system@->Array_0 =~= seq![bv]);
                m.push(member("system", system));
            },
            None => {},
        }
        match &options.temperature {
            Some(t) => {
                m.push(member("temperature", Json::Float(t.clone())));
            },
            None => {},
        }
        if context.tools.len() > 0 {
            m.push(member("tools", self.convert_tools(&context.tools)));
        }
        let r = object(m);
        assert(r@->Object_0 =~= request_members(
            model.id@,
            max_tokens,
            messages_view(context.messages@),
            opt_string_view(context.system_prompt),
            opt_string_view(options.temperature),
            tool_specs_view(context.tools@),
        ));
        r
    }

    /// The URL of the request: the model's base URL, else Anthropic's.
    pub fn request_url(&self, model: &Model) -> (r: String)
        ensures
            r@ == match opt_string_view(model.base_url) {
                Some(u) => u,
                None => ANTHROPIC_API_URL@,
            },
    {
        match &model.base_url {
            Some(u) => u.clone(),
            None => owned(ANTHROPIC_API_URL),
        }
    }
}

} // verus!

verus! {

// ---------------------------------------------------------------------------
// Laws of the request body and of closing a tool call
// ---------------------------------------------------------------------------

use crate::types::ToolResultMessageV;

/// A tool result goes to Anthropic as a user message holding exactly one `tool_result`
/// block, which names the call it answers, says whether the tool failed, and carries
/// the result's texts as text blocks, in order.
pub proof fn law_tool_result_goes_as_user_block(tr: ToolResultMessageV)
    ensures
        ({
            let j = message_json(MessageV::ToolResult(tr));
            &&& j.at("role"@) == JsonVal::Str("user"@)
            &&& j.at("content"@) matches JsonVal::Array(blocks)
            &&& blocks.len() == 1
            &&& blocks[0].at("type"@) == JsonVal::Str("tool_result"@)
            &&& blocks[0].at("tool_use_id"@) == JsonVal::Str(tr.tool_call_id)
            &&& blocks[0].at("is_error"@) == JsonVal::Bool(tr.is_error)
            &&& blocks[0].at("content"@) matches JsonVal::Array(texts)
            &&& texts.len() == tr.content.len()
            &&& forall|i: int| 0 <= i < texts.len() ==> (#[trigger] texts[i]).at("type"@) == JsonVal::Str("text"@)
                && texts[i].at("text"@) == JsonVal::Str(tr.content[i])
        }),
{
    reveal_strlit("role");
    reveal_strlit("content");
    reveal_strlit("type");
    reveal_strlit("tool_use_id");
    reveal_strlit("is_error");
    reveal_strlit("text");
    reveal_with_fuel(crate::json::entries_get, 5);
    assert("role"@.len() != "content"@.len());
    assert("type"@.len() != "tool_use_id"@.len());
    assert("type"@[0] != "content"@[0]);
    assert("type"@.len() != "is_error"@.len());
    assert("tool_use_id"@.len() != "content"@.len());
    assert("tool_use_id"@.len() != "is_error"@.len());
    assert("content"@.len() != "is_error"@.len());
    assert("type"@[0] != "text"@[1]);
    assert("type"@[1] != "text"@[1]);
}

/// A block of an assistant message as Anthropic reads it back: text as a `text` block, a
/// tool call as a `tool_use` block with the call's id, name and arguments as `input`,
/// thinking as a `thinking` block.
pub open spec fn block_sent_as(b: AssistantBlockV, j: JsonVal) -> bool {
    match b {
        AssistantBlockV::Text(t) => j.at("type"@) == JsonVal::Str("text"@) && j.at("text"@) == JsonVal::Str(t),
        AssistantBlockV::ToolUse(tc) => {
            &&& j.at("type"@) == JsonVal::Str("tool_use"@)
            &&& j.at("id"@) == JsonVal::Str(tc.id)
            &&& j.at("name"@) == JsonVal::Str(tc.name)
            &&& j.at("input"@) == tc.arguments
        },
        AssistantBlockV::Thinking(t) => j.at("type"@) == JsonVal::Str("thinking"@)
            && j.at("thinking"@) == JsonVal::Str(t),
    }
}

proof fn lemma_block_sent_as(b: AssistantBlockV)
    ensures
        block_sent_as(b, assistant_block_json(b)),
{
    reveal_strlit("type");
    reveal_strlit("text");
    reveal_strlit("id");
    reveal_strlit("name");
    reveal_strlit("input");
    reveal_strlit("thinking");
    reveal_with_fuel(crate::json::entries_get, 5);
    assert("type"@[1] != "text"@[1]);
    assert("type"@.len() != "id"@.len());
    assert("type"@[0] != "name"@[0]);
    assert("type"@.len() != "input"@.len());
    assert("id"@.len() != "name"@.len());
    assert("id"@.len() != "input"@.len());
    assert("name"@.len() != "input"@.len());
    assert("type"@.len() != "thinking"@.len());
}

/// A user message goes to Anthropic with role `user` and its texts as text blocks, in
/// order; an assistant message goes with role `assistant` and one block per block of the
/// message, in order, each carrying what the message holds.
pub proof fn law_messages_keep_their_blocks(u: crate::types::UserMessageV, a: AssistantMessageV)
    ensures
        ({
            let j = message_json(MessageV::User(u));
            &&& j.at("role"@) == JsonVal::Str("user"@)
            &&& j.at("content"@) matches JsonVal::Array(bs)
            &&& bs.len() == u.content.len()
            &&& forall|i: int| 0 <= i < bs.len() ==> (#[trigger] bs[i]).at("type"@) == JsonVal::Str("text"@)
                && bs[i].at("text"@) == JsonVal::Str(u.content[i])
        }),
        ({
            let j = message_json(MessageV::Assistant(a));
            &&& j.at("role"@) == JsonVal::Str("assistant"@)
            &&& j.at("content"@) matches JsonVal::Array(bs)
            &&& bs.len() == a.content.len()
            &&& forall|i: int| 0 <= i < bs.len() ==> block_sent_as(a.content[i], #[trigger] bs[i])
        }),
{
    reveal_strlit("role");
    reveal_strlit("content");
    reveal_strlit("type");
    reveal_strlit("text");
    reveal_with_fuel(crate::json::entries_get, 3);
    assert("role"@.len() != "content"@.len());
    assert("type"@[1] != "text"@[1]);
    let bs = a.content.map_values(|b: AssistantBlockV| assistant_block_json(b));
    assert forall|i: int| 0 <= i < bs.len() implies block_sent_as(a.content[i], #[trigger] bs[i]) by {
        lemma_block_sent_as(a.content[i]);
    }
}

/// The token count an object of usage gives under `key`: its unsigned integer, else 0.
pub open spec fn given_count(u: JsonVal, key: Seq<char>) -> u64 {
    match u.at(key) {
        JsonVal::UInt(n) => n,
        _ => 0,
    }
}

/// The start of a message yields one `Start` event naming the model (the one the event
/// gives, else the one the parser was made for) and takes the token counts the event's
/// usage gives (0 for each one it does not give); nothing else changes.
pub proof fn law_message_start_names_the_model(json: JsonVal, st: ParseStateV)
    ensures
        ({
            let (st2, evs) = message_start_step(json, st);
            let model = match json.pointer(seq!["message"@, "model"@]) {
                Some(JsonVal::Str(m)) => m,
                _ => st.message.model,
            };
            &&& evs == seq![StreamEventV::Start(AssistantMessageV::empty(model))]
            &&& st2.message.model == model
            &&& st2.message.content == st.message.content
            &&& st2.message.stop_reason == st.message.stop_reason
            &&& st2.blocks == st.blocks
            &&& match json.pointer(seq!["message"@, "usage"@]) {
                Some(u) => {
                    &&& st2.message.usage.input_tokens == given_count(u, "input_tokens"@)
                    &&& st2.message.usage.output_tokens == given_count(u, "output_tokens"@)
                    &&& st2.message.usage.cache_read_tokens == given_count(u, "cache_read_input_tokens"@)
                    &&& st2.message.usage.cache_write_tokens == given_count(u, "cache_creation_input_tokens"@)
                },
                None => st2.message.usage == st.message.usage,
            }
        }),
{
}

/// The end of a message sets the stop reason it gives (`tool_use` a tool call,
/// `max_tokens` the length limit, `error` an error, anything else a plain stop) and, of
/// the token counts its usage gives, each one above 0 replaces the count so far; the
/// content, the model and the open blocks stay, and nothing is yielded.
pub proof fn law_message_delta_sets_stop_reason_and_usage(json: JsonVal, st: ParseStateV)
    ensures
        ({
            let (st2, evs) = message_delta_step(json, st);
            let m = st.message;
            let m2 = st2.message;
            &&& evs.len() == 0
            &&& st2.blocks == st.blocks
            &&& m2.content == m.content
            &&& m2.model == m.model
            &&& m2.stop_reason == match json.pointer(seq!["delta"@, "stop_reason"@]) {
                Some(JsonVal::Str(r)) => if r == "tool_use"@ {
                    StopReason::ToolUse
                } else if r == "max_tokens"@ {
                    StopReason::Length
                } else if r == "error"@ {
                    StopReason::Error
                } else {
                    StopReason::Stop
                },
                _ => m.stop_reason,
            }
            &&& match json.get("usage"@) {
                Some(u) => {
                    &&& m2.usage.input_tokens == if given_count(u, "input_tokens"@) > 0 {
                        given_count(u, "input_tokens"@)
                    } else {
                        m.usage.input_tokens
                    }
                    &&& m2.usage.output_tokens == if given_count(u, "output_tokens"@) > 0 {
                        given_count(u, "output_tokens"@)
                    } else {
                        m.usage.output_tokens
                    }
                    &&& m2.usage.cache_read_tokens == if given_count(u, "cache_read_input_tokens"@) > 0 {
                        given_count(u, "cache_read_input_tokens"@)
                    } else {
                        m.usage.cache_read_tokens
                    }
                    &&& m2.usage.cache_write_tokens == if given_count(u, "cache_creation_input_tokens"@) > 0 {
                        given_count(u, "cache_creation_input_tokens"@)
                    } else {
                        m.usage.cache_write_tokens
                    }
                },
                None => m2.usage == m.usage,
            }
        }),
{
    reveal_strlit("end_turn");
    reveal_strlit("tool_use");
    reveal_strlit("max_tokens");
    reveal_strlit("error");
    assert("end_turn"@[0] != "tool_use"@[0]);
    assert("end_turn"@.len() != "max_tokens"@.len());
    assert("end_turn"@.len() != "error"@.len());
}

/// Opening a tool-use block at an index holds, at that index, the id and name that the
/// `content_block` gives (empty where it gives no string) and an empty argument buffer;
/// the message and the other blocks stay, and nothing is yielded.
pub proof fn law_tool_block_opens_with_id_and_name(json: JsonVal, st: ParseStateV, i: u64)
    requires
        json.at("index"@).as_u64() == Some(i),
        json.pointer(seq!["content_block"@, "type"@]) == Some(JsonVal::Str("tool_use"@)),
    ensures
        ({
            let (st2, evs) = block_start_step(json, st);
            &&& evs.len() == 0
            &&& st2.message == st.message
            &&& st2.blocks == st.blocks.insert(i as usize, BlockTypeV::ToolUse {
                id: match json.pointer(seq!["content_block"@, "id"@]) {
                    Some(JsonVal::Str(t)) => t,
                    _ => Seq::empty(),
                },
                name: match json.pointer(seq!["content_block"@, "name"@]) {
                    Some(JsonVal::Str(t)) => t,
                    _ => Seq::empty(),
                },
                json_buf: Seq::empty(),
            })
        }),
{
    reveal_strlit("text");
    reveal_strlit("thinking");
    reveal_strlit("tool_use");
    assert("tool_use"@.len() != "text"@.len());
    assert("tool_use"@[1] != "thinking"@[1]);
}

/// A piece of argument JSON for an open tool-use block is appended to that block's
/// buffer (its id and name stay) and yielded as a delta event at that index; the message
/// and the other blocks stay.
pub proof fn law_json_delta_appends_to_tool_block(
    json: JsonVal,
    st: ParseStateV,
    i: u64,
    id: Seq<char>,
    name: Seq<char>,
    buf: Seq<char>,
    piece: Seq<char>,
)
    requires
        json.at("index"@).as_u64() == Some(i),
        json.pointer(seq!["delta"@, "type"@]) == Some(JsonVal::Str("input_json_delta"@)),
        json.pointer(seq!["delta"@, "partial_json"@]) == Some(JsonVal::Str(piece)),
        st.blocks.get(i as usize) == Some(BlockTypeV::ToolUse { id, name, json_buf: buf }),
    ensures
        ({
            let (st2, evs) = block_delta_step(json, st);
            &&& evs == seq![StreamEventV::ToolCallDelta { index: i as usize, delta: piece }]
            &&& st2.message == st.message
            &&& st2.blocks == st.blocks.insert(i as usize, BlockTypeV::ToolUse { id, name, json_buf: buf + piece })
        }),
{
    reveal_strlit("thinking_delta");
    reveal_strlit("text_delta");
    reveal_strlit("input_json_delta");
    assert("input_json_delta"@.len() != "thinking_delta"@.len());
    assert("input_json_delta"@.len() != "text_delta"@.len());
}

/// A piece of thinking for an open thinking block is appended to it; closing a thinking
/// block adds its whole text to the message as a thinking block. Neither yields events.
pub proof fn law_thinking_is_gathered_then_added(
    delta: JsonVal,
    stop: JsonVal,
    st: ParseStateV,
    i: u64,
    buf: Seq<char>,
    piece: Seq<char>,
)
    requires
        delta.at("index"@).as_u64() == Some(i),
        delta.pointer(seq!["delta"@, "type"@]) == Some(JsonVal::Str("thinking_delta"@)),
        delta.pointer(seq!["delta"@, "thinking"@]) == Some(JsonVal::Str(piece)),
        stop.at("index"@).as_u64() == Some(i),
        st.blocks.get(i as usize) == Some(BlockTypeV::Thinking(buf)),
    ensures
        ({
            let (st2, e2) = block_delta_step(delta, st);
            let (st3, e3) = block_stop_step(stop, st2);
            &&& e2.len() == 0 && e3.len() == 0
            &&& st2.message == st.message
            &&& st2.blocks == st.blocks.insert(i as usize, BlockTypeV::Thinking(buf + piece))
            &&& st3.message.content == st.message.content.push(AssistantBlockV::Thinking(buf + piece))
            &&& st3.blocks == st.blocks.remove(i as usize)
        }),
{
    reveal_strlit("thinking_delta");
    reveal_strlit("text_delta");
    reveal_strlit("input_json_delta");
    assert("thinking_delta"@.len() != "text_delta"@.len());
    assert("thinking_delta"@.len() != "input_json_delta"@.len());
    let st2 = block_delta_step(delta, st).0;
    assert(st2.blocks.get(i as usize) == Some(BlockTypeV::Thinking(buf + piece)));
    assert(block_stop_step(stop, st2).0.blocks =~= st.blocks.remove(i as usize));
}

/// Closing an open tool-use block ends its call: one `ToolCallEnd` event at that index,
/// with the block's id and name, and as arguments the gathered text read as JSON where it
/// is JSON and otherwise an empty object; the same call joins the message and the block
/// is no longer open.
pub proof fn law_closing_tool_block_ends_its_call(
    json: JsonVal,
    st: ParseStateV,
    i: u64,
    id: Seq<char>,
    name: Seq<char>,
    buf: Seq<char>,
)
    requires
        json.at("index"@).as_u64() == Some(i),
        st.blocks.get(i as usize) == Some(BlockTypeV::ToolUse { id, name, json_buf: buf }),
    ensures
        ({
            let (st2, evs) = block_stop_step(json, st);
            &&& evs.len() == 1
            &&& evs[0] matches StreamEventV::ToolCallEnd { index, tool_call }
            &&& index == i as usize
            &&& tool_call.id == id
            &&& tool_call.name == name
            &&& (json_parse(buf) matches Some(v) ==> tool_call.arguments == v)
            &&& (json_parse(buf) is None ==> tool_call.arguments == JsonVal::Object(Seq::empty()))
            &&& st2.message.content == st.message.content.push(AssistantBlockV::ToolUse(tool_call))
            &&& !st2.blocks.contains_key(i as usize)
            &&& st2.blocks == st.blocks.remove(i as usize)
        }),
{
}

} // verus!

verus! {

/// The body of a request to Anthropic: the model, the token limit, streaming on, and one
/// message per message of the conversation, in order. A system prompt goes as one text
/// block marked for caching (none without one); a temperature goes as given (none
/// without one); the tools go with their name, description and parameter schema, in
/// order (no `tools` member without tools).
pub proof fn law_request_body(
    model_id: Seq<char>,
    max_tokens: u32,
    messages: Seq<MessageV>,
    system_prompt: Option<Seq<char>>,
    temperature: Option<Seq<char>>,
    tools: Seq<ToolSpecV>,
)
    ensures
        ({
            let body = obj(request_members(model_id, max_tokens, messages, system_prompt, temperature, tools));
            &&& body.at("model"@) == JsonVal::Str(model_id)
            &&& body.at("max_tokens"@) == JsonVal::UInt(max_tokens as u64)
            &&& body.at("stream"@) == JsonVal::Bool(true)
            &&& body.at("messages"@) matches JsonVal::Array(ms)
            &&& ms.len() == messages.len()
            &&& forall|i: int| 0 <= i < ms.len() ==> #[trigger] ms[i] == message_json(messages[i])
            &&& match system_prompt {
                Some(sp) => body.at("system"@) matches JsonVal::Array(ss) && ss.len() == 1
                    && ss[0].at("type"@) == JsonVal::Str("text"@)
                    && ss[0].at("text"@) == JsonVal::Str(sp)
                    && ss[0].at("cache_control"@).at("type"@) == JsonVal::Str("ephemeral"@),
                None => body.get("system"@) is None,
            }
            &&& match temperature {
                Some(t) => body.at("temperature"@) == JsonVal::Float(t),
                None => body.get("temperature"@) is None,
            }
            &&& if tools.len() == 0 {
                body.get("tools"@) is None
            } else {
                body.at("tools"@) matches JsonVal::Array(ts) && ts.len() == tools.len()
                    && forall|i: int| 0 <= i < ts.len() ==> {
                        &&& (#[trigger] ts[i]).at("name"@) == JsonVal::Str(tools[i].name)
                        &&& ts[i].at("description"@) == JsonVal::Str(tools[i].description)
                        &&& ts[i].at("input_schema"@) == tools[i].parameters
                    }
            }
        }),
{
    reveal_strlit("model");
    reveal_strlit("max_tokens");
    reveal_strlit("stream");
    reveal_strlit("messages");
    reveal_strlit("system");
    reveal_strlit("temperature");
    reveal_strlit("tools");
    reveal_strlit("type");
    reveal_strlit("text");
    reveal_strlit("cache_control");
    reveal_strlit("name");
    reveal_strlit("description");
    reveal_strlit("input_schema");
    reveal_with_fuel(crate::json::entries_get, 8);
    assert("model"@[0] != "tools"@[0]);
    assert("stream"@[1] != "system"@[1]);
    assert("model"@.len() != "max_tokens"@.len());
    assert("model"@.len() != "stream"@.len());
    assert("model"@.len() != "messages"@.len());
    assert("model"@.len() != "system"@.len());
    assert("model"@.len() != "temperature"@.len());
    assert("max_tokens"@.len() != "stream"@.len());
    assert("max_tokens"@.len() != "messages"@.len());
    assert("max_tokens"@.len() != "system"@.len());
    assert("max_tokens"@.len() != "temperature"@.len());
    assert("max_tokens"@.len() != "tools"@.len());
    assert("stream"@.len() != "messages"@.len());
    assert("stream"@.len() != "temperature"@.len());
    assert("stream"@.len() != "tools"@.len());
    assert("messages"@.len() != "system"@.len());
    assert("messages"@.len() != "temperature"@.len());
    assert("messages"@.len() != "tools"@.len());
    assert("system"@.len() != "temperature"@.len());
    assert("system"@.len() != "tools"@.len());
    assert("temperature"@.len() != "tools"@.len());
    assert("type"@[1] != "text"@[1]);
    assert("type"@.len() != "cache_control"@.len());
    assert("text"@.len() != "cache_control"@.len());
    assert("name"@.len() != "description"@.len());
    assert("name"@.len() != "input_schema"@.len());
    assert("description"@.len() != "input_schema"@.len());
}

} // verus!
