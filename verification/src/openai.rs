//! OpenAI's chat completions API: the request body, and the state machine that gathers
//! the deltas of a streamed answer into stream events and one message.
use vstd::prelude::*;
use crate::json::{Json, JsonVal, json_vals, opt_as_str, or_empty, json_parse, json_text, obj, jstr};
use crate::text::{owned, str_eq, trim, trim_spec};
use crate::anthropic::{append_text, u64_or_zero, delta_text, lemma_delta_text_concat, lemma_append_text, lemma_one_event, lemma_no_events};
use vstd::std_specs::iter::IteratorSpec;
use crate::types::{
    AssistantContentBlock, AssistantMessage, AssistantMessageV, AssistantBlockV, StopReason, StreamEvent,
    StreamEventV, ToolCall, ToolCallV, Usage, events_view, assistant_blocks_view, text_of_blocks,
    tool_calls_of_blocks,
};

verus! {

/// The pieces of one tool call gathered so far.
#[derive(Debug)]
pub struct ToolCallBuffer {
    pub id: String,
    pub name: String,
    pub arguments: String,
}

pub struct ToolCallBufferV {
    pub id: Seq<char>,
    pub name: Seq<char>,
    pub arguments: Seq<char>,
}

impl View for ToolCallBuffer {
    type V = ToolCallBufferV;

    open spec fn view(&self) -> ToolCallBufferV {
        ToolCallBufferV { id: self.id@, name: self.name@, arguments: self.arguments@ }
    }
}

pub open spec fn empty_buffer() -> ToolCallBufferV {
    ToolCallBufferV { id: Seq::empty(), name: Seq::empty(), arguments: Seq::empty() }
}

pub struct OpenAIStateV {
    pub model_id: Seq<char>,
    pub message: AssistantMessageV,
    /// The buffers by tool-call index.
    pub buffers: Map<usize, ToolCallBufferV>,
    pub started: bool,
}

/// The buffers with a default one under `k` unless they have one (`entry(k).or_default()`).
pub open spec fn with_entry(m: Map<usize, ToolCallBufferV>, k: usize) -> Map<usize, ToolCallBufferV> {
    if m.contains_key(k) {
        m
    } else {
        m.insert(k, empty_buffer())
    }
}

/// The indices increase strictly along the sequence.
pub open spec fn increasing(s: Seq<usize>) -> bool {
    forall|i: int, j: int| 0 <= i < j < s.len() ==> s[i] < s[j]
}

/// The indices of the buffers in increasing order.
pub open spec fn key_order(m: Map<usize, ToolCallBufferV>) -> Seq<usize> {
    choose|s: Seq<usize>| increasing(s) && s.to_set() == m.dom()
}

/// One tool-call delta applied to its buffer: a given id or name replaces the old one;
/// given argument text is appended.
pub open spec fn apply_tool_delta(b: ToolCallBufferV, d: JsonVal) -> ToolCallBufferV {
    ToolCallBufferV {
        id: match d.at("id"@).as_str() {
            Some(id) => id,
            None => b.id,
        },
        name: match opt_as_str(d.pointer(seq!["function"@, "name"@])) {
            Some(n) => n,
            None => b.name,
        },
        arguments: match opt_as_str(d.pointer(seq!["function"@, "arguments"@])) {
            Some(a) => b.arguments + a,
            None => b.arguments,
        },
    }
}

/// The tool-call deltas of one chunk applied in order; the argument pieces become events.
pub open spec fn tool_deltas_step(
    ds: Seq<JsonVal>,
    bufs: Map<usize, ToolCallBufferV>,
) -> (Map<usize, ToolCallBufferV>, Seq<StreamEventV>)
    decreases ds.len(),
{
    if ds.len() == 0 {
        (bufs, Seq::empty())
    } else {
        let (b1, e1) = tool_deltas_step(ds.drop_last(), bufs);
        let d = ds.last();
        let index = u64_or_zero(d.at("index"@)) as usize;
        let b2 = with_entry(b1, index);
        let b3 = b2.insert(index, apply_tool_delta(b2[index], d));
        let e2 = match opt_as_str(d.pointer(seq!["function"@, "arguments"@])) {
            Some(a) => seq![StreamEventV::ToolCallDelta { index, delta: a }],
            None => Seq::empty(),
        };
        (b3, e1 + e2)
    }
}

/// The stop reason OpenAI names (`stop`, `tool_calls`, `length`; anything else is `Stop`).
pub open spec fn finish_reason_of(s: Seq<char>) -> StopReason {
    if s == "stop"@ {
        StopReason::Stop
    } else if s == "tool_calls"@ {
        StopReason::ToolUse
    } else if s == "length"@ {
        StopReason::Length
    } else {
        StopReason::Stop
    }
}

/// The message after a usage chunk: prompt and completion tokens, the cache counts zero.
pub open spec fn usage_step(json: JsonVal, m: AssistantMessageV) -> AssistantMessageV {
    match json.get("usage"@) {
        Some(u) => if u.is_null() {
            m
        } else {
            AssistantMessageV {
                usage: Usage {
                    input_tokens: u64_or_zero(u.at("prompt_tokens"@)),
                    output_tokens: u64_or_zero(u.at("completion_tokens"@)),
                    cache_read_tokens: 0,
                    cache_write_tokens: 0,
                },
                ..m
            }
        },
        None => m,
    }
}

/// What one chunk of data does to the state and which stream events it yields.
pub open spec fn openai_step(data: Seq<char>, st: OpenAIStateV) -> (OpenAIStateV, Seq<StreamEventV>) {
    match json_parse(data) {
        None => (st, Seq::empty()),
        Some(json) => openai_json_step(json, st),
    }
}

/// What one chunk does once its data has been read as JSON.
pub open spec fn openai_json_step(json: JsonVal, st: OpenAIStateV) -> (OpenAIStateV, Seq<StreamEventV>) {
    let m1 = usage_step(json, st.message);
    let st1 = OpenAIStateV { message: m1, ..st };
    match json.get("choices"@) {
        Some(cv) => match cv.as_array() {
            Some(choices) => if choices.len() == 0 {
                (st1, Seq::empty())
            } else {
                let choice = choices[0];
                match choice.get("delta"@) {
                    None => (st1, Seq::empty()),
                    Some(delta) => {
                        let e0: Seq<StreamEventV> = if !st.started {
                            seq![StreamEventV::Start(AssistantMessageV::empty(st.model_id))]
                        } else {
                            Seq::empty()
                        };
                        let m2 = match choice.get("finish_reason"@) {
                            Some(r) => if r.is_null() {
                                m1
                            } else {
                                AssistantMessageV { stop_reason: finish_reason_of(or_empty(r.as_str())), ..m1 }
                            },
                            None => m1,
                        };
                        let (m3, e1) = match delta.get("content"@) {
                            Some(c) => match c.as_str() {
                                Some(t) => if t.len() > 0 {
                                    (
                                        AssistantMessageV { content: append_text(m2.content, t), ..m2 },
                                        seq![StreamEventV::TextDelta { index: 0, delta: t }],
                                    )
                                } else {
                                    (m2, Seq::empty())
                                },
                                None => (m2, Seq::empty()),
                            },
                            None => (m2, Seq::empty()),
                        };
                        let (bufs, e2) = match delta.get("tool_calls"@) {
                            Some(tv) => match tv.as_array() {
                                Some(ds) => tool_deltas_step(ds, st.buffers),
                                None => (st.buffers, Seq::empty()),
                            },
                            None => (st.buffers, Seq::empty()),
                        };
                        (
                            OpenAIStateV { model_id: st.model_id, message: m3, buffers: bufs, started: true },
                            e0 + e1 + e2,
                        )
                    },
                }
            },
            None => (st1, Seq::empty()),
        },
        None => (st1, Seq::empty()),
    }
}

/// The arguments of a gathered tool call: its text parsed, or the text itself as a JSON string.
pub open spec fn buffered_arguments(text: Seq<char>) -> JsonVal {
    match json_parse(text) {
        Some(v) => v,
        None => JsonVal::Str(text),
    }
}

/// The tool-use block made of one buffer.
pub open spec fn buffered_call(b: ToolCallBufferV) -> AssistantBlockV {
    AssistantBlockV::ToolUse(ToolCallV { id: b.id, name: b.name, arguments: buffered_arguments(b.arguments) })
}

/// The tool-use blocks made of the buffers, in increasing order of index.
pub open spec fn buffered_calls(bufs: Map<usize, ToolCallBufferV>) -> Seq<AssistantBlockV> {
    key_order(bufs).map_values(|k: usize| buffered_call(bufs[k]))
}

/// The end of the stream: the gathered tool calls are appended in increasing order of
/// index and the buffers emptied; the result is the message.
pub open spec fn finalize_step(st: OpenAIStateV) -> OpenAIStateV {
    OpenAIStateV {
        message: AssistantMessageV { content: st.message.content + buffered_calls(st.buffers), ..st.message },
        buffers: Map::empty(),
        ..st
    }
}

} // verus!

verus! {

// ---------------------------------------------------------------------------
// The parser
// ---------------------------------------------------------------------------

pub open spec fn buffer_views(m: Map<usize, ToolCallBuffer>) -> Map<usize, ToolCallBufferV> {
    m.map_values(|b: ToolCallBuffer| b@)
}

/// The state of the gatherer of one streamed answer.
pub struct OpenAIParseState {
    model_id: String,
    message: AssistantMessage,
    tool_buffers: std::collections::HashMap<usize, ToolCallBuffer>,
    started: bool,
}

impl View for OpenAIParseState {
    type V = OpenAIStateV;

    closed spec fn view(&self) -> OpenAIStateV {
        OpenAIStateV {
            model_id: self.model_id@,
            message: self.message@,
            buffers: buffer_views(self.tool_buffers@),
            started: self.started,
        }
    }
}

/// The indices of the buffers, each once, in the order the map hands them out.
fn buffer_indices(bufs: &std::collections::HashMap<usize, ToolCallBuffer>) -> (r: Vec<usize>)
    ensures
        r@.to_set() == bufs@.dom(),
        r@.no_duplicates(),
{
    broadcast use vstd::std_specs::hash::group_hash_axioms;
    let ghost g = vstd::std_specs::hash::spec_keys_iter(bufs).remaining();
    let mut r: Vec<usize> = Vec::new();
    for k in it: bufs.keys()
        invariant
            it.seq() == g,
            r@ == g.take(it.index()).map_values(|x: &usize| *x),
    {
        r.push(*k);
        assert(g.take(it.index() + 1).map_values(|x: &usize| *x)
            =~= g.take(it.index()).map_values(|x: &usize| *x).push(*k));
    }
    assert(r@ =~= g.unref());
    r
}

/// The indices sorted into increasing order (each occurs once in `ks`).
fn sort_indices(ks: &Vec<usize>) -> (r: Vec<usize>)
    requires
        ks@.no_duplicates(),
    ensures
        increasing(r@),
        r@.to_set() == ks@.to_set(),
{
    let mut r: Vec<usize> = Vec::new();
    let mut i: usize = 0;
    while i < ks.len()
        invariant
            i <= ks@.len(),
            ks@.no_duplicates(),
            increasing(r@),
            r@.to_set() == ks@.take(i as int).to_set(),
        decreases ks@.len() - i,
    {
        let k = ks[i];
        let mut j: usize = 0;
        while j < r.len() && r[j] < k
            invariant
                j <= r@.len(),
                forall|m: int| 0 <= m < j ==> r@[m] < k,
            decreases r@.len() - j,
        {
            j = j + 1;
        }
        proof {
            assert(!r@.contains(k)) by {
                if r@.contains(k) {
                    let m = choose|m: int| 0 <= m < r@.len() && r@[m] == k;
                    assert(r@.to_set().contains(k));
                    assert(ks@.take(i as int).to_set().contains(k));
                    let q = choose|q: int| 0 <= q < i && ks@.take(i as int)[q] == k;
                    assert(ks@[q] == ks@[i as int]);
                }
            }
        }
        let ghost before = r@;
        r.insert(j, k);
        proof {
            assert(r@ == before.insert(j as int, k));
            assert forall|a: int, b: int| 0 <= a < b < r@.len() implies r@[a] < r@[b] by {
                if b < j {
                } else if b == j {
                } else if a < j {
                    assert(before[b - 1] > k || before[b - 1] == k);
                    assert(before[b - 1] != k) by {
                        assert(before.contains(before[b - 1]));
                    }
                } else if a == j {
                    assert(before[b - 1] >= k);
                    assert(before[b - 1] != k) by {
                        assert(before.contains(before[b - 1]));
                    }
                } else {
                }
            }
            assert(ks@.take(i + 1) =~= ks@.take(i as int).push(k));
            assert(r@.to_set() =~= before.to_set().insert(k)) by {
                assert forall|x: usize| r@.to_set().contains(x) implies before.to_set().insert(k).contains(x) by {
                    let m = choose|m: int| 0 <= m < r@.len() && r@[m] == x;
                    if m < j {
                        assert(before[m] == x);
                    } else if m > j {
                        assert(before[m - 1] == x);
                    }
                }
                assert forall|x: usize| before.to_set().insert(k).contains(x) implies r@.to_set().contains(x) by {
                    if x == k {
                        assert(r@[j as int] == k);
                    } else {
                        let m = choose|m: int| 0 <= m < before.len() && before[m] == x;
                        if m < j {
                            assert(r@[m] == x);
                        } else {
                            assert(r@[m + 1] == x);
                        }
                    }
                }
            }
            assert(ks@.take(i as int).push(k).to_set() =~= ks@.take(i as int).to_set().insert(k)) by {
                let t = ks@.take(i as int);
                assert forall|x: usize| t.push(k).to_set().contains(x) implies t.to_set().insert(k).contains(x) by {
                    let m = choose|m: int| 0 <= m < t.push(k).len() && t.push(k)[m] == x;
                    if m < t.len() {
                        assert(t[m] == x);
                    }
                }
                assert forall|x: usize| t.to_set().insert(k).contains(x) implies t.push(k).to_set().contains(x) by {
                    if x == k {
                        assert(t.push(k)[t.len() as int] == k);
                    } else {
                        let m = choose|m: int| 0 <= m < t.len() && t[m] == x;
                        assert(t.push(k)[m] == x);
                    }
                }
            }
        }
        i = i + 1;
    }
    assert(ks@.take(ks@.len() as int) =~= ks@);
    r
}

/// Two increasing sequences with the same indices are the same.
proof fn lemma_increasing_unique(a: Seq<usize>, b: Seq<usize>)
    requires
        increasing(a),
        increasing(b),
        a.to_set() == b.to_set(),
    ensures
        a == b,
    decreases a.len(),
{
    if a.len() == 0 {
        if b.len() > 0 {
            assert(b.to_set().contains(b[0]));
        }
        assert(a =~= b);
    } else if b.len() == 0 {
        assert(a.to_set().contains(a[0]));
    } else {
        assert(a.to_set().contains(a[0]));
        assert(b.to_set().contains(b[0]));
        let i = choose|i: int| 0 <= i < b.len() && b[i] == a[0];
        let j = choose|j: int| 0 <= j < a.len() && a[j] == b[0];
        if i > 0 {
            assert(b[0] < b[i]);
        }
        if j > 0 {
            assert(a[0] < a[j]);
        }
        assert(a[0] == b[0]);
        let a1 = a.drop_first();
        let b1 = b.drop_first();
        assert(a1.to_set() =~= b1.to_set()) by {
            assert forall|x: usize| a1.to_set().contains(x) implies b1.to_set().contains(x) by {
                let m = choose|m: int| 0 <= m < a1.len() && a1[m] == x;
                assert(a[m + 1] == x);
                assert(a.to_set().contains(x));
                let q = choose|q: int| 0 <= q < b.len() && b[q] == x;
                if q == 0 {
                    assert(a[0] < a[m + 1]);
                }
                assert(b1[q - 1] == x);
            }
            assert forall|x: usize| b1.to_set().contains(x) implies a1.to_set().contains(x) by {
                let m = choose|m: int| 0 <= m < b1.len() && b1[m] == x;
                assert(b[m + 1] == x);
                assert(b.to_set().contains(x));
                let q = choose|q: int| 0 <= q < a.len() && a[q] == x;
                if q == 0 {
                    assert(b[0] < b[m + 1]);
                }
                assert(a1[q - 1] == x);
            }
        }
        lemma_increasing_unique(a1, b1);
        assert(a =~= seq![a[0]] + a1);
        assert(b =~= seq![b[0]] + b1);
    }
}

/// An increasing sequence of the buffers' indices is their `key_order`.
proof fn lemma_key_order(m: Map<usize, ToolCallBufferV>, s: Seq<usize>)
    requires
        increasing(s),
        s.to_set() == m.dom(),
    ensures
        key_order(m) == s,
{
    let k = key_order(m);
    assert(increasing(k) && k.to_set() == m.dom());
    lemma_increasing_unique(k, s);
}

fn finish_reason_exec(s: &str) -> (r: StopReason)
    ensures
        r == finish_reason_of(s@),
{
    if str_eq(s, "stop") {
        StopReason::Stop
    } else if str_eq(s, "tool_calls") {
        StopReason::ToolUse
    } else if str_eq(s, "length") {
        StopReason::Length
    } else {
        StopReason::Stop
    }
}

/// Applies the tool-call deltas of one chunk, in order.
fn tool_deltas_exec(
    ds: &Vec<Json>,
    bufs: &mut std::collections::HashMap<usize, ToolCallBuffer>,
    evs: &mut Vec<StreamEvent>,
)
    ensures
        ({
            let (b, e) = tool_deltas_step(json_vals(ds@), buffer_views(old(bufs)@));
            &&& buffer_views(final(bufs)@) == b
            &&& events_view(final(evs)@) == events_view(old(evs)@) + e
        }),
{
    broadcast use vstd::std_specs::hash::group_hash_axioms;
    let ghost b0 = buffer_views(bufs@);
    let ghost e0 = events_view(evs@);
    let mut i: usize = 0;
    while i < ds.len()
        invariant
            i <= ds@.len(),
            ({
                let (b, e) = tool_deltas_step(json_vals(ds@).take(i as int), b0);
                &&& buffer_views(bufs@) == b
                &&& events_view(evs@) == e0 + e
            }),
        decreases ds@.len() - i,
    {
        let d = &ds[i];
        assert(json_vals(ds@).take(i + 1).drop_last() =~= json_vals(ds@).take(i as int));
        let index = match d.u64_at("index") {
            Some(n) => n as usize,
            None => 0,
        };
        let ghost b1 = buffer_views(bufs@);
        if !bufs.contains_key(&index) {
            bufs.insert(index, ToolCallBuffer { id: String::new(), name: String::new(), arguments: String::new() });
        }
        let ghost e_before = events_view(evs@);
        let ghost b2 = buffer_views(bufs@);
        assert(b2 =~= with_entry(b1, index));
        let old_buf = match bufs.remove(&index) {
            Some(b) => b,
            None => ToolCallBuffer { id: String::new(), name: String::new(), arguments: String::new() },
        };
        assert(old_buf@ == b2[index]);
        let id = match d.str_at("id") {
            Some(s) => owned(s),
            None => old_buf.id,
        };
        let name = match d.str_at2("function", "name") {
            Some(s) => owned(s),
            None => old_buf.name,
        };
        let mut arguments = old_buf.arguments;
        match d.str_at2("function", "arguments") {
            Some(a) => {
                arguments.append(a);
                evs.push(StreamEvent::ToolCallDelta { index, delta: owned(a) });
                assert(events_view(evs@) =~= e_before + seq![StreamEventV::ToolCallDelta { index, delta: a@ }]);
            },
            None => {
                assert(events_view(evs@) =~= e_before + Seq::<StreamEventV>::empty());
            },
        }
        bufs.insert(index, ToolCallBuffer { id, name, arguments });
        proof {
            assert(buffer_views(bufs@) =~= b2.insert(index, apply_tool_delta(b2[index], d@)));
            let (b1, e1) = tool_deltas_step(json_vals(ds@).take(i as int), b0);
            let e2 = match opt_as_str(d@.pointer(seq!["function"@, "arguments"@])) {
                Some(a) => seq![StreamEventV::ToolCallDelta { index, delta: a }],
                None => Seq::<StreamEventV>::empty(),
            };
            assert(e0 + (e1 + e2) =~= (e0 + e1) + e2);
        }
        i = i + 1;
    }
    assert(json_vals(ds@).take(ds@.len() as int) =~= json_vals(ds@));
}

impl OpenAIParseState {
    /// A gatherer for an answer of `model_id`: an empty message, no buffers, not started.
    pub fn new(model_id: String) -> (r: Self)
        ensures
            r@ == (OpenAIStateV {
                model_id: model_id@,
                message: AssistantMessageV::empty(model_id@),
                buffers: Map::empty(),
                started: false,
            }),
    {
        let message = AssistantMessage::empty(model_id.clone());
        let r = OpenAIParseState {
            model_id,
            message,
            tool_buffers: std::collections::HashMap::new(),
            started: false,
        };
        assert(r@.buffers =~= Map::<usize, ToolCallBufferV>::empty());
        r
    }

    /// The message gathered so far.
    pub fn message(&self) -> (r: &AssistantMessage)
        ensures
            r@ == self@.message,
    {
        &self.message
    }

    /// Ends the stream: the buffered tool calls join the message in increasing order of
    /// index, and the message is returned.
    pub fn finalize(&mut self) -> (r: AssistantMessage)
        ensures
            final(self)@ == finalize_step(old(self)@),
            r@ == final(self)@.message,
    {
        broadcast use vstd::std_specs::hash::group_hash_axioms;
        let mut bufs: std::collections::HashMap<usize, ToolCallBuffer> = std::collections::HashMap::new();
        std::mem::swap(&mut bufs, &mut self.tool_buffers);
        let ghost bv = buffer_views(bufs@);
        let ghost c0 = self@.message.content;
        let ghost s0 = self@;
        assert(s0.buffers =~= Map::<usize, ToolCallBufferV>::empty());
        let found = buffer_indices(&bufs);
        let order = sort_indices(&found);
        proof {
            assert(bv.dom() =~= bufs@.dom());
            lemma_key_order(bv, order@);
        }
        let mut i: usize = 0;
        while i < order.len()
            invariant
                i <= order@.len(),
                order@ == key_order(bv),
                order@.to_set() == bufs@.dom(),
                bv == buffer_views(bufs@),
                bv == old(self)@.buffers,
                c0 == old(self)@.message.content,
                self@.buffers == s0.buffers,
                self@.model_id == s0.model_id,
                self@.started == s0.started,
                self@.message == (AssistantMessageV { content: self@.message.content, ..s0.message }),
                s0.message == old(self)@.message,
                s0.model_id == old(self)@.model_id,
                s0.started == old(self)@.started,
                assistant_blocks_view(self.message.content@) == c0 + buffered_calls(bv).take(i as int),
            decreases order@.len() - i,
        {
            let k = order[i];
            assert(order@.to_set().contains(k));
            match bufs.get(&k) {
                Some(b) => {
                    let arguments = match Json::parse(b.arguments.as_str()) {
                        Some(v) => v,
                        None => Json::Str(b.arguments.clone()),
                    };
                    let ghost prev = assistant_blocks_view(self.message.content@);
                    self.message.content.push(AssistantContentBlock::ToolUse(ToolCall {
                        id: b.id.clone(),
                        name: b.name.clone(),
                        arguments,
                    }));
                    proof {
                        assert(bv[k] == b@);
                        assert(buffered_calls(bv)[i as int] == buffered_call(bv[k]));
                        assert(buffered_calls(bv).take(i + 1) =~= buffered_calls(bv).take(i as int).push(buffered_calls(bv)[i as int]));
                        assert(assistant_blocks_view(self.message.content@) =~= prev.push(buffered_calls(bv)[i as int]));
                    }
                },
                None => {},
            }
            i = i + 1;
        }
        assert(buffered_calls(bv).take(order@.len() as int) =~= buffered_calls(bv));
        assert(self@.buffers =~= Map::<usize, ToolCallBufferV>::empty());
        self.message.clone()
    }
}

/// Handles one data chunk of a streamed answer: updates the state and returns the stream
/// events it yields. Data that is not JSON yields nothing.
pub fn parse_openai_delta(data: &str, state: &mut OpenAIParseState) -> (r: Vec<StreamEvent>)
    ensures
        (final(state)@, events_view(r@)) == openai_step(data@, old(state)@),
{
    match Json::parse(data) {
        Some(json) => apply_openai_json(&json, state),
        None => {
            let evs: Vec<StreamEvent> = Vec::new();
            assert(events_view(evs@) =~= Seq::<StreamEventV>::empty());
            evs
        },
    }
}

/// Handles one chunk whose data has been read as JSON: updates the state and returns the
/// stream events it yields.
pub fn apply_openai_json(json: &Json, state: &mut OpenAIParseState) -> (r: Vec<StreamEvent>)
    ensures
        (final(state)@, events_view(r@)) == openai_json_step(json@, old(state)@),
{
    let mut evs: Vec<StreamEvent> = Vec::new();
    assert(events_view(evs@) =~= Seq::<StreamEventV>::empty());
    match json.get("usage") {
        Some(u) => {
            if !u.is_null() {
                let input = match u.u64_at("prompt_tokens") { Some(n) => n, None => 0 };
                let output = match u.u64_at("completion_tokens") { Some(n) => n, None => 0 };
                state.message.usage = Usage {
                    input_tokens: input,
                    output_tokens: output,
                    cache_read_tokens: 0,
                    cache_write_tokens: 0,
                };
            }
        },
        None => {},
    }
    let choices = match json.get("choices") {
        Some(cv) => match cv.as_array() {
            Some(c) => c,
            None => return evs,
        },
        None => return evs,
    };
    if choices.len() == 0 {
        return evs;
    }
    let choice = &choices[0];
    let delta = match choice.get("delta") {
        Some(d) => d,
        None => return evs,
    };
    if !state.started {
        state.started = true;
        evs.push(StreamEvent::Start(AssistantMessage::empty(state.model_id.clone())));
    }
    match choice.get("finish_reason") {
        Some(r) => {
            if !r.is_null() {
                let s = match r.as_str() { Some(s) => s, None => "" };
                proof { reveal_strlit(""); assert(""@ =~= Seq::<char>::empty()); }
                state.message.stop_reason = finish_reason_exec(s);
            }
        },
        None => {},
    }
    match delta.get("content") {
        Some(c) => match c.as_str() {
            Some(t) => {
                if !t.is_empty() {
                    crate::anthropic::append_text_exec(&mut state.message.content, t);
                    evs.push(StreamEvent::TextDelta { index: 0, delta: owned(t) });
                }
            },
            None => {},
        },
        None => {},
    }
    match delta.get("tool_calls") {
        Some(tv) => match tv.as_array() {
            Some(ds) => {
                tool_deltas_exec(ds, &mut state.tool_buffers, &mut evs);
            },
            None => {},
        },
        None => {},
    }
    evs
}

} // verus!

verus! {

/// Handles one event of the stream: data `[DONE]` (around whitespace) ends it with the
/// gathered message (a `Done` event); any other data goes to `parse_openai_delta`.
pub fn on_openai_event(data: &str, state: &mut OpenAIParseState) -> (r: Vec<StreamEvent>)
    ensures
        trim_spec(data@) == "[DONE]"@ ==> final(state)@ == finalize_step(old(state)@)
            && events_view(r@) == seq![StreamEventV::Done(finalize_step(old(state)@).message)],
        trim_spec(data@) != "[DONE]"@ ==> (final(state)@, events_view(r@)) == openai_step(data@, old(state)@),
{
    let t = trim(data);
    if str_eq(t.as_str(), "[DONE]") {
        let msg = state.finalize();
        let mut evs: Vec<StreamEvent> = Vec::new();
        evs.push(StreamEvent::Done(msg));
        assert(events_view(evs@) =~= seq![StreamEventV::Done(finalize_step(old(state)@).message)]);
        evs
    } else {
        parse_openai_delta(data, state)
    }
}

// ---------------------------------------------------------------------------
// Laws of the gatherer
// ---------------------------------------------------------------------------

proof fn lemma_tool_deltas_facts(ds: Seq<JsonVal>, bufs: Map<usize, ToolCallBufferV>)
    ensures
        delta_text(tool_deltas_step(ds, bufs).1) == Seq::<char>::empty(),
    decreases ds.len(),
{
    lemma_no_events();
    if ds.len() > 0 {
        lemma_tool_deltas_facts(ds.drop_last(), bufs);
        let (b1, e1) = tool_deltas_step(ds.drop_last(), bufs);
        let d = ds.last();
        let index = u64_or_zero(d.at("index"@)) as usize;
        let e2 = match opt_as_str(d.pointer(seq!["function"@, "arguments"@])) {
            Some(a) => seq![StreamEventV::ToolCallDelta { index, delta: a }],
            None => Seq::<StreamEventV>::empty(),
        };
        if let Some(a) = opt_as_str(d.pointer(seq!["function"@, "arguments"@])) {
            lemma_one_event(StreamEventV::ToolCallDelta { index, delta: a });
        }
        lemma_delta_text_concat(e1, e2);
        assert(Seq::<char>::empty() + Seq::<char>::empty() =~= Seq::<char>::empty());
    }
}

/// The number of `Start` events among `evs`.
pub open spec fn count_starts(evs: Seq<StreamEventV>) -> nat
    decreases evs.len(),
{
    if evs.len() == 0 {
        0
    } else {
        count_starts(evs.drop_last()) + if evs.last() is Start { 1nat } else { 0nat }
    }
}

/// The chunk's data is JSON whose first choice carries a `delta`.
pub open spec fn has_delta(data: Seq<char>) -> bool {
    &&& json_parse(data) matches Some(json)
    &&& json.get("choices"@) matches Some(cv)
    &&& cv.as_array() matches Some(choices)
    &&& choices.len() > 0
    &&& choices[0].get("delta"@) is Some
}

/// What one event of the stream does: `[DONE]` ends it (a `Done` event), any other data is
/// a chunk.
pub open spec fn event_step(data: Seq<char>, st: OpenAIStateV) -> (OpenAIStateV, Seq<StreamEventV>) {
    if trim_spec(data) == "[DONE]"@ {
        (finalize_step(st), seq![StreamEventV::Done(finalize_step(st).message)])
    } else {
        openai_step(data, st)
    }
}

/// The events of a stream handled one after another, and the state after the last.
pub open spec fn openai_run(events: Seq<Seq<char>>, st: OpenAIStateV) -> (OpenAIStateV, Seq<StreamEventV>)
    decreases events.len(),
{
    if events.len() == 0 {
        (st, Seq::empty())
    } else {
        let (s1, e1) = openai_run(events.drop_last(), st);
        let (s2, e2) = event_step(events.last(), s1);
        (s2, e1 + e2)
    }
}

proof fn lemma_count_concat(a: Seq<StreamEventV>, b: Seq<StreamEventV>)
    ensures
        count_starts(a + b) == count_starts(a) + count_starts(b),
    decreases b.len(),
{
    if b.len() == 0 {
        assert(a + b =~= a);
    } else {
        lemma_count_concat(a, b.drop_last());
        assert((a + b).drop_last() =~= a + b.drop_last());
        assert((a + b).last() == b.last());
    }
}

proof fn lemma_count_one(e: StreamEventV)
    ensures
        count_starts(seq![e]) == if e is Start { 1nat } else { 0nat },
{
    assert(seq![e].drop_last() =~= Seq::<StreamEventV>::empty());
    assert(seq![e].last() == e);
    assert(count_starts(Seq::<StreamEventV>::empty()) == 0);
}

proof fn lemma_tool_deltas_no_start(ds: Seq<JsonVal>, bufs: Map<usize, ToolCallBufferV>)
    ensures
        forall|i: int| 0 <= i < tool_deltas_step(ds, bufs).1.len() ==> !(#[trigger] tool_deltas_step(ds, bufs).1[i] is Start),
        count_starts(tool_deltas_step(ds, bufs).1) == 0,
    decreases ds.len(),
{
    if ds.len() > 0 {
        lemma_tool_deltas_no_start(ds.drop_last(), bufs);
        let (b1, e1) = tool_deltas_step(ds.drop_last(), bufs);
        let d = ds.last();
        let index = u64_or_zero(d.at("index"@)) as usize;
        let e2 = match opt_as_str(d.pointer(seq!["function"@, "arguments"@])) {
            Some(a) => seq![StreamEventV::ToolCallDelta { index, delta: a }],
            None => Seq::<StreamEventV>::empty(),
        };
        assert(tool_deltas_step(ds, bufs).1 == e1 + e2);
        assert forall|i: int| 0 <= i < (e1 + e2).len() implies !(#[trigger] (e1 + e2)[i] is Start) by {
            if i < e1.len() {
                assert((e1 + e2)[i] == e1[i]);
            } else {
                assert((e1 + e2)[i] == e2[i - e1.len()]);
            }
        }
        lemma_count_concat(e1, e2);
        if let Some(a) = opt_as_str(d.pointer(seq!["function"@, "arguments"@])) {
            lemma_count_one(StreamEventV::ToolCallDelta { index, delta: a });
        }
    }
}

/// A chunk yields a `Start` event exactly when it is the first chunk with a delta: the
/// state was not started and the chunk carries a delta. That event comes first, names the
/// model, and leaves the state started; no other event of the chunk is a `Start`.
pub proof fn law_start_only_on_first_delta(data: Seq<char>, st: OpenAIStateV)
    ensures
        ({
            let (st2, evs) = openai_step(data, st);
            &&& st2.model_id == st.model_id
            &&& st2.started == (st.started || has_delta(data))
            &&& count_starts(evs) == if !st.started && has_delta(data) { 1nat } else { 0nat }
            &&& forall|i: int| 0 <= i < evs.len() && (#[trigger] evs[i]) is Start
                ==> i == 0 && evs[i] == StreamEventV::Start(AssistantMessageV::empty(st.model_id))
        }),
{
    if let Some(json) = json_parse(data) {
        if let Some(cv) = json.get("choices"@) {
            if let Some(choices) = cv.as_array() {
                if choices.len() > 0 {
                    if let Some(delta) = choices[0].get("delta"@) {
                        let e0: Seq<StreamEventV> = if !st.started {
                            seq![StreamEventV::Start(AssistantMessageV::empty(st.model_id))]
                        } else {
                            Seq::empty()
                        };
                        lemma_count_one(StreamEventV::Start(AssistantMessageV::empty(st.model_id)));
                        let e2 = match delta.get("tool_calls"@) {
                            Some(tv) => match tv.as_array() {
                                Some(ds) => tool_deltas_step(ds, st.buffers).1,
                                None => Seq::<StreamEventV>::empty(),
                            },
                            None => Seq::<StreamEventV>::empty(),
                        };
                        if let Some(tv) = delta.get("tool_calls"@) {
                            if let Some(ds) = tv.as_array() {
                                lemma_tool_deltas_no_start(ds, st.buffers);
                            }
                        }
                        let mut e1: Seq<StreamEventV> = Seq::empty();
                        if let Some(cc) = delta.get("content"@) {
                            if let Some(tt) = cc.as_str() {
                                if tt.len() > 0 {
                                    e1 = seq![StreamEventV::TextDelta { index: 0, delta: tt }];
                                    lemma_count_one(StreamEventV::TextDelta { index: 0, delta: tt });
                                }
                            }
                        }
                        let evs = openai_step(data, st).1;
                        assert(evs == e0 + e1 + e2);
                        assert(forall|i: int| 0 <= i < e2.len() ==> !(#[trigger] e2[i] is Start));
                        lemma_count_concat(e0, e1);
                        lemma_count_concat(e0 + e1, e2);
                        assert forall|i: int| 0 <= i < evs.len() && (#[trigger] evs[i]) is Start
                            implies i == 0 && evs[i] == StreamEventV::Start(AssistantMessageV::empty(st.model_id)) by {
                            let e01 = e0 + e1;
                            if i < e01.len() {
                                assert(evs[i] == e01[i]);
                                if i < e0.len() {
                                    assert(e01[i] == e0[i]);
                                } else {
                                    assert(e01[i] == e1[i - e0.len()]);
                                }
                            } else {
                                assert(evs[i] == e2[i - e01.len()]);
                            }
                        }
                    }
                }
            }
        }
    }
}

/// Over any stream, at most one `Start` event is yielded: exactly one when the stream
/// moves a state that was not started to started, none otherwise. A started state stays
/// started and keeps its model.
pub proof fn law_at_most_one_start(events: Seq<Seq<char>>, st: OpenAIStateV)
    ensures
        ({
            let (st2, evs) = openai_run(events, st);
            &&& st2.model_id == st.model_id
            &&& (st.started ==> st2.started)
            &&& count_starts(evs) == if !st.started && st2.started { 1nat } else { 0nat }
            &&& count_starts(evs) <= 1
        }),
    decreases events.len(),
{
    if events.len() == 0 {
        reveal_with_fuel(count_starts, 1);
    } else {
        law_at_most_one_start(events.drop_last(), st);
        let (s1, e1) = openai_run(events.drop_last(), st);
        let (s2, e2) = event_step(events.last(), s1);
        lemma_count_concat(e1, e2);
        if trim_spec(events.last()) == "[DONE]"@ {
            lemma_count_one(StreamEventV::Done(finalize_step(s1).message));
        } else {
            law_start_only_on_first_delta(events.last(), s1);
        }
    }
}

/// Each chunk adds to the message's text exactly the text deltas it yields.
pub proof fn law_text_is_concatenated_deltas(data: Seq<char>, st: OpenAIStateV)
    ensures
        text_of_blocks(openai_step(data, st).0.message.content) == text_of_blocks(st.message.content)
            + delta_text(openai_step(data, st).1),
{
    lemma_no_events();
    let c = st.message.content;
    assert(text_of_blocks(c) + Seq::<char>::empty() =~= text_of_blocks(c));
    if let Some(json) = json_parse(data) {
        if let Some(cv) = json.get("choices"@) {
            if let Some(choices) = cv.as_array() {
                if choices.len() > 0 {
                    if let Some(delta) = choices[0].get("delta"@) {
                        let e0: Seq<StreamEventV> = if !st.started {
                            seq![StreamEventV::Start(AssistantMessageV::empty(st.model_id))]
                        } else {
                            Seq::empty()
                        };
                        lemma_one_event(StreamEventV::Start(AssistantMessageV::empty(st.model_id)));
                        assert(delta_text(e0) == Seq::<char>::empty());
                        let (bufs, e2) = match delta.get("tool_calls"@) {
                            Some(tv) => match tv.as_array() {
                                Some(ds) => tool_deltas_step(ds, st.buffers),
                                None => (st.buffers, Seq::<StreamEventV>::empty()),
                            },
                            None => (st.buffers, Seq::<StreamEventV>::empty()),
                        };
                        if let Some(tv) = delta.get("tool_calls"@) {
                            if let Some(ds) = tv.as_array() {
                                lemma_tool_deltas_facts(ds, st.buffers);
                            }
                        }
                        assert(delta_text(e2) == Seq::<char>::empty());
                        let mut t: Seq<char> = Seq::empty();
                        let mut e1: Seq<StreamEventV> = Seq::empty();
                        if let Some(cc) = delta.get("content"@) {
                            if let Some(tt) = cc.as_str() {
                                if tt.len() > 0 {
                                    t = tt;
                                    e1 = seq![StreamEventV::TextDelta { index: 0, delta: tt }];
                                    lemma_one_event(StreamEventV::TextDelta { index: 0, delta: tt });
                                    lemma_append_text(c, tt);
                                }
                            }
                        }
                        assert(delta_text(e1) == t);
                        lemma_delta_text_concat(e0, e1);
                        lemma_delta_text_concat(e0 + e1, e2);
                        assert(Seq::<char>::empty() + t + Seq::<char>::empty() =~= t);
                    }
                }
            }
        }
    }
}

} // verus!

verus! {

// ---------------------------------------------------------------------------
// The request body
// ---------------------------------------------------------------------------

use crate::json::{member, object, array};
use crate::text::{seq_concat, concat_strings, strings_view};
use crate::types::{
    Message, MessageV, ContentBlock, ToolSpecV, LlmContext, Model, StreamOptions,
    messages_view, tool_specs_view, blocks_view, opt_string_view,
};

/// Where requests go when the model names no base URL.
pub const OPENAI_API_URL: &'static str = "https://api.openai.com/v1/chat/completions";

pub open spec fn tool_call_json(tc: ToolCallV) -> JsonVal {
    obj(seq![
        ("id"@, jstr(tc.id)),
        ("type"@, jstr("function"@)),
        ("function"@, obj(seq![("name"@, jstr(tc.name)), ("arguments"@, jstr(json_text(tc.arguments)))])),
    ])
}

/// One message as OpenAI expects it: texts joined into one string; an assistant message
/// carries its tool calls (arguments as JSON text) where it has any; a tool result has role `tool`.
pub open spec fn message_json(m: MessageV) -> JsonVal {
    match m {
        MessageV::User(u) => obj(seq![("role"@, jstr("user"@)), ("content"@, jstr(seq_concat(u.content)))]),
        MessageV::Assistant(a) => {
            let calls = tool_calls_of_blocks(a.content);
            let base = seq![("role"@, jstr("assistant"@)), ("content"@, jstr(text_of_blocks(a.content)))];
            if calls.len() > 0 {
                obj(base.push(("tool_calls"@, JsonVal::Array(calls.map_values(|tc: ToolCallV| tool_call_json(tc))))))
            } else {
                obj(base)
            }
        },
        MessageV::ToolResult(tr) => obj(seq![
            ("role"@, jstr("tool"@)),
            ("tool_call_id"@, jstr(tr.tool_call_id)),
            ("content"@, jstr(seq_concat(tr.content))),
        ]),
    }
}

pub open spec fn tool_json(t: ToolSpecV) -> JsonVal {
    obj(seq![
        ("type"@, jstr("function"@)),
        ("function"@, obj(seq![
            ("name"@, jstr(t.name)),
            ("description"@, jstr(t.description)),
            ("parameters"@, t.parameters),
        ])),
    ])
}

/// The texts of the blocks joined together.
fn joined_text(bs: &Vec<ContentBlock>) -> (r: String)
    ensures
        r@ == seq_concat(blocks_view(bs@)),
{
    let mut parts: Vec<String> = Vec::new();
    let mut i: usize = 0;
    while i < bs.len()
        invariant
            i <= bs@.len(),
            strings_view(parts@) == blocks_view(bs@).take(i as int),
        decreases bs@.len() - i,
    {
        let ghost prev = strings_view(parts@);
        match &bs[i] {
            ContentBlock::Text { text } => {
                let t = text.clone();
                parts.push(t);
                assert(strings_view(parts@) =~= prev.push(bs@[i as int]@));
            },
        }
        assert(blocks_view(bs@).take(i + 1) =~= blocks_view(bs@).take(i as int).push(bs@[i as int]@));
        i = i + 1;
    }
    assert(blocks_view(bs@).take(bs@.len() as int) =~= blocks_view(bs@));
    concat_strings(&parts)
}

fn tool_call_exec(tc: &ToolCall) -> (r: Json)
    ensures
        r@ == tool_call_json(tc@),
{
    let mut f: Vec<(String, Json)> = Vec::new();
    f.push(member("name", Json::string(tc.name.as_str())));
    let args_text = tc.arguments.to_json_string();
    f.push(member("arguments", Json::Str(args_text)));
    let function = object(f);
    let ghost fv = obj(seq![("name"@, jstr(tc.name@)), ("arguments"@, jstr(json_text(tc.arguments@)))]);
    assert(function@->Object_0 =~= fv->Object_0);
    let mut m: Vec<(String, Json)> = Vec::new();
    m.push(member("id", Json::string(tc.id.as_str())));
    m.push(member("type", Json::string("function")));
    m.push(member("function", function));
    let r = object(m);
    assert(r@->Object_0 =~= tool_call_json(tc@)->Object_0);
    r
}

/// The members of the request body, in order: model, max_tokens, stream, stream_options
/// (asking for usage), messages (the system prompt first where there is one), and where
/// present the temperature and the tools.
pub open spec fn request_members(
    model_id: Seq<char>,
    max_tokens: u32,
    messages: Seq<MessageV>,
    system_prompt: Option<Seq<char>>,
    temperature: Option<Seq<char>>,
    tools: Seq<ToolSpecV>,
) -> Seq<(Seq<char>, JsonVal)> {
    let converted = messages.map_values(|m: MessageV| message_json(m));
    let all = match system_prompt {
        Some(sp) => seq![obj(seq![("role"@, jstr("system"@)), ("content"@, jstr(sp))])] + converted,
        None => converted,
    };
    let base = seq![
        ("model"@, jstr(model_id)),
        ("max_tokens"@, JsonVal::UInt(max_tokens as u64)),
        ("stream"@, JsonVal::Bool(true)),
        ("stream_options"@, obj(seq![("include_usage"@, JsonVal::Bool(true))])),
        ("messages"@, JsonVal::Array(all)),
    ];
    let with_temp = match temperature {
        Some(t) => base.push(("temperature"@, JsonVal::Float(t))),
        None => base,
    };
    if tools.len() > 0 {
        with_temp.push(("tools"@, JsonVal::Array(tools.map_values(|t: ToolSpecV| tool_json(t)))))
    } else {
        with_temp
    }
}

/// The provider for OpenAI's chat completions API: it builds the request; the HTTP call
/// and the event stream are driven from outside with `on_openai_event`.
pub struct OpenAIProvider;

impl OpenAIProvider {
    /// Adds one message, as OpenAI expects it, to `out`.
    pub fn convert_message(&self, msg: &Message, out: &mut Vec<Json>)
        ensures
            json_vals(final(out)@) == json_vals(old(out)@).push(message_json(msg@)),
    {
        let ghost before = json_vals(out@);
        let j = match msg {
            Message::User(u) => {
                let mut m: Vec<(String, Json)> = Vec::new();
                m.push(member("role", Json::string("user")));
                m.push(member("content", Json::Str(joined_text(&u.content))));
                let r = object(m);
                assert(r@->Object_0 =~= message_json(msg@)->Object_0);
                r
            },
            Message::Assistant(a) => {
                let text = a.text_output();
                let calls = a.tool_calls();
                let mut tcs: Vec<Json> = Vec::new();
                let mut i: usize = 0;
                while i < calls.len()
                    invariant
                        i <= calls@.len(),
                        calls@.map_values(|t: &ToolCall| t@) == tool_calls_of_blocks(a@.content),
                        json_vals(tcs@) == calls@.map_values(|t: &ToolCall| t@).take(i as int).map_values(|tc: ToolCallV| tool_call_json(tc)),
                    decreases calls@.len() - i,
                {
                    let ghost prev = json_vals(tcs@);
                    let j = tool_call_exec(calls[i]);
                    tcs.push(j);
                    assert(json_vals(tcs@) =~= prev.push(j@));
                    assert(calls@.map_values(|t: &ToolCall| t@).take(i + 1).map_values(|tc: ToolCallV| tool_call_json(tc))
                        =~= calls@.map_values(|t: &ToolCall| t@).take(i as int).map_values(|tc: ToolCallV| tool_call_json(tc)).push(tool_call_json(calls@[i as int]@)));
                    i = i + 1;
                }
                assert(calls@.map_values(|t: &ToolCall| t@).take(calls@.len() as int) =~= calls@.map_values(|t: &ToolCall| t@));
                let n = calls.len();
                let mut m: Vec<(String, Json)> = Vec::new();
                m.push(member("role", Json::string("assistant")));
                m.push(member("content", Json::Str(text)));
                if n > 0 {
                    m.push(member("tool_calls", array(tcs)));
                }
                let r = object(m);
                assert(r@->Object_0 =~= message_json(msg@)->Object_0);
                r
            },
            Message::ToolResult(tr) => {
                let mut m: Vec<(String, Json)> = Vec::new();
                m.push(member("role", Json::string("tool")));
                m.push(member("tool_call_id", Json::string(tr.tool_call_id.as_str())));
                m.push(member("content", Json::Str(joined_text(&tr.content))));
                let r = object(m);
                assert(r@->Object_0 =~= message_json(msg@)->Object_0);
                r
            },
        };
        out.push(j);
        assert(json_vals(out@) =~= before.push(message_json(msg@)));
    }

    /// The body of a streamed request. `max_tokens` comes from the options where they set it,
    /// else from the model.
    pub fn build_request(&self, model: &Model, context: &LlmContext, options: &StreamOptions) -> (r: Json)
        ensures
            r@ == obj(request_members(
                model.id@,
                match options.max_tokens { Some(n) => n, None => model.max_tokens },
                messages_view(context.messages@),
                opt_string_view(context.system_prompt),
                opt_string_view(options.temperature),
                tool_specs_view(context.tools@),
            )),
    {
        let mut messages: Vec<Json> = Vec::new();
        let ghost converted = messages_view(context.messages@).map_values(|m: MessageV| message_json(m));
        let ghost head: Seq<JsonVal> = match opt_string_view(context.system_prompt) {
            Some(sp) => seq![obj(seq![("role"@, jstr("system"@)), ("content"@, jstr(sp))])],
            None => Seq::empty(),
        };
        match &context.system_prompt {
            Some(sp) => {
                let mut m: Vec<(String, Json)> = Vec::new();
                m.push(member("role", Json::string("system")));
                m.push(member("content", Json::string(sp.as_str())));
                let sys = object(m);
                assert(sys@->Object_0 =~= seq![("role"@, jstr("system"@)), ("content"@, jstr(sp@))]);
                messages.push(sys);
            },
            None => {},
        }
        assert(json_vals(messages@) =~= head);
        let mut i: usize = 0;
        while i < context.messages.len()
            invariant
                i <= context.messages@.len(),
                json_vals(messages@) == head + converted.take(i as int),
                converted == messages_view(context.messages@).map_values(|m: MessageV| message_json(m)),
            decreases context.messages@.len() - i,
        {
            self.convert_message(&context.messages[i], &mut messages);
            assert(converted.take(i + 1) =~= converted.take(i as int).push(converted[i as int]));
            assert(head + converted.take(i + 1) =~= (head + converted.take(i as int)).push(converted[i as int]));
            i = i + 1;
        }
        assert(converted.take(context.messages@.len() as int) =~= converted);
        let max_tokens = match options.max_tokens {
            Some(n) => n,
            None => model.max_tokens,
        };
        let mut so: Vec<(String, Json)> = Vec::new();
        so.push(member("include_usage", Json::Bool(true)));
        let stream_options = object(so);
        assert(stream_options@->Object_0 =~= seq![("include_usage"@, JsonVal::Bool(true))]);
        let mut m: Vec<(String, Json)> = Vec::new();
        m.push(member("model", Json::string(model.id.as_str())));
        m.push(member("max_tokens", Json::UInt(max_tokens as u64)));
        m.push(member("stream", Json::Bool(true)));
        m.push(member("stream_options", stream_options));
        m.push(member("messages", array(messages)));
        match &options.temperature {
            Some(t) => {
                m.push(member("temperature", Json::Float(t.clone())));
            },
            None => {},
        }
        if context.tools.len() > 0 {
            let mut tools: Vec<Json> = Vec::new();
            let mut k: usize = 0;
            while k < context.tools.len()
                invariant
                    k <= context.tools@.len(),
                    json_vals(tools@) == tool_specs_view(context.tools@).take(k as int).map_values(|t: ToolSpecV| tool_json(t)),
                decreases context.tools@.len() - k,
            {
                let ghost prev = json_vals(tools@);
                let t = &context.tools[k];
                let mut fm: Vec<(String, Json)> = Vec::new();
                fm.push(member("name", Json::string(t.name.as_str())));
                fm.push(member("description", Json::string(t.description.as_str())));
                fm.push(member("parameters", t.parameters.clone()));
                let function = object(fm);
                let mut tm: Vec<(String, Json)> = Vec::new();
                tm.push(member("type", Json::string("function")));
                tm.push(member("function", function));
                let j = object(tm);
                assert(function@->Object_0 =~= seq![("name"@, jstr(t.name@)), ("description"@, jstr(t.description@)), ("parameters"@, t.parameters@)]);
                assert(j@->Object_0 =~= tool_json(t@)->Object_0);
                tools.push(j);
                assert(json_vals(tools@) =~= prev.push(j@));
                assert(tool_specs_view(context.tools@).take(k + 1).map_values(|t: ToolSpecV| tool_json(t))
                    =~= tool_specs_view(context.tools@).take(k as int).map_values(|t: ToolSpecV| tool_json(t)).push(tool_json(context.tools@[k as int]@)));
                k = k + 1;
            }
            assert(tool_specs_view(context.tools@).take(context.tools@.len() as int) =~= tool_specs_view(context.tools@));
            m.push(member("tools", array(tools)));
        }
        let r = object(m);
        assert(r@->Object_0 =~= request_members(
            model.id@,
            max_tokens,
            messages_view(context.messages@),
            opt_string_view(context.system_prompt),
            opt_string_view(options.temperature),
            tool_specs_view(context.tools@),
        ));
        r
    }

    /// The URL of the request: the model's base URL, else OpenAI's.
    pub fn request_url(&self, model: &Model) -> (r: String)
        ensures
            r@ == match opt_string_view(model.base_url) {
                Some(u) => u,
                None => OPENAI_API_URL@,
            },
    {
        match &model.base_url {
            Some(u) => u.clone(),
            None => owned(OPENAI_API_URL),
        }
    }
}

} // verus!

verus! {

// ---------------------------------------------------------------------------
// Laws of the request body and of gathering tool calls
// ---------------------------------------------------------------------------

use crate::types::ToolResultMessageV;

/// A tool result goes to OpenAI as a message of role `tool` that names the call it answers
/// by that call's id and carries the result's texts joined into one string.
pub proof fn law_tool_result_answers_its_call(tr: ToolResultMessageV)
    ensures
        ({
            let j = message_json(MessageV::ToolResult(tr));
            &&& j.at("role"@) == JsonVal::Str("tool"@)
            &&& j.at("tool_call_id"@) == JsonVal::Str(tr.tool_call_id)
            &&& j.at("content"@) == JsonVal::Str(seq_concat(tr.content))
        }),
{
    reveal_strlit("role");
    reveal_strlit("content");
    reveal_strlit("tool_call_id");
    reveal_with_fuel(crate::json::entries_get, 4);
    assert("role"@.len() != "tool_call_id"@.len());
    assert("role"@.len() != "content"@.len());
    assert("tool_call_id"@.len() != "content"@.len());
}

/// A user message goes to OpenAI with role `user` and its texts joined into one string.
/// An assistant message goes with role `assistant`, the text of its text blocks joined as
/// `content`, and, where it makes tool calls, a `tool_calls` array with one entry per
/// call, in order: the call's id, type `function`, and the call's name with its arguments
/// written as JSON text; without tool calls there is no `tool_calls` member.
pub proof fn law_messages_carry_their_calls(u: crate::types::UserMessageV, a: AssistantMessageV)
    ensures
        ({
            let j = message_json(MessageV::User(u));
            &&& j.at("role"@) == JsonVal::Str("user"@)
            &&& j.at("content"@) == JsonVal::Str(seq_concat(u.content))
        }),
        ({
            let j = message_json(MessageV::Assistant(a));
            let calls = tool_calls_of_blocks(a.content);
            &&& j.at("role"@) == JsonVal::Str("assistant"@)
            &&& j.at("content"@) == JsonVal::Str(text_of_blocks(a.content))
            &&& (calls.len() == 0 ==> j.get("tool_calls"@) is None)
            &&& (calls.len() > 0 ==> (j.at("tool_calls"@) matches JsonVal::Array(ts)
                && ts.len() == calls.len()
                && forall|i: int| 0 <= i < ts.len() ==> {
                    &&& (#[trigger] ts[i]).at("id"@) == JsonVal::Str(calls[i].id)
                    &&& ts[i].at("type"@) == JsonVal::Str("function"@)
                    &&& ts[i].at("function"@).at("name"@) == JsonVal::Str(calls[i].name)
                    &&& ts[i].at("function"@).at("arguments"@) == JsonVal::Str(json_text(calls[i].arguments))
                }))
        }),
{
    reveal_strlit("role");
    reveal_strlit("content");
    reveal_strlit("tool_calls");
    reveal_strlit("id");
    reveal_strlit("type");
    reveal_strlit("function");
    reveal_strlit("name");
    reveal_strlit("arguments");
    reveal_with_fuel(crate::json::entries_get, 4);
    assert("role"@.len() != "content"@.len());
    assert("role"@.len() != "tool_calls"@.len());
    assert("content"@.len() != "tool_calls"@.len());
    assert("id"@.len() != "type"@.len());
    assert("id"@.len() != "function"@.len());
    assert("type"@.len() != "function"@.len());
    assert("name"@.len() != "arguments"@.len());
}

/// `b` is the tool call that ending the stream makes of buffer `buf`: its id and name,
/// and as arguments the buffer's text read as JSON where it is JSON, else that text as a
/// JSON string.
pub open spec fn call_made_of(b: AssistantBlockV, buf: ToolCallBufferV) -> bool {
    &&& b matches AssistantBlockV::ToolUse(tc)
    &&& tc.id == buf.id
    &&& tc.name == buf.name
    &&& (json_parse(buf.arguments) matches Some(v) ==> tc.arguments == v)
    &&& (json_parse(buf.arguments) is None ==> tc.arguments == JsonVal::Str(buf.arguments))
}

proof fn lemma_largest_exists(s: Set<usize>)
    requires
        s.finite(),
        s.len() > 0,
    ensures
        exists|m: usize| s.contains(m) && forall|y: usize| s.contains(y) ==> y <= m,
    decreases s.len(),
{
    let x = s.choose();
    let r = s.remove(x);
    if r.len() == 0 {
        assert forall|y: usize| s.contains(y) implies y <= x by {
            if y != x {
                assert(r.contains(y));
            }
        }
    } else {
        lemma_largest_exists(r);
        let m = choose|m: usize| r.contains(m) && forall|y: usize| r.contains(y) ==> y <= m;
        if x <= m {
            assert forall|y: usize| s.contains(y) implies y <= m by {
                if y != x {
                    assert(r.contains(y));
                }
            }
        } else {
            assert forall|y: usize| s.contains(y) implies y <= x by {
                if y != x {
                    assert(r.contains(y));
                }
            }
        }
    }
}

proof fn lemma_increasing_exists(s: Set<usize>)
    requires
        s.finite(),
    ensures
        exists|q: Seq<usize>| increasing(q) && q.to_set() == s,
    decreases s.len(),
{
    if s.len() == 0 {
        assert(s =~= Set::<usize>::empty());
        let q = Seq::<usize>::empty();
        assert(q.to_set() =~= s);
        assert(increasing(q) && q.to_set() == s);
    } else {
        lemma_largest_exists(s);
        let m = choose|m: usize| s.contains(m) && forall|y: usize| s.contains(y) ==> y <= m;
        let r = s.remove(m);
        lemma_increasing_exists(r);
        let q = choose|q: Seq<usize>| increasing(q) && q.to_set() == r;
        let q2 = q.push(m);
        assert forall|i: int, j: int| 0 <= i < j < q2.len() implies q2[i] < q2[j] by {
            if j == q.len() {
                assert(q.to_set().contains(q[i]));
                assert(r.contains(q[i]));
            } else {
                assert(q2[i] == q[i] && q2[j] == q[j]);
            }
        }
        assert(q2.to_set() =~= s) by {
            assert forall|y: usize| q2.to_set().contains(y) implies s.contains(y) by {
                let k = choose|k: int| 0 <= k < q2.len() && q2[k] == y;
                if k < q.len() {
                    assert(q[k] == y);
                    assert(q.to_set().contains(y));
                }
            }
            assert forall|y: usize| s.contains(y) implies q2.to_set().contains(y) by {
                if y == m {
                    assert(q2[q.len() as int] == m);
                } else {
                    assert(r.contains(y));
                    assert(q.to_set().contains(y));
                    let k = choose|k: int| 0 <= k < q.len() && q[k] == y;
                    assert(q2[k] == y);
                }
            }
        }
        assert(increasing(q2) && q2.to_set() == s);
    }
}

/// An increasing sequence holds each of its indices once: as many as its set has.
proof fn lemma_increasing_len(q: Seq<usize>)
    requires
        increasing(q),
    ensures
        q.to_set().len() == q.len(),
        q.to_set().finite(),
    decreases q.len(),
{
    if q.len() == 0 {
        assert(q.to_set() =~= Set::<usize>::empty());
    } else {
        let p = q.drop_last();
        lemma_increasing_len(p);
        assert(q.to_set() =~= p.to_set().insert(q.last())) by {
            assert forall|y: usize| q.to_set().contains(y) implies p.to_set().insert(q.last()).contains(y) by {
                let k = choose|k: int| 0 <= k < q.len() && q[k] == y;
                if k < p.len() {
                    assert(p[k] == y);
                    assert(p.to_set().contains(y));
                }
            }
            assert forall|y: usize| p.to_set().insert(q.last()).contains(y) implies q.to_set().contains(y) by {
                if y == q.last() {
                    assert(q[q.len() - 1] == y);
                } else {
                    let k = choose|k: int| 0 <= k < p.len() && p[k] == y;
                    assert(q[k] == y);
                }
            }
        }
        assert(!p.to_set().contains(q.last())) by {
            if p.to_set().contains(q.last()) {
                let k = choose|k: int| 0 <= k < p.len() && p[k] == q.last();
                assert(q[k] < q[q.len() - 1]);
            }
        }
    }
}

/// Ending the stream adds to the content so far one tool call per gathered buffer, in
/// increasing order of index, each made of its buffer; the buffers are emptied and the
/// rest of the message and the state stays.
pub proof fn law_finalize_adds_one_call_per_buffer(st: OpenAIStateV)
    requires
        st.buffers.dom().finite(),
    ensures
        ({
            let st2 = finalize_step(st);
            let c0 = st.message.content;
            let c = st2.message.content;
            &&& st2.buffers == Map::<usize, ToolCallBufferV>::empty()
            &&& st2.model_id == st.model_id
            &&& st2.started == st.started
            &&& st2.message == (AssistantMessageV { content: c, ..st.message })
            &&& c.len() == c0.len() + st.buffers.dom().len()
            &&& c.subrange(0, c0.len() as int) == c0
            &&& exists|ks: Seq<usize>| {
                &&& increasing(ks)
                &&& ks.to_set() == st.buffers.dom()
                &&& ks.len() == c.len() - c0.len()
                &&& forall|j: int| 0 <= j < ks.len() ==> call_made_of(#[trigger] c[c0.len() + j], st.buffers[ks[j]])
            }
        }),
{
    lemma_increasing_exists(st.buffers.dom());
    let ks = key_order(st.buffers);
    assert(increasing(ks) && ks.to_set() == st.buffers.dom());
    lemma_increasing_len(ks);
    let c0 = st.message.content;
    let c = finalize_step(st).message.content;
    let calls = buffered_calls(st.buffers);
    assert(c == c0 + calls);
    assert(c.subrange(0, c0.len() as int) =~= c0);
    assert forall|j: int| 0 <= j < ks.len() implies call_made_of(#[trigger] c[c0.len() + j], st.buffers[ks[j]]) by {
        assert(c[c0.len() + j] == calls[j]);
    }
}

/// The first choice of a chunk, if it has one.
pub open spec fn first_choice(json: JsonVal) -> Option<JsonVal> {
    match json.get("choices"@) {
        Some(JsonVal::Array(cs)) => if cs.len() > 0 { Some(cs[0]) } else { None },
        _ => None,
    }
}

/// A chunk with a usage object that is not null sets the prompt and completion token
/// counts it gives (0 for one it does not give) and zeroes the cache counts; a chunk whose
/// first choice carries a delta and a finish reason that is not null sets the stop reason
/// it names (`tool_calls` a tool call, `length` the length limit, anything else a plain
/// stop) and marks the stream started. Without these the usage, stop reason and started
/// flag stay; the model never changes.
pub proof fn law_chunk_sets_usage_and_finish_reason(json: JsonVal, st: OpenAIStateV)
    ensures
        ({
            let (st2, evs) = openai_json_step(json, st);
            let with_delta = first_choice(json) matches Some(c) && c.get("delta"@) is Some;
            &&& st2.model_id == st.model_id
            &&& st2.started == (st.started || with_delta)
            &&& st2.message.usage == match json.get("usage"@) {
                Some(u) => if u is Null {
                    st.message.usage
                } else {
                    Usage {
                        input_tokens: crate::anthropic::given_count(u, "prompt_tokens"@),
                        output_tokens: crate::anthropic::given_count(u, "completion_tokens"@),
                        cache_read_tokens: 0,
                        cache_write_tokens: 0,
                    }
                },
                None => st.message.usage,
            }
            &&& st2.message.stop_reason == match first_choice(json) {
                Some(c) => if c.get("delta"@) is Some {
                    match c.get("finish_reason"@) {
                        Some(JsonVal::Str(r)) => if r == "tool_calls"@ {
                            StopReason::ToolUse
                        } else if r == "length"@ {
                            StopReason::Length
                        } else {
                            StopReason::Stop
                        },
                        Some(JsonVal::Null) => st.message.stop_reason,
                        Some(_) => StopReason::Stop,
                        None => st.message.stop_reason,
                    }
                } else {
                    st.message.stop_reason
                },
                None => st.message.stop_reason,
            }
        }),
{
    reveal_strlit("stop");
    reveal_strlit("tool_calls");
    reveal_strlit("length");
    reveal_strlit("");
    assert("stop"@.len() != "tool_calls"@.len());
    assert("stop"@.len() != "length"@.len());
    assert(""@.len() != "tool_calls"@.len());
    assert(""@.len() != "length"@.len());
    assert(""@.len() != "stop"@.len());
}

/// One more tool-call delta fills the buffer at its `index` (0 where it gives none),
/// opening it empty if it was not open: a string `id` replaces the buffer's id, a string
/// `function.name` replaces its name, a string `function.arguments` is appended to its
/// arguments and yielded as a delta event at that index; what the delta does not give
/// stays. Every other buffer stays as it was.
pub proof fn law_tool_delta_fills_its_buffer(ds: Seq<JsonVal>, d: JsonVal, bufs: Map<usize, ToolCallBufferV>)
    ensures
        ({
            let (b0, e0) = tool_deltas_step(ds, bufs);
            let (b1, e1) = tool_deltas_step(ds.push(d), bufs);
            let i = u64_or_zero(d.at("index"@)) as usize;
            let before = if b0.contains_key(i) { b0[i] } else { empty_buffer() };
            &&& b1.dom() == b0.dom().insert(i)
            &&& forall|k: usize| k != i && b0.contains_key(k) ==> b1[k] == b0[k]
            &&& b1[i].id == match d.at("id"@) {
                JsonVal::Str(s) => s,
                _ => before.id,
            }
            &&& b1[i].name == match d.pointer(seq!["function"@, "name"@]) {
                Some(JsonVal::Str(n)) => n,
                _ => before.name,
            }
            &&& b1[i].arguments == match d.pointer(seq!["function"@, "arguments"@]) {
                Some(JsonVal::Str(a)) => before.arguments + a,
                _ => before.arguments,
            }
            &&& e1 == match d.pointer(seq!["function"@, "arguments"@]) {
                Some(JsonVal::Str(a)) => e0.push(StreamEventV::ToolCallDelta { index: i, delta: a }),
                _ => e0,
            }
        }),
{
    assert(ds.push(d).drop_last() =~= ds);
    assert(ds.push(d).last() == d);
    let (b0, e0) = tool_deltas_step(ds, bufs);
    let i = u64_or_zero(d.at("index"@)) as usize;
    let b2 = with_entry(b0, i);
    let b1 = tool_deltas_step(ds.push(d), bufs).0;
    assert(b1 == b2.insert(i, apply_tool_delta(b2[i], d)));
    assert(b1.dom() =~= b0.dom().insert(i));
    if let Some(JsonVal::Str(a)) = d.pointer(seq!["function"@, "arguments"@]) {
        assert(e0 + seq![StreamEventV::ToolCallDelta { index: i, delta: a }]
            =~= e0.push(StreamEventV::ToolCallDelta { index: i, delta: a }));
    } else {
        assert(e0 + Seq::<StreamEventV>::empty() =~= e0);
    }
}

} // verus!

verus! {

/// The body of a request to OpenAI: the model, the token limit, streaming on with usage
/// reported, and as messages first a system message with the system prompt (where there
/// is one) and then one message per message of the conversation, in order; a temperature
/// goes as given (none without one); the tools go as functions with their name,
/// description and parameter schema, in order (no `tools` member without tools).
pub proof fn law_request_body(
    model_id: Seq<char>,
    max_tokens: u32,
    messages: Seq<MessageV>,
    system_prompt: Option<Seq<char>>,
    temperature: Option<Seq<char>>,
    tools: Seq<ToolSpecV>,
)
    ensures
        ({
            let body = obj(request_members(model_id, max_tokens, messages, system_prompt, temperature, tools));
            let skip: int = if system_prompt is Some { 1 } else { 0 };
            &&& body.at("model"@) == JsonVal::Str(model_id)
            &&& body.at("max_tokens"@) == JsonVal::UInt(max_tokens as u64)
            &&& body.at("stream"@) == JsonVal::Bool(true)
            &&& body.at("stream_options"@).at("include_usage"@) == JsonVal::Bool(true)
            &&& body.at("messages"@) matches JsonVal::Array(ms)
            &&& ms.len() == messages.len() + skip
            &&& forall|i: int| 0 <= i < messages.len() ==> #[trigger] ms[i + skip] == message_json(messages[i])
            &&& (system_prompt matches Some(sp) ==> ms[0].at("role"@) == JsonVal::Str("system"@)
                && ms[0].at("content"@) == JsonVal::Str(sp))
            &&& match temperature {
                Some(t) => body.at("temperature"@) == JsonVal::Float(t),
                None => body.get("temperature"@) is None,
            }
            &&& if tools.len() == 0 {
                body.get("tools"@) is None
            } else {
                body.at("tools"@) matches JsonVal::Array(ts) && ts.len() == tools.len()
                    && forall|i: int| 0 <= i < ts.len() ==> {
                        &&& (#[trigger] ts[i]).at("type"@) == JsonVal::Str("function"@)
                        &&& ts[i].at("function"@).at("name"@) == JsonVal::Str(tools[i].name)
                        &&& ts[i].at("function"@).at("description"@) == JsonVal::Str(tools[i].description)
                        &&& ts[i].at("function"@).at("parameters"@) == tools[i].parameters
                    }
            }
        }),
{
    reveal_strlit("model");
    reveal_strlit("max_tokens");
    reveal_strlit("stream");
    reveal_strlit("stream_options");
    reveal_strlit("include_usage");
    reveal_strlit("messages");
    reveal_strlit("temperature");
    reveal_strlit("tools");
    reveal_strlit("role");
    reveal_strlit("content");
    reveal_strlit("type");
    reveal_strlit("function");
    reveal_strlit("name");
    reveal_strlit("description");
    reveal_strlit("parameters");
    reveal_with_fuel(crate::json::entries_get, 8);
    assert("model"@[0] != "tools"@[0]);
    assert("model"@.len() != "max_tokens"@.len());
    assert("model"@.len() != "stream"@.len());
    assert("model"@.len() != "stream_options"@.len());
    assert("model"@.len() != "messages"@.len());
    assert("model"@.len() != "temperature"@.len());
    assert("max_tokens"@.len() != "stream"@.len());
    assert("max_tokens"@.len() != "stream_options"@.len());
    assert("max_tokens"@.len() != "messages"@.len());
    assert("max_tokens"@.len() != "temperature"@.len());
    assert("max_tokens"@.len() != "tools"@.len());
    assert("stream"@.len() != "stream_options"@.len());
    assert("stream"@.len() != "messages"@.len());
    assert("stream"@.len() != "temperature"@.len());
    assert("stream"@.len() != "tools"@.len());
    assert("stream_options"@.len() != "messages"@.len());
    assert("stream_options"@.len() != "temperature"@.len());
    assert("stream_options"@.len() != "tools"@.len());
    assert("messages"@.len() != "temperature"@.len());
    assert("messages"@.len() != "tools"@.len());
    assert("temperature"@.len() != "tools"@.len());
    assert("role"@.len() != "content"@.len());
    assert("type"@.len() != "function"@.len());
    assert("name"@.len() != "description"@.len());
    assert("name"@.len() != "parameters"@.len());
    assert("description"@.len() != "parameters"@.len());
    if system_prompt is Some {
        let converted = messages.map_values(|m: MessageV| message_json(m));
        let sys = obj(seq![("role"@, jstr("system"@)), ("content"@, jstr(system_prompt.unwrap()))]);
        let all = seq![sys] + converted;
        assert forall|i: int| 0 <= i < messages.len() implies #[trigger] all[i + 1] == message_json(messages[i]) by {
            assert(all[i + 1] == converted[i]);
        }
    }
}

} // verus!
