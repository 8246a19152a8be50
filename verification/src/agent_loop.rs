//! The decisions of the agent loop. A run alternates two kinds of outside work, asking the
//! model and running tools; `AgentRun` is the state between them: it says what to ask the
//! model, what a reply means (the final answer, a failure, or tool calls to run) and what the
//! history becomes. `StreamCollector` reads the model's stream; the helpers at the end shape
//! the result of each tool call.
use vstd::prelude::*;
use crate::event::AgentEvent;
use crate::tool::{ToolResult, ToolResultV};
use crate::types::{
    AssistantMessage, AssistantMessageV, ContentBlock, LlmContext, Message, MessageV, StopReason, StreamEvent,
    StreamEventV, ToolCall, ToolCallV, ToolResultMessage, ToolResultMessageV, ToolSpec, UserMessage,
    messages_view, opt_string_view, text_of_blocks, tool_calls_of_blocks, tool_calls_view, now_ms,
};
use crate::text::{owned, decimal, decimal_usize, str_eq};

verus! {

// ---------------------------------------------------------------------------
// What a reply means
// ---------------------------------------------------------------------------

/// A stop reason as Rust debug-prints it.
pub open spec fn stop_reason_text(r: StopReason) -> Seq<char> {
    match r {
        StopReason::Stop => "Stop"@,
        StopReason::ToolUse => "ToolUse"@,
        StopReason::Length => "Length"@,
        StopReason::Error => "Error"@,
        StopReason::Aborted => "Aborted"@,
    }
}

/// What a reply of the model means for the run.
pub enum ReplyMeaning {
    /// No tool calls: the run is over and this is its output.
    Finished(Seq<char>),
    /// The model stopped with an error or was aborted.
    Failed(Seq<char>),
    /// These tool calls are to be run.
    RunTools(Seq<ToolCallV>),
}

/// The meaning of a reply: without tool calls it is the final answer (its text); with tool
/// calls, a reply that stopped with `Error` or `Aborted` ends the run with
/// `LLM stopped with {reason}: {message}`; otherwise its calls are run.
pub open spec fn reply_meaning(m: AssistantMessageV) -> ReplyMeaning {
    let calls = tool_calls_of_blocks(m.content);
    if calls.len() == 0 {
        ReplyMeaning::Finished(text_of_blocks(m.content))
    } else if m.stop_reason == StopReason::Error || m.stop_reason == StopReason::Aborted {
        ReplyMeaning::Failed(
            "LLM stopped with "@ + stop_reason_text(m.stop_reason) + ": "@ + match m.error_message {
                Some(e) => e,
                None => Seq::empty(),
            },
        )
    } else {
        ReplyMeaning::RunTools(calls)
    }
}

/// The message of a run that used up its turns.
pub open spec fn exhausted_text(max_iterations: usize) -> Seq<char> {
    "agent reached max_iterations ("@ + decimal(max_iterations as nat) + ")"@
}

// ---------------------------------------------------------------------------
// The run
// ---------------------------------------------------------------------------

pub struct AgentRunV {
    pub session_id: Seq<char>,
    pub system_prompt: Seq<char>,
    pub messages: Seq<MessageV>,
    pub max_iterations: usize,
    /// How many times the model has been asked.
    pub turns: usize,
}

/// The state of one agent run between its calls to the model and to tools.
pub struct AgentRun {
    session_id: String,
    system_prompt: String,
    messages: Vec<Message>,
    max_iterations: usize,
    turns: usize,
}

impl View for AgentRun {
    type V = AgentRunV;

    closed spec fn view(&self) -> AgentRunV {
        AgentRunV {
            session_id: self.session_id@,
            system_prompt: self.system_prompt@,
            messages: messages_view(self.messages@),
            max_iterations: self.max_iterations,
            turns: self.turns,
        }
    }
}

/// What to do at the start of a turn.
pub enum TurnBegin {
    /// Ask the model with this context, after reporting the event.
    Call { event: AgentEvent, context: LlmContext },
    /// The run has used all its turns; it fails with this message.
    Exhausted(String),
}

/// What to do with a reply of the model.
pub enum ReplyStep {
    /// The run is over with this output; report the event.
    Finished { text: String, event: AgentEvent },
    /// The run fails with this message.
    Failed(String),
    /// Run these calls, then hand the reply and the results to `end_turn`.
    RunTools { calls: Vec<ToolCall>, reply: AssistantMessage },
}

/// `event` is a `TurnEnd` of `session` with this message and these results.
pub open spec fn is_turn_end(event: AgentEvent, session: Seq<char>, m: AssistantMessageV, results: Seq<ToolResultMessageV>) -> bool {
    event matches AgentEvent::TurnEnd { session_id, message, tool_results }
        && session_id@ == session && message@ == m
        && tool_results@.map_values(|t: ToolResultMessage| t@) == results
}

/// A copy of a list of messages.
fn copy_messages(v: &Vec<Message>) -> (r: Vec<Message>)
    ensures
        messages_view(r@) == messages_view(v@),
{
    let mut out: Vec<Message> = Vec::new();
    let mut i: usize = 0;
    while i < v.len()
        invariant
            i <= v@.len(),
            messages_view(out@) == messages_view(v@).take(i as int),
        decreases v@.len() - i,
    {
        let ghost prev = messages_view(out@);
        out.push(v[i].clone());
        assert(messages_view(out@) =~= prev.push(v@[i as int]@));
        assert(messages_view(v@).take(i + 1) =~= messages_view(v@).take(i as int).push(v@[i as int]@));
        i = i + 1;
    }
    assert(messages_view(v@).take(v@.len() as int) =~= messages_view(v@));
    out
}

impl AgentRun {
    #[verifier::type_invariant]
    spec fn turns_bounded(self) -> bool {
        self.turns <= self.max_iterations
    }

    /// Starts a run whose history is `messages` followed by the initial prompt as a user
    /// message; the event to report is `AgentStart`.
    pub fn start(
        session_id: String,
        system_prompt: String,
        messages: Vec<Message>,
        max_iterations: usize,
        initial_prompt: &str,
    ) -> (r: (AgentRun, AgentEvent))
        ensures
            r.0@.session_id == session_id@,
            r.0@.system_prompt == system_prompt@,
            r.0@.max_iterations == max_iterations,
            r.0@.turns == 0,
            r.0@.messages.len() == messages@.len() + 1,
            r.0@.messages.drop_last() == messages_view(messages@),
            r.0@.messages.last() matches MessageV::User(u) && u.content == seq![initial_prompt@],
            r.1 matches AgentEvent::AgentStart { session_id: s } && s@ == session_id@,
    {
        let mut messages = messages;
        let ghost before = messages_view(messages@);
        messages.push(Message::User(UserMessage::new(initial_prompt)));
        assert(messages_view(messages@).drop_last() =~= before);
        let event = AgentEvent::AgentStart { session_id: session_id.clone() };
        (AgentRun { session_id, system_prompt, messages, max_iterations, turns: 0 }, event)
    }

    /// Begins a turn with the agent's tools: while turns are left, counts the turn and gives
    /// the context to ask the model with (the system prompt, the whole history, the tools)
    /// and the `TurnStart` event; after `max_iterations` turns, the run fails.
    pub fn begin_turn(&mut self, tools: Vec<ToolSpec>) -> (r: TurnBegin)
        ensures
            final(self)@.session_id == old(self)@.session_id,
            final(self)@.system_prompt == old(self)@.system_prompt,
            final(self)@.messages == old(self)@.messages,
            final(self)@.max_iterations == old(self)@.max_iterations,
            final(self)@.turns <= final(self)@.max_iterations,
            old(self)@.turns < old(self)@.max_iterations ==> final(self)@.turns == old(self)@.turns + 1 && (
                r matches TurnBegin::Call { event, context }
                    && event matches AgentEvent::TurnStart { session_id } && session_id@ == old(self)@.session_id
                    && opt_string_view(context.system_prompt) == Some(old(self)@.system_prompt)
                    && messages_view(context.messages@) == old(self)@.messages
                    && context.tools == tools),
            old(self)@.turns >= old(self)@.max_iterations ==> final(self)@.turns == old(self)@.turns && (
                r matches TurnBegin::Exhausted(m) && m@ == exhausted_text(old(self)@.max_iterations)),
    {
        proof { use_type_invariant(&*self); }
        if self.turns < self.max_iterations {
            self.turns = self.turns + 1;
            let event = AgentEvent::TurnStart { session_id: self.session_id.clone() };
            let context = LlmContext {
                system_prompt: Some(self.system_prompt.clone()),
                messages: copy_messages(&self.messages),
                tools,
            };
            TurnBegin::Call { event, context }
        } else {
            let mut m = owned("agent reached max_iterations (");
            m.append(decimal_usize(self.max_iterations).as_str());
            m.append(")");
            TurnBegin::Exhausted(m)
        }
    }

    /// Takes the model's reply. Without tool calls the reply ends the run: it joins the
    /// history, and its text is the output. A reply with tool calls that stopped with an
    /// error fails the run and leaves the history as it was. Otherwise the calls are to be run.
    pub fn on_reply(&mut self, reply: AssistantMessage) -> (r: ReplyStep)
        ensures
            final(self)@.session_id == old(self)@.session_id,
            final(self)@.system_prompt == old(self)@.system_prompt,
            final(self)@.max_iterations == old(self)@.max_iterations,
            final(self)@.turns == old(self)@.turns,
            match reply_meaning(reply@) {
                ReplyMeaning::Finished(text) => r matches ReplyStep::Finished { text: t, event }
                    && t@ == text
                    && final(self)@.messages == old(self)@.messages.push(MessageV::Assistant(reply@))
                    && is_turn_end(event, old(self)@.session_id, reply@, Seq::empty()),
                ReplyMeaning::Failed(m) => r matches ReplyStep::Failed(e) && e@ == m
                    && final(self)@.messages == old(self)@.messages,
                ReplyMeaning::RunTools(calls) => r matches ReplyStep::RunTools { calls: c, reply: back }
                    && tool_calls_view(c@) == calls && back@ == reply@
                    && final(self)@.messages == old(self)@.messages,
            },
    {
        proof { use_type_invariant(&*self); }
        let calls = reply.tool_calls();
        if calls.len() == 0 {
            let text = reply.text_output();
            let ghost before = messages_view(self.messages@);
            let mut msgs: Vec<Message> = Vec::new();
            std::mem::swap(&mut msgs, &mut self.messages);
            msgs.push(Message::Assistant(reply.clone()));
            self.messages = msgs;
            assert(messages_view(self.messages@) =~= before.push(MessageV::Assistant(reply@)));
            let results: Vec<ToolResultMessage> = Vec::new();
            assert(results@.map_values(|t: ToolResultMessage| t@) =~= Seq::<ToolResultMessageV>::empty());
            let event = AgentEvent::TurnEnd { session_id: self.session_id.clone(), message: reply, tool_results: results };
            return ReplyStep::Finished { text, event };
        }
        match reply.stop_reason {
            StopReason::Error | StopReason::Aborted => {
                let mut m = owned("LLM stopped with ");
                match reply.stop_reason {
                    StopReason::Error => m.append("Error"),
                    _ => m.append("Aborted"),
                }
                m.append(": ");
                match &reply.error_message {
                    Some(e) => m.append(e.as_str()),
                    None => {},
                }
                proof {
                    reveal_strlit("Error");
                    reveal_strlit("Aborted");
                }
                return ReplyStep::Failed(m);
            },
            _ => {},
        }
        let mut owned_calls: Vec<ToolCall> = Vec::new();
        let mut i: usize = 0;
        while i < calls.len()
            invariant
                i <= calls@.len(),
                calls@.map_values(|t: &ToolCall| t@) == tool_calls_of_blocks(reply@.content),
                tool_calls_view(owned_calls@) == calls@.map_values(|t: &ToolCall| t@).take(i as int),
            decreases calls@.len() - i,
        {
            let ghost prev = tool_calls_view(owned_calls@);
            owned_calls.push(calls[i].clone());
            assert(tool_calls_view(owned_calls@) =~= prev.push(calls@[i as int]@));
            assert(calls@.map_values(|t: &ToolCall| t@).take(i + 1)
                =~= calls@.map_values(|t: &ToolCall| t@).take(i as int).push(calls@[i as int]@));
            i = i + 1;
        }
        assert(calls@.map_values(|t: &ToolCall| t@).take(calls@.len() as int) =~= calls@.map_values(|t: &ToolCall| t@));
        ReplyStep::RunTools { calls: owned_calls, reply }
    }

    /// Ends a turn whose tool calls ran: the reply and then each result join the history,
    /// and the event to report is `TurnEnd`.
    pub fn end_turn(&mut self, reply: AssistantMessage, results: Vec<ToolResultMessage>) -> (r: AgentEvent)
        ensures
            final(self)@.session_id == old(self)@.session_id,
            final(self)@.system_prompt == old(self)@.system_prompt,
            final(self)@.max_iterations == old(self)@.max_iterations,
            final(self)@.turns == old(self)@.turns,
            final(self)@.messages == old(self)@.messages.push(MessageV::Assistant(reply@))
                + results@.map_values(|t: ToolResultMessage| MessageV::ToolResult(t@)),
            is_turn_end(r, old(self)@.session_id, reply@, results@.map_values(|t: ToolResultMessage| t@)),
    {
        proof { use_type_invariant(&*self); }
        let ghost start = messages_view(self.messages@).push(MessageV::Assistant(reply@));
        let mut msgs: Vec<Message> = Vec::new();
        std::mem::swap(&mut msgs, &mut self.messages);
        msgs.push(Message::Assistant(reply.clone()));
        assert(messages_view(msgs@) =~= start);
        let mut i: usize = 0;
        while i < results.len()
            invariant
                i <= results@.len(),
                messages_view(msgs@) == start + results@.take(i as int).map_values(|t: ToolResultMessage| MessageV::ToolResult(t@)),
            decreases results@.len() - i,
        {
            let ghost prev = messages_view(msgs@);
            msgs.push(Message::ToolResult(results[i].clone()));
            assert(messages_view(msgs@) =~= prev.push(MessageV::ToolResult(results@[i as int]@)));
            assert(results@.take(i + 1).map_values(|t: ToolResultMessage| MessageV::ToolResult(t@))
                =~= results@.take(i as int).map_values(|t: ToolResultMessage| MessageV::ToolResult(t@)).push(
                MessageV::ToolResult(results@[i as int]@)));
            i = i + 1;
        }
        assert(results@.take(results@.len() as int) =~= results@);
        self.messages = msgs;
        AgentEvent::TurnEnd { session_id: self.session_id.clone(), message: reply, tool_results: results }
    }

    /// Ends the run: its history and the `AgentEnd` event that carries it.
    pub fn finish(self) -> (r: (Vec<Message>, AgentEvent))
        ensures
            messages_view(r.0@) == self@.messages,
            r.1 matches AgentEvent::AgentEnd { session_id, messages }
                && session_id@ == self@.session_id && messages_view(messages@) == self@.messages,
    {
        let copy = copy_messages(&self.messages);
        let event = AgentEvent::AgentEnd { session_id: self.session_id.clone(), messages: copy };
        (self.messages, event)
    }
}

// ---------------------------------------------------------------------------
// Reading the model's stream
// ---------------------------------------------------------------------------

/// Collects the final message of a model's stream and says what to report of each event.
pub struct StreamCollector {
    session_id: String,
    final_message: Option<AssistantMessage>,
}

impl StreamCollector {
    /// The session the reports belong to.
    pub closed spec fn session(&self) -> Seq<char> {
        self.session_id@
    }

    /// The last `Done` or `Error` message seen so far.
    pub closed spec fn last_final(&self) -> Option<AssistantMessageV> {
        match self.final_message {
            Some(m) => Some(m@),
            None => None,
        }
    }

    pub fn new(session_id: String) -> (r: Self)
        ensures
            r.session() == session_id@,
            r.last_final() is None,
    {
        StreamCollector { session_id, final_message: None }
    }

    /// Takes one event of the stream: `Start` is reported as `MessageStart`; `Done` and
    /// `Error` become the final message and are reported as `MessageEnd`; every event is then
    /// reported as `MessageDelta`.
    pub fn on_event(&mut self, event: StreamEvent) -> (r: Vec<AgentEvent>)
        ensures
            final(self).session() == old(self).session(),
            final(self).last_final() == match event@ {
                StreamEventV::Done(m) => Some(m),
                StreamEventV::Error(m) => Some(m),
                _ => old(self).last_final(),
            },
            match event@ {
                StreamEventV::Start(m) => r@.len() == 2
                    && (r@[0] matches AgentEvent::MessageStart { session_id, message }
                        && session_id@ == old(self).session() && message@ == m),
                StreamEventV::Done(m) => r@.len() == 2
                    && (r@[0] matches AgentEvent::MessageEnd { session_id, message }
                        && session_id@ == old(self).session() && message@ == m),
                StreamEventV::Error(m) => r@.len() == 2
                    && (r@[0] matches AgentEvent::MessageEnd { session_id, message }
                        && session_id@ == old(self).session() && message@ == m),
                _ => r@.len() == 1,
            },
            r@.last() matches AgentEvent::MessageDelta { session_id, event: e }
                && session_id@ == old(self).session() && e@ == event@,
    {
        let mut out: Vec<AgentEvent> = Vec::new();
        match &event {
            StreamEvent::Start(m) => {
                out.push(AgentEvent::MessageStart { session_id: self.session_id.clone(), message: m.clone() });
            },
            StreamEvent::Done(m) => {
                self.final_message = Some(m.clone());
                out.push(AgentEvent::MessageEnd { session_id: self.session_id.clone(), message: m.clone() });
            },
            StreamEvent::Error(m) => {
                self.final_message = Some(m.clone());
                out.push(AgentEvent::MessageEnd { session_id: self.session_id.clone(), message: m.clone() });
            },
            _ => {},
        }
        out.push(AgentEvent::MessageDelta { session_id: self.session_id.clone(), event });
        out
    }

    /// The final message, or the failure of a stream that ended without one.
    pub fn finish(self) -> (r: Result<AssistantMessage, String>)
        ensures
            match r {
                Ok(m) => self.last_final() == Some(m@),
                Err(e) => self.last_final() is None && e@ == "stream ended without Done event"@,
            },
    {
        match self.final_message {
            Some(m) => Ok(m),
            None => Err(owned("stream ended without Done event")),
        }
    }
}

// ---------------------------------------------------------------------------
// Tool calls
// ---------------------------------------------------------------------------

/// The position of the first tool named `name`.
pub open spec fn first_named(names: Seq<Seq<char>>, name: Seq<char>) -> Option<int>
    decreases names.len(),
{
    if names.len() == 0 {
        None
    } else if names.last() == name && first_named(names.drop_last(), name) is None {
        Some(names.len() - 1)
    } else {
        first_named(names.drop_last(), name)
    }
}

/// Finds the tool a call names: the first with that name.
pub fn find_tool(names: &Vec<&str>, name: &str) -> (r: Option<usize>)
    ensures
        match r {
            Some(i) => first_named(names@.map_values(|s: &str| s@), name@) == Some(i as int),
            None => first_named(names@.map_values(|s: &str| s@), name@) is None,
        },
{
    let ghost nv = names@.map_values(|s: &str| s@);
    let mut i: usize = 0;
    while i < names.len()
        invariant
            i <= names@.len(),
            nv == names@.map_values(|s: &str| s@),
            first_named(nv.take(i as int), name@) is None,
        decreases names@.len() - i,
    {
        assert(nv.take(i + 1).drop_last() =~= nv.take(i as int));
        if str_eq(names[i], name) {
            proof { lemma_first_named_prefix(nv, i as int + 1, name@); }
            return Some(i);
        }
        i = i + 1;
    }
    assert(nv.take(names@.len() as int) =~= nv);
    None
}

proof fn lemma_first_named_prefix(names: Seq<Seq<char>>, k: int, name: Seq<char>)
    requires
        0 <= k <= names.len(),
        first_named(names.take(k), name) is Some,
    ensures
        first_named(names, name) == first_named(names.take(k), name),
    decreases names.len() - k,
{
    if k < names.len() {
        assert(names.take(k + 1).drop_last() =~= names.take(k));
        lemma_first_named_prefix(names, k + 1, name);
    } else {
        assert(names.take(k) =~= names);
    }
}

/// The result of a call to a tool the agent does not have.
pub fn unknown_tool_result(name: &str) -> (r: ToolResult)
    ensures
        r@ == ToolResultV::err("unknown tool: "@ + name@),
{
    let mut m = owned("unknown tool: ");
    m.append(name);
    ToolResult::err(m)
}

/// The result of a call that a hook blocked, with the hook's reason.
pub fn blocked_result(reason: &str) -> (r: ToolResult)
    ensures
        r@ == ToolResultV::err("tool call blocked: "@ + reason@),
{
    let mut m = owned("tool call blocked: ");
    m.append(reason);
    ToolResult::err(m)
}

/// The position of the first call with this id.
pub fn call_position(calls: &Vec<ToolCall>, id: &str) -> (r: Option<usize>)
    ensures
        match r {
            Some(i) => i < calls@.len() && calls@[i as int].id@ == id@
                && forall|k: int| 0 <= k < i ==> calls@[k].id@ != id@,
            None => forall|k: int| 0 <= k < calls@.len() ==> calls@[k].id@ != id@,
        },
{
    let mut i: usize = 0;
    while i < calls.len()
        invariant
            i <= calls@.len(),
            forall|k: int| 0 <= k < i ==> calls@[k].id@ != id@,
        decreases calls@.len() - i,
    {
        if str_eq(calls[i].id.as_str(), id) {
            return Some(i);
        }
        i = i + 1;
    }
    None
}

/// The message that reports a tool's result to the model: the call's id and tool name,
/// the result's text as one block and its error flag, stamped with the current time.
pub fn make_tool_result_message(tc: &ToolCall, result: ToolResult) -> (r: ToolResultMessage)
    ensures
        r@.tool_call_id == tc@.id,
        r@.tool_name == tc@.name,
        r@.content == seq![result@.content],
        r@.is_error == result@.is_error,
{
    let mut content: Vec<ContentBlock> = Vec::new();
    content.push(ContentBlock::text(result.content.as_str()));
    let r = ToolResultMessage {
        tool_call_id: tc.id.clone(),
        tool_name: tc.name.clone(),
        content,
        is_error: result.is_error,
        timestamp: now_ms(),
    };
    assert(r@.content =~= seq![result@.content]);
    r
}


/// Entry `k` of `completed` is for the call at position `i`: the first call with its id.
pub open spec fn fills(calls: Seq<ToolCall>, completed: Seq<(ToolCall, ToolResult)>, k: int, i: int) -> bool {
    &&& 0 <= i < calls.len()
    &&& calls[i].id@ == completed[k].0.id@
    &&& forall|m: int| 0 <= m < i ==> calls[m].id@ != completed[k].0.id@
}

/// No two calls share an id.
pub open spec fn ids_distinct(calls: Seq<ToolCall>) -> bool {
    forall|i: int, j: int| 0 <= i < calls.len() && 0 <= j < calls.len() && i != j ==> calls[i].id@ != calls[j].id@
}

/// Every call has a completed entry with its id, and every completed entry is for a call.
pub open spec fn all_completed(calls: Seq<ToolCall>, completed: Seq<(ToolCall, ToolResult)>) -> bool {
    &&& forall|i: int| 0 <= i < calls.len() ==> exists|k: int| 0 <= k < completed.len()
        && completed[k].0.id@ == (#[trigger] calls[i]).id@
    &&& forall|k: int| 0 <= k < completed.len() ==> exists|i: int| 0 <= i < calls.len()
        && calls[i].id@ == (#[trigger] completed[k]).0.id@
}

/// No completed entry is for the call at position `i`.
pub open spec fn unfilled(calls: Seq<ToolCall>, completed: Seq<(ToolCall, ToolResult)>, i: int) -> bool {
    forall|k: int| 0 <= k < completed.len() ==> !fills(calls, completed, k, i)
}

/// Completed entry `k` has an id that no call has.
pub open spec fn unknown_id(calls: Seq<ToolCall>, completed: Seq<(ToolCall, ToolResult)>, k: int) -> bool {
    forall|i: int| 0 <= i < calls.len() ==> calls[i].id@ != completed[k].0.id@
}

/// `msg` reports the result that stands at position `i`: the last completed entry for it.
pub open spec fn placed(msg: ToolResultMessageV, calls: Seq<ToolCall>, completed: Seq<(ToolCall, ToolResult)>, i: int) -> bool {
    exists|k: int| 0 <= k < completed.len() && #[trigger] fills(calls, completed, k, i)
        && (forall|m: int| k < m < completed.len() ==> !fills(calls, completed, m, i))
        && msg.tool_call_id == calls[i].id@
        && msg.tool_name == completed[k].0.name@
        && msg.content == seq![completed[k].1@.content]
        && msg.is_error == completed[k].1@.is_error
}

/// Puts the results of calls that completed in any order back in the order of the calls:
/// each result stands where the first call with its id stands (a later result for the same
/// place replaces an earlier one). Where an id is unknown or a call got no result, there is
/// no ordering (`None`).
pub fn order_results(calls: &Vec<ToolCall>, completed: &Vec<(ToolCall, ToolResult)>) -> (r: Option<Vec<ToolResultMessage>>)
    ensures
        r matches Some(v) ==> v@.len() == calls@.len()
            && forall|i: int| 0 <= i < v@.len() ==> placed((#[trigger] v@[i])@, calls@, completed@, i),
        ids_distinct(calls@) && all_completed(calls@, completed@) ==> r is Some,
        r is None ==> (exists|k: int| 0 <= k < completed@.len() && #[trigger] unknown_id(calls@, completed@, k))
            || (exists|i: int| 0 <= i < calls@.len() && #[trigger] unfilled(calls@, completed@, i)),
{
    let mut slots: Vec<Option<usize>> = Vec::new();
    let mut i: usize = 0;
    while i < calls.len()
        invariant
            i <= calls@.len(),
            slots@.len() == i,
            forall|j: int| 0 <= j < i ==> slots@[j] is None,
        decreases calls@.len() - i,
    {
        slots.push(None);
        i = i + 1;
    }
    let mut k: usize = 0;
    while k < completed.len()
        invariant
            k <= completed@.len(),
            slots@.len() == calls@.len(),
            forall|i: int| 0 <= i < slots@.len() ==> (#[trigger] slots@[i] matches Some(m) ==> m < k
                && fills(calls@, completed@, m as int, i)
                && forall|m2: int| m < m2 < k ==> !fills(calls@, completed@, m2, i)),
            forall|i: int| 0 <= i < slots@.len() ==> (#[trigger] slots@[i] is None ==> forall|m: int| 0 <= m < k
                ==> !fills(calls@, completed@, m, i)),
        decreases completed@.len() - k,
    {
        match call_position(calls, completed[k].0.id.as_str()) {
            None => {
                assert(unknown_id(calls@, completed@, k as int));
                proof {
                    if all_completed(calls@, completed@) {
                        let c = completed@[k as int];
                        let i = choose|i: int| 0 <= i < calls@.len() && calls@[i].id@ == c.0.id@;
                        assert(calls@[i].id@ != completed@[k as int].0.id@);
                    }
                }
                return None;
            },
            Some(idx) => {
                proof {
                    assert(fills(calls@, completed@, k as int, idx as int));
                    assert forall|i: int| 0 <= i < slots@.len() && i != idx implies !fills(calls@, completed@, k as int, i) by {
                        if fills(calls@, completed@, k as int, i) {
                            if i < idx {
                                assert(calls@[i].id@ != completed@[k as int].0.id@);
                            } else {
                                assert(calls@[idx as int].id@ != completed@[k as int].0.id@);
                            }
                        }
                    }
                }
                slots.set(idx, Some(k));
            },
        }
        k = k + 1;
    }
    let mut out: Vec<ToolResultMessage> = Vec::new();
    let mut j: usize = 0;
    while j < slots.len()
        invariant
            slots@.len() == calls@.len(),
            j <= slots@.len(),
            out@.len() == j,
            forall|i: int| 0 <= i < slots@.len() ==> (#[trigger] slots@[i] matches Some(m) ==> m < completed@.len()
                && fills(calls@, completed@, m as int, i)
                && forall|m2: int| m < m2 < completed@.len() ==> !fills(calls@, completed@, m2, i)),
            forall|i: int| 0 <= i < slots@.len() ==> (#[trigger] slots@[i] is None ==> forall|m: int| 0 <= m < completed@.len()
                ==> !fills(calls@, completed@, m, i)),
            forall|i: int| 0 <= i < j ==> placed((#[trigger] out@[i])@, calls@, completed@, i),
        decreases slots@.len() - j,
    {
        match slots[j] {
            None => {
                assert(slots@[j as int] is None);
                assert(unfilled(calls@, completed@, j as int));
                proof {
                    if ids_distinct(calls@) && all_completed(calls@, completed@) {
                        let c = calls@[j as int];
                        let k = choose|k: int| 0 <= k < completed@.len() && completed@[k].0.id@ == c.id@;
                        assert(fills(calls@, completed@, k, j as int));
                    }
                }
                return None;
            },
            Some(k) => {
                assert(slots@[j as int] == Some(k));
                let msg = make_tool_result_message(&completed[k].0, completed[k].1.clone());
                out.push(msg);
                assert(fills(calls@, completed@, k as int, j as int));
            },
        }
        j = j + 1;
    }
    Some(out)
}

} // verus!

verus! {

/// A reply without tool calls finishes the run with the text of its text blocks. A reply
/// with tool calls runs exactly those calls, in order, unless it stopped with an error or
/// was aborted: then the run fails with `LLM stopped with Error: ..` (or `Aborted`)
/// followed by the reply's error message, and no tool runs.
pub proof fn law_reply_decides_the_turn(m: AssistantMessageV)
    ensures
        tool_calls_of_blocks(m.content).len() == 0 ==> reply_meaning(m) == ReplyMeaning::Finished(text_of_blocks(m.content)),
        tool_calls_of_blocks(m.content).len() > 0 && m.stop_reason != StopReason::Error
            && m.stop_reason != StopReason::Aborted ==> reply_meaning(m) == ReplyMeaning::RunTools(tool_calls_of_blocks(m.content)),
        tool_calls_of_blocks(m.content).len() > 0 && m.stop_reason == StopReason::Error
            ==> reply_meaning(m) == ReplyMeaning::Failed("LLM stopped with Error: "@ + match m.error_message {
                Some(e) => e,
                None => Seq::empty(),
            }),
        tool_calls_of_blocks(m.content).len() > 0 && m.stop_reason == StopReason::Aborted
            ==> reply_meaning(m) == ReplyMeaning::Failed("LLM stopped with Aborted: "@ + match m.error_message {
                Some(e) => e,
                None => Seq::empty(),
            }),
{
    reveal_strlit("LLM stopped with ");
    reveal_strlit("Error");
    reveal_strlit("Aborted");
    reveal_strlit(": ");
    reveal_strlit("LLM stopped with Error: ");
    reveal_strlit("LLM stopped with Aborted: ");
    assert("LLM stopped with "@ + "Error"@ + ": "@ =~= "LLM stopped with Error: "@);
    assert("LLM stopped with "@ + "Aborted"@ + ": "@ =~= "LLM stopped with Aborted: "@);
}

} // verus!
