//! What an agent reports while it runs, each report tagged with the session it belongs to.
use vstd::prelude::*;
use crate::json::Json;
use crate::tool::ToolResult;
use crate::types::{AssistantMessage, Message, StreamEvent, ToolResultMessage};

verus! {

#[derive(Debug, Clone)]
pub enum AgentEvent {
    AgentStart { session_id: String },
    AgentEnd { session_id: String, messages: Vec<Message> },
    TurnStart { session_id: String },
    TurnEnd { session_id: String, message: AssistantMessage, tool_results: Vec<ToolResultMessage> },
    /// The model started answering (with the empty message it starts from).
    MessageStart { session_id: String, message: AssistantMessage },
    /// One event of the model's stream.
    MessageDelta { session_id: String, event: StreamEvent },
    /// The model finished one answer.
    MessageEnd { session_id: String, message: AssistantMessage },
    ToolExecutionStart { session_id: String, tool_call_id: String, tool_name: String, args: Json },
    ToolExecutionEnd { session_id: String, tool_call_id: String, tool_name: String, result: ToolResult },
}

/// The session an event belongs to.
pub open spec fn event_session(e: &AgentEvent) -> Seq<char> {
    match e {
        AgentEvent::AgentStart { session_id } => session_id@,
        AgentEvent::AgentEnd { session_id, .. } => session_id@,
        AgentEvent::TurnStart { session_id } => session_id@,
        AgentEvent::TurnEnd { session_id, .. } => session_id@,
        AgentEvent::MessageStart { session_id, .. } => session_id@,
        AgentEvent::MessageDelta { session_id, .. } => session_id@,
        AgentEvent::MessageEnd { session_id, .. } => session_id@,
        AgentEvent::ToolExecutionStart { session_id, .. } => session_id@,
        AgentEvent::ToolExecutionEnd { session_id, .. } => session_id@,
    }
}

impl AgentEvent {
    /// The session the event belongs to.
    pub fn session_id(&self) -> (r: &str)
        ensures
            r@ == event_session(self),
    {
        match self {
            AgentEvent::AgentStart { session_id } => session_id.as_str(),
            AgentEvent::AgentEnd { session_id, .. } => session_id.as_str(),
            AgentEvent::TurnStart { session_id } => session_id.as_str(),
            AgentEvent::TurnEnd { session_id, .. } => session_id.as_str(),
            AgentEvent::MessageStart { session_id, .. } => session_id.as_str(),
            AgentEvent::MessageDelta { session_id, .. } => session_id.as_str(),
            AgentEvent::MessageEnd { session_id, .. } => session_id.as_str(),
            AgentEvent::ToolExecutionStart { session_id, .. } => session_id.as_str(),
            AgentEvent::ToolExecutionEnd { session_id, .. } => session_id.as_str(),
        }
    }
}

} // verus!
