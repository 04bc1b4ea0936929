//! What an agent reports while it works, as the transcript, the logs and the
//! turn statistics see it.
use crate::chat;
use crate::chat::{ChatMessage, MessageView, TodoItem};
use vstd::prelude::*;

verus! {

/// What one model call spent, as the endpoint reported it. Dollar amounts are
/// carried as the bit patterns of the reported numbers: nothing here computes
/// with them.
#[derive(Debug, Clone, Copy, PartialEq, Eq)]
pub struct UsageReport {
    pub prompt_tokens: u32,
    pub completion_tokens: u32,
    /// How long the response took to stream, in milliseconds.
    pub decode_ms: u32,
    pub cached_prompt_tokens: Option<u32>,
    pub cache_creation_tokens: Option<u32>,
    pub reasoning_tokens: Option<u32>,
    pub cost_usd_bits: Option<u64>,
    pub session_cost_usd_bits: Option<u64>,
    pub cost_partial: bool,
}

/// One event of an agent's run. `S` is the text: a `String` in running code, a
/// sequence of characters in contracts; `M` and `T` are likewise a message history and a
/// TODO list.
#[derive(Debug, Clone, PartialEq, Eq)]
pub enum AgentEvent<S = String, M = Vec<ChatMessage>, T = Vec<TodoItem>> {
    /// A piece of the model's reasoning.
    Reasoning(S),
    /// A piece of the model's reply.
    Text(S),
    /// A tool call begins.
    ToolStart { id: S, name: S, args: S },
    /// A piece of a running tool's output.
    ToolOutput { id: S, chunk: S },
    /// A tool call has finished.
    ToolEnd { id: S, name: S, result: S, ok: bool },
    /// Something the agent says about the run.
    Notice(S),
    /// A message of the user's that was handed to the running turn.
    Steered(S),
    /// What the last model call spent.
    Usage(UsageReport),
    /// The message history as it is now, to be kept.
    History(M),
    /// The TODO list as it is now.
    TodoUpdated(T),
    /// The turn is over.
    TurnDone,
}

/// What an [`AgentEvent`] holds.
pub type EventView = AgentEvent<Seq<char>, Seq<MessageView>, Seq<TodoItem<Seq<char>>>>;

impl View for AgentEvent<String, Vec<ChatMessage>, Vec<TodoItem>> {
    type V = EventView;

    open spec fn view(&self) -> EventView {
        match self {
            AgentEvent::Reasoning(t) => AgentEvent::Reasoning(t@),
            AgentEvent::Text(t) => AgentEvent::Text(t@),
            AgentEvent::ToolStart { id, name, args } => AgentEvent::ToolStart {
                id: id@,
                name: name@,
                args: args@,
            },
            AgentEvent::ToolOutput { id, chunk } => AgentEvent::ToolOutput {
                id: id@,
                chunk: chunk@,
            },
            AgentEvent::ToolEnd { id, name, result, ok } => AgentEvent::ToolEnd {
                id: id@,
                name: name@,
                result: result@,
                ok: *ok,
            },
            AgentEvent::Notice(t) => AgentEvent::Notice(t@),
            AgentEvent::Steered(t) => AgentEvent::Steered(t@),
            AgentEvent::Usage(u) => AgentEvent::Usage(*u),
            AgentEvent::History(m) => AgentEvent::History(chat::messages(m@)),
            AgentEvent::TodoUpdated(t) => AgentEvent::TodoUpdated(chat::todos(t@)),
            AgentEvent::TurnDone => AgentEvent::TurnDone,
        }
    }
}

/// The views of a sequence of events.
pub open spec fn events(s: Seq<AgentEvent>) -> Seq<EventView> {
    Seq::new(s.len(), |i: int| s[i]@)
}

} // verus!
