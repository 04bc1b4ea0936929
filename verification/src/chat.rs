//! The message history that an agent works on, as plain values.
use crate::clock::Moment;
use crate::json;
use vstd::prelude::*;

verus! {

/// Who speaks in a message.
#[derive(Debug, Clone, Copy, PartialEq, Eq, Structural)]
pub enum Role {
    System,
    User,
    Assistant,
    Tool,
}

/// Who sent a message, whatever role it has on the wire.
#[derive(Debug, Clone, Copy, PartialEq, Eq, Structural)]
pub enum MessageOrigin {
    /// The person, or the model itself.
    User,
    /// The harness, asking the model to finish or defer its work.
    Nudge,
    /// The harness, handing over what a tool or a background task gave.
    Tool,
}

/// A call that the model asks for.
#[derive(Debug, Clone, PartialEq, Eq)]
pub struct ToolCall<S = String> {
    pub id: S,
    pub name: S,
    /// The arguments, as the model wrote them.
    pub arguments: S,
}

impl View for ToolCall<String> {
    type V = ToolCall<Seq<char>>;

    open spec fn view(&self) -> ToolCall<Seq<char>> {
        ToolCall { id: self.id@, name: self.name@, arguments: self.arguments@ }
    }
}

/// The views of a sequence of calls.
pub open spec fn calls(s: Seq<ToolCall>) -> Seq<ToolCall<Seq<char>>> {
    Seq::new(s.len(), |i: int| s[i]@)
}

impl ToolCall {
    /// A copy of this call.
    pub fn copied(&self) -> (r: ToolCall)
        ensures
            r@ == self@,
    {
        ToolCall {
            id: self.id.clone(),
            name: self.name.clone(),
            arguments: self.arguments.clone(),
        }
    }
}

/// One message of the history.
#[derive(Debug, Clone, PartialEq, Eq)]
pub struct ChatMessage {
    pub role: Role,
    pub content: Option<String>,
    pub tool_calls: Option<Vec<ToolCall>>,
    /// The call that a `Tool` message answers.
    pub tool_call_id: Option<String>,
    pub origin: MessageOrigin,
    /// When a user-role message entered the history.
    pub entered: Option<Moment>,
}

/// What a [`ChatMessage`] holds.
pub struct MessageView {
    pub role: Role,
    pub content: Option<Seq<char>>,
    pub tool_calls: Option<Seq<ToolCall<Seq<char>>>>,
    pub tool_call_id: Option<Seq<char>>,
    pub origin: MessageOrigin,
    pub entered: Option<Moment>,
}

impl View for ChatMessage {
    type V = MessageView;

    open spec fn view(&self) -> MessageView {
        MessageView {
            role: self.role,
            content: json::opt_view(self.content),
            tool_calls: match self.tool_calls {
                Some(c) => Some(calls(c@)),
                None => None,
            },
            tool_call_id: json::opt_view(self.tool_call_id),
            origin: self.origin,
            entered: self.entered,
        }
    }
}

/// The views of a history.
pub open spec fn messages(s: Seq<ChatMessage>) -> Seq<MessageView> {
    Seq::new(s.len(), |i: int| s[i]@)
}

/// A message of the user's role that entered at `now`.
pub open spec fn user_message(
    text: Seq<char>,
    origin: MessageOrigin,
    now: Option<Moment>,
) -> MessageView {
    MessageView {
        role: Role::User,
        content: Some(text),
        tool_calls: None,
        tool_call_id: None,
        origin,
        entered: now,
    }
}

/// The answer to the call `id`.
pub open spec fn tool_result(id: Seq<char>, text: Seq<char>) -> MessageView {
    MessageView {
        role: Role::Tool,
        content: Some(text),
        tool_calls: None,
        tool_call_id: Some(id),
        origin: MessageOrigin::User,
        entered: None,
    }
}

/// An assistant message without calls.
pub open spec fn assistant_message(text: Seq<char>) -> MessageView {
    MessageView {
        role: Role::Assistant,
        content: Some(text),
        tool_calls: None,
        tool_call_id: None,
        origin: MessageOrigin::User,
        entered: None,
    }
}

impl ChatMessage {
    /// A message of the user's.
    pub fn user(text: &str) -> (r: Self)
        ensures
            r@ == user_message(text@, MessageOrigin::User, None),
    {
        ChatMessage {
            role: Role::User,
            content: Some(text.to_string()),
            tool_calls: None,
            tool_call_id: None,
            origin: MessageOrigin::User,
            entered: None,
        }
    }

    /// A message of the model's, without calls.
    pub fn assistant(text: &str) -> (r: Self)
        ensures
            r@ == assistant_message(text@),
    {
        ChatMessage {
            role: Role::Assistant,
            content: Some(text.to_string()),
            tool_calls: None,
            tool_call_id: None,
            origin: MessageOrigin::User,
            entered: None,
        }
    }

    /// The answer to the call `id`.
    pub fn tool_result(id: &str, text: &str) -> (r: Self)
        ensures
            r@ == tool_result(id@, text@),
    {
        ChatMessage {
            role: Role::Tool,
            content: Some(text.to_string()),
            tool_calls: None,
            tool_call_id: Some(id.to_string()),
            origin: MessageOrigin::User,
            entered: None,
        }
    }
}

impl ChatMessage {
    /// A copy of this message.
    pub fn copied(&self) -> (r: ChatMessage)
        ensures
            r@ == self@,
    {
        let tool_calls = match &self.tool_calls {
            Some(c) => Some(copied_calls(c)),
            None => None,
        };
        ChatMessage {
            role: self.role,
            content: copied_text(&self.content),
            tool_calls,
            tool_call_id: copied_text(&self.tool_call_id),
            origin: self.origin,
            entered: self.entered,
        }
    }
}

fn copied_text(t: &Option<String>) -> (r: Option<String>)
    ensures
        json::opt_view(r) == json::opt_view(*t),
{
    match t {
        Some(s) => Some(s.clone()),
        None => None,
    }
}

/// A copy of some calls.
pub fn copied_calls(list: &Vec<ToolCall>) -> (r: Vec<ToolCall>)
    ensures
        calls(r@) == calls(list@),
{
    let mut out: Vec<ToolCall> = Vec::new();
    for i in 0..list.len()
        invariant
            out@.len() == i,
            forall|k: int| 0 <= k < i ==> (#[trigger] out@[k])@ == list@[k]@,
    {
        out.push(list[i].copied());
    }
    assert(calls(out@) =~= calls(list@));
    out
}

/// A copy of a history.
pub fn copied_messages(list: &Vec<ChatMessage>) -> (r: Vec<ChatMessage>)
    ensures
        messages(r@) == messages(list@),
{
    let mut out: Vec<ChatMessage> = Vec::new();
    for i in 0..list.len()
        invariant
            out@.len() == i,
            forall|k: int| 0 <= k < i ==> (#[trigger] out@[k])@ == list@[k]@,
    {
        out.push(list[i].copied());
    }
    assert(messages(out@) =~= messages(list@));
    out
}

/// One item of the TODO list.
#[derive(Debug, Clone, PartialEq, Eq)]
pub struct TodoItem<S = String> {
    pub content: S,
    pub status: S,
}

impl View for TodoItem<String> {
    type V = TodoItem<Seq<char>>;

    open spec fn view(&self) -> TodoItem<Seq<char>> {
        TodoItem { content: self.content@, status: self.status@ }
    }
}

/// The views of a TODO list.
pub open spec fn todos(s: Seq<TodoItem>) -> Seq<TodoItem<Seq<char>>> {
    Seq::new(s.len(), |i: int| s[i]@)
}

/// A copy of a TODO list.
pub fn copied_todos(list: &Vec<TodoItem>) -> (r: Vec<TodoItem>)
    ensures
        todos(r@) == todos(list@),
{
    let mut out: Vec<TodoItem> = Vec::new();
    for i in 0..list.len()
        invariant
            out@.len() == i,
            forall|k: int| 0 <= k < i ==> (#[trigger] out@[k])@ == list@[k]@,
    {
        out.push(
            TodoItem { content: list[i].content.clone(), status: list[i].status.clone() },
        );
    }
    assert(todos(out@) =~= todos(list@));
    out
}

/// A message that waits to be handed to a turn.
#[derive(Debug, Clone, PartialEq, Eq)]
pub struct Steer<S = String> {
    /// What the model reads.
    pub sent: S,
    /// What the transcript shows.
    pub display: S,
}

impl View for Steer<String> {
    type V = Steer<Seq<char>>;

    open spec fn view(&self) -> Steer<Seq<char>> {
        Steer { sent: self.sent@, display: self.display@ }
    }
}

/// A detached sub-agent's task.
#[derive(Debug, Clone, PartialEq, Eq)]
pub struct BackgroundTask<S = String> {
    pub id: u64,
    pub label: S,
    pub result: Option<S>,
    pub done: bool,
    pub delivered: bool,
    pub cancelled: bool,
}

impl View for BackgroundTask<String> {
    type V = BackgroundTask<Seq<char>>;

    open spec fn view(&self) -> BackgroundTask<Seq<char>> {
        BackgroundTask {
            id: self.id,
            label: self.label@,
            result: json::opt_view(self.result),
            done: self.done,
            delivered: self.delivered,
            cancelled: self.cancelled,
        }
    }
}

/// The views of the background tasks.
pub open spec fn tasks(s: Seq<BackgroundTask>) -> Seq<BackgroundTask<Seq<char>>> {
    Seq::new(s.len(), |i: int| s[i]@)
}

} // verus!
