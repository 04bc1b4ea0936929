//! What a message is made ready with before it goes to an agent.
use crate::chat;
use crate::chat::TodoItem;
use crate::text;
use vstd::prelude::*;

verus! {

/// What the mentions in a message are looked up in.
#[derive(Debug, Clone, PartialEq, Eq)]
pub struct Mentions {
    /// The names of the sub-agents that can be addressed.
    pub names: Vec<String>,
    /// The directory that files are relative to.
    pub cwd: String,
    /// The TODO list that numbers refer to.
    pub todos: Vec<TodoItem>,
}

/// The names of the sub-agents that can be addressed: none while the agent is busy.
pub fn agent_names(agent: Option<Vec<String>>) -> (r: Vec<String>)
    ensures
        text::views(r@) == (match agent {
            Some(names) => text::views(names@),
            None => Seq::empty(),
        }),
{
    match agent {
        Some(names) => names,
        None => {
            let none: Vec<String> = Vec::new();
            assert(text::views(none@) =~= Seq::empty());
            none
        },
    }
}

/// The agent's TODO list: none while it is busy.
pub fn agent_todos(agent: Option<Vec<TodoItem>>) -> (r: Vec<TodoItem>)
    ensures
        chat::todos(r@) == (match agent {
            Some(todos) => chat::todos(todos@),
            None => Seq::empty(),
        }),
{
    match agent {
        Some(todos) => todos,
        None => {
            let none: Vec<TodoItem> = Vec::new();
            assert(chat::todos(none@) =~= Seq::empty());
            none
        },
    }
}

/// What a message to an agent is made ready with: all that is known of that agent.
pub fn prepare_outgoing_via(
    names: Option<Vec<String>>,
    cwd: String,
    todos: Option<Vec<TodoItem>>,
) -> (r: Mentions)
    ensures
        text::views(r.names@) == (match names {
            Some(n) => text::views(n@),
            None => Seq::empty(),
        }),
        r.cwd@ == cwd@,
        chat::todos(r.todos@) == (match todos {
            Some(t) => chat::todos(t@),
            None => Seq::empty(),
        }),
{
    Mentions { names: agent_names(names), cwd, todos: agent_todos(todos) }
}

/// What a message is made ready with that goes to another agent: its numbers do not refer
/// to the TODO list of this one.
pub fn prepare_outgoing_relayed(names: Option<Vec<String>>, cwd: String) -> (r: Mentions)
    ensures
        text::views(r.names@) == (match names {
            Some(n) => text::views(n@),
            None => Seq::empty(),
        }),
        r.cwd@ == cwd@,
        chat::todos(r.todos@) == Seq::<TodoItem<Seq<char>>>::empty(),
{
    prepare_outgoing_via(names, cwd, None)
}

/// The files that count as read by the agent after a message: those that the message
/// holds in full, where it goes to this agent and the agent can be told.
pub fn files_to_mark(inlined: Vec<String>, relayed: bool, free: bool) -> (r: Vec<String>)
    ensures
        text::views(r@) == (if !relayed && free {
            text::views(inlined@)
        } else {
            Seq::empty()
        }),
{
    if !relayed && free {
        inlined
    } else {
        let none: Vec<String> = Vec::new();
        assert(text::views(none@) =~= Seq::empty());
        none
    }
}

} // verus!
