//! What a command asks of the frontend and of the agent.
use crate::config::{StatusBarMode, TimestampStyle};
use crate::frontend::ExpandMode;
use crate::json;
use vstd::prelude::*;

verus! {

/// What the user can pick.
#[derive(Debug, Clone, Copy, PartialEq, Eq, Structural)]
pub enum Picker {
    Model,
    Effort,
    Theme,
    Skill,
    Session,
}

/// What the agent can be asked for.
#[derive(Debug, Clone, Copy, PartialEq, Eq, Structural)]
pub enum Report {
    Tools,
    Prompt,
    Guardrails,
    Status,
    Temperature,
    Doctor,
    Models,
    Diff,
    Revert,
    Checkpoints,
}

/// What can be copied.
#[derive(Debug, Clone, Copy, PartialEq, Eq, Structural)]
pub enum CopySource {
    /// The last reply.
    Reply,
    /// The last block of code.
    Code,
    /// Everything.
    Transcript,
    /// These messages, counted from one.
    Messages { first: usize, last: usize },
}

/// What the last turn is taken back for.
#[derive(Debug, Clone, Copy, PartialEq, Eq, Structural)]
pub enum RewindFor {
    Retry,
    Undo,
}

/// The value of a setting.
#[derive(Debug, Clone, PartialEq, Eq)]
pub enum Setting<S = String> {
    Text(S),
    Int(i64),
    /// The bits of a single precision number.
    Float(u32),
}

impl View for Setting<String> {
    type V = Setting<Seq<char>>;

    open spec fn view(&self) -> Setting<Seq<char>> {
        match self {
            Setting::Text(s) => Setting::Text(s@),
            Setting::Int(n) => Setting::Int(*n),
            Setting::Float(b) => Setting::Float(*b),
        }
    }
}

/// Something that a command asks for.
#[derive(Debug, Clone, PartialEq, Eq)]
pub enum Effect<S = String> {
    /// Show a line.
    Info(S),
    /// Begin a new conversation.
    ClearConversation,
    /// Give the session a name.
    SetSessionLabel(S),
    /// Store the session.
    Autosave,
    /// Let the user pick something.
    Pick(Picker),
    /// Begin a login.
    Login,
    /// Read the configuration again.
    ReloadConfig,
    /// Ask the agent for something, and show it.
    Report(Report),
    /// Write the conversation to a file, as the argument says.
    Export(S),
    /// Read a number for the temperature.
    ParseTemperature(S),
    /// Set the temperature, given by the bits of a single precision number.
    SetTemperature(Option<u32>),
    /// Store a setting.
    Persist { key: S, value: Setting<S> },
    /// Remove a stored setting.
    Unpersist(S),
    /// Look for a level of effort.
    FindEffort(S),
    /// Set the level of effort.
    SetEffort(Option<S>),
    /// Go to a directory, if that can be.
    Enter(S),
    /// Make a directory the working directory.
    SetCwd(S),
    /// Read a switch.
    ParseSwitch(S),
    /// Expand the output of tools, and show what is said of it.
    SetExpansion(ExpandMode),
    /// Take the text of the clipboard.
    ReadClipboard,
    /// Put a text where the input is edited.
    InsertInput(S),
    /// Put a text before the input.
    PrependInput(S),
    /// Replace the input.
    SetInput(S),
    /// Begin a compaction, with what it is to keep in mind.
    StartCompaction(Option<S>),
    /// Begin a compaction when the turn is over.
    QueueCompaction(Option<S>),
    /// Send a prompt to the model, and show it as the user's or not at all.
    SendPrompt { prompt: S, show_as_user: bool },
    /// Set how many turns a finished TODO item stays on show.
    SetTodoTtl(u64),
    /// Set the theme; `None` for the one that comes with the program.
    SetTheme(Option<S>),
    /// Set how the status bar behaves.
    SetStatusBar(StatusBarMode),
    /// Look for a session.
    FindSession(S),
    /// Take up a session.
    Resume(S),
    /// Change the model.
    SetModel(S),
    /// Show the model's reasoning, or do not.
    ShowThinking(bool),
    /// Set how times are shown.
    SetTimestamps(TimestampStyle),
    /// Look for a file to edit.
    FindFile(S),
    /// Open a file in an editor.
    OpenEditor(S),
    /// Read a file for the input.
    ReadFile(S),
    /// Read which messages to copy.
    ParseRange(S),
    /// Copy something to the clipboard, if there is anything.
    Copy(CopySource),
    /// Copy a text to the clipboard, and show what is said of it.
    ToClipboard { text: S, label: S },
    /// Take back the last turn.
    Rewind(RewindFor),
    /// Forget which files there are.
    FilesChanged,
    /// Read the project's instructions again when the turn is over.
    MarkInitTurn,
    /// Look for a provider.
    FindProvider(S),
    /// Use an endpoint.
    SetEndpoint(S),
    /// Show an endpoint.
    SetBaseUrl(S),
    /// Show a context window.
    SetContextWindow(u32),
    /// List the sessions.
    ListSessions(S),
}

impl View for Effect<String> {
    type V = Effect<Seq<char>>;

    open spec fn view(&self) -> Effect<Seq<char>> {
        match self {
            Effect::Info(s) => Effect::Info(s@),
            Effect::ClearConversation => Effect::ClearConversation,
            Effect::SetSessionLabel(s) => Effect::SetSessionLabel(s@),
            Effect::Autosave => Effect::Autosave,
            Effect::Pick(v) => Effect::Pick(*v),
            Effect::Login => Effect::Login,
            Effect::ReloadConfig => Effect::ReloadConfig,
            Effect::Report(v) => Effect::Report(*v),
            Effect::Export(s) => Effect::Export(s@),
            Effect::ParseTemperature(s) => Effect::ParseTemperature(s@),
            Effect::SetTemperature(v) => Effect::SetTemperature(*v),
            Effect::Persist { key, value } => Effect::Persist { key: key@, value: value@ },
            Effect::Unpersist(s) => Effect::Unpersist(s@),
            Effect::FindEffort(s) => Effect::FindEffort(s@),
            Effect::SetEffort(s) => Effect::SetEffort(json::opt_view(*s)),
            Effect::Enter(s) => Effect::Enter(s@),
            Effect::SetCwd(s) => Effect::SetCwd(s@),
            Effect::ParseSwitch(s) => Effect::ParseSwitch(s@),
            Effect::SetExpansion(v) => Effect::SetExpansion(*v),
            Effect::ReadClipboard => Effect::ReadClipboard,
            Effect::InsertInput(s) => Effect::InsertInput(s@),
            Effect::PrependInput(s) => Effect::PrependInput(s@),
            Effect::SetInput(s) => Effect::SetInput(s@),
            Effect::StartCompaction(s) => Effect::StartCompaction(json::opt_view(*s)),
            Effect::QueueCompaction(s) => Effect::QueueCompaction(json::opt_view(*s)),
            Effect::SendPrompt { prompt, show_as_user } => Effect::SendPrompt {
                prompt: prompt@,
                show_as_user: *show_as_user,
            },
            Effect::SetTodoTtl(v) => Effect::SetTodoTtl(*v),
            Effect::SetTheme(s) => Effect::SetTheme(json::opt_view(*s)),
            Effect::SetStatusBar(v) => Effect::SetStatusBar(*v),
            Effect::FindSession(s) => Effect::FindSession(s@),
            Effect::Resume(s) => Effect::Resume(s@),
            Effect::SetModel(s) => Effect::SetModel(s@),
            Effect::ShowThinking(v) => Effect::ShowThinking(*v),
            Effect::SetTimestamps(v) => Effect::SetTimestamps(*v),
            Effect::FindFile(s) => Effect::FindFile(s@),
            Effect::OpenEditor(s) => Effect::OpenEditor(s@),
            Effect::ReadFile(s) => Effect::ReadFile(s@),
            Effect::ParseRange(s) => Effect::ParseRange(s@),
            Effect::ToClipboard { text, label } => Effect::ToClipboard {
                text: text@,
                label: label@,
            },
            Effect::Copy(v) => Effect::Copy(*v),
            Effect::Rewind(v) => Effect::Rewind(*v),
            Effect::FilesChanged => Effect::FilesChanged,
            Effect::MarkInitTurn => Effect::MarkInitTurn,
            Effect::FindProvider(s) => Effect::FindProvider(s@),
            Effect::SetEndpoint(s) => Effect::SetEndpoint(s@),
            Effect::SetBaseUrl(s) => Effect::SetBaseUrl(s@),
            Effect::SetContextWindow(v) => Effect::SetContextWindow(*v),
            Effect::ListSessions(s) => Effect::ListSessions(s@),
        }
    }
}

/// The views of a list of effects.
pub open spec fn effects(v: Seq<Effect>) -> Seq<Effect<Seq<char>>> {
    Seq::new(v.len(), |i: int| v[i]@)
}

/// One effect.
pub fn one(a: Effect) -> (r: Vec<Effect>)
    ensures
        effects(r@) == seq![a@],
{
    let mut v: Vec<Effect> = Vec::new();
    v.push(a);
    assert(effects(v@) =~= seq![v@[0]@]);
    v
}

/// Two effects.
pub fn two(a: Effect, b: Effect) -> (r: Vec<Effect>)
    ensures
        effects(r@) == seq![a@, b@],
{
    let mut v: Vec<Effect> = Vec::new();
    v.push(a);
    v.push(b);
    assert(effects(v@) =~= seq![v@[0]@, v@[1]@]);
    v
}

/// Three effects.
pub fn three(a: Effect, b: Effect, c: Effect) -> (r: Vec<Effect>)
    ensures
        effects(r@) == seq![a@, b@, c@],
{
    let mut v: Vec<Effect> = Vec::new();
    v.push(a);
    v.push(b);
    v.push(c);
    assert(effects(v@) =~= seq![v@[0]@, v@[1]@, v@[2]@]);
    v
}

/// A line to show, and nothing else.
pub open spec fn said(line: Seq<char>) -> Seq<Effect<Seq<char>>> {
    seq![Effect::Info(line)]
}

/// A line to show, and nothing else.
pub fn say(line: &str) -> (r: Vec<Effect>)
    ensures
        effects(r@) == said(line@),
{
    one(Effect::Info(line.to_string()))
}

} // verus!
