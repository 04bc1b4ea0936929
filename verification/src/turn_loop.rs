//! The loop of one turn: what is asked of the model, round after round, until it answers
//! without calling a tool or its budget of rounds is spent.
//!
//! The caller performs what these functions decide (it sends requests and runs tools)
//! and hands back what came of it.
use crate::agent;
use crate::agent::{notice_events, Agent, AgentView};
use crate::chat;
use crate::chat::{copied_messages, ChatMessage, MessageOrigin, MessageView, TodoItem, ToolCall};
use crate::clock::Moment;
use crate::event;
use crate::event::{AgentEvent, EventView};
use crate::repair;
use crate::repair::{ensure_assistant_has_content, repair_dangling_tool_calls};
use crate::repeat;
use crate::repeat::RepeatGuard;
use crate::text;
use crate::text::{decimal_string, join_strings, str_contains, str_eq};
use vstd::prelude::*;

verus! {

/// With so many rounds left the model is told to wrap up.
pub const WRAP_UP_WARNING_ROUNDS: usize = 3;

/// What is said of an endpoint that hands back a tool call as plain text.
pub const UNPARSED_TOOL_CALL_NOTICE: &'static str =
    "⚠ this endpoint returned a tool call as plain text — it looks like the server isn't parsing tool calls. vLLM needs `--enable-auto-tool-choice --tool-call-parser <parser>`; llama.cpp needs `--jinja` (and a template that supports tools).";

/// What is said of a reply that hit the output limit.
pub const TRUNCATED_NOTICE: &'static str =
    "⚠ response truncated at the output limit — it may be incomplete (raise max_tokens if this recurs)";

/// What the model is told of its own reply that hit the output limit.
pub const TRUNCATED_NOTE: &'static str =
    "\n\n[note: your reply was cut off at the output limit — anything you intended after this point, including further tool calls, was lost and never ran. Re-issue what is missing rather than assuming it happened, and keep the next reply shorter.]";

/// What the model is told when its budget of rounds is spent.
pub const BUDGET_EXHAUSTED_MESSAGE: &'static str =
    "[The tool-call budget for this turn is exhausted. Do not request more tool calls. Summarize what you accomplished and what remains to be done.]";

// ---------------------------------------------------------------------------
// Small rules
// ---------------------------------------------------------------------------

/// Four fifths of the budget, rounded up, where that is not the last round.
pub open spec fn checkpoint_round(max_steps: usize) -> Option<usize> {
    let at = (max_steps * 4 + 4) / 5;
    if 1 <= at < max_steps {
        Some(at as usize)
    } else {
        None
    }
}

/// The round after which the model is told to checkpoint its work: at four fifths of
/// the budget. `None` where the budget is too small for it to be worth anything.
pub fn checkpoint_warning_round(max_steps: usize) -> (r: Option<usize>)
    ensures
        r == checkpoint_round(max_steps),
{
    let at: usize = max_steps - max_steps / 5;
    assert(at == (max_steps * 4 + 4) / 5);
    if at >= 1 && at < max_steps {
        Some(at)
    } else {
        None
    }
}

/// The wrappers that chat templates put around a tool call.
pub const TOOL_CALL_MARKERS: [&'static str; 9] = [
    "<tool_call>",
    "<|tool_call",
    "<|python_tag|>",
    "<function=",
    "<tool▁call▁begin｜>",
    "<|tool▁calls▁begin|>",
    "[TOOL_CALLS]",
    "<|channel|>commentary",
    "functools[",
];

/// Whether `t` holds one of the wrappers that chat templates put around a tool call.
pub open spec fn has_marker(t: Seq<char>) -> bool {
    exists|i: int| 0 <= i < 9 && text::contains(t, #[trigger] TOOL_CALL_MARKERS@[i]@)
}

/// Whether `text` looks like a tool call that the server failed to parse. A model that
/// only talks about a tool call does not write a template's wrappers.
pub fn looks_like_unparsed_tool_call(text: &str) -> (r: bool)
    ensures
        r == has_marker(text@),
{
    for i in 0..9usize
        invariant
            forall|j: int| 0 <= j < i ==> !text::contains(text@, #[trigger] TOOL_CALL_MARKERS@[j]@),
    {
        if str_contains(text, TOOL_CALL_MARKERS[i]) {
            return true;
        }
    }
    false
}

/// Whether a TODO item still needs work.
pub open spec fn is_unfinished(t: TodoItem<Seq<char>>) -> bool {
    t.status != "completed"@ && t.status != "cancelled"@
}

/// The items that still need work.
pub open spec fn unfinished(list: Seq<TodoItem<Seq<char>>>) -> Seq<TodoItem<Seq<char>>> {
    list.filter(|t: TodoItem<Seq<char>>| is_unfinished(t))
}

/// A TODO item on one line.
pub open spec fn todo_line(t: TodoItem<Seq<char>>) -> Seq<char> {
    "["@ + (if t.status == "in_progress"@ {
        "~"@
    } else {
        " "@
    }) + "] "@ + t.content
}

/// The items that still need work, one to a line.
pub open spec fn unfinished_lines(list: Seq<TodoItem<Seq<char>>>) -> Seq<char> {
    text::join(unfinished(list).map_values(|t: TodoItem<Seq<char>>| todo_line(t)), "\n"@)
}

fn needs_work(t: &TodoItem) -> (r: bool)
    ensures
        r == is_unfinished(t@),
{
    !str_eq(t.status.as_str(), "completed") && !str_eq(t.status.as_str(), "cancelled")
}

fn todo_text(t: &TodoItem) -> (r: String)
    ensures
        r@ == todo_line(t@),
{
    let mut s = "[".to_string();
    s.append(
        if str_eq(t.status.as_str(), "in_progress") {
            "~"
        } else {
            " "
        },
    );
    s.append("] ");
    s.append(t.content.as_str());
    s
}

/// The items that still need work, one to a line: `[~]` before one in progress, `[ ]`
/// before any other.
pub fn render_unfinished_todos(list: &Vec<TodoItem>) -> (r: String)
    ensures
        r@ == unfinished_lines(chat::todos(list@)),
{
    let ghost all = chat::todos(list@);
    let ghost p = |t: TodoItem<Seq<char>>| is_unfinished(t);
    let ghost f = |t: TodoItem<Seq<char>>| todo_line(t);
    let mut lines: Vec<String> = Vec::new();
    proof {
        reveal(Seq::filter);
        assert(all.take(0) =~= Seq::empty());
    }
    for i in 0..list.len()
        invariant
            all == chat::todos(list@),
            p == (|t: TodoItem<Seq<char>>| is_unfinished(t)),
            f == (|t: TodoItem<Seq<char>>| todo_line(t)),
            text::views(lines@) =~= all.take(i as int).filter(p).map_values(f),
    {
        proof {
            reveal(Seq::filter);
            assert(all.take(i + 1).drop_last() =~= all.take(i as int));
            assert(all[i as int] == list@[i as int]@);
        }
        let ghost kept = all.take(i as int).filter(p);
        if needs_work(&list[i]) {
            lines.push(todo_text(&list[i]));
            assert(all.take(i + 1).filter(p) == kept.push(all[i as int]));
            assert(kept.push(all[i as int]).map_values(f) =~= kept.map_values(f).push(
                todo_line(all[i as int]),
            ));
        }
    }
    assert(all.take(list@.len() as int) =~= all);
    join_strings(&lines, "\n")
}

/// A duration in its two largest adjacent units, or in milliseconds under a second.
pub open spec fn duration_text(ms: nat) -> Seq<char> {
    if ms >= 3_600_000 {
        text::decimal(ms / 3_600_000) + "h "@ + text::decimal((ms % 3_600_000) / 60_000) + "m"@
    } else if ms >= 60_000 {
        text::decimal(ms / 60_000) + "m "@ + text::decimal((ms % 60_000) / 1_000) + "s"@
    } else if ms >= 1_000 {
        text::decimal(ms / 1_000) + "s "@ + text::decimal(ms % 1_000) + "ms"@
    } else {
        text::decimal(ms) + "ms"@
    }
}

fn two_units(a: u64, a_unit: &str, b: u64, b_unit: &str) -> (r: String)
    ensures
        r@ == text::decimal(a as nat) + a_unit@ + text::decimal(b as nat) + b_unit@,
{
    let mut s = decimal_string(a);
    s.append(a_unit);
    s.append(decimal_string(b).as_str());
    s.append(b_unit);
    s
}

/// A duration in milliseconds for a person to read: hours and minutes, minutes and
/// seconds, seconds and milliseconds, or milliseconds alone.
pub fn format_duration(ms: u64) -> (r: String)
    ensures
        r@ == duration_text(ms as nat),
{
    if ms >= 3_600_000 {
        two_units(ms / 3_600_000, "h ", (ms % 3_600_000) / 60_000, "m")
    } else if ms >= 60_000 {
        two_units(ms / 60_000, "m ", (ms % 60_000) / 1_000, "s")
    } else if ms >= 1_000 {
        two_units(ms / 1_000, "s ", ms % 1_000, "ms")
    } else {
        let mut s = decimal_string(ms);
        s.append("ms");
        s
    }
}

/// A tool's error as the model reads it: the whole chain of causes, outermost first.
pub fn tool_error_text(chain: &Vec<String>) -> (r: String)
    ensures
        r@ == "Error: "@ + text::join(text::views(chain@), ": "@),
{
    let mut s = "Error: ".to_string();
    s.append(join_strings(chain, ": ").as_str());
    s
}

// ---------------------------------------------------------------------------
// The state of a turn
// ---------------------------------------------------------------------------

/// What the model was reminded of when its turn was about to end, so that the rounds
/// after it can tell an item that was resolved from one that was dropped.
#[derive(Debug, Clone, PartialEq, Eq)]
pub struct TodoShrinkWatch {
    /// The contents of the items that were named.
    pub unfinished: Vec<String>,
    /// The length of the whole list then.
    pub len: usize,
}

/// What a [`TodoShrinkWatch`] holds.
pub struct WatchView {
    pub unfinished: Seq<Seq<char>>,
    pub len: nat,
}

impl View for TodoShrinkWatch {
    type V = WatchView;

    open spec fn view(&self) -> WatchView {
        WatchView { unfinished: text::views(self.unfinished@), len: self.len as nat }
    }
}

/// The state of one turn's loop.
#[derive(Debug, Clone, PartialEq, Eq)]
pub struct Turn {
    /// The rounds taken of the present budget.
    pub step: usize,
    /// Whether the model was already asked to finish or defer its TODO items.
    pub nudged: bool,
    /// Whether the model was already told to checkpoint its work.
    pub checkpoint_warned: bool,
    pub watch: Option<TodoShrinkWatch>,
    /// Whether the history was already compacted because the context overflowed.
    pub overflow_compacted: bool,
    pub repeat: RepeatGuard,
}

/// What a [`Turn`] holds.
pub struct TurnView {
    pub step: usize,
    pub nudged: bool,
    pub checkpoint_warned: bool,
    pub watch: Option<WatchView>,
    pub overflow_compacted: bool,
    pub repeat: RepeatGuard,
}

impl View for Turn {
    type V = TurnView;

    open spec fn view(&self) -> TurnView {
        TurnView {
            step: self.step,
            nudged: self.nudged,
            checkpoint_warned: self.checkpoint_warned,
            watch: match self.watch {
                Some(w) => Some(w@),
                None => None,
            },
            overflow_compacted: self.overflow_compacted,
            repeat: self.repeat,
        }
    }
}

/// A turn that has not begun.
pub open spec fn fresh_turn() -> TurnView {
    TurnView {
        step: 0,
        nudged: false,
        checkpoint_warned: false,
        watch: None,
        overflow_compacted: false,
        repeat: repeat::fresh_guard(),
    }
}

/// What follows a reply of the model's.
#[derive(Debug, Clone, Copy, PartialEq, Eq, Structural)]
pub enum AfterReply {
    /// Run the calls that the last message asks for.
    RunTools,
    /// Go on with the next round: the model was asked to finish or defer its TODO items.
    Nudged,
    /// The turn is over.
    Finish,
}

/// The calls that a message asks for, none where it has no list.
pub open spec fn asked(m: MessageView) -> Seq<ToolCall<Seq<char>>> {
    match m.tool_calls {
        Some(c) => c,
        None => Seq::empty(),
    }
}

/// Whether the endpoint is now to be said not to parse tool calls.
pub open spec fn warns_of_syntax(warned: bool, m: MessageView, tools_offered: bool) -> bool {
    !warned && asked(m).len() == 0 && tools_offered && (m.content matches Some(c) && has_marker(c))
}

/// What is said when the model is asked about its TODO items.
pub open spec fn todo_notice(n: nat) -> Seq<char> {
    "turn ended with "@ + text::decimal(n)
        + " unfinished TODOs — nudging the model to finish or defer explicitly"@
}

/// What the model is asked about its TODO items.
pub open spec fn todo_message(list: Seq<TodoItem<Seq<char>>>) -> Seq<char> {
    "[Your turn was about to end, but these TODO items are not finished:\n"@ + unfinished_lines(
        list,
    )
        + "\nEither continue now and complete them, or reconcile the list item by item with the todo tool: send the full list back with every one of these items still in it, each marked `completed` or `cancelled` — and say plainly, to the user, why you cancelled what you cancelled. Do not replace, collapse, or drop items to make the list look finished; a shorter list is not a resolved list.]"@
}

/// Whether a turn that was about to end is to go on with a question about TODO items:
/// once a turn, where items need work and nothing runs in the background.
pub open spec fn asks_about_todos(
    t: TurnView,
    list: Seq<TodoItem<Seq<char>>>,
    background_running: usize,
) -> bool {
    !t.nudged && background_running == 0 && unfinished(list).len() > 0
}

/// One event, or none.
pub open spec fn when(b: bool, notice: Seq<char>) -> Seq<EventView> {
    if b {
        seq![AgentEvent::Notice(notice)]
    } else {
        Seq::empty()
    }
}

/// What a reply of the model's does: the agent and the turn after it, the events, and
/// what follows.
pub open spec fn after_reply<H>(
    a: AgentView<H>,
    t: TurnView,
    reply: MessageView,
    truncated: bool,
    tools_offered: bool,
    background_running: usize,
    now: Moment,
) -> (AgentView<H>, TurnView, Seq<EventView>, AfterReply) {
    let m = repair::with_content(reply);
    let warns = warns_of_syntax(a.tool_syntax_warned, m, tools_offered);
    let said = when(truncated, TRUNCATED_NOTICE@) + when(warns, UNPARSED_TOOL_CALL_NOTICE@);
    let b = AgentView {
        messages: a.messages.push(m),
        tool_syntax_warned: a.tool_syntax_warned || warns,
        ..a
    };
    if asked(m).len() > 0 {
        (b, t, said, AfterReply::RunTools)
    } else if asks_about_todos(t, a.todos, background_running) {
        (
            AgentView {
                messages: b.messages.push(
                    chat::user_message(todo_message(a.todos), MessageOrigin::Nudge, Some(now)),
                ),
                ..b
            },
            TurnView {
                nudged: true,
                watch: Some(
                    WatchView {
                        unfinished: unfinished(a.todos).map_values(
                            |i: TodoItem<Seq<char>>| i.content,
                        ),
                        len: a.todos.len(),
                    },
                ),
                ..t
            },
            said.push(AgentEvent::Notice(todo_notice(unfinished(a.todos).len()))),
            AfterReply::Nudged,
        )
    } else {
        (b, t, said, AfterReply::Finish)
    }
}

/// Whether `m` ends in a message that has text.
pub open spec fn can_note(m: Seq<MessageView>) -> bool {
    m.len() > 0 && m.last().content is Some
}

/// `m` with `note` added to the text of its last message, where that has one.
pub open spec fn noted(m: Seq<MessageView>, note: Seq<char>) -> Seq<MessageView> {
    if can_note(m) {
        m.drop_last().push(MessageView { content: Some(m.last().content->0 + note), ..m.last() })
    } else {
        m
    }
}

/// The items that were named and are on the list no more.
pub open spec fn removed(w: WatchView, list: Seq<TodoItem<Seq<char>>>) -> Seq<Seq<char>> {
    w.unfinished.filter(
        |c: Seq<char>| !list.map_values(|t: TodoItem<Seq<char>>| t.content).contains(c),
    )
}

/// Whether items that the model was asked about were dropped: the list got shorter and a
/// named item is gone.
pub open spec fn shrank(w: WatchView, list: Seq<TodoItem<Seq<char>>>) -> bool {
    list.len() < w.len && removed(w, list).len() > 0
}

/// What is said of dropped TODO items.
pub open spec fn removed_notice(n: nat) -> Seq<char> {
    text::decimal(n)
        + " nudged TODO items were removed rather than resolved — asking the model to restore them"@
}

/// What the model is asked about dropped TODO items.
pub open spec fn removed_message(gone: Seq<Seq<char>>) -> Seq<char> {
    "[These TODO items were removed from the list rather than resolved:\n"@ + text::join(
        gone.map_values(|c: Seq<char>| "- "@ + c),
        "\n"@,
    )
        + "\nDeleting an item is not finishing it. Send the list back through the todo tool with each of them restored and marked `completed` or `cancelled`, and tell the user which ones you did not actually do.]"@
}

/// What the model is told at four fifths of its budget.
pub open spec fn checkpoint_note(used: usize, max: usize) -> Seq<char> {
    "\n\n[note: you've used "@ + text::decimal(used as nat) + " of "@ + text::decimal(max as nat)
        + " tool rounds this turn — checkpoint your work (commit what's done) and sequence what remains; the turn ends at "@
        + text::decimal(max as nat) + "]"@
}

/// What the model is told close to the end of its budget.
pub open spec fn wrap_up_note(remaining: nat) -> Seq<char> {
    "\n\n[note: only "@ + text::decimal(remaining)
        + " tool rounds remain this turn — finish up and summarize]"@
}

/// What ends a round whose calls have all run: the agent and the turn after it, and the
/// events.
pub open spec fn after_round<H>(a: AgentView<H>, t: TurnView, truncated: bool, now: Moment) -> (
    AgentView<H>,
    TurnView,
    Seq<EventView>,
) {
    let m1 = if truncated {
        noted(a.messages, TRUNCATED_NOTE@)
    } else {
        a.messages
    };
    let dropped = t.watch matches Some(w) && shrank(w, a.todos);
    let gone = removed(t.watch->0, a.todos);
    let m2 = if dropped {
        m1.push(chat::user_message(removed_message(gone), MessageOrigin::Nudge, Some(now)))
    } else {
        m1
    };
    let said = when(dropped, removed_notice(gone.len())).push(AgentEvent::History(m2));
    let checkpoint = !t.checkpoint_warned && checkpoint_round(a.max_steps) == Some(t.step)
        && can_note(m2);
    let m3 = if checkpoint {
        noted(m2, checkpoint_note(t.step, a.max_steps))
    } else {
        m2
    };
    let m4 = if a.max_steps - t.step == WRAP_UP_WARNING_ROUNDS {
        noted(m3, wrap_up_note(WRAP_UP_WARNING_ROUNDS as nat))
    } else {
        m3
    };
    (
        AgentView { messages: m4, ..a },
        TurnView {
            watch: if dropped {
                None
            } else {
                t.watch
            },
            checkpoint_warned: t.checkpoint_warned || checkpoint,
            ..t
        },
        said,
    )
}

/// What is said when the budget of a turn is spent.
pub open spec fn limit_notice(max: usize) -> Seq<char> {
    "tool-round limit reached ("@ + text::decimal(max as nat)
        + ") — asking the model to wrap up"@
}

/// The agent after the model was asked to wrap up.
pub open spec fn wrapping_up<H>(a: AgentView<H>) -> AgentView<H> {
    AgentView {
        messages: a.messages.push(
            chat::user_message(BUDGET_EXHAUSTED_MESSAGE@, MessageOrigin::User, None),
        ),
        ..a
    }
}

/// The agent after a turn of its own has begun.
pub open spec fn mended<H>(a: AgentView<H>) -> AgentView<H> {
    AgentView {
        messages: repair::repaired(a.messages),
        pending_notices: Seq::empty(),
        ..a
    }
}

/// The agent after a turn of its own has ended.
pub open spec fn ended<H>(a: AgentView<H>) -> AgentView<H> {
    AgentView {
        registry: crate::subagent_live::kept(a.registry),
        todo_turn: (a.todo_turn + 1) as u64,
        ..a
    }
}

fn push_notice(evs: &mut Vec<AgentEvent>, note: String)
    ensures
        event::events(final(evs)@) == event::events(old(evs)@).push(AgentEvent::Notice(note@)),
{
    let ghost before = evs@;
    let e = AgentEvent::Notice(note);
    evs.push(e);
    proof {
        agent::lemma_events_push(before, e);
    }
}

/// The contents of the items that still need work.
fn unfinished_contents(list: &Vec<TodoItem>) -> (r: Vec<String>)
    ensures
        text::views(r@) == unfinished(chat::todos(list@)).map_values(
            |i: TodoItem<Seq<char>>| i.content,
        ),
{
    let ghost all = chat::todos(list@);
    let ghost p = |t: TodoItem<Seq<char>>| is_unfinished(t);
    let ghost f = |i: TodoItem<Seq<char>>| i.content;
    let mut out: Vec<String> = Vec::new();
    proof {
        reveal(Seq::filter);
        assert(all.take(0) =~= Seq::empty());
    }
    for i in 0..list.len()
        invariant
            all == chat::todos(list@),
            p == (|t: TodoItem<Seq<char>>| is_unfinished(t)),
            f == (|i: TodoItem<Seq<char>>| i.content),
            text::views(out@) =~= all.take(i as int).filter(p).map_values(f),
    {
        proof {
            reveal(Seq::filter);
            assert(all.take(i + 1).drop_last() =~= all.take(i as int));
            assert(all[i as int] == list@[i as int]@);
        }
        let ghost kept = all.take(i as int).filter(p);
        if needs_work(&list[i]) {
            out.push(list[i].content.clone());
            assert(all.take(i + 1).filter(p) == kept.push(all[i as int]));
            assert(kept.push(all[i as int]).map_values(f) =~= kept.map_values(f).push(
                all[i as int].content,
            ));
        }
    }
    assert(all.take(list@.len() as int) =~= all);
    out
}

fn holds_content(list: &Vec<TodoItem>, c: &str) -> (r: bool)
    ensures
        r == chat::todos(list@).map_values(|t: TodoItem<Seq<char>>| t.content).contains(c@),
{
    let ghost all = chat::todos(list@).map_values(|t: TodoItem<Seq<char>>| t.content);
    for i in 0..list.len()
        invariant
            all == chat::todos(list@).map_values(|t: TodoItem<Seq<char>>| t.content),
            forall|j: int| 0 <= j < i ==> #[trigger] all[j] != c@,
    {
        assert(all[i as int] == list@[i as int].content@);
        if str_eq(list[i].content.as_str(), c) {
            return true;
        }
    }
    false
}

/// The named items that are on the list no more.
fn removed_items(w: &TodoShrinkWatch, list: &Vec<TodoItem>) -> (r: Vec<String>)
    ensures
        text::views(r@) == removed(w@, chat::todos(list@)),
{
    let ghost named = text::views(w.unfinished@);
    let ghost all = chat::todos(list@).map_values(|t: TodoItem<Seq<char>>| t.content);
    let ghost p = |c: Seq<char>|
        !chat::todos(list@).map_values(|t: TodoItem<Seq<char>>| t.content).contains(c);
    let mut out: Vec<String> = Vec::new();
    proof {
        reveal(Seq::filter);
        assert(named.take(0) =~= Seq::empty());
    }
    for i in 0..w.unfinished.len()
        invariant
            named == text::views(w.unfinished@),
            p == (|c: Seq<char>|
                !chat::todos(list@).map_values(|t: TodoItem<Seq<char>>| t.content).contains(c)),
            text::views(out@) =~= named.take(i as int).filter(p),
    {
        proof {
            reveal(Seq::filter);
            assert(named.take(i + 1).drop_last() =~= named.take(i as int));
            assert(named[i as int] == w.unfinished@[i as int]@);
        }
        if !holds_content(list, w.unfinished[i].as_str()) {
            out.push(w.unfinished[i].clone());
        }
    }
    assert(named.take(w.unfinished@.len() as int) =~= named);
    out
}

fn bullet_list(items: &Vec<String>) -> (r: String)
    ensures
        r@ == text::join(text::views(items@).map_values(|c: Seq<char>| "- "@ + c), "\n"@),
{
    let mut lines: Vec<String> = Vec::new();
    for i in 0..items.len()
        invariant
            lines@.len() == i,
            forall|j: int| 0 <= j < i ==> (#[trigger] lines@[j])@ == "- "@ + items@[j]@,
    {
        let mut s = "- ".to_string();
        s.append(items[i].as_str());
        lines.push(s);
    }
    assert(text::views(lines@) =~= text::views(items@).map_values(|c: Seq<char>| "- "@ + c));
    join_strings(&lines, "\n")
}

/// Add `note` to the text of the last message, where it has one; whether it has.
fn add_note(list: &mut Vec<ChatMessage>, note: &str) -> (r: bool)
    ensures
        r == can_note(chat::messages(old(list)@)),
        chat::messages(final(list)@) == noted(chat::messages(old(list)@), note@),
{
    let n: usize = list.len();
    let mut done: bool = false;
    if n > 0 {
        if let Some(c) = &mut list[n - 1].content {
            c.append(note);
            done = true;
        }
    }
    assert(chat::messages(list@) =~= noted(chat::messages(old(list)@), note@));
    done
}

impl<H> Agent<H> {
    /// Begin a turn: what waited for one is said, and a history that an interrupted
    /// turn left behind is mended.
    pub fn start_turn(&mut self) -> (r: (Turn, Vec<AgentEvent>))
        ensures
            r.0@ == fresh_turn(),
            event::events(r.1@) == agent::notices(old(self)@.pending_notices),
            final(self)@ == mended(old(self)@),
    {
        let evs = notice_events(&self.pending_notices);
        self.pending_notices = Vec::new();
        assert(text::views(self.pending_notices@) =~= Seq::empty());
        repair_dangling_tool_calls(&mut self.messages);
        let turn = Turn {
            step: 0,
            nudged: false,
            checkpoint_warned: false,
            watch: None,
            overflow_compacted: false,
            repeat: RepeatGuard { key: None, calls: 0, failures: 0 },
        };
        (turn, evs)
    }

    /// Whether the turn has a round left.
    pub fn has_round(&self, turn: &Turn) -> (r: bool)
        ensures
            r == (turn.step < self.max_steps),
    {
        turn.step < self.max_steps
    }

    /// Begin the next round. A message that was delivered to the turn since the last
    /// one gives it a fresh budget.
    pub fn begin_round(&self, turn: &mut Turn, delivered: bool)
        requires
            old(turn).step < self.max_steps,
        ensures
            final(turn)@ == (TurnView {
                step: (if delivered {
                    1
                } else {
                    old(turn).step + 1
                }) as usize,
                ..old(turn)@
            }),
            final(turn).step <= self.max_steps,
            delivered ==> final(turn).step == 1,
            !delivered ==> final(turn).step == old(turn).step + 1,
    {
        if delivered {
            turn.step = 0;
        }
        turn.step = turn.step + 1;
    }

    /// Take a reply of the model's: its message enters the history, and what follows is
    /// decided.
    pub fn receive_reply(
        &mut self,
        turn: &mut Turn,
        reply: ChatMessage,
        truncated: bool,
        tools_offered: bool,
        background_running: usize,
        now: Moment,
    ) -> (r: (Vec<AgentEvent>, AfterReply))
        ensures
            (final(self)@, final(turn)@, event::events(r.0@), r.1) == after_reply(
                old(self)@,
                old(turn)@,
                reply@,
                truncated,
                tools_offered,
                background_running,
                now,
            ),
    {
        let ghost a = self@;
        let ghost t = turn@;
        let mut evs: Vec<AgentEvent> = Vec::new();
        assert(event::events(evs@) =~= Seq::empty());
        if truncated {
            push_notice(&mut evs, TRUNCATED_NOTICE.to_string());
        }
        assert(event::events(evs@) =~= when(truncated, TRUNCATED_NOTICE@));
        let mut m = reply;
        ensure_assistant_has_content(&mut m);
        let calls_empty: bool = match &m.tool_calls {
            Some(c) => c.len() == 0,
            None => true,
        };
        let leaked: bool = match &m.content {
            Some(c) => looks_like_unparsed_tool_call(c.as_str()),
            None => false,
        };
        let warns: bool = !self.tool_syntax_warned && calls_empty && tools_offered && leaked;
        if warns {
            self.tool_syntax_warned = true;
            push_notice(&mut evs, UNPARSED_TOOL_CALL_NOTICE.to_string());
        }
        let ghost said = when(truncated, TRUNCATED_NOTICE@) + when(
            warns,
            UNPARSED_TOOL_CALL_NOTICE@,
        );
        assert(event::events(evs@) =~= said);
        let ghost before = self.messages@;
        self.messages.push(m);
        proof {
            agent::lemma_messages_push(before, m);
        }
        if !calls_empty {
            return (evs, AfterReply::RunTools);
        }
        if !turn.nudged && background_running == 0 {
            let named = unfinished_contents(&self.todos);
            assert(named@.len() == text::views(named@).len());
            assert(named@.len() == unfinished(a.todos).len());
            if named.len() > 0 {
                let mut note = "turn ended with ".to_string();
                note.append(decimal_string(named.len() as u64).as_str());
                note.append(
                    " unfinished TODOs — nudging the model to finish or defer explicitly",
                );
                push_notice(&mut evs, note);
                turn.nudged = true;
                turn.watch = Some(TodoShrinkWatch { unfinished: named, len: self.todos.len() });
                let mut msg =
                    "[Your turn was about to end, but these TODO items are not finished:\n".to_string();
                msg.append(render_unfinished_todos(&self.todos).as_str());
                msg.append(
                    "\nEither continue now and complete them, or reconcile the list item by item with the todo tool: send the full list back with every one of these items still in it, each marked `completed` or `cancelled` — and say plainly, to the user, why you cancelled what you cancelled. Do not replace, collapse, or drop items to make the list look finished; a shorter list is not a resolved list.]",
                );
                self.push_user_message(msg, MessageOrigin::Nudge, now);
                return (evs, AfterReply::Nudged);
            }
        }
        (evs, AfterReply::Finish)
    }

    /// End a round whose calls have all run. The model is told on the last result that
    /// its reply was cut off, that it is time to checkpoint, or that few rounds are
    /// left; and it is asked about TODO items that it dropped instead of resolving.
    pub fn close_round(&mut self, turn: &mut Turn, truncated: bool, now: Moment) -> (r: Vec<
        AgentEvent,
    >)
        requires
            old(turn).step <= old(self).max_steps,
        ensures
            (final(self)@, final(turn)@, event::events(r@)) == after_round(
                old(self)@,
                old(turn)@,
                truncated,
                now,
            ),
    {
        let ghost a = self@;
        let ghost t = turn@;
        let mut evs: Vec<AgentEvent> = Vec::new();
        assert(event::events(evs@) =~= Seq::empty());
        if truncated {
            add_note(&mut self.messages, TRUNCATED_NOTE);
        }
        let ghost m1 = self@.messages;
        let ghost dropped = t.watch matches Some(w) && shrank(w, a.todos);
        let ghost gone_view = removed(t.watch->0, a.todos);
        if let Some(w) = turn.watch.take() {
            let gone = removed_items(&w, &self.todos);
            assert(gone@.len() == text::views(gone@).len());
            if self.todos.len() < w.len && gone.len() > 0 {
                let mut note = decimal_string(gone.len() as u64);
                note.append(
                    " nudged TODO items were removed rather than resolved — asking the model to restore them",
                );
                push_notice(&mut evs, note);
                let mut msg =
                    "[These TODO items were removed from the list rather than resolved:\n".to_string();
                msg.append(bullet_list(&gone).as_str());
                msg.append(
                    "\nDeleting an item is not finishing it. Send the list back through the todo tool with each of them restored and marked `completed` or `cancelled`, and tell the user which ones you did not actually do.]",
                );
                self.push_user_message(msg, MessageOrigin::Nudge, now);
            } else {
                turn.watch = Some(w);
            }
        }
        assert(event::events(evs@) =~= when(dropped, removed_notice(gone_view.len())));
        let ghost before = evs@;
        let kept = AgentEvent::History(copied_messages(&self.messages));
        evs.push(kept);
        proof {
            agent::lemma_events_push(before, kept);
        }
        let used: usize = turn.step;
        let at_checkpoint: bool = match checkpoint_warning_round(self.max_steps) {
            Some(c) => c == used,
            None => false,
        };
        if !turn.checkpoint_warned && at_checkpoint {
            let mut note = "\n\n[note: you've used ".to_string();
            note.append(decimal_string(used as u64).as_str());
            note.append(" of ");
            note.append(decimal_string(self.max_steps as u64).as_str());
            note.append(
                " tool rounds this turn — checkpoint your work (commit what's done) and sequence what remains; the turn ends at ",
            );
            note.append(decimal_string(self.max_steps as u64).as_str());
            note.append("]");
            if add_note(&mut self.messages, note.as_str()) {
                turn.checkpoint_warned = true;
            }
        }
        let remaining: usize = self.max_steps - turn.step;
        if remaining == WRAP_UP_WARNING_ROUNDS {
            let mut note = "\n\n[note: only ".to_string();
            note.append(decimal_string(remaining as u64).as_str());
            note.append(" tool rounds remain this turn — finish up and summarize]");
            add_note(&mut self.messages, note.as_str());
        }
        evs
    }

    /// Begin the last round of a turn whose budget is spent: the model is asked, without
    /// tools, to say what it did and what remains.
    pub fn start_wrap_up(&mut self) -> (r: Vec<AgentEvent>)
        ensures
            final(self)@ == wrapping_up(old(self)@),
            event::events(r@) == seq![
                EventView::Notice(limit_notice(old(self).max_steps)),
            ],
    {
        let mut evs: Vec<AgentEvent> = Vec::new();
        assert(event::events(evs@) =~= Seq::empty());
        let mut note = "tool-round limit reached (".to_string();
        note.append(decimal_string(self.max_steps as u64).as_str());
        note.append(") — asking the model to wrap up");
        push_notice(&mut evs, note);
        let ghost before = self.messages@;
        let m = ChatMessage::user(BUDGET_EXHAUSTED_MESSAGE);
        self.messages.push(m);
        proof {
            agent::lemma_messages_push(before, m);
        }
        assert(event::events(evs@) =~= seq![AgentEvent::Notice(note@)]);
        evs
    }

    /// Take the model's last reply of a turn whose budget is spent.
    pub fn receive_wrap_up(&mut self, reply: ChatMessage)
        ensures
            final(self)@ == (AgentView {
                messages: old(self)@.messages.push(repair::with_content(reply@)),
                ..old(self)@
            }),
    {
        let mut m = reply;
        ensure_assistant_has_content(&mut m);
        let ghost before = self.messages@;
        self.messages.push(m);
        proof {
            agent::lemma_messages_push(before, m);
        }
    }

    /// End the turn: sub-agents that nobody needs are released, and finished to-do items
    /// are one turn older.
    pub fn end_turn(&mut self) -> (r: Vec<AgentEvent>)
        requires
            old(self)@.todo_turn < u64::MAX,
        ensures
            final(self)@ == ended(old(self)@),
            event::events(r@) == seq![EventView::TurnDone],
    {
        self.release_finished_subagents();
        self.todo_turn = self.todo_turn + 1;
        let mut evs: Vec<AgentEvent> = Vec::new();
        evs.push(AgentEvent::TurnDone);
        assert(event::events(evs@) =~= seq![EventView::TurnDone]);
        evs
    }
}

// ---------------------------------------------------------------------------
// Laws
// ---------------------------------------------------------------------------

/// A turn asks about TODO items at most once: once it has asked, it does not ask again.
pub proof fn law_one_nudge_a_turn<H>(
    a: AgentView<H>,
    t: TurnView,
    reply: MessageView,
    truncated: bool,
    tools_offered: bool,
    background_running: usize,
    now: Moment,
)
    ensures
        ({
            let (_, after, _, next) = after_reply(
                a,
                t,
                reply,
                truncated,
                tools_offered,
                background_running,
                now,
            );
            &&& next == AfterReply::Nudged ==> !t.nudged && after.nudged
            &&& t.nudged ==> after.nudged && next != AfterReply::Nudged
        }),
{
}

/// A turn goes on exactly as long as the model calls tools, but for the one question
/// about TODO items.
pub proof fn law_a_reply_without_calls_ends_the_turn<H>(
    a: AgentView<H>,
    t: TurnView,
    reply: MessageView,
    truncated: bool,
    tools_offered: bool,
    background_running: usize,
    now: Moment,
)
    ensures
        ({
            let (_, _, _, next) = after_reply(
                a,
                t,
                reply,
                truncated,
                tools_offered,
                background_running,
                now,
            );
            &&& (next == AfterReply::RunTools <==> asked(reply).len() > 0)
            &&& next == AfterReply::Finish <==> asked(reply).len() == 0 && !asks_about_todos(
                t,
                a.todos,
                background_running,
            )
        }),
{
}

/// Every reply enters the history with text or calls.
pub proof fn law_no_message_is_empty<H>(
    a: AgentView<H>,
    t: TurnView,
    reply: MessageView,
    truncated: bool,
    tools_offered: bool,
    background_running: usize,
    now: Moment,
)
    ensures
        ({
            let (after, _, _, _) = after_reply(
                a,
                t,
                reply,
                truncated,
                tools_offered,
                background_running,
                now,
            );
            let m = after.messages[a.messages.len() as int];
            m.tool_calls is Some || (m.content matches Some(c) && text::trim(c).len() > 0)
        }),
{
    let blank = match reply.content {
        Some(c) => text::trim(c).len() == 0,
        None => true,
    };
    if blank && reply.tool_calls is None {
        reveal_strlit("(no response)");
        let s = "(no response)"@;
        assert(text::trim_start(s) == s);
        assert(!text::is_white(s.last()));
        assert(text::trim_end(s) == s);
    }
}

/// The soft warning at four fifths of the budget is given at most once a turn and never
/// together with a later one.
pub proof fn law_one_checkpoint_a_turn<H>(a: AgentView<H>, t: TurnView, truncated: bool, now: Moment)
    ensures
        t.checkpoint_warned ==> after_round(a, t, truncated, now).1.checkpoint_warned,
        after_round(a, t, truncated, now).1.checkpoint_warned && !t.checkpoint_warned
            ==> checkpoint_round(a.max_steps) == Some(t.step),
        checkpoint_round(a.max_steps) matches Some(c) ==> 1 <= c < a.max_steps && 5 * c >= 4
            * a.max_steps && 5 * (c - 1) < 4 * a.max_steps,
{
}

/// The model is asked about dropped TODO items at most once: the watch ends when it is
/// asked, and only then.
pub proof fn law_dropped_items_are_asked_about_once<H>(
    a: AgentView<H>,
    t: TurnView,
    truncated: bool,
    now: Moment,
)
    ensures
        ({
            let (_, after, _) = after_round(a, t, truncated, now);
            &&& (after.watch is None <==> t.watch is None || shrank(t.watch->0, a.todos))
            &&& after.watch is Some ==> after.watch == t.watch
        }),
{
}

/// What is published at the end of a round is the history with all results of the round:
/// what comes after are notes to the last message alone.
pub proof fn law_a_round_is_published_whole<H>(
    a: AgentView<H>,
    t: TurnView,
    truncated: bool,
    now: Moment,
)
    ensures
        ({
            let (b, _, said) = after_round(a, t, truncated, now);
            said.last() matches AgentEvent::History(m) && {
                &&& a.messages.len() <= m.len() == b.messages.len()
                &&& forall|i: int|
                    0 <= i < m.len() - 1 ==> #[trigger] m[i] == b.messages[i]
                &&& m.len() > 0 ==> m.last().tool_call_id == b.messages.last().tool_call_id
            }
        }),
{
}

/// A list on which every named item still stands is never said to have lost one.
pub proof fn law_kept_items_are_not_missed(w: WatchView, list: Seq<TodoItem<Seq<char>>>)
    requires
        forall|i: int|
            0 <= i < w.unfinished.len() ==> list.map_values(
                |t: TodoItem<Seq<char>>| t.content,
            ).contains(#[trigger] w.unfinished[i]),
    ensures
        !shrank(w, list),
{
    let p = |c: Seq<char>| !list.map_values(|t: TodoItem<Seq<char>>| t.content).contains(c);
    if removed(w, list).len() > 0 {
        let c = removed(w, list)[0];
        w.unfinished.lemma_filter_pred(p, 0);
        assert(removed(w, list).contains(c));
        w.unfinished.lemma_filter_contains_rev(p, c);
        let i = choose|i: int| 0 <= i < w.unfinished.len() && w.unfinished[i] == c;
        assert(list.map_values(|t: TodoItem<Seq<char>>| t.content).contains(w.unfinished[i]));
    }
}

// ---------------------------------------------------------------------------
// What holds a turn up
// ---------------------------------------------------------------------------

/// A reply without calls ends the turn where every TODO item is completed or cancelled:
/// nothing but the reply enters the history. Where some item has another status, nothing
/// runs in the background and the turn has not asked yet, the turn goes on instead: the
/// model is asked, by the harness and not the user, about every such item by its text,
/// and those are the items that are watched.
pub proof fn law_only_open_items_hold_a_turn_up<H>(
    a: AgentView<H>,
    t: TurnView,
    reply: MessageView,
    truncated: bool,
    tools_offered: bool,
    background_running: usize,
    now: Moment,
    i: int,
)
    requires
        reply.tool_calls matches Some(c) ==> c.len() == 0,
    ensures
        ({
            let (b, u, said, next) = after_reply(
                a,
                t,
                reply,
                truncated,
                tools_offered,
                background_running,
                now,
            );
            &&& (forall|k: int|
                0 <= k < a.todos.len() ==> (#[trigger] a.todos[k]).status == "completed"@
                    || a.todos[k].status == "cancelled"@) ==> {
                &&& next == AfterReply::Finish
                &&& b.messages.len() == a.messages.len() + 1
                &&& u == t
            }
            &&& 0 <= i < a.todos.len() && a.todos[i].status != "completed"@ && a.todos[i].status
                != "cancelled"@ && !t.nudged && background_running == 0 ==> {
                &&& next == AfterReply::Nudged
                &&& b.messages.len() == a.messages.len() + 2
                &&& b.messages.last().role == chat::Role::User
                &&& b.messages.last().origin == MessageOrigin::Nudge
                &&& b.messages.last().entered == Some(now)
                &&& b.messages.last().content matches Some(text) && text::contains(
                    text,
                    a.todos[i].content,
                )
                &&& said.len() > 0 && said.last() is Notice
                &&& u.watch matches Some(w) && w.unfinished.contains(a.todos[i].content) && w.len
                    == a.todos.len()
            }
            &&& t.nudged || background_running > 0 ==> next == AfterReply::Finish
        }),
{
    let p = |x: TodoItem<Seq<char>>| is_unfinished(x);
    let f = |x: TodoItem<Seq<char>>| todo_line(x);
    let g = |x: TodoItem<Seq<char>>| x.content;
    let open = unfinished(a.todos);
    if open.len() > 0 {
        a.todos.lemma_filter_pred(p, 0);
        assert(open.contains(open[0]));
        a.todos.lemma_filter_contains_rev(p, open[0]);
    }
    if 0 <= i < a.todos.len() && a.todos[i].status != "completed"@ && a.todos[i].status
        != "cancelled"@ {
        a.todos.lemma_filter_contains(p, i);
        let k = choose|k: int| 0 <= k < open.len() && open[k] == a.todos[i];
        let lines = open.map_values(f);
        assert(lines[k] == todo_line(a.todos[i]));
        text::law_join_holds_every_part(lines, "\n"@, k);
        let content = a.todos[i].content;
        let mark = "["@ + (if a.todos[i].status == "in_progress"@ {
            "~"@
        } else {
            " "@
        }) + "] "@;
        text::lemma_holds_itself(content);
        text::lemma_part_holds(mark, content, Seq::empty(), content);
        assert(mark + content + Seq::<char>::empty() =~= lines[k]);
        lemma_held_within(unfinished_lines(a.todos), lines[k], content);
        let head = "[Your turn was about to end, but these TODO items are not finished:\n"@;
        let tail = todo_message(a.todos).skip(
            (head.len() + unfinished_lines(a.todos).len()) as int,
        );
        text::lemma_part_holds(head, unfinished_lines(a.todos), tail, content);
        assert(head + unfinished_lines(a.todos) + tail =~= todo_message(a.todos));
        assert(open.map_values(g)[k] == content);
    }
}

/// What stands in a text that stands in another stands in that.
proof fn lemma_held_within(s: Seq<char>, p: Seq<char>, q: Seq<char>)
    requires
        text::contains(s, p),
        text::contains(p, q),
    ensures
        text::contains(s, q),
{
    let i = choose|i: int| text::occurs_at(s, p, i);
    let head = s.take(i);
    let tail = s.skip(i + p.len());
    assert(head + p + tail =~= s) by {
        assert(s.subrange(i, i + p.len()) == p);
        assert(s =~= s.take(i) + s.subrange(i, i + p.len()) + s.skip(i + p.len()));
    }
    text::lemma_part_holds(head, p, tail, q);
}

/// A TODO item is shown by its text behind a mark, which is a tilde for one in progress
/// and blank for any other.
pub proof fn law_an_item_is_shown_behind_its_mark(t: TodoItem<Seq<char>>)
    ensures
        todo_line(t) == seq![
            '[',
            if t.status == "in_progress"@ {
                '~'
            } else {
                ' '
            },
            ']',
            ' ',
        ] + t.content,
{
    reveal_strlit("[");
    reveal_strlit("~");
    reveal_strlit(" ");
    reveal_strlit("] ");
    assert(todo_line(t) =~= seq![
        '[',
        if t.status == "in_progress"@ {
            '~'
        } else {
            ' '
        },
        ']',
        ' ',
    ] + t.content);
}

/// An item that the model was asked about, and that is gone from a list which has got
/// shorter, is asked for by its text when the round ends.
pub proof fn law_a_dropped_item_is_asked_for<H>(
    a: AgentView<H>,
    t: TurnView,
    truncated: bool,
    now: Moment,
    c: Seq<char>,
)
    requires
        t.watch matches Some(w) && w.unfinished.contains(c) && a.todos.len() < w.len,
        forall|i: int| 0 <= i < a.todos.len() ==> (#[trigger] a.todos[i]).content != c,
    ensures
        ({
            let (_, u, said) = after_round(a, t, truncated, now);
            &&& u.watch is None
            &&& said.len() == 2
            &&& said[0] is Notice
            &&& said[1] matches AgentEvent::History(m) && m.len() == a.messages.len() + 1
                && m.last().role == chat::Role::User && m.last().origin == MessageOrigin::Nudge && (
            m.last().content matches Some(text) && text::contains(text, c))
        }),
{
    let w = t.watch->0;
    let p = |x: Seq<char>| !a.todos.map_values(|i: TodoItem<Seq<char>>| i.content).contains(x);
    let f = |x: Seq<char>| "- "@ + x;
    let k = choose|k: int| 0 <= k < w.unfinished.len() && w.unfinished[k] == c;
    let contents = a.todos.map_values(|i: TodoItem<Seq<char>>| i.content);
    if contents.contains(c) {
        let i = choose|i: int| 0 <= i < contents.len() && contents[i] == c;
        assert(a.todos[i].content == c);
    }
    w.unfinished.lemma_filter_contains(p, k);
    let gone = removed(w, a.todos);
    let j = choose|j: int| 0 <= j < gone.len() && gone[j] == c;
    let lines = gone.map_values(f);
    assert(lines[j] == "- "@ + c);
    text::law_join_holds_every_part(lines, "\n"@, j);
    text::lemma_holds_itself(c);
    text::lemma_part_holds("- "@, c, Seq::empty(), c);
    assert("- "@ + c + Seq::<char>::empty() =~= lines[j]);
    let all = text::join(lines, "\n"@);
    lemma_held_within(all, lines[j], c);
    let head = "[These TODO items were removed from the list rather than resolved:\n"@;
    let tail = removed_message(gone).skip((head.len() + all.len()) as int);
    text::lemma_part_holds(head, all, tail, c);
    assert(head + all + tail =~= removed_message(gone));
}

/// Notes at the end of a round are added behind what a message says: nothing that was in
/// the history is taken out of it or changed in any other way.
pub proof fn law_notes_are_added_behind<H>(
    a: AgentView<H>,
    t: TurnView,
    truncated: bool,
    now: Moment,
    i: int,
)
    requires
        0 <= i < a.messages.len(),
    ensures
        ({
            let m = after_round(a, t, truncated, now).0.messages;
            &&& m.len() >= a.messages.len()
            &&& m[i].role == a.messages[i].role
            &&& m[i].tool_calls == a.messages[i].tool_calls
            &&& m[i].tool_call_id == a.messages[i].tool_call_id
            &&& m[i].content is Some <==> a.messages[i].content is Some
            &&& a.messages[i].content matches Some(c) ==> text::starts_with(m[i].content->0, c)
            &&& i < a.messages.len() - 1 ==> m[i] == a.messages[i]
        }),
        truncated && a.messages.last().content is Some ==> ({
            let m = after_round(a, t, truncated, now).0.messages;
            text::starts_with(
                m[a.messages.len() - 1].content->0,
                a.messages.last().content->0 + TRUNCATED_NOTE@,
            )
        }),
{
    let m1 = if truncated {
        noted(a.messages, TRUNCATED_NOTE@)
    } else {
        a.messages
    };
    lemma_noted(a.messages, TRUNCATED_NOTE@, i);
    let last = a.messages.len() - 1;
    lemma_noted(a.messages, TRUNCATED_NOTE@, last);
    let dropped = t.watch matches Some(w) && shrank(w, a.todos);
    let gone = removed(t.watch->0, a.todos);
    let m2 = if dropped {
        m1.push(chat::user_message(removed_message(gone), MessageOrigin::Nudge, Some(now)))
    } else {
        m1
    };
    let n = checkpoint_note(t.step, a.max_steps);
    lemma_noted(m2, n, i);
    lemma_noted(m2, n, last);
    let checkpoint = !t.checkpoint_warned && checkpoint_round(a.max_steps) == Some(t.step)
        && can_note(m2);
    let m3 = if checkpoint {
        noted(m2, n)
    } else {
        m2
    };
    let w = wrap_up_note(WRAP_UP_WARNING_ROUNDS as nat);
    lemma_noted(m3, w, i);
    lemma_noted(m3, w, last);
    let m4 = after_round(a, t, truncated, now).0.messages;
    assert(m4 == m3 || m4 == noted(m3, w));
    lemma_prefixes(m1, m2, m3, m4, i);
    lemma_prefixes(a.messages, m1, m1, m1, i);
    lemma_prefixes(m1, m2, m3, m4, last);
    if a.messages[i].content is Some {
        lemma_prefix_twice(a.messages[i].content->0, m1[i].content->0, m4[i].content->0);
    }
}

proof fn lemma_noted(m: Seq<MessageView>, note: Seq<char>, i: int)
    requires
        0 <= i < m.len(),
    ensures
        noted(m, note).len() == m.len(),
        noted(m, note)[i].role == m[i].role,
        noted(m, note)[i].tool_calls == m[i].tool_calls,
        noted(m, note)[i].tool_call_id == m[i].tool_call_id,
        noted(m, note)[i].content is Some <==> m[i].content is Some,
        m[i].content matches Some(c) ==> text::starts_with(noted(m, note)[i].content->0, c),
        i < m.len() - 1 ==> noted(m, note)[i] == m[i],
        m.last().content matches Some(c) ==> noted(m, note).last().content == Some(c + note),
{
    if let Some(c) = m[i].content {
        assert((c + note).take(c.len() as int) =~= c);
        assert(c.take(c.len() as int) =~= c);
    }
}

proof fn lemma_prefix_twice(a: Seq<char>, b: Seq<char>, c: Seq<char>)
    requires
        text::starts_with(b, a),
        text::starts_with(c, b),
    ensures
        text::starts_with(c, a),
{
    assert(c.take(a.len() as int) =~= c.take(b.len() as int).take(a.len() as int));
}

/// Prefixes of texts along three steps of which each leaves a text or adds to it.
proof fn lemma_prefixes(
    m1: Seq<MessageView>,
    m2: Seq<MessageView>,
    m3: Seq<MessageView>,
    m4: Seq<MessageView>,
    i: int,
)
    requires
        m1[i].content matches Some(c) ==> m2[i].content == m1[i].content || (
        m2[i].content is Some && text::starts_with(m2[i].content->0, c)),
        m2[i].content matches Some(c) ==> m3[i].content == m2[i].content || (
        m3[i].content is Some && text::starts_with(m3[i].content->0, c)),
        m3[i].content matches Some(c) ==> m4[i].content == m3[i].content || (
        m4[i].content is Some && text::starts_with(m4[i].content->0, c)),
    ensures
        m1[i].content matches Some(c) ==> m4[i].content is Some && text::starts_with(
            m4[i].content->0,
            c,
        ),
{
    if let Some(c) = m1[i].content {
        assert(c.take(c.len() as int) =~= c);
        let d = m2[i].content->0;
        let e = m3[i].content->0;
        assert(d.take(d.len() as int) =~= d);
        assert(e.take(e.len() as int) =~= e);
        let f = m4[i].content->0;
        assert(f.take(f.len() as int) =~= f);
        lemma_prefix_twice(c, d, e);
        lemma_prefix_twice(c, e, f);
    }
}

/// A reply enters the history with its own role and calls, and with its own text unless
/// that says nothing; the user is told of one that was cut off, and of one that holds a
/// call as text where tools were offered, the latter once.
pub proof fn law_a_reply_enters_as_it_came<H>(
    a: AgentView<H>,
    t: TurnView,
    reply: MessageView,
    truncated: bool,
    tools_offered: bool,
    background_running: usize,
    now: Moment,
    marker: int,
)
    requires
        0 <= marker < 9,
    ensures
        ({
            let (b, _, said, _) = after_reply(
                a,
                t,
                reply,
                truncated,
                tools_offered,
                background_running,
                now,
            );
            let m = b.messages[a.messages.len() as int];
            &&& b.messages.len() > a.messages.len()
            &&& b.messages.take(a.messages.len() as int) == a.messages
            &&& m.role == reply.role
            &&& m.tool_calls == reply.tool_calls
            &&& reply.tool_calls is Some || (reply.content matches Some(c) && text::trim(c).len()
                > 0) ==> m.content == reply.content
            &&& truncated ==> said.len() > 0 && said[0] == EventView::Notice(TRUNCATED_NOTICE@)
            &&& a.tool_syntax_warned || !tools_offered ==> b.tool_syntax_warned
                == a.tool_syntax_warned
            &&& reply.tool_calls is None && tools_offered && !a.tool_syntax_warned && (
            reply.content matches Some(c) && text::contains(c, TOOL_CALL_MARKERS@[marker]@)
                && text::trim(c).len() > 0) ==> b.tool_syntax_warned && said.contains(
                EventView::Notice(UNPARSED_TOOL_CALL_NOTICE@),
            )
            &&& b.todos == a.todos && b.background == a.background && b.registry == a.registry
        }),
{
    let (b, _, said, _) = after_reply(
        a,
        t,
        reply,
        truncated,
        tools_offered,
        background_running,
        now,
    );
    assert(b.messages.take(a.messages.len() as int) =~= a.messages);
    if reply.tool_calls is None && tools_offered && !a.tool_syntax_warned && (
    reply.content matches Some(c) && text::contains(c, TOOL_CALL_MARKERS@[marker]@) && text::trim(
        c,
    ).len() > 0) {
        assert(has_marker(reply.content->0));
        let k = if truncated {
            1int
        } else {
            0int
        };
        assert(said[k] == EventView::Notice(UNPARSED_TOOL_CALL_NOTICE@));
    }
}

/// A duration reads in its two largest units: the first counts them whole, the second what
/// is left, and together they fall short of the duration by less than one of the second.
pub proof fn law_a_duration_reads_in_two_units(ms: nat)
    ensures
        ms >= 3_600_000 ==> exists|h: nat, m: nat|
            duration_text(ms) == text::decimal(h) + "h "@ + #[trigger] text::decimal(m) + "m"@ && m
                < 60 && h * 3_600_000 + m * 60_000 <= ms < h * 3_600_000 + (m + 1) * 60_000
                && #[trigger] text::decimal(h).len() > 0,
        60_000 <= ms < 3_600_000 ==> exists|m: nat, s: nat|
            duration_text(ms) == text::decimal(m) + "m "@ + #[trigger] text::decimal(s) + "s"@ && s
                < 60 && m * 60_000 + s * 1_000 <= ms < m * 60_000 + (s + 1) * 1_000
                && #[trigger] text::decimal(m).len() > 0,
        1_000 <= ms < 60_000 ==> exists|s: nat, r: nat|
            duration_text(ms) == text::decimal(s) + "s "@ + #[trigger] text::decimal(r) + "ms"@ && r
                < 1_000 && s * 1_000 + r == ms && #[trigger] text::decimal(s).len() > 0,
        ms < 1_000 ==> duration_text(ms) == text::decimal(ms) + "ms"@,
{
    if ms >= 3_600_000 {
        let h = ms / 3_600_000;
        let m = (ms % 3_600_000) / 60_000;
        text::lemma_decimal_digits(h);
        assert(duration_text(ms) == text::decimal(h) + "h "@ + text::decimal(m) + "m"@);
    } else if ms >= 60_000 {
        let m = ms / 60_000;
        let s = (ms % 60_000) / 1_000;
        text::lemma_decimal_digits(m);
        assert(duration_text(ms) == text::decimal(m) + "m "@ + text::decimal(s) + "s"@);
    } else if ms >= 1_000 {
        let s = ms / 1_000;
        let r = ms % 1_000;
        text::lemma_decimal_digits(s);
        assert(duration_text(ms) == text::decimal(s) + "s "@ + text::decimal(r) + "ms"@);
    }
}

/// The model is told to save its work after the first round that leaves it no more than a
/// fifth of its budget, and not at all where that would be the last one.
pub proof fn law_a_checkpoint_is_asked_for_at_four_fifths(max_steps: usize, at: usize)
    ensures
        checkpoint_round(max_steps) == Some(at) <==> 5 * at >= 4 * max_steps && 5 * (at - 1) < 4
            * max_steps && 1 <= at < max_steps,
{
}

/// Notes on the budget come when they are due and not before: the one to save the work
/// once a turn, at its round, and the one to wrap up when so many rounds are left. They
/// stand behind what the last call gave.
pub proof fn law_the_budget_is_told_when_it_is_due<H>(a: AgentView<H>, t: TurnView, now: Moment)
    requires
        t.watch is None,
        a.messages.len() > 0,
        a.messages.last().content is Some,
    ensures
        ({
            let (b, u, said) = after_round(a, t, false, now);
            let due = !t.checkpoint_warned && checkpoint_round(a.max_steps) == Some(t.step);
            let close = a.max_steps - t.step == WRAP_UP_WARNING_ROUNDS;
            &&& b.messages.len() == a.messages.len()
            &&& u.checkpoint_warned == (t.checkpoint_warned || due)
            &&& !due && !close ==> b == a && u == t
            &&& due && !close ==> b.messages.last().content == Some(
                a.messages.last().content->0 + checkpoint_note(t.step, a.max_steps),
            )
            &&& close && !due ==> b.messages.last().content == Some(
                a.messages.last().content->0 + wrap_up_note(WRAP_UP_WARNING_ROUNDS as nat),
            )
            &&& u.step == t.step && u.nudged == t.nudged
            &&& said.len() == 1
        }),
{
    let (b, u, said) = after_round(a, t, false, now);
    let due = !t.checkpoint_warned && checkpoint_round(a.max_steps) == Some(t.step);
    let close = a.max_steps - t.step == WRAP_UP_WARNING_ROUNDS;
    if !due && !close {
        assert(b.messages =~= a.messages);
    }
}

/// The notes name the figures that they are about.
pub proof fn law_a_note_names_its_figures(used: usize, max: usize, left: nat)
    ensures
        text::contains(
            checkpoint_note(used, max),
            text::decimal(used as nat) + " of "@ + text::decimal(max as nat),
        ),
        text::contains(wrap_up_note(left), text::decimal(left)),
        text::contains(removed_notice(left), text::decimal(left)),
{
    let u = text::decimal(used as nat);
    let m = text::decimal(max as nat);
    lemma_figures(u, m);
    let l = text::decimal(left);
    text::lemma_holds_itself(l);
    text::lemma_sum_holds("\n\n[note: only "@, l, l);
    text::lemma_sum_holds(
        "\n\n[note: only "@ + l,
        " tool rounds remain this turn — finish up and summarize]"@,
        l,
    );
    text::lemma_sum_holds(
        l,
        " nudged TODO items were removed rather than resolved — asking the model to restore them"@,
        l,
    );
}

#[verifier::rlimit(40)]
proof fn lemma_figures(u: Seq<char>, m: Seq<char>)
    ensures
        text::contains(
            "\n\n[note: you've used "@ + u + " of "@ + m
                + " tool rounds this turn — checkpoint your work (commit what's done) and sequence what remains; the turn ends at "@
                + m + "]"@,
            u + " of "@ + m,
        ),
{
    let both = u + " of "@ + m;
    let b =
        " tool rounds this turn — checkpoint your work (commit what's done) and sequence what remains; the turn ends at "@;
    let head = "\n\n[note: you've used "@ + u + " of "@ + m;
    text::lemma_row_of_three("\n\n[note: you've used "@, u, " of "@, m);
    text::lemma_sum_holds(head, b, both);
    text::lemma_sum_holds(head + b, m, both);
    text::lemma_sum_holds(head + b + m, "]"@, both);
}

/// An agent that begins a turn has a history in which every call is answered, and no
/// notice waits.
pub proof fn law_a_turn_begins_mended<H>(a: AgentView<H>)
    ensures
        mended(a).messages == repair::repaired(a.messages),
        mended(a).pending_notices.len() == 0,
        mended(a).todos == a.todos,
        mended(a).max_steps == a.max_steps,
        fresh_turn().step == 0 && !fresh_turn().nudged && !fresh_turn().checkpoint_warned
            && fresh_turn().watch is None && !fresh_turn().overflow_compacted,
{
}

/// A turn that has used up its rounds is asked once to wrap up, by a message of the user's
/// behind the others, and the notice of it names the limit.
#[verifier::rlimit(40)]
pub proof fn law_a_spent_turn_is_asked_to_wrap_up<H>(a: AgentView<H>, max: usize)
    ensures
        wrapping_up(a).messages.len() == a.messages.len() + 1,
        wrapping_up(a).messages.drop_last() == a.messages,
        wrapping_up(a).messages.last().role == chat::Role::User,
        wrapping_up(a).messages.last().content == Some(BUDGET_EXHAUSTED_MESSAGE@),
        wrapping_up(a).todos == a.todos,
        text::contains(limit_notice(max), text::decimal(max as nat)),
{
    assert(wrapping_up(a).messages.drop_last() =~= a.messages);
    let m = text::decimal(max as nat);
    text::lemma_holds_itself(m);
    text::lemma_sum_holds("tool-round limit reached ("@, m, m);
    text::lemma_sum_holds(
        "tool-round limit reached ("@ + m,
        ") — asking the model to wrap up"@,
        m,
    );
}

/// A turn that ends counts as one more, drops the sub-agents that are done with, and keeps
/// the conversation as it is.
pub proof fn law_a_turn_that_ends_counts<H>(a: AgentView<H>)
    requires
        a.todo_turn < u64::MAX,
    ensures
        ended(a).todo_turn == a.todo_turn + 1,
        ended(a).messages == a.messages,
        ended(a).todos == a.todos,
        ended(a).registry == crate::subagent_live::kept(a.registry),
{
}

} // verus!
