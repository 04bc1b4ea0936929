//! A whole turn, as steps between which the model, its tools and the user do their part:
//! from the message that opens it, through rounds of replies and tool calls, to its end.
use crate::agent;
use crate::agent::{notice_events, Agent, AgentView, HookReply};
use crate::chat;
use crate::chat::{ChatMessage, Steer, ToolCall};
use crate::clock::Moment;
use crate::event;
use crate::event::{AgentEvent, EventView};
use crate::json;
use crate::repeat::RepeatGuard;
use crate::request;
use crate::request::usage_event;
use crate::text;
use crate::tool_batch;
use crate::tool_batch::{next_batch, Finished};
use crate::turn_loop;
use crate::turn_loop::{AfterReply, Turn, TurnView};
use crate::usage::CallSpend;
use vstd::prelude::*;

verus! {

// ---------------------------------------------------------------------------
// Where a turn stands
// ---------------------------------------------------------------------------

/// What a turn waits for.
#[derive(Debug, Clone, Copy, PartialEq, Eq, Structural)]
pub enum RunStage {
    /// The message that opens it.
    Opening,
    /// The messages that were queued since the last request.
    Queue,
    /// Whether a model call may be made.
    Prepare,
    /// The model's reply.
    Reply,
    /// The results of a batch of calls.
    Tools,
    /// Whether the last model call may be made.
    WrapUp,
    /// The model's last reply.
    LastReply,
    /// The hooks that see its end.
    Ending,
    /// Nothing: it is over.
    Over,
}

/// A turn under way.
#[derive(Debug, Clone, PartialEq, Eq)]
pub struct Run {
    pub turn: Turn,
    pub stage: RunStage,
    /// The calls of the present round, and of each whether it may run beside others.
    pub calls: Vec<ToolCall>,
    pub concurrent: Vec<bool>,
    /// How many of the calls have been answered.
    pub answered: usize,
    /// Whether the reply that asks for the calls was cut off.
    pub truncated: bool,
}

/// What a [`Run`] holds.
pub struct RunView {
    pub turn: TurnView,
    pub stage: RunStage,
    pub calls: Seq<ToolCall<Seq<char>>>,
    pub concurrent: Seq<bool>,
    pub answered: nat,
    pub truncated: bool,
}

impl View for Run {
    type V = RunView;

    open spec fn view(&self) -> RunView {
        RunView {
            turn: self.turn@,
            stage: self.stage,
            calls: chat::calls(self.calls@),
            concurrent: self.concurrent@,
            answered: self.answered as nat,
            truncated: self.truncated,
        }
    }
}

/// Whether a turn is in a state that its steps lead to: the rounds are counted within
/// the budget, and a turn that runs calls has calls left.
pub open spec fn run_wf(r: RunView, max_steps: usize) -> bool {
    &&& r.turn.repeat.wf()
    &&& r.stage == RunStage::Queue ==> r.turn.step < max_steps
    &&& (r.stage == RunStage::Prepare || r.stage == RunStage::Reply || r.stage == RunStage::Tools)
        ==> r.turn.step <= max_steps
    &&& r.stage == RunStage::Tools ==> r.answered < r.calls.len() == r.concurrent.len()
}

/// Where the batch ends that a turn is waiting for.
pub open spec fn batch_end(r: RunView) -> int {
    tool_batch::batch_end(r.concurrent, r.answered as int)
}

// ---------------------------------------------------------------------------
// What comes back, and what is done next
// ---------------------------------------------------------------------------

/// A reply of the model's, and what is known when it has come.
#[derive(Debug, Clone, PartialEq, Eq)]
pub struct Reply {
    pub message: ChatMessage,
    /// Whether it was cut off at the output limit.
    pub truncated: bool,
    /// What was raised beside it for the user to read.
    pub warnings: Vec<String>,
    pub spend: CallSpend,
    /// How long it took to stream.
    pub decode_ms: u64,
    pub reasoning_tokens: Option<u32>,
    pub cost_partial: bool,
    /// Whether the model was offered any tool.
    pub tools_offered: bool,
    /// How many sub-agents run in the background.
    pub background_running: usize,
    /// Of each call that it asks for, whether it may run beside others.
    pub concurrent: Vec<bool>,
}

/// The message that opens a turn, with what the hooks and the memory say to it.
#[derive(Debug, Clone, PartialEq, Eq)]
pub struct Opening {
    pub msg: Steer,
    pub hooks: Option<HookReply>,
    pub recall: Option<String>,
}

/// What a turn waited for.
#[derive(Debug, PartialEq, Eq)]
pub enum RunEvent {
    /// The message that opens it; a turn that only hands over what is already in the
    /// history has none.
    Opened(Option<Opening>),
    /// The messages that were queued.
    Queued(Vec<Steer>),
    /// A model call may be made, or why none may.
    Checked(Result<(), String>),
    /// The model replied, or why it did not.
    Replied(Result<Reply, String>),
    /// The calls of a batch have ended.
    BatchRan(Vec<Finished>),
    /// The hooks have seen its end.
    HooksRan,
}

/// What is done next for a turn.
#[derive(Debug, Clone, PartialEq, Eq)]
pub enum RunAction<S = String> {
    /// Take the message that opens the turn, if there is one.
    TakeOpening,
    /// Take the messages that were queued.
    TakeQueued,
    /// Ask whether a model call may be made. Before a round, room is made first in a
    /// history that is about to fill the context; before the last reply of a turn whose
    /// budget is spent, none is.
    Prepare,
    /// Send the history to the model, with the tools or without any.
    Request { tools: bool },
    /// Run the calls from `from` up to `to` side by side.
    RunBatch { from: usize, to: usize },
    /// Let the hooks see that the turn ends.
    EndHooks,
    /// Nothing: the turn is done.
    Done,
    /// Nothing: the turn failed.
    Fail(S),
}

impl View for RunAction<String> {
    type V = RunAction<Seq<char>>;

    open spec fn view(&self) -> RunAction<Seq<char>> {
        match self {
            RunAction::TakeOpening => RunAction::TakeOpening,
            RunAction::TakeQueued => RunAction::TakeQueued,
            RunAction::Prepare => RunAction::Prepare,
            RunAction::Request { tools } => RunAction::Request { tools: *tools },
            RunAction::RunBatch { from, to } => RunAction::RunBatch { from: *from, to: *to },
            RunAction::EndHooks => RunAction::EndHooks,
            RunAction::Done => RunAction::Done,
            RunAction::Fail(e) => RunAction::Fail(e@),
        }
    }
}

/// A step of a turn: the agent and the turn after it, what is shown, and what is done.
pub struct RunStep<H> {
    pub agent: AgentView<H>,
    pub run: RunView,
    pub shown: Seq<EventView>,
    pub action: RunAction<Seq<char>>,
}

// ---------------------------------------------------------------------------
// The steps
// ---------------------------------------------------------------------------

/// A turn that fails.
pub open spec fn fails<H>(
    a: AgentView<H>,
    r: RunView,
    shown: Seq<EventView>,
    why: Seq<char>,
) -> RunStep<H> {
    RunStep {
        agent: a,
        run: RunView { stage: RunStage::Over, ..r },
        shown,
        action: RunAction::Fail(why),
    }
}

/// The next round, or the wrap up of a turn whose budget is spent.
pub open spec fn goes_on<H>(
    a: AgentView<H>,
    r: RunView,
    shown: Seq<EventView>,
) -> RunStep<H> {
    if r.turn.step < a.max_steps {
        RunStep {
            agent: a,
            run: RunView { stage: RunStage::Queue, ..r },
            shown,
            action: RunAction::TakeQueued,
        }
    } else {
        RunStep {
            agent: turn_loop::wrapping_up(a),
            run: RunView { stage: RunStage::WrapUp, ..r },
            shown: shown.push(AgentEvent::Notice(turn_loop::limit_notice(a.max_steps))),
            action: RunAction::Prepare,
        }
    }
}

/// The turn begins with its opening message, unless a hook blocks it.
pub open spec fn opens<H>(
    a: AgentView<H>,
    r: RunView,
    opening: Option<Opening>,
    now: Moment,
) -> RunStep<H> {
    match opening {
        None => goes_on(a, r, Seq::empty()),
        Some(o) => match agent::hook_block(o.hooks) {
            Some(reason) => fails(
                a,
                r,
                agent::notices(agent::hook_notes(o.hooks)),
                agent::blocked_text(reason),
            ),
            None => goes_on(
                agent::delivered(a, o.msg@, o.hooks, json::opt_view(o.recall), now),
                r,
                agent::notices(agent::hook_notes(o.hooks)).push(
                    AgentEvent::Steered(o.msg.display@),
                ),
            ),
        },
    }
}

/// A round begins with the messages that were queued, which give the turn a fresh
/// budget, and with the background results that have come.
pub open spec fn begins_round<H>(
    a: AgentView<H>,
    r: RunView,
    queued: Seq<Steer>,
    now: Moment,
) -> RunStep<H> {
    let b = agent::steered(a, queued, now);
    RunStep {
        agent: agent::informed(b, now),
        run: RunView {
            turn: TurnView {
                step: (if queued.len() > 0 {
                    1
                } else {
                    r.turn.step + 1
                }) as usize,
                ..r.turn
            },
            stage: RunStage::Prepare,
            ..r
        },
        shown: agent::steered_events(queued) + agent::finished_events(agent::due(b.background)),
        action: RunAction::Prepare,
    }
}

/// A model call is made where it may be; otherwise the turn fails, and says why.
pub open spec fn checks<H>(a: AgentView<H>, r: RunView, verdict: Result<(), Seq<char>>) -> RunStep<
    H,
> {
    match verdict {
        Err(why) => fails(a, r, seq![AgentEvent::Notice(why)], why),
        Ok(_) => RunStep {
            agent: a,
            run: RunView {
                stage: if r.stage == RunStage::Prepare {
                    RunStage::Reply
                } else {
                    RunStage::LastReply
                },
                ..r
            },
            shown: Seq::empty(),
            action: RunAction::Request { tools: r.stage == RunStage::Prepare },
        },
    }
}

/// What a reply has spent, as it is reported.
pub open spec fn spent(reply: Reply) -> EventView {
    AgentEvent::Usage(
        request::usage_report(
            reply.spend,
            reply.decode_ms,
            reply.reasoning_tokens,
            reply.cost_partial,
        ),
    )
}

/// A reply within the budget: its calls are run, or the turn goes on with a question
/// about TODO items, or it ends.
pub open spec fn takes_reply<H>(a: AgentView<H>, r: RunView, reply: Reply, now: Moment) -> RunStep<
    H,
> {
    let (b, t, said, next) = turn_loop::after_reply(
        AgentView { last_prompt_tokens: Some(reply.spend.prompt_tokens), ..a },
        r.turn,
        reply.message@,
        reply.truncated,
        reply.tools_offered,
        reply.background_running,
        now,
    );
    let shown = agent::notices(text::views(reply.warnings@)).push(spent(reply)) + said;
    let q = RunView { turn: t, ..r };
    match next {
        AfterReply::Nudged => goes_on(b, q, shown),
        AfterReply::Finish => RunStep {
            agent: b,
            run: RunView { stage: RunStage::Ending, ..q },
            shown,
            action: RunAction::EndHooks,
        },
        AfterReply::RunTools => {
            let begun = RunView {
                stage: RunStage::Tools,
                calls: turn_loop::asked(reply.message@),
                concurrent: reply.concurrent@,
                answered: 0,
                truncated: reply.truncated,
                ..q
            };
            RunStep {
                agent: b,
                run: begun,
                shown,
                action: RunAction::RunBatch { from: 0, to: batch_end(begun) as usize },
            }
        },
    }
}

/// The last reply of a turn whose budget is spent ends it.
pub open spec fn takes_last_reply<H>(a: AgentView<H>, r: RunView, reply: Reply) -> RunStep<H> {
    RunStep {
        agent: AgentView {
            messages: a.messages.push(crate::repair::with_content(reply.message@)),
            ..a
        },
        run: RunView { stage: RunStage::Ending, ..r },
        shown: seq![spent(reply)],
        action: RunAction::EndHooks,
    }
}

/// The calls of a batch are answered in order. When all of the round's are, the round is
/// closed.
pub open spec fn takes_results<H>(
    a: AgentView<H>,
    r: RunView,
    done: Seq<Finished>,
    now: Moment,
) -> RunStep<H> {
    let to = batch_end(r);
    let batch = r.calls.subrange(r.answered as int, to);
    let n = batch.len() as int;
    let b = AgentView {
        messages: a.messages + tool_batch::batch_messages(r.turn.repeat, batch, done, n),
        ..a
    };
    let t = TurnView {
        repeat: tool_batch::guard_after(r.turn.repeat, batch, done, n),
        ..r.turn
    };
    let shown = tool_batch::batch_events(r.turn.repeat, batch, done, a.todos, n);
    let q = RunView { turn: t, answered: to as nat, ..r };
    if to < r.calls.len() {
        RunStep {
            agent: b,
            run: q,
            shown,
            action: RunAction::RunBatch { from: to as usize, to: batch_end(q) as usize },
        }
    } else {
        let (c, u, said) = turn_loop::after_round(b, t, r.truncated, now);
        goes_on(c, RunView { turn: u, ..q }, shown + said)
    }
}

/// The turn ends.
pub open spec fn ends<H>(a: AgentView<H>, r: RunView) -> RunStep<H> {
    RunStep {
        agent: turn_loop::ended(a),
        run: RunView { stage: RunStage::Over, ..r },
        shown: seq![AgentEvent::TurnDone],
        action: RunAction::Done,
    }
}

/// The view of a verdict.
pub open spec fn verdict_view(v: Result<(), String>) -> Result<(), Seq<char>> {
    match v {
        Ok(_) => Ok(()),
        Err(e) => Err(e@),
    }
}

/// Whether `ev` is what a turn waits for.
pub open spec fn fits<H>(a: AgentView<H>, r: RunView, ev: RunEvent) -> bool {
    match ev {
        RunEvent::Opened(_) => r.stage == RunStage::Opening,
        RunEvent::Queued(_) => r.stage == RunStage::Queue,
        RunEvent::Checked(_) => r.stage == RunStage::Prepare || r.stage == RunStage::WrapUp,
        RunEvent::Replied(Err(_)) => r.stage == RunStage::Reply || r.stage == RunStage::LastReply,
        RunEvent::Replied(Ok(reply)) => r.stage == RunStage::LastReply || (r.stage
            == RunStage::Reply && reply.concurrent@.len() == turn_loop::asked(reply.message@).len()),
        RunEvent::BatchRan(done) => r.stage == RunStage::Tools && done@.len() == batch_end(r)
            - r.answered && r.turn.repeat.calls + done@.len() <= u32::MAX,
        RunEvent::HooksRan => r.stage == RunStage::Ending && a.todo_turn < u64::MAX,
    }
}

/// The step that `ev` leads to.
pub open spec fn stepped<H>(a: AgentView<H>, r: RunView, ev: RunEvent, now: Moment) -> RunStep<H> {
    match ev {
        RunEvent::Opened(opening) => opens(a, r, opening, now),
        RunEvent::Queued(queued) => begins_round(a, r, queued@, now),
        RunEvent::Checked(verdict) => checks(a, r, verdict_view(verdict)),
        RunEvent::Replied(Err(why)) => fails(a, r, Seq::empty(), why@),
        RunEvent::Replied(Ok(reply)) => if r.stage == RunStage::Reply {
            takes_reply(a, r, reply, now)
        } else {
            takes_last_reply(a, r, reply)
        },
        RunEvent::BatchRan(done) => takes_results(a, r, done@, now),
        RunEvent::HooksRan => ends(a, r),
    }
}

/// Whether a step came out as `want` says.
pub open spec fn came_to<H>(
    want: RunStep<H>,
    a: AgentView<H>,
    r: RunView,
    shown: Seq<EventView>,
    action: RunAction<Seq<char>>,
) -> bool {
    &&& a == want.agent
    &&& r == want.run
    &&& shown == want.shown
    &&& action == want.action
}

fn calls_of(m: &ChatMessage) -> (r: Vec<ToolCall>)
    ensures
        chat::calls(r@) == turn_loop::asked(m@),
{
    match &m.tool_calls {
        Some(list) => chat::copied_calls(list),
        None => {
            let none: Vec<ToolCall> = Vec::new();
            assert(chat::calls(none@) =~= Seq::empty());
            none
        },
    }
}

fn part_of(list: &Vec<ToolCall>, from: usize, to: usize) -> (r: Vec<ToolCall>)
    requires
        from <= to <= list@.len(),
    ensures
        chat::calls(r@) == chat::calls(list@).subrange(from as int, to as int),
{
    let mut out: Vec<ToolCall> = Vec::new();
    for i in from..to
        invariant
            from <= to <= list@.len(),
            out@.len() == i - from,
            forall|k: int| 0 <= k < i - from ==> (#[trigger] out@[k])@ == list@[from + k]@,
    {
        out.push(list[i].copied());
    }
    assert(chat::calls(out@) =~= chat::calls(list@).subrange(from as int, to as int));
    out
}

fn joined(first: Vec<AgentEvent>, then: Vec<AgentEvent>) -> (r: Vec<AgentEvent>)
    ensures
        event::events(r@) == event::events(first@) + event::events(then@),
{
    let mut out = first;
    let mut rest = then;
    out.append(&mut rest);
    assert(event::events(out@) =~= event::events(first@) + event::events(then@));
    out
}

impl<H> Agent<H> {
    /// Begin a turn.
    pub fn start_run(&mut self) -> (r: (Run, Vec<AgentEvent>, RunAction))
        ensures
            final(self)@ == turn_loop::mended(old(self)@),
            r.0@ == (RunView {
                turn: turn_loop::fresh_turn(),
                stage: RunStage::Opening,
                calls: Seq::empty(),
                concurrent: Seq::empty(),
                answered: 0,
                truncated: false,
            }),
            run_wf(r.0@, final(self)@.max_steps),
            event::events(r.1@) == agent::notices(old(self)@.pending_notices),
            r.2 == RunAction::<String>::TakeOpening,
    {
        let (turn, evs) = self.start_turn();
        let run = Run {
            turn,
            stage: RunStage::Opening,
            calls: Vec::new(),
            concurrent: Vec::new(),
            answered: 0,
            truncated: false,
        };
        assert(run@.calls =~= Seq::empty());
        assert(run@.concurrent =~= Seq::empty());
        (run, evs, RunAction::TakeOpening)
    }

    fn go_on(&mut self, run: &mut Run, shown: Vec<AgentEvent>) -> (r: (
        Vec<AgentEvent>,
        RunAction,
    ))
        requires
            old(run)@.turn.repeat.wf(),
        ensures
            came_to(
                goes_on(old(self)@, old(run)@, event::events(shown@)),
                final(self)@,
                final(run)@,
                event::events(r.0@),
                r.1@,
            ),
            run_wf(final(run)@, final(self)@.max_steps),
    {
        if self.has_round(&run.turn) {
            run.stage = RunStage::Queue;
            (shown, RunAction::TakeQueued)
        } else {
            let said = self.start_wrap_up();
            run.stage = RunStage::WrapUp;
            let evs = joined(shown, said);
            assert(event::events(evs@) =~= event::events(shown@).push(event::events(said@)[0]));
            (evs, RunAction::Prepare)
        }
    }

    /// Take a turn on by what it waited for.
    pub fn run(&mut self, run: &mut Run, ev: RunEvent, now: Moment) -> (r: (
        Vec<AgentEvent>,
        RunAction,
    ))
        requires
            run_wf(old(run)@, old(self)@.max_steps),
            fits(old(self)@, old(run)@, ev),
        ensures
            came_to(
                stepped(old(self)@, old(run)@, ev, now),
                final(self)@,
                final(run)@,
                event::events(r.0@),
                r.1@,
            ),
            run_wf(final(run)@, final(self)@.max_steps),
    {
        let none: Vec<AgentEvent> = Vec::new();
        assert(event::events(none@) =~= Seq::empty());
        match ev {
            RunEvent::Opened(opening) => match opening {
                None => self.go_on(run, none),
                Some(o) => {
                    let d = self.deliver_user_message(o.msg, o.hooks, o.recall, now);
                    match d.blocked {
                        Some(why) => {
                            run.stage = RunStage::Over;
                            (d.events, RunAction::Fail(why))
                        },
                        None => self.go_on(run, d.events),
                    }
                },
            },
            RunEvent::Queued(queued) => {
                let (shown, any) = self.drain_steering(queued, now);
                self.begin_round(&mut run.turn, any);
                let said = self.drain_background(now);
                run.stage = RunStage::Prepare;
                (joined(shown, said), RunAction::Prepare)
            },
            RunEvent::Checked(verdict) => match verdict {
                Err(why) => {
                    let mut evs = none;
                    evs.push(AgentEvent::Notice(why.clone()));
                    assert(event::events(evs@) =~= seq![AgentEvent::Notice(why@)]);
                    run.stage = RunStage::Over;
                    (evs, RunAction::Fail(why))
                },
                Ok(_) => {
                    let tools: bool = run.stage == RunStage::Prepare;
                    run.stage = if tools {
                        RunStage::Reply
                    } else {
                        RunStage::LastReply
                    };
                    (none, RunAction::Request { tools })
                },
            },
            RunEvent::Replied(outcome) => match outcome {
                Err(why) => {
                    run.stage = RunStage::Over;
                    (none, RunAction::Fail(why))
                },
                Ok(reply) => if run.stage == RunStage::Reply {
                    self.take_reply(run, reply, now)
                } else {
                    self.take_last_reply(run, reply)
                },
            },
            RunEvent::BatchRan(done) => self.take_results(run, done, now),
            RunEvent::HooksRan => {
                run.stage = RunStage::Over;
                (self.end_turn(), RunAction::Done)
            },
        }
    }

    fn take_reply(&mut self, run: &mut Run, reply: Reply, now: Moment) -> (r: (
        Vec<AgentEvent>,
        RunAction,
    ))
        requires
            run_wf(old(run)@, old(self)@.max_steps),
            old(run)@.stage == RunStage::Reply,
            reply.concurrent@.len() == turn_loop::asked(reply.message@).len(),
        ensures
            came_to(
                takes_reply(old(self)@, old(run)@, reply, now),
                final(self)@,
                final(run)@,
                event::events(r.0@),
                r.1@,
            ),
            run_wf(final(run)@, final(self)@.max_steps),
    {
        let mut shown = notice_events(&reply.warnings);
        let ghost before = shown@;
        let report = usage_event(
            &reply.spend,
            reply.decode_ms,
            reply.reasoning_tokens,
            reply.cost_partial,
        );
        shown.push(report);
        proof {
            agent::lemma_events_push(before, report);
        }
        self.last_prompt_tokens = Some(reply.spend.prompt_tokens);
        let asked = calls_of(&reply.message);
        assert(asked@.len() == chat::calls(asked@).len());
        let (said, next) = self.receive_reply(
            &mut run.turn,
            reply.message,
            reply.truncated,
            reply.tools_offered,
            reply.background_running,
            now,
        );
        let shown = joined(shown, said);
        match next {
            AfterReply::Nudged => self.go_on(run, shown),
            AfterReply::Finish => {
                run.stage = RunStage::Ending;
                (shown, RunAction::EndHooks)
            },
            AfterReply::RunTools => {
                let to = next_batch(&reply.concurrent, 0);
                run.stage = RunStage::Tools;
                run.calls = asked;
                run.concurrent = reply.concurrent;
                run.answered = 0;
                run.truncated = reply.truncated;
                (shown, RunAction::RunBatch { from: 0, to })
            },
        }
    }

    fn take_last_reply(&mut self, run: &mut Run, reply: Reply) -> (r: (
        Vec<AgentEvent>,
        RunAction,
    ))
        requires
            run_wf(old(run)@, old(self)@.max_steps),
        ensures
            came_to(
                takes_last_reply(old(self)@, old(run)@, reply),
                final(self)@,
                final(run)@,
                event::events(r.0@),
                r.1@,
            ),
            run_wf(final(run)@, final(self)@.max_steps),
    {
        let mut shown: Vec<AgentEvent> = Vec::new();
        shown.push(
            usage_event(
                &reply.spend,
                reply.decode_ms,
                reply.reasoning_tokens,
                reply.cost_partial,
            ),
        );
        assert(event::events(shown@) =~= seq![spent(reply)]);
        self.receive_wrap_up(reply.message);
        run.stage = RunStage::Ending;
        (shown, RunAction::EndHooks)
    }

    fn take_results(&mut self, run: &mut Run, done: Vec<Finished>, now: Moment) -> (r: (
        Vec<AgentEvent>,
        RunAction,
    ))
        requires
            run_wf(old(run)@, old(self)@.max_steps),
            old(run)@.stage == RunStage::Tools,
            done@.len() == batch_end(old(run)@) - old(run)@.answered,
            old(run)@.turn.repeat.calls + done@.len() <= u32::MAX,
        ensures
            came_to(
                takes_results(old(self)@, old(run)@, done@, now),
                final(self)@,
                final(run)@,
                event::events(r.0@),
                r.1@,
            ),
            run_wf(final(run)@, final(self)@.max_steps),
    {
        assert(run@.calls.len() == run.calls@.len());
        let to = next_batch(&run.concurrent, run.answered);
        let batch = part_of(&run.calls, run.answered, to);
        assert(batch@.len() == chat::calls(batch@).len());
        let shown = self.finish_batch(&batch, &done, &mut run.turn.repeat);
        run.answered = to;
        if to < run.calls.len() {
            let next = next_batch(&run.concurrent, to);
            (shown, RunAction::RunBatch { from: to, to: next })
        } else {
            let said = self.close_round(&mut run.turn, run.truncated, now);
            let shown = joined(shown, said);
            self.go_on(run, shown)
        }
    }
}

// ---------------------------------------------------------------------------
// Laws
// ---------------------------------------------------------------------------

/// A turn says that it is done exactly when it ends well, as the last thing that it
/// says; and after either end nothing is waited for.
pub proof fn law_a_turn_says_when_it_is_done<H>(
    a: AgentView<H>,
    r: RunView,
    ev: RunEvent,
    now: Moment,
)
    requires
        run_wf(r, a.max_steps),
        fits(a, r, ev),
    ensures
        ({
            let s = stepped(a, r, ev, now);
            &&& s.action is Done || s.action is Fail <==> s.run.stage == RunStage::Over
            &&& s.action is Done <==> ev is HooksRan
            &&& ev is HooksRan ==> s.shown.last() == EventView::TurnDone
        }),
{
}

/// Whether none of the events says that a turn is done.
pub open spec fn not_done(shown: Seq<EventView>) -> bool {
    forall|i: int| 0 <= i < shown.len() ==> #[trigger] shown[i] != EventView::TurnDone
}

proof fn lemma_batch_is_not_done(
    g: RepeatGuard,
    batch: Seq<ToolCall<Seq<char>>>,
    done: Seq<Finished>,
    list: Seq<chat::TodoItem<Seq<char>>>,
    n: int,
)
    ensures
        not_done(tool_batch::batch_events(g, batch, done, list, n)),
    decreases n,
{
    if n > 0 {
        lemma_batch_is_not_done(g, batch, done, list, n - 1);
    }
}

/// Only the end of a turn says that it is done.
proof fn lemma_only_the_end_is_done<H>(a: AgentView<H>, r: RunView, ev: RunEvent, now: Moment)
    requires
        fits(a, r, ev),
        !(ev is HooksRan),
    ensures
        not_done(stepped(a, r, ev, now).shown),
{
    if let RunEvent::BatchRan(done) = ev {
        let batch = r.calls.subrange(r.answered as int, batch_end(r));
        lemma_batch_is_not_done(r.turn.repeat, batch, done@, a.todos, batch.len() as int);
    }
}

/// A step that a turn took: the agent as the step found it, what the turn had waited for,
/// and when that came.
pub struct Took<H> {
    pub agent: AgentView<H>,
    pub came: RunEvent,
    pub at: Moment,
}

/// The turn after the steps, in order.
pub open spec fn run_after<H>(r: RunView, steps: Seq<Took<H>>) -> RunView
    decreases steps.len(),
{
    if steps.len() == 0 {
        r
    } else {
        let t = steps.last();
        stepped(t.agent, run_after(r, steps.drop_last()), t.came, t.at).run
    }
}

/// What the last of the steps comes to.
pub open spec fn last_step<H>(r: RunView, steps: Seq<Took<H>>) -> RunStep<H> {
    let t = steps.last();
    stepped(t.agent, run_after(r, steps.drop_last()), t.came, t.at)
}

/// All that the steps show, in order.
pub open spec fn shown_by<H>(r: RunView, steps: Seq<Took<H>>) -> Seq<EventView>
    decreases steps.len(),
{
    if steps.len() == 0 {
        Seq::empty()
    } else {
        shown_by(r, steps.drop_last()) + last_step(r, steps).shown
    }
}

/// Whether each step was taken by what the turn waited for, under one budget of rounds.
pub open spec fn took_all<H>(r: RunView, steps: Seq<Took<H>>, max_steps: usize) -> bool
    decreases steps.len(),
{
    steps.len() > 0 ==> {
        &&& took_all(r, steps.drop_last(), max_steps)
        &&& steps.last().agent.max_steps == max_steps
        &&& fits(steps.last().agent, run_after(r, steps.drop_last()), steps.last().came)
    }
}

/// Over a whole turn, whatever happens to the agent between its steps: it is said that
/// the turn is done once at most, exactly when the hooks have seen its end, and it is the
/// last thing that is said. No step is taken after it, nor after a failure.
pub proof fn law_a_turn_is_done_once<H>(r: RunView, steps: Seq<Took<H>>, max_steps: usize)
    requires
        took_all(r, steps, max_steps),
    ensures
        ({
            let shown = shown_by(r, steps);
            let finished = steps.len() > 0 && steps.last().came is HooksRan;
            &&& finished ==> shown.len() > 0 && shown.last() == EventView::TurnDone
            &&& forall|i: int|
                0 <= i < shown.len() && #[trigger] shown[i] == EventView::TurnDone ==> finished && i
                    == shown.len() - 1
            &&& finished ==> last_step(r, steps).action is Done
            &&& forall|i: int|
                0 <= i < steps.len() - 1 ==> !((#[trigger] steps[i]).came is HooksRan)
            &&& steps.len() > 0 && (last_step(r, steps).action is Done || last_step(
                r,
                steps,
            ).action is Fail) ==> forall|t: Took<H>|
                !#[trigger] took_all(r, steps.push(t), max_steps)
        }),
{
    lemma_said_once(r, steps, max_steps);
    if steps.len() > 0 {
        let t = steps.last();
        let before = run_after(r, steps.drop_last());
        lemma_step_ends(t.agent, before, t.came, t.at);
        if last_step(r, steps).action is Done || last_step(r, steps).action is Fail {
            assert forall|next: Took<H>| !#[trigger] took_all(r, steps.push(next), max_steps) by {
                assert(steps.push(next).drop_last() =~= steps);
                assert(run_after(r, steps).stage == RunStage::Over);
            }
        }
    }
}

/// A step ends the turn exactly where it says so, and only the hooks' step says that it
/// is done.
proof fn lemma_step_ends<H>(a: AgentView<H>, r: RunView, ev: RunEvent, now: Moment)
    requires
        fits(a, r, ev),
    ensures
        ({
            let s = stepped(a, r, ev, now);
            &&& s.action is Done || s.action is Fail <==> s.run.stage == RunStage::Over
            &&& ev is HooksRan ==> s.action is Done && s.shown == seq![EventView::TurnDone]
            &&& !(ev is HooksRan) ==> not_done(s.shown)
        }),
{
    if !(ev is HooksRan) {
        lemma_only_the_end_is_done(a, r, ev, now);
    }
}

/// What the steps show says that the turn is done only in the last step.
proof fn lemma_said_once<H>(r: RunView, steps: Seq<Took<H>>, max_steps: usize)
    requires
        took_all(r, steps, max_steps),
    ensures
        forall|i: int| 0 <= i < steps.len() - 1 ==> !((#[trigger] steps[i]).came is HooksRan),
        steps.len() > 0 ==> not_done(shown_by(r, steps.drop_last())),
        steps.len() > 0 && steps.last().came is HooksRan ==> run_after(r, steps).stage
            == RunStage::Over && shown_by(r, steps) == shown_by(r, steps.drop_last()).push(
            EventView::TurnDone,
        ),
        steps.len() == 0 || !(steps.last().came is HooksRan) ==> not_done(shown_by(r, steps)),
    decreases steps.len(),
{
    if steps.len() > 0 {
        let rest = steps.drop_last();
        let t = steps.last();
        lemma_said_once(r, rest, max_steps);
        lemma_step_ends(t.agent, run_after(r, rest), t.came, t.at);
        assert forall|i: int| 0 <= i < steps.len() - 1 implies !((
        #[trigger] steps[i]).came is HooksRan) by {
            assert(rest[i] == steps[i]);
            if i == rest.len() - 1 {
                assert(rest[i] == rest.last());
            }
        }
        if t.came is HooksRan {
            assert(shown_by(r, steps) =~= shown_by(r, rest).push(EventView::TurnDone));
        }
    }
}

/// How many rounds the steps began.
pub open spec fn rounds<H>(steps: Seq<Took<H>>) -> int
    decreases steps.len(),
{
    if steps.len() == 0 {
        0
    } else {
        rounds(steps.drop_last()) + (if steps.last().came is Queued {
            1int
        } else {
            0int
        })
    }
}

/// How many model calls the steps led to.
pub open spec fn model_calls<H>(r: RunView, steps: Seq<Took<H>>) -> int
    decreases steps.len(),
{
    if steps.len() == 0 {
        0
    } else {
        model_calls(r, steps.drop_last()) + (if last_step(r, steps).action is Request {
            1int
        } else {
            0int
        })
    }
}

/// Whether no message joined the turn in any of the steps.
pub open spec fn nothing_joined<H>(steps: Seq<Took<H>>) -> bool {
    forall|i: int|
        0 <= i < steps.len() ==> ((#[trigger] steps[i]).came matches RunEvent::Queued(q) ==> q@.len()
            == 0)
}

/// Over a whole turn there is a model call for each round at most, and one more to wrap
/// up; and without messages that join the turn there are no more rounds than its budget
/// has.
pub proof fn law_a_turn_keeps_to_its_budget<H>(
    r: RunView,
    steps: Seq<Took<H>>,
    max_steps: usize,
)
    requires
        r.stage == RunStage::Opening,
        r.turn.step == 0,
        took_all(r, steps, max_steps),
    ensures
        model_calls(r, steps) <= rounds(steps) + 1,
        nothing_joined(steps) ==> rounds(steps) <= max_steps,
{
    lemma_budget(r, steps, max_steps);
}

proof fn lemma_budget<H>(r: RunView, steps: Seq<Took<H>>, max_steps: usize)
    requires
        r.stage == RunStage::Opening,
        r.turn.step == 0,
        took_all(r, steps, max_steps),
    ensures
        ({
            let now = run_after(r, steps);
            &&& model_calls(r, steps) <= rounds(steps) + (match now.stage {
                RunStage::Prepare => -1int,
                RunStage::Opening | RunStage::Queue | RunStage::Reply | RunStage::Tools
                | RunStage::WrapUp => 0int,
                _ => 1int,
            })
            &&& now.stage == RunStage::Queue ==> now.turn.step < max_steps
            &&& nothing_joined(steps) ==> now.turn.step == rounds(steps) <= max_steps
        }),
    decreases steps.len(),
{
    if steps.len() > 0 {
        let rest = steps.drop_last();
        lemma_budget(r, rest, max_steps);
        if nothing_joined(steps) {
            assert forall|i: int| 0 <= i < rest.len() implies ((
            #[trigger] rest[i]).came matches RunEvent::Queued(q) ==> q@.len() == 0) by {
                assert(steps[i] == rest[i]);
            }
            assert(steps[steps.len() - 1] == steps.last());
        }
    }
}

/// A model call is made only after it was asked whether one may be, with tools as long as
/// the budget lasts and without any once it is spent.
pub proof fn law_no_call_is_made_unasked<H>(a: AgentView<H>, r: RunView, ev: RunEvent, now: Moment)
    requires
        run_wf(r, a.max_steps),
        fits(a, r, ev),
    ensures
        ({
            let s = stepped(a, r, ev, now);
            s.action is Request <==> (ev matches RunEvent::Checked(v) && v is Ok)
        }),
        stepped(a, r, ev, now).action matches RunAction::Request { tools } ==> (tools <==> r.stage
            == RunStage::Prepare),
{
}

/// A turn is bounded: without messages that join it every round uses up one of its
/// budget, and once the budget is spent there is one more reply and then the end.
pub proof fn law_a_turn_is_bounded<H>(a: AgentView<H>, r: RunView, ev: RunEvent, now: Moment)
    requires
        run_wf(r, a.max_steps),
        fits(a, r, ev),
    ensures
        ({
            let s = stepped(a, r, ev, now);
            &&& (ev matches RunEvent::Queued(q) && q@.len() == 0) ==> s.run.turn.step
                == r.turn.step + 1
            &&& !(ev is Queued) ==> s.run.turn.step == r.turn.step
            &&& r.stage == RunStage::WrapUp ==> s.run.stage == RunStage::LastReply || s.run.stage
                == RunStage::Over
            &&& r.stage == RunStage::LastReply ==> s.run.stage == RunStage::Ending || s.run.stage
                == RunStage::Over
            &&& r.stage == RunStage::Ending ==> s.run.stage == RunStage::Over
        }),
{
}

/// Each batch answers at least one call, and none is answered twice: a round is closed
/// once all of its calls are answered.
pub proof fn law_every_call_is_answered_once<H>(
    a: AgentView<H>,
    r: RunView,
    done: Vec<Finished>,
    now: Moment,
)
    requires
        run_wf(r, a.max_steps),
        fits(a, r, RunEvent::BatchRan(done)),
    ensures
        ({
            let s = stepped(a, r, RunEvent::BatchRan(done), now);
            &&& r.answered < s.run.answered <= r.calls.len()
            &&& s.run.stage == RunStage::Tools <==> s.run.answered < r.calls.len()
            &&& s.run.calls == r.calls
        }),
{
    lemma_batch_is_within(r.concurrent, r.answered as int);
}

/// A batch holds at least one call and ends within the round.
proof fn lemma_batch_is_within(concurrent: Seq<bool>, from: int)
    requires
        0 <= from < concurrent.len(),
    ensures
        from < tool_batch::batch_end(concurrent, from) <= concurrent.len(),
{
    lemma_run_is_within(concurrent, from);
}

proof fn lemma_run_is_within(concurrent: Seq<bool>, from: int)
    requires
        0 <= from <= concurrent.len(),
    ensures
        from <= tool_batch::run_end(concurrent, from) <= concurrent.len(),
        from < concurrent.len() && concurrent[from] ==> from < tool_batch::run_end(
            concurrent,
            from,
        ),
    decreases concurrent.len() - from,
{
    if from < concurrent.len() && concurrent[from] {
        lemma_run_is_within(concurrent, from + 1);
    }
}

} // verus!
