//! A request and its attempts: it is sent again without what the endpoint refused, with a
//! smaller history where that was too large, and otherwise as often as the budget allows.
use crate::agent;
use crate::agent::{notice_events, Agent, AgentView};
use crate::event;
use crate::event::{AgentEvent, EventView};
use crate::json;
use crate::request;
use crate::request::{CompactionOutcome, Failure, Recovery, RequestStage};
use crate::text;
use crate::turn_loop::{Turn, TurnView};
use vstd::prelude::*;

verus! {

/// What is said before the history is compacted for a request that was too large.
pub const OVERFLOW_MSG: &'static str = "context window exceeded — compacting and retrying";

/// How far a request has come.
#[derive(Debug, Clone, PartialEq, Eq)]
pub struct Attempt<S = String> {
    pub stage: RequestStage,
    /// What went wrong last.
    pub error: S,
}

impl View for Attempt<String> {
    type V = Attempt<Seq<char>>;

    open spec fn view(&self) -> Attempt<Seq<char>> {
        Attempt { stage: self.stage, error: self.error@ }
    }
}

/// What is done next for a request.
#[derive(Debug, Clone, PartialEq, Eq)]
pub enum RequestAction<S = String> {
    /// Send it, with fresh credentials where `refresh` says so.
    Connect { refresh: bool },
    /// Read the reply.
    Drain,
    /// Compact the history.
    Compact,
    /// Ask the round's retry budget, and wait as it says.
    AskBudget(RequestStage),
    /// Give up.
    Fail(S),
}

impl View for RequestAction<String> {
    type V = RequestAction<Seq<char>>;

    open spec fn view(&self) -> RequestAction<Seq<char>> {
        match self {
            RequestAction::Connect { refresh } => RequestAction::Connect { refresh: *refresh },
            RequestAction::Drain => RequestAction::Drain,
            RequestAction::Compact => RequestAction::Compact,
            RequestAction::AskBudget(s) => RequestAction::AskBudget(*s),
            RequestAction::Fail(e) => RequestAction::Fail(e@),
        }
    }
}

/// A step of a request: the agent after it, the request, what is shown, and what is done.
pub struct Step<H> {
    pub agent: AgentView<H>,
    pub attempt: Attempt<Seq<char>>,
    pub shown: Seq<EventView>,
    pub action: RequestAction<Seq<char>>,
}

/// The step that sends the request. What the user is still to be told is shown first.
/// Fresh credentials are for a request that had come as far as a reply, and for the first.
pub open spec fn sends<H>(a: AgentView<H>, error: Seq<char>, refresh: bool) -> Step<H> {
    Step {
        agent: AgentView { pending_notices: Seq::empty(), ..a },
        attempt: Attempt { stage: RequestStage::Connecting, error },
        shown: agent::notices(a.pending_notices),
        action: RequestAction::Connect { refresh },
    }
}

/// The step that answers a failure.
pub open spec fn answers<H>(
    a: AgentView<H>,
    t: TurnView,
    stage: RequestStage,
    overflow: bool,
    rejected: Option<Seq<char>>,
    error: Seq<char>,
) -> Step<H> {
    let (b, recovery) = request::recovery(a, t, overflow, rejected);
    match recovery {
        Recovery::Compact => Step {
            agent: b,
            attempt: Attempt { stage, error },
            shown: seq![AgentEvent::Notice(OVERFLOW_MSG@)],
            action: RequestAction::Compact,
        },
        Recovery::DropParam => sends(b, error, stage == RequestStage::Streaming),
        Recovery::AskBudget => Step {
            agent: b,
            attempt: Attempt { stage, error },
            shown: Seq::empty(),
            action: RequestAction::AskBudget(stage),
        },
    }
}

impl<H> Agent<H> {
    fn send(&mut self, attempt: &mut Attempt, refresh: bool) -> (r: (
        Vec<AgentEvent>,
        RequestAction,
    ))
        ensures
            ({
                let want = sends(old(self)@, old(attempt)@.error, refresh);
                &&& final(self)@ == want.agent
                &&& final(attempt)@ == want.attempt
                &&& event::events(r.0@) == want.shown
                &&& r.1@ == want.action
            }),
    {
        let shown = notice_events(&self.pending_notices);
        self.pending_notices = Vec::new();
        assert(text::views(self.pending_notices@) =~= Seq::empty());
        attempt.stage = RequestStage::Connecting;
        (shown, RequestAction::Connect { refresh })
    }

    /// Begin a request.
    pub fn begin_request(&mut self) -> (r: (Attempt, Vec<AgentEvent>, RequestAction))
        ensures
            ({
                let want = sends(old(self)@, Seq::empty(), true);
                &&& final(self)@ == want.agent
                &&& r.0@ == want.attempt
                &&& event::events(r.1@) == want.shown
                &&& r.2@ == want.action
            }),
    {
        let none = String::new();
        assert(none@ =~= Seq::empty());
        let mut attempt = Attempt { stage: RequestStage::Connecting, error: none };
        let (shown, action) = self.send(&mut attempt, true);
        (attempt, shown, action)
    }

    /// Learn that a request failed, on the way or while the reply was read.
    pub fn request_failed(
        &mut self,
        attempt: &mut Attempt,
        turn: &Turn,
        failure: Failure,
        error: String,
    ) -> (r: (Vec<AgentEvent>, RequestAction))
        ensures
            ({
                let want = answers(
                    old(self)@,
                    turn@,
                    old(attempt)@.stage,
                    failure.overflow,
                    json::opt_view(failure.rejected_param),
                    error@,
                );
                &&& final(self)@ == want.agent
                &&& final(attempt)@ == want.attempt
                &&& event::events(r.0@) == want.shown
                &&& r.1@ == want.action
            }),
    {
        let stage = attempt.stage;
        attempt.error = error;
        let mut shown: Vec<AgentEvent> = Vec::new();
        match self.after_failure(turn, failure) {
            Recovery::Compact => {
                shown.push(AgentEvent::Notice(OVERFLOW_MSG.to_string()));
                assert(event::events(shown@) =~= seq![AgentEvent::Notice(OVERFLOW_MSG@)]);
                (shown, RequestAction::Compact)
            },
            Recovery::DropParam => self.send(attempt, stage == RequestStage::Streaming),
            Recovery::AskBudget => {
                assert(event::events(shown@) =~= Seq::empty());
                (shown, RequestAction::AskBudget(stage))
            },
        }
    }

    /// Learn what the compaction for a request came to. Where it made the history smaller
    /// the request is sent again; else it fails, and so does the turn.
    pub fn request_compacted(
        &mut self,
        attempt: &mut Attempt,
        turn: &mut Turn,
        outcome: Result<CompactionOutcome, String>,
    ) -> (r: (Vec<AgentEvent>, RequestAction))
        ensures
            match outcome {
                Ok(o) => final(turn)@ == (TurnView { overflow_compacted: true, ..old(turn)@ }),
                Err(_) => final(turn)@ == old(turn)@,
            },
            match outcome {
                Ok(o) if o.shrank => {
                    let want = sends(
                        old(self)@,
                        old(attempt)@.error,
                        old(attempt)@.stage == RequestStage::Streaming,
                    );
                    &&& final(self)@ == want.agent
                    &&& final(attempt)@ == want.attempt
                    &&& event::events(r.0@) == seq![AgentEvent::Notice(o.notice@)] + want.shown
                    &&& r.1@ == want.action
                },
                _ => {
                    &&& final(self)@ == old(self)@
                    &&& final(attempt)@ == old(attempt)@
                    &&& event::events(r.0@) == Seq::<EventView>::empty()
                    &&& r.1@ == RequestAction::Fail(
                        match outcome {
                            Ok(o) => request::too_large_text(o.after as nat, old(attempt)@.error),
                            Err(e) => e@,
                        },
                    )
                },
            },
    {
        let mut shown: Vec<AgentEvent> = Vec::new();
        assert(event::events(shown@) =~= Seq::empty());
        let o = match outcome {
            Ok(o) => o,
            Err(e) => {
                return (shown, RequestAction::Fail(e));
            },
        };
        match self.recover_context_overflow(turn, o, attempt.error.as_str()) {
            Ok(note) => {
                let stage = attempt.stage;
                let (rest, action) = self.send(attempt, stage == RequestStage::Streaming);
                let ghost tail = event::events(rest@);
                shown.push(note);
                let mut rest = rest;
                shown.append(&mut rest);
                assert(event::events(shown@) =~= seq![note@] + tail);
                (shown, action)
            },
            Err(e) => (shown, RequestAction::Fail(e)),
        }
    }

    /// Learn what the retry budget said: whether it has waited, and the request is to be
    /// sent again.
    pub fn budget_answered(&mut self, attempt: &mut Attempt, again: bool) -> (r: (
        Vec<AgentEvent>,
        RequestAction,
    ))
        ensures
            if again {
                let want = sends(
                    old(self)@,
                    old(attempt)@.error,
                    old(attempt)@.stage == RequestStage::Streaming,
                );
                &&& final(self)@ == want.agent
                &&& final(attempt)@ == want.attempt
                &&& event::events(r.0@) == want.shown
                &&& r.1@ == want.action
            } else {
                &&& final(self)@ == old(self)@
                &&& final(attempt)@ == old(attempt)@
                &&& event::events(r.0@) == Seq::<EventView>::empty()
                &&& r.1@ == RequestAction::Fail(old(attempt)@.error)
            },
    {
        if again {
            let stage = attempt.stage;
            self.send(attempt, stage == RequestStage::Streaming)
        } else {
            let shown: Vec<AgentEvent> = Vec::new();
            assert(event::events(shown@) =~= Seq::empty());
            (shown, RequestAction::Fail(attempt.error.clone()))
        }
    }
}

impl Attempt<String> {
    /// Learn that the request was taken.
    pub fn connected(&mut self) -> (r: RequestAction)
        ensures
            final(self)@ == (Attempt { stage: RequestStage::Streaming, ..old(self)@ }),
            r@ == RequestAction::<Seq<char>>::Drain,
    {
        self.stage = RequestStage::Streaming;
        RequestAction::Drain
    }
}

/// Compacting the history and leaving out what was refused cost nothing of the budget: it
/// is asked only where neither helps.
pub proof fn law_only_plain_retries_are_charged<H>(
    a: AgentView<H>,
    t: TurnView,
    stage: RequestStage,
    overflow: bool,
    rejected: Option<Seq<char>>,
    error: Seq<char>,
)
    requires
        request::compacts(t, overflow, a.messages.len()) || (rejected matches Some(p)
            && !a.unsupported_params.contains(p)),
    ensures
        !(answers(a, t, stage, overflow, rejected, error).action is AskBudget),
        !(answers(a, t, stage, overflow, rejected, error).action is Fail),
{
}

/// Nothing that the user is to be told waits beyond the next attempt.
pub proof fn law_notices_do_not_wait<H>(
    a: AgentView<H>,
    t: TurnView,
    stage: RequestStage,
    overflow: bool,
    rejected: Option<Seq<char>>,
    error: Seq<char>,
)
    ensures
        ({
            let s = answers(a, t, stage, overflow, rejected, error);
            s.action is Connect ==> s.agent.pending_notices.len() == 0
        }),
{
}

/// A request whose parameter was refused is sent again at once, without it, and the user
/// sees why; the connection is made anew exactly where the stream had already begun. One
/// that is too large is made smaller, once a turn; any other is weighed against the
/// budget, with nothing of the agent changed.
pub proof fn law_what_follows_a_failure<H>(
    a: AgentView<H>,
    t: TurnView,
    stage: RequestStage,
    overflow: bool,
    p: Seq<char>,
    error: Seq<char>,
)
    ensures
        ({
            let s = answers(a, t, stage, false, Some(p), error);
            !a.unsupported_params.contains(p) ==> {
                &&& s.action matches RequestAction::Connect { refresh } && (refresh <==> stage
                    == RequestStage::Streaming)
                &&& s.agent.unsupported_params == a.unsupported_params.push(p)
                &&& s.agent.pending_notices.len() == 0
                &&& s.attempt.stage == RequestStage::Connecting
                &&& s.shown.len() == a.pending_notices.len() + 1
            }
        }),
        ({
            let s = answers(a, t, stage, overflow, None, error);
            &&& s.agent == a
            &&& s.attempt == (Attempt { stage, error })
            &&& s.action is Compact <==> overflow && !t.overflow_compacted && a.messages.len() > 2
            &&& !(s.action is Compact) ==> (s.action matches RequestAction::AskBudget(at) && at
                == stage && s.shown.len() == 0)
        }),
{
}

} // verus!
