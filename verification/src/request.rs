//! One model request: what its stream shows while it arrives, and what is done about a
//! request that fails.
use crate::agent::{Agent, AgentView};
use crate::event;
use crate::event::{AgentEvent, EventView, UsageReport};
use crate::text;
use crate::text::{decimal_string, has_string};
use crate::turn_loop::{Turn, TurnView};
use crate::usage::CallSpend;
use vstd::prelude::*;

verus! {

// ---------------------------------------------------------------------------
// Draining a stream
// ---------------------------------------------------------------------------

/// One piece of a streamed reply.
#[derive(Debug, Clone, PartialEq, Eq)]
pub struct ChatChunk<S = String> {
    pub content: Option<S>,
    pub reasoning_content: Option<S>,
    /// How many fragments of tool calls it carries.
    pub tool_fragments: usize,
}

impl View for ChatChunk<String> {
    type V = ChatChunk<Seq<char>>;

    open spec fn view(&self) -> ChatChunk<Seq<char>> {
        ChatChunk {
            content: crate::json::opt_view(self.content),
            reasoning_content: crate::json::opt_view(self.reasoning_content),
            tool_fragments: self.tool_fragments,
        }
    }
}

/// Whether there is a text and it is not empty.
pub open spec fn says(s: Option<Seq<char>>) -> bool {
    s matches Some(t) && t.len() > 0
}

/// Whether a piece carries any of the model's output.
pub open spec fn has_payload(c: ChatChunk<Seq<char>>) -> bool {
    says(c.content) || says(c.reasoning_content) || c.tool_fragments > 0
}

/// Whether a piece carries any of the model's output: text, reasoning, or fragments of
/// tool calls.
pub fn chunk_has_payload(c: &ChatChunk) -> (r: bool)
    ensures
        r == has_payload(c@),
{
    (match &c.content {
        Some(t) => !t.as_str().is_empty(),
        None => false,
    }) || (match &c.reasoning_content {
        Some(t) => !t.as_str().is_empty(),
        None => false,
    }) || c.tool_fragments > 0
}

/// What a piece shows: its reasoning, then its text. Empty ones show nothing, because an
/// empty event of the one kind would split a block of the other.
pub open spec fn chunk_events(c: ChatChunk<Seq<char>>) -> Seq<EventView> {
    (if says(c.reasoning_content) {
        seq![AgentEvent::Reasoning(c.reasoning_content->0)]
    } else {
        Seq::empty()
    }) + (if says(c.content) {
        seq![AgentEvent::Text(c.content->0)]
    } else {
        Seq::empty()
    })
}

/// What has arrived of a reply.
#[derive(Debug, Clone, PartialEq, Eq)]
pub struct Drained<S = String> {
    pub content: S,
    /// When the first piece that carries output arrived, in milliseconds of a monotonic
    /// clock.
    pub first_payload: Option<u64>,
}

impl View for Drained<String> {
    type V = Drained<Seq<char>>;

    open spec fn view(&self) -> Drained<Seq<char>> {
        Drained { content: self.content@, first_payload: self.first_payload }
    }
}

/// What has arrived of a reply after one piece more, at `now`.
pub open spec fn drained(
    d: Drained<Seq<char>>,
    c: ChatChunk<Seq<char>>,
    now: u64,
) -> Drained<Seq<char>> {
    Drained {
        content: match c.content {
            Some(t) => d.content + t,
            None => d.content,
        },
        first_payload: if d.first_payload is None && has_payload(c) {
            Some(now)
        } else {
            d.first_payload
        },
    }
}

impl Drained {
    /// Nothing has arrived.
    pub fn new() -> (r: Self)
        ensures
            r@ == (Drained { content: Seq::<char>::empty(), first_payload: None }),
    {
        Drained { content: String::new(), first_payload: None }
    }

    /// Take one piece of the stream: what it shows.
    pub fn drain_stream(&mut self, c: &ChatChunk, now: u64) -> (r: Vec<AgentEvent>)
        ensures
            final(self)@ == drained(old(self)@, c@, now),
            event::events(r@) == chunk_events(c@),
    {
        if self.first_payload.is_none() && chunk_has_payload(c) {
            self.first_payload = Some(now);
        }
        let mut evs: Vec<AgentEvent> = Vec::new();
        if let Some(t) = &c.reasoning_content {
            if !t.as_str().is_empty() {
                evs.push(AgentEvent::Reasoning(t.clone()));
            }
        }
        if let Some(t) = &c.content {
            self.content.append(t.as_str());
            if !t.as_str().is_empty() {
                evs.push(AgentEvent::Text(t.clone()));
            }
        }
        assert(event::events(evs@) =~= chunk_events(c@));
        evs
    }

    /// How long the model has been producing output at `now`: nothing where it produced
    /// none.
    pub fn decode_ms(&self, now: u64) -> (r: u64)
        ensures
            r == (match self.first_payload {
                Some(t) => if now >= t {
                    (now - t) as u64
                } else {
                    0
                },
                None => 0,
            }),
            self.first_payload is None ==> r == 0,
            self.first_payload matches Some(t) ==> (t <= now ==> t + r == now) && (now < t ==> r
                == 0),
    {
        match self.first_payload {
            Some(t) => if now >= t {
                now - t
            } else {
                0
            },
            None => 0,
        }
    }
}

/// Every event that a piece shows carries text.
pub proof fn law_no_empty_event_is_shown(c: ChatChunk<Seq<char>>)
    ensures
        forall|i: int|
            0 <= i < chunk_events(c).len() ==> (match #[trigger] chunk_events(c)[i] {
                AgentEvent::Reasoning(t) => t.len() > 0,
                AgentEvent::Text(t) => t.len() > 0,
                _ => false,
            }),
{
}

// ---------------------------------------------------------------------------
// Usage
// ---------------------------------------------------------------------------

/// What is reported of a call's spending.
pub open spec fn usage_report(
    spend: CallSpend,
    decode_ms: u64,
    reasoning_tokens: Option<u32>,
    cost_partial: bool,
) -> UsageReport {
    UsageReport {
        prompt_tokens: spend.prompt_tokens,
        completion_tokens: spend.completion_tokens,
        decode_ms: if decode_ms <= u32::MAX {
            decode_ms as u32
        } else {
            u32::MAX
        },
        cached_prompt_tokens: spend.cached_prompt_tokens,
        cache_creation_tokens: spend.cache_creation_tokens,
        reasoning_tokens,
        cost_usd_bits: spend.cost_usd_bits,
        session_cost_usd_bits: spend.session_cost_usd_bits,
        cost_partial,
    }
}

/// The event that reports a call's spending.
pub fn usage_event(
    spend: &CallSpend,
    decode_ms: u64,
    reasoning_tokens: Option<u32>,
    cost_partial: bool,
) -> (r: AgentEvent)
    ensures
        r@ == EventView::Usage(
            usage_report(*spend, decode_ms, reasoning_tokens, cost_partial),
        ),
{
    AgentEvent::Usage(
        UsageReport {
            prompt_tokens: spend.prompt_tokens,
            completion_tokens: spend.completion_tokens,
            decode_ms: if decode_ms <= u32::MAX as u64 {
                decode_ms as u32
            } else {
                u32::MAX
            },
            cached_prompt_tokens: spend.cached_prompt_tokens,
            cache_creation_tokens: spend.cache_creation_tokens,
            reasoning_tokens,
            cost_usd_bits: spend.cost_usd_bits,
            session_cost_usd_bits: spend.session_cost_usd_bits,
            cost_partial,
        },
    )
}

// ---------------------------------------------------------------------------
// Failures
// ---------------------------------------------------------------------------

/// What is known of a request's failure.
#[derive(Debug, Clone, PartialEq, Eq)]
pub struct Failure {
    /// The context window was exceeded.
    pub overflow: bool,
    /// The optional parameter that the endpoint refused, if it refused one.
    pub rejected_param: Option<String>,
}

/// What is done about a request's failure.
#[derive(Debug, Clone, Copy, PartialEq, Eq, Structural)]
pub enum Recovery {
    /// Compact the history and send the request again.
    Compact,
    /// Send the request again without the refused parameter.
    DropParam,
    /// Ask the round's retry budget.
    AskBudget,
}

/// Whether an overflow is answered by compacting: once a turn, and only where there is
/// something to compact.
pub open spec fn compacts(t: TurnView, overflow: bool, message_count: nat) -> bool {
    overflow && !t.overflow_compacted && message_count > 2
}

/// What the user is told of a parameter that the endpoint refused.
pub open spec fn dropped_notice(param: Seq<char>) -> Seq<char> {
    "this endpoint rejected `"@ + param + "` — dropping it for the rest of the session"@
}

/// What is done about a failure, and the agent after it.
pub open spec fn recovery<H>(
    a: AgentView<H>,
    t: TurnView,
    overflow: bool,
    rejected: Option<Seq<char>>,
) -> (AgentView<H>, Recovery) {
    if compacts(t, overflow, a.messages.len()) {
        (a, Recovery::Compact)
    } else {
        match rejected {
            Some(p) => if a.unsupported_params.contains(p) {
                (a, Recovery::AskBudget)
            } else {
                (
                    AgentView {
                        unsupported_params: a.unsupported_params.push(p),
                        pending_notices: a.pending_notices.push(dropped_notice(p)),
                        ..a
                    },
                    Recovery::DropParam,
                )
            },
            None => (a, Recovery::AskBudget),
        }
    }
}

/// What a compaction for an overflow came to.
#[derive(Debug, Clone, PartialEq, Eq)]
pub struct CompactionOutcome {
    pub shrank: bool,
    /// The messages left.
    pub after: usize,
    /// What it cost, for the user.
    pub notice: String,
}

/// Why a turn fails that cannot be compacted any further.
pub open spec fn too_large_text(after: nat, error: Seq<char>) -> Seq<char> {
    "context window exceeded and the current turn is too large to compact ("@ + text::decimal(after)
        + " messages, nothing left to shrink) — "@ + error
}

/// Which part of a request a retry is announced for.
#[derive(Debug, Clone, Copy, PartialEq, Eq, Structural)]
pub enum RequestStage {
    Connecting,
    Streaming,
}

/// What is said before a request is sent again.
pub open spec fn retry_text(
    stage: RequestStage,
    delay_secs: Seq<char>,
    attempt: u32,
    max_attempts: u32,
) -> Seq<char> {
    (match stage {
        RequestStage::Connecting => "network error — retrying in "@,
        RequestStage::Streaming => "stream interrupted — retrying in "@,
    }) + delay_secs + "s (attempt "@ + text::decimal(attempt as nat) + "/"@ + text::decimal(
        max_attempts as nat,
    ) + ")"@
}

/// What is said before a request is sent again in `delay_secs` seconds.
pub fn retry_notice(
    stage: RequestStage,
    delay_secs: &str,
    attempt: u32,
    max_attempts: u32,
) -> (r: AgentEvent)
    ensures
        r@ == EventView::Notice(retry_text(stage, delay_secs@, attempt, max_attempts)),
{
    let mut s = match stage {
        RequestStage::Connecting => "network error — retrying in ".to_string(),
        RequestStage::Streaming => "stream interrupted — retrying in ".to_string(),
    };
    s.append(delay_secs);
    s.append("s (attempt ");
    s.append(decimal_string(attempt as u64).as_str());
    s.append("/");
    s.append(decimal_string(max_attempts as u64).as_str());
    s.append(")");
    AgentEvent::Notice(s)
}

impl<H> Agent<H> {
    /// Recover from the endpoint refusing an optional parameter: it is dropped for the
    /// rest of the session and the user is told. `false` where none was refused, and
    /// where the refused one was dropped already.
    pub fn drop_unsupported_param(&mut self, rejected: Option<String>) -> (r: bool)
        ensures
            match rejected {
                Some(p) => if old(self)@.unsupported_params.contains(p@) {
                    !r && final(self)@ == old(self)@
                } else {
                    r && final(self)@ == (AgentView {
                        unsupported_params: old(self)@.unsupported_params.push(p@),
                        pending_notices: old(self)@.pending_notices.push(dropped_notice(p@)),
                        ..old(self)@
                    })
                },
                None => !r && final(self)@ == old(self)@,
            },
    {
        match rejected {
            Some(p) => {
                if has_string(&self.unsupported_params, p.as_str()) {
                    return false;
                }
                let mut note = "this endpoint rejected `".to_string();
                note.append(p.as_str());
                note.append("` — dropping it for the rest of the session");
                let ghost params = text::views(self.unsupported_params@);
                let ghost notes = text::views(self.pending_notices@);
                self.unsupported_params.push(p);
                self.pending_notices.push(note);
                assert(text::views(self.unsupported_params@) =~= params.push(p@));
                assert(text::views(self.pending_notices@) =~= notes.push(note@));
                true
            },
            None => false,
        }
    }

    /// Decide what is done about a failed request. Compacting and dropping a parameter
    /// make another request and so cost nothing of the round's retry budget.
    pub fn after_failure(&mut self, turn: &Turn, failure: Failure) -> (r: Recovery)
        ensures
            (final(self)@, r) == recovery(
                old(self)@,
                turn@,
                failure.overflow,
                crate::json::opt_view(failure.rejected_param),
            ),
    {
        if failure.overflow && !turn.overflow_compacted && self.messages.len() > 2 {
            return Recovery::Compact;
        }
        if self.drop_unsupported_param(failure.rejected_param) {
            Recovery::DropParam
        } else {
            Recovery::AskBudget
        }
    }

    /// Learn what the compaction for an overflow came to: what the user is told, or why
    /// the turn fails.
    pub fn recover_context_overflow(
        &self,
        turn: &mut Turn,
        outcome: CompactionOutcome,
        error: &str,
    ) -> (r: Result<AgentEvent, String>)
        ensures
            final(turn)@ == (TurnView { overflow_compacted: true, ..old(turn)@ }),
            match r {
                Ok(e) => outcome.shrank && e@ == EventView::Notice(outcome.notice@),
                Err(s) => !outcome.shrank && s@ == too_large_text(outcome.after as nat, error@),
            },
    {
        turn.overflow_compacted = true;
        if outcome.shrank {
            Ok(AgentEvent::Notice(outcome.notice))
        } else {
            let mut s =
                "context window exceeded and the current turn is too large to compact (".to_string();
            s.append(decimal_string(outcome.after as u64).as_str());
            s.append(" messages, nothing left to shrink) — ");
            s.append(error);
            Err(s)
        }
    }
}

/// A turn compacts for an overflow at most once.
pub proof fn law_one_compaction_a_turn<H>(
    a: AgentView<H>,
    t: TurnView,
    overflow: bool,
    rejected: Option<Seq<char>>,
)
    requires
        t.overflow_compacted,
    ensures
        recovery(a, t, overflow, rejected).1 != Recovery::Compact,
{
}

/// A parameter is dropped at most once: a second refusal of it is left to the retry
/// budget.
pub proof fn law_a_parameter_is_dropped_once<H>(
    a: AgentView<H>,
    t: TurnView,
    overflow: bool,
    p: Seq<char>,
)
    ensures
        ({
            let (b, first) = recovery(a, t, overflow, Some(p));
            first == Recovery::DropParam ==> recovery(b, t, overflow, Some(p)).1
                != Recovery::DropParam
        }),
{
    let (b, first) = recovery(a, t, overflow, Some(p));
    if first == Recovery::DropParam {
        assert(b.unsupported_params[a.unsupported_params.len() as int] == p);
    }
}

// ---------------------------------------------------------------------------
// Credentials of a signed-in account
// ---------------------------------------------------------------------------

/// What is done about the account's credentials before a request.
#[derive(Debug, Clone, Copy, PartialEq, Eq, Structural)]
pub enum OAuthAction {
    /// Nothing.
    Keep,
    /// Put the provider's own headers back.
    RestoreHeaders,
    /// Get fresh credentials and put them in.
    Refresh,
}

/// What is done about the account's credentials before a request: fresh ones where the
/// request goes to the trusted endpoint, and none left behind where it does not.
pub fn refresh_oauth_if_needed(trusted: bool, has_account_header: bool) -> (r: OAuthAction)
    ensures
        r == (if trusted {
            OAuthAction::Refresh
        } else if has_account_header {
            OAuthAction::RestoreHeaders
        } else {
            OAuthAction::Keep
        }),
        r is Refresh <==> trusted,
        r is RestoreHeaders ==> has_account_header,
        !trusted && !has_account_header ==> r is Keep,
{
    if trusted {
        OAuthAction::Refresh
    } else if has_account_header {
        OAuthAction::RestoreHeaders
    } else {
        OAuthAction::Keep
    }
}

/// The headers of a request with a signed-in account: the provider's own, and the
/// account's where it has an id.
pub fn account_headers(base: Vec<(String, String)>, account_id: Option<String>) -> (r: Vec<
    (String, String),
>)
    ensures
        text::pairs(r@) == (match account_id {
            Some(id) => text::pairs(base@).push(("ChatGPT-Account-Id"@, id@)),
            None => text::pairs(base@),
        }),
{
    let mut out = base;
    let ghost before = text::pairs(base@);
    if let Some(id) = account_id {
        out.push(("ChatGPT-Account-Id".to_string(), id));
        assert(text::pairs(out@) =~= before.push(("ChatGPT-Account-Id"@, id@)));
    }
    out
}

/// What is streamed is kept: the text of the pieces one behind the other, whatever comes
/// between them, and the moment at which the first of them said anything.
pub proof fn law_what_is_streamed_is_kept(
    d: Drained<Seq<char>>,
    c: ChatChunk<Seq<char>>,
    then: ChatChunk<Seq<char>>,
    now: u64,
    later: u64,
)
    ensures
        ({
            let one = drained(d, c, now);
            let two = drained(one, then, later);
            &&& (c.content matches Some(a) ==> (then.content matches Some(b) ==> two.content
                == d.content + a + b))
            &&& c.content is None ==> one.content == d.content
            &&& d.first_payload matches Some(t) ==> two.first_payload == Some(t)
            &&& d.first_payload is None && (c.content matches Some(a) && a.len() > 0)
                ==> two.first_payload == Some(now)
            &&& d.first_payload is None && (c.reasoning_content matches Some(a) && a.len() > 0)
                ==> two.first_payload == Some(now)
            &&& d.first_payload is None && c.tool_fragments > 0 ==> two.first_payload == Some(now)
            &&& c.content is None && c.reasoning_content is None && c.tool_fragments == 0
                ==> one == d
        }),
{
}

/// Each part of a piece is shown as what it is, whole: thinking as thinking, before what
/// is said, which is shown as text.
pub proof fn law_a_piece_is_shown_as_what_it_is(c: ChatChunk<Seq<char>>, t: Seq<char>, u: Seq<char>)
    requires
        t.len() > 0,
        u.len() > 0,
    ensures
        c.content == Some(t) && c.reasoning_content is None ==> chunk_events(c) == seq![
            EventView::Text(t),
        ],
        c.reasoning_content == Some(u) && c.content is None ==> chunk_events(c) == seq![
            EventView::Reasoning(u),
        ],
        c.reasoning_content == Some(u) && c.content == Some(t) ==> chunk_events(c) == seq![
            EventView::Reasoning(u),
            EventView::Text(t),
        ],
{
}

/// A report gives what was spent, each figure under its own name; a time too long for its
/// field reads as the longest there is.
pub proof fn law_a_report_gives_what_was_spent(
    s: CallSpend,
    decode_ms: u64,
    reasoning: Option<u32>,
    partial: bool,
)
    ensures
        ({
            let r = usage_report(s, decode_ms, reasoning, partial);
            &&& r.prompt_tokens == s.prompt_tokens
            &&& r.completion_tokens == s.completion_tokens
            &&& r.cached_prompt_tokens == s.cached_prompt_tokens
            &&& r.cache_creation_tokens == s.cache_creation_tokens
            &&& r.cost_usd_bits == s.cost_usd_bits
            &&& r.session_cost_usd_bits == s.session_cost_usd_bits
            &&& r.reasoning_tokens == reasoning
            &&& r.cost_partial == partial
            &&& r.decode_ms <= decode_ms
            &&& r.decode_ms == decode_ms || r.decode_ms == u32::MAX
        }),
{
}

/// What to do about a refusal: one that names a parameter drops that parameter, tells the
/// user its name and keeps everything else; any other changes nothing.
pub proof fn law_a_refused_parameter_is_named<H>(a: AgentView<H>, t: TurnView, p: Seq<char>)
    requires
        !a.unsupported_params.contains(p),
    ensures
        ({
            let (b, r) = recovery(a, t, false, Some(p));
            &&& r is DropParam
            &&& b.unsupported_params == a.unsupported_params.push(p)
            &&& b.messages == a.messages
            &&& b.pending_notices.len() == a.pending_notices.len() + 1
            &&& text::contains(b.pending_notices.last(), p)
        }),
        recovery(a, t, false, None) == (a, Recovery::AskBudget),
        !t.overflow_compacted && a.messages.len() > 2 ==> recovery(a, t, true, Some(p)) == (
            a,
            Recovery::Compact,
        ),
        t.overflow_compacted || a.messages.len() <= 2 ==> recovery(a, t, true, None) == (
            a,
            Recovery::AskBudget,
        ),
{
    broadcast use text::lemma_sum_holds;

    text::lemma_holds_itself(p);
    assert(text::contains(dropped_notice(p), p));
}

/// A retry tells how long it waits and which one of how many it is; a turn that cannot be
/// made smaller tells how large it is and what the endpoint said.
#[verifier::rlimit(40)]
pub proof fn law_a_retry_is_told(
    stage: RequestStage,
    delay: Seq<char>,
    attempt: u32,
    most: u32,
    after: nat,
    error: Seq<char>,
)
    ensures
        text::contains(retry_text(stage, delay, attempt, most), delay),
        text::contains(
            retry_text(stage, delay, attempt, most),
            text::decimal(attempt as nat) + "/"@ + text::decimal(most as nat),
        ),
        text::contains(too_large_text(after, error), text::decimal(after)),
        error.is_suffix_of(too_large_text(after, error)),
{
    broadcast use text::lemma_sum_holds;

    text::lemma_holds_itself(delay);
    text::lemma_holds_itself(text::decimal(after));
    let which = text::decimal(attempt as nat) + "/"@ + text::decimal(most as nat);
    text::lemma_holds_itself(which);
    let t = retry_text(stage, delay, attempt, most);
    let before = (match stage {
        RequestStage::Connecting => "network error — retrying in "@,
        RequestStage::Streaming => "stream interrupted — retrying in "@,
    }) + delay + "s (attempt "@;
    assert(before + which + ")"@ =~= t);
    let e = too_large_text(after, error);
    assert(e.skip(e.len() - error.len()) =~= error);
}

} // verus!
