//! The clock on an agent's turn: how long the model has worked, when its first token
//! came, how many there are, and whether it works now or waits for a tool.
//!
//! Times are readings of a monotonic clock, in nanoseconds, that the caller takes.
use crate::clock::Moment;
use crate::event::{AgentEvent, EventView, UsageReport};
use crate::text::chars_of;
use vstd::prelude::*;

verus! {

/// How many characters there are to a token, as long as nothing better is known.
pub const CHARS_PER_TOKEN: usize = 4;
/// The state of one agent's turn.
///
/// There are two clocks. One runs while the model is at work: always but for the tool
/// calls that it waits for. The other runs only while tokens come, and is what throughput
/// is measured by.
#[derive(Debug, Clone, Copy, PartialEq, Eq, Structural)]
pub struct TurnStats {
    /// When the turn began.
    pub started: Option<u64>,
    /// When the turn began, by the wall clock.
    pub started_at: Option<Moment>,
    /// When the first token came.
    pub first_token_at: Option<u64>,
    /// The tokens that were reported for the rounds that are over.
    pub banked_tokens: usize,
    /// The characters that came since.
    pub live_chars: usize,
    /// The tool calls that are running.
    pub tools_running: usize,
    /// How long the model worked, up to when it last stopped.
    pub infer_banked: u64,
    /// Since when it works, if it does.
    pub infer_started: Option<u64>,
    /// How long tokens came in the rounds that are over.
    pub decode_banked: u64,
    /// Since when tokens come in this round, if they do.
    pub decode_live: Option<u64>,
    /// The latest call's prompt tokens from the cache, where they were reported.
    pub last_cached_tokens: Option<u32>,
    /// The latest call's tokens for reasoning, where they were reported.
    pub last_reasoning_tokens: Option<u32>,
}

/// No turn.
pub open spec fn idle() -> TurnStats {
    TurnStats {
        started: None,
        started_at: None,
        first_token_at: None,
        banked_tokens: 0,
        live_chars: 0,
        tools_running: 0,
        infer_banked: 0,
        infer_started: None,
        decode_banked: 0,
        decode_live: None,
        last_cached_tokens: None,
        last_reasoning_tokens: None,
    }
}

/// The time from `then` to `now`; none where `now` is the earlier.
pub open spec fn since(then: u64, now: u64) -> int {
    if now >= then {
        now - then
    } else {
        0
    }
}

/// What a clock shows: what is banked and, where it runs, the time since it started.
pub open spec fn clock_shows(banked: u64, running: Option<u64>, now: u64) -> int {
    match running {
        Some(t) => banked + since(t, now),
        None => banked as int,
    }
}

/// Both clocks stopped.
pub open spec fn paused(s: TurnStats, now: u64) -> TurnStats {
    TurnStats {
        infer_banked: clock_shows(s.infer_banked, s.infer_started, now) as u64,
        infer_started: None,
        decode_banked: clock_shows(s.decode_banked, s.decode_live, now) as u64,
        decode_live: None,
        ..s
    }
}

/// `t`, or `now` where there is no `t`.
pub open spec fn or_now(t: Option<u64>, now: u64) -> Option<u64> {
    match t {
        Some(x) => Some(x),
        None => Some(now),
    }
}

/// The tokens of the round that is going on, told from its characters.
pub open spec fn estimate(s: TurnStats) -> int {
    (s.live_chars + CHARS_PER_TOKEN - 1) / (CHARS_PER_TOKEN as int)
}

/// All tokens of the turn.
pub open spec fn total_tokens(s: TurnStats) -> int {
    s.banked_tokens + estimate(s)
}

/// The turn over.
pub open spec fn ended(s: TurnStats, now: u64) -> TurnStats {
    TurnStats { tools_running: 0, ..paused(s, now) }
}

/// The state after a piece of `n` characters came.
pub open spec fn streamed(s: TurnStats, n: nat, now: u64) -> TurnStats {
    TurnStats {
        first_token_at: or_now(s.first_token_at, now),
        decode_live: if s.started is Some {
            or_now(s.decode_live, now)
        } else {
            s.decode_live
        },
        live_chars: (s.live_chars + n) as usize,
        ..s
    }
}

/// The state after a round reported what it spent: that replaces what was told from its
/// characters, unless it reports no tokens.
pub open spec fn reported(s: TurnStats, u: UsageReport) -> TurnStats {
    TurnStats {
        decode_live: None,
        decode_banked: (s.decode_banked + u.decode_ms * 1_000_000) as u64,
        banked_tokens: (s.banked_tokens + (if u.completion_tokens == 0 {
            estimate(s)
        } else {
            u.completion_tokens as int
        })) as usize,
        live_chars: 0,
        last_cached_tokens: u.cached_prompt_tokens,
        last_reasoning_tokens: u.reasoning_tokens,
        ..s
    }
}

/// The state after an event.
pub open spec fn recorded(s: TurnStats, ev: EventView, now: u64) -> TurnStats {
    match ev {
        AgentEvent::Text(d) => streamed(s, d.len(), now),
        AgentEvent::Reasoning(d) => streamed(s, d.len(), now),
        AgentEvent::ToolStart { .. } => {
            let more = TurnStats { tools_running: (s.tools_running + 1) as usize, ..s };
            if s.tools_running == 0 {
                paused(more, now)
            } else {
                more
            }
        },
        AgentEvent::ToolEnd { .. } => {
            let left = if s.tools_running > 0 {
                (s.tools_running - 1) as usize
            } else {
                0
            };
            TurnStats {
                tools_running: left,
                infer_started: if left == 0 {
                    or_now(s.infer_started, now)
                } else {
                    s.infer_started
                },
                ..s
            }
        },
        AgentEvent::Usage(u) => reported(s, u),
        AgentEvent::TurnDone => ended(s, now),
        _ => s,
    }
}

/// Whether what both clocks show at `now` can be counted.
pub open spec fn clocks_fit(s: TurnStats, now: u64) -> bool {
    &&& clock_shows(s.infer_banked, s.infer_started, now) <= u64::MAX
    &&& clock_shows(s.decode_banked, s.decode_live, now) <= u64::MAX
}

/// Whether the sums that `ev` adds to have room for it.
pub open spec fn has_room(s: TurnStats, ev: EventView, now: u64) -> bool {
    match ev {
        AgentEvent::Text(d) => s.live_chars + d.len() <= usize::MAX,
        AgentEvent::Reasoning(d) => s.live_chars + d.len() <= usize::MAX,
        AgentEvent::ToolStart { .. } => s.tools_running < usize::MAX && (s.tools_running == 0
            ==> clocks_fit(s, now)),
        AgentEvent::Usage(u) => s.decode_banked + u.decode_ms * 1_000_000 <= u64::MAX
            && s.banked_tokens + (if u.completion_tokens == 0 {
            estimate(s)
        } else {
            u.completion_tokens as int
        }) <= usize::MAX,
        AgentEvent::TurnDone => clocks_fit(s, now),
        _ => true,
    }
}

impl Default for TurnStats {
    fn default() -> (r: Self)
        ensures
            r == idle(),
    {
        TurnStats {
            started: None,
            started_at: None,
            first_token_at: None,
            banked_tokens: 0,
            live_chars: 0,
            tools_running: 0,
            infer_banked: 0,
            infer_started: None,
            decode_banked: 0,
            decode_live: None,
            last_cached_tokens: None,
            last_reasoning_tokens: None,
        }
    }
}

/// What a clock shows: what is banked and, where it runs, the time since it started.
pub fn elapsed(banked: u64, running: Option<u64>, now: u64) -> (r: u64)
    requires
        clock_shows(banked, running, now) <= u64::MAX,
    ensures
        r == clock_shows(banked, running, now),
{
    match running {
        Some(t) => if now >= t {
            banked + (now - t)
        } else {
            banked
        },
        None => banked,
    }
}

impl TurnStats {
    /// A turn begins: the model is at work.
    pub fn begin(&mut self, now: u64, wall: Moment)
        ensures
            *final(self) == (TurnStats {
                started: Some(now),
                started_at: Some(wall),
                infer_started: Some(now),
                ..idle()
            }),
    {
        *self = TurnStats::default();
        self.started = Some(now);
        self.started_at = Some(wall);
        self.infer_started = Some(now);
    }

    /// Take note of an event.
    pub fn record(&mut self, ev: &AgentEvent, now: u64)
        requires
            has_room(*old(self), ev@, now),
        ensures
            *final(self) == recorded(*old(self), ev@, now),
    {
        match ev {
            AgentEvent::Text(d) => {
                self.stream(d.as_str(), now);
            },
            AgentEvent::Reasoning(d) => {
                self.stream(d.as_str(), now);
            },
            AgentEvent::ToolStart { .. } => {
                self.tools_running = self.tools_running + 1;
                if self.tools_running == 1 {
                    self.pause(now);
                }
            },
            AgentEvent::ToolEnd { .. } => {
                if self.tools_running > 0 {
                    self.tools_running = self.tools_running - 1;
                }
                if self.tools_running == 0 {
                    self.resume(now);
                }
            },
            AgentEvent::Usage(u) => {
                let live: usize = self.live_tokens();
                self.decode_live = None;
                self.decode_banked = self.decode_banked + u.decode_ms as u64 * 1_000_000;
                self.banked_tokens = self.banked_tokens + (if u.completion_tokens == 0 {
                    live
                } else {
                    u.completion_tokens as usize
                });
                self.live_chars = 0;
                self.last_cached_tokens = u.cached_prompt_tokens;
                self.last_reasoning_tokens = u.reasoning_tokens;
            },
            AgentEvent::TurnDone => {
                self.end(now);
            },
            _ => {},
        }
    }

    fn stream(&mut self, d: &str, now: u64)
        requires
            old(self).live_chars + d@.len() <= usize::MAX,
        ensures
            *final(self) == streamed(*old(self), d@.len(), now),
    {
        if self.first_token_at.is_none() {
            self.first_token_at = Some(now);
        }
        if self.started.is_some() && self.decode_live.is_none() {
            self.decode_live = Some(now);
        }
        self.live_chars = self.live_chars + chars_of(d).len();
    }

    /// The turn is over.
    pub fn end(&mut self, now: u64)
        requires
            clocks_fit(*old(self), now),
        ensures
            *final(self) == ended(*old(self), now),
    {
        self.pause(now);
        self.tools_running = 0;
    }

    /// Both clocks stop.
    pub fn pause(&mut self, now: u64)
        requires
            clocks_fit(*old(self), now),
        ensures
            *final(self) == paused(*old(self), now),
    {
        self.infer_banked = elapsed(self.infer_banked, self.infer_started, now);
        self.infer_started = None;
        self.decode_banked = elapsed(self.decode_banked, self.decode_live, now);
        self.decode_live = None;
    }

    /// The model is at work again.
    pub fn resume(&mut self, now: u64)
        ensures
            *final(self) == (TurnStats {
                infer_started: or_now(old(self).infer_started, now),
                ..*old(self)
            }),
    {
        if self.infer_started.is_none() {
            self.infer_started = Some(now);
        }
    }

    /// Whether the model is at work.
    pub fn inferring(&self) -> (r: bool)
        ensures
            r == (self.infer_started is Some),
    {
        self.infer_started.is_some()
    }

    /// How long the model has worked in this turn, in nanoseconds.
    pub fn infer_elapsed(&self, now: u64) -> (r: u64)
        requires
            clock_shows(self.infer_banked, self.infer_started, now) <= u64::MAX,
        ensures
            r == clock_shows(self.infer_banked, self.infer_started, now),
    {
        elapsed(self.infer_banked, self.infer_started, now)
    }

    /// How long tokens have come in this turn, in nanoseconds.
    pub fn decode_elapsed(&self, now: u64) -> (r: u64)
        requires
            clock_shows(self.decode_banked, self.decode_live, now) <= u64::MAX,
        ensures
            r == clock_shows(self.decode_banked, self.decode_live, now),
    {
        elapsed(self.decode_banked, self.decode_live, now)
    }

    /// The tokens of the round that is going on, told from its characters: counting
    /// pieces would measure how the provider cuts its replies.
    pub fn live_tokens(&self) -> (r: usize)
        ensures
            r == estimate(*self),
    {
        let whole: usize = self.live_chars / CHARS_PER_TOKEN;
        if self.live_chars % CHARS_PER_TOKEN == 0 {
            whole
        } else {
            whole + 1
        }
    }

    /// All tokens of the turn: what was reported for the rounds that are over, and what
    /// can be told of the one that is going on.
    pub fn out_tokens(&self) -> (r: usize)
        requires
            total_tokens(*self) <= usize::MAX,
        ensures
            r == total_tokens(*self),
    {
        self.banked_tokens + self.live_tokens()
    }

    /// The time before the first token, in nanoseconds.
    pub fn ttft(&self) -> (r: Option<u64>)
        ensures
            r == (match (self.started, self.first_token_at) {
                (Some(s), Some(f)) => Some(since(s, f) as u64),
                _ => None,
            }),
            r is Some <==> self.started is Some && self.first_token_at is Some,
            r matches Some(d) ==> (self.started->0 <= self.first_token_at->0 ==> self.started->0 + d
                == self.first_token_at->0),
    {
        match (self.started, self.first_token_at) {
            (Some(s), Some(f)) => Some(
                if f >= s {
                    f - s
                } else {
                    0
                },
            ),
            _ => None,
        }
    }

    /// The tokens and the nanoseconds whose quotient is the throughput; `None` where no
    /// time has passed, which is no measurement.
    pub fn tok_per_sec(&self, now: u64) -> (r: Option<(usize, u64)>)
        requires
            clock_shows(self.decode_banked, self.decode_live, now) <= u64::MAX,
            total_tokens(*self) <= usize::MAX,
        ensures
            r == (if clock_shows(self.decode_banked, self.decode_live, now) > 0 {
                Some(
                    (
                        total_tokens(*self) as usize,
                        clock_shows(self.decode_banked, self.decode_live, now) as u64,
                    ),
                )
            } else {
                None
            }),
            r matches Some((tokens, nanos)) ==> nanos > 0 && tokens >= self.banked_tokens && nanos
                >= self.decode_banked,
            self.decode_banked > 0 ==> r is Some,
    {
        let nanos: u64 = self.decode_elapsed(now);
        if nanos > 0 {
            Some((self.out_tokens(), nanos))
        } else {
            None
        }
    }
}

/// While a tool runs the model's clock stands still, however long that takes.
pub proof fn law_waiting_stops_the_clock(
    s: TurnStats,
    id: Seq<char>,
    name: Seq<char>,
    args: Seq<char>,
    start: u64,
    one: u64,
    other: u64,
)
    requires
        s.tools_running == 0,
    ensures
        ({
            let waiting = recorded(s, AgentEvent::ToolStart { id, name, args }, start);
            &&& waiting.infer_started is None
            &&& clock_shows(waiting.infer_banked, waiting.infer_started, one) == clock_shows(
                waiting.infer_banked,
                waiting.infer_started,
                other,
            )
            &&& clock_shows(waiting.decode_banked, waiting.decode_live, one) == clock_shows(
                waiting.decode_banked,
                waiting.decode_live,
                other,
            )
        }),
{
}

/// Several tools at once are one wait: the model is at work again when the last of them
/// has returned, and not before.
pub proof fn law_several_tools_are_one_wait(
    s: TurnStats,
    id: Seq<char>,
    name: Seq<char>,
    result: Seq<char>,
    ok: bool,
    now: u64,
)
    requires
        s.infer_started is None,
        s.tools_running > 0,
    ensures
        ({
            let after = recorded(s, AgentEvent::ToolEnd { id, name, result, ok }, now);
            after.infer_started is Some <==> s.tools_running == 1
        }),
{
}

/// A piece of reasoning or of the reply.
pub open spec fn piece(reasoning: bool, d: Seq<char>) -> EventView {
    if reasoning {
        AgentEvent::Reasoning(d)
    } else {
        AgentEvent::Text(d)
    }
}

/// What is told of a reply does not depend on the pieces that it came in, on which of
/// them are reasoning, nor on when the later ones came.
pub proof fn law_pieces_do_not_matter(
    s: TurnStats,
    a: Seq<char>,
    a_reasoning: bool,
    b: Seq<char>,
    b_reasoning: bool,
    reasoning: bool,
    first: u64,
    later: u64,
)
    requires
        s.live_chars + a.len() + b.len() <= usize::MAX,
    ensures
        recorded(recorded(s, piece(a_reasoning, a), first), piece(b_reasoning, b), later)
            == recorded(s, piece(reasoning, a + b), first),
{
}

/// What a round reports replaces what was told of it, instead of adding to it; a round
/// that reports no tokens keeps what was seen.
pub proof fn law_a_report_replaces_the_estimate(s: TurnStats, u: UsageReport, now: u64)
    requires
        has_room(s, AgentEvent::Usage(u), now),
    ensures
        u.completion_tokens > 0 ==> total_tokens(recorded(s, AgentEvent::Usage(u), now))
            == s.banked_tokens + u.completion_tokens,
        u.completion_tokens == 0 ==> total_tokens(recorded(s, AgentEvent::Usage(u), now))
            == total_tokens(s),
{
}

/// Once a turn is over nothing of it runs any more: neither clock moves from what it
/// showed at the end, the tokens stand, and ending it again, whenever that is, changes
/// nothing.
pub proof fn law_a_finished_turn_stands_still(s: TurnStats, end: u64, one: u64, other: u64)
    ensures
        recorded(s, AgentEvent::TurnDone, end) == ended(s, end),
        ({
            let over = ended(s, end);
            &&& over.infer_started is None
            &&& over.decode_live is None
            &&& over.tools_running == 0
            &&& total_tokens(over) == total_tokens(s)
            &&& clock_shows(over.infer_banked, over.infer_started, one) == clock_shows(
                over.infer_banked,
                over.infer_started,
                other,
            )
            &&& clock_shows(over.decode_banked, over.decode_live, one) == clock_shows(
                over.decode_banked,
                over.decode_live,
                other,
            )
            &&& clocks_fit(s, end) ==> {
                &&& clock_shows(over.infer_banked, over.infer_started, one) == clock_shows(
                    s.infer_banked,
                    s.infer_started,
                    end,
                )
                &&& clock_shows(over.decode_banked, over.decode_live, one) == clock_shows(
                    s.decode_banked,
                    s.decode_live,
                    end,
                )
            }
            &&& clocks_fit(over, one)
            &&& ended(over, one) == over
        }),
{
}

/// What each event does to the figures of a turn: what is streamed counts by its length and
/// starts the clock to the first of it, a tool that begins is one more that runs and one
/// that ends one less, and a report gives what it says of the cache and of thinking.
pub proof fn law_events_move_the_figures(
    s: TurnStats,
    d: Seq<char>,
    id: Seq<char>,
    name: Seq<char>,
    args: Seq<char>,
    ok: bool,
    u: UsageReport,
    now: u64,
)
    requires
        has_room(s, EventView::Text(d), now),
        has_room(s, EventView::ToolStart { id, name, args }, now),
        has_room(s, EventView::Usage(u), now),
    ensures
        ({
            let said = recorded(s, EventView::Text(d), now);
            let thought = recorded(s, EventView::Reasoning(d), now);
            let begun = recorded(s, EventView::ToolStart { id, name, args }, now);
            let over = recorded(s, EventView::ToolEnd { id, name, result: args, ok }, now);
            let told = recorded(s, EventView::Usage(u), now);
            &&& said.live_chars == s.live_chars + d.len()
            &&& said.first_token_at == (match s.first_token_at {
                Some(t) => Some(t),
                None => Some(now),
            })
            &&& said.banked_tokens == s.banked_tokens
            &&& thought == said
            &&& begun.tools_running == s.tools_running + 1
            &&& s.tools_running > 0 ==> over.tools_running == s.tools_running - 1
            &&& s.tools_running == 0 ==> over.tools_running == 0
            &&& s.tools_running == 1 ==> over.infer_started is Some
            &&& u.completion_tokens > 0 ==> total_tokens(told) == s.banked_tokens
                + u.completion_tokens
            &&& u.completion_tokens == 0 ==> total_tokens(told) == total_tokens(s)
            &&& told.last_cached_tokens == u.cached_prompt_tokens
            &&& told.last_reasoning_tokens == u.reasoning_tokens
            &&& told.decode_banked == s.decode_banked + u.decode_ms * 1_000_000
            &&& recorded(s, EventView::Notice(d), now) == s
            &&& recorded(s, EventView::Steered(d), now) == s
            &&& recorded(s, EventView::ToolOutput { id, chunk: d }, now) == s
        }),
{
}

/// A clock shows what it has banked and, while it runs, how long it has run; one that was
/// set ahead of the time shows no less than it has banked.
pub proof fn law_a_clock_shows_what_it_ran(banked: u64, from: u64, now: u64)
    ensures
        clock_shows(banked, None, now) == banked,
        from <= now ==> clock_shows(banked, Some(from), now) == banked + (now - from),
        from > now ==> clock_shows(banked, Some(from), now) == banked,
{
}

/// A tool that begins while another runs is one more that runs, and moves nothing else; so
/// does one that ends while another still runs.
pub proof fn law_a_tool_among_others_moves_no_clock(
    s: TurnStats,
    id: Seq<char>,
    name: Seq<char>,
    args: Seq<char>,
    ok: bool,
    now: u64,
)
    requires
        0 < s.tools_running < usize::MAX,
    ensures
        recorded(s, EventView::ToolStart { id, name, args }, now) == (TurnStats {
            tools_running: (s.tools_running + 1) as usize,
            ..s
        }),
        s.tools_running > 1 ==> recorded(
            s,
            EventView::ToolEnd { id, name, result: args, ok },
            now,
        ) == (TurnStats { tools_running: (s.tools_running - 1) as usize, ..s }),
{
}

} // verus!
