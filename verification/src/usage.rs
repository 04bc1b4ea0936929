//! Token and cost counters of one agent.
use crate::event::{AgentEvent, UsageReport};
use vstd::prelude::*;

verus! {

/// What one model call was billed. Dollar amounts are carried as bit patterns.
#[derive(Debug, Clone, Copy, PartialEq, Eq, Structural)]
pub struct CallSpend {
    pub prompt_tokens: u32,
    pub completion_tokens: u32,
    /// Prompt tokens served from the provider's cache, and written into it. `None` where
    /// the provider reported no figure, which is not the same as zero.
    pub cached_prompt_tokens: Option<u32>,
    pub cache_creation_tokens: Option<u32>,
    pub cost_usd_bits: Option<u64>,
    pub session_cost_usd_bits: Option<u64>,
}

/// One agent's counters.
#[derive(Debug, Clone, Copy, PartialEq, Eq, Structural)]
pub struct AgentUsage {
    pub tokens_in: usize,
    pub tokens_out: usize,
    /// The bit pattern of the dollars spent; that of zero where nothing was priced.
    pub cost_usd_bits: u64,
    /// The cost is only a floor: a call was left out of it.
    pub cost_partial: bool,
    /// Prompt tokens served from the provider's cache, and written into it.
    pub cache_read_tokens: usize,
    pub cache_write_tokens: usize,
    /// Prompt tokens of the calls whose use of the cache was reported.
    pub cache_measured_tokens: usize,
    pub last_prompt_tokens: Option<u32>,
    pub last_completion_tokens: Option<u32>,
    pub context_window: Option<u32>,
}

/// Counters that have counted nothing.
pub open spec fn no_usage() -> AgentUsage {
    AgentUsage {
        tokens_in: 0,
        tokens_out: 0,
        cost_usd_bits: 0,
        cost_partial: false,
        cache_read_tokens: 0,
        cache_write_tokens: 0,
        cache_measured_tokens: 0,
        last_prompt_tokens: None,
        last_completion_tokens: None,
        context_window: None,
    }
}

/// The number, or zero where there is none.
pub open spec fn or_zero(n: Option<u32>) -> int {
    match n {
        Some(x) => x as int,
        None => 0,
    }
}

/// The counters after one model call.
pub open spec fn call_recorded(u: AgentUsage, prompt: u32, completion: u32) -> AgentUsage {
    AgentUsage {
        tokens_in: (u.tokens_in + prompt) as usize,
        tokens_out: (u.tokens_out + completion) as usize,
        last_prompt_tokens: Some(prompt),
        last_completion_tokens: Some(completion),
        ..u
    }
}

/// The counters after one call's cache figures. A call without any is left out.
pub open spec fn cache_recorded(
    u: AgentUsage,
    prompt: u32,
    read: Option<u32>,
    written: Option<u32>,
) -> AgentUsage {
    if read is None && written is None {
        u
    } else {
        AgentUsage {
            cache_read_tokens: (u.cache_read_tokens + or_zero(read)) as usize,
            cache_write_tokens: (u.cache_write_tokens + or_zero(written)) as usize,
            cache_measured_tokens: (u.cache_measured_tokens + prompt) as usize,
            ..u
        }
    }
}

/// The counters after a usage report.
pub open spec fn report_recorded(u: AgentUsage, p: UsageReport) -> AgentUsage {
    let called = cache_recorded(
        call_recorded(u, p.prompt_tokens, p.completion_tokens),
        p.prompt_tokens,
        p.cached_prompt_tokens,
        p.cache_creation_tokens,
    );
    AgentUsage {
        cost_usd_bits: match p.session_cost_usd_bits {
            Some(c) => c,
            None => u.cost_usd_bits,
        },
        cost_partial: u.cost_partial || p.cost_partial,
        ..called
    }
}

/// Whether the cache counters have room for one call's figures.
pub open spec fn has_cache_room(
    u: AgentUsage,
    prompt: u32,
    read: Option<u32>,
    written: Option<u32>,
) -> bool {
    read is None && written is None || {
        &&& u.cache_read_tokens + or_zero(read) <= usize::MAX
        &&& u.cache_write_tokens + or_zero(written) <= usize::MAX
        &&& u.cache_measured_tokens + prompt <= usize::MAX
    }
}

/// Whether the counters have room for a usage report.
pub open spec fn has_room(u: AgentUsage, p: UsageReport) -> bool {
    &&& u.tokens_in + p.prompt_tokens <= usize::MAX
    &&& u.tokens_out + p.completion_tokens <= usize::MAX
    &&& has_cache_room(u, p.prompt_tokens, p.cached_prompt_tokens, p.cache_creation_tokens)
}

impl Default for AgentUsage {
    fn default() -> (r: Self)
        ensures
            r == no_usage(),
    {
        AgentUsage {
            tokens_in: 0,
            tokens_out: 0,
            cost_usd_bits: 0,
            cost_partial: false,
            cache_read_tokens: 0,
            cache_write_tokens: 0,
            cache_measured_tokens: 0,
            last_prompt_tokens: None,
            last_completion_tokens: None,
            context_window: None,
        }
    }
}

impl AgentUsage {
    /// The latest call's prompt and completion tokens, where a call reported them.
    pub fn last(&self) -> (r: Option<(u32, u32)>)
        ensures
            r == (match (self.last_prompt_tokens, self.last_completion_tokens) {
                (Some(p), Some(c)) => Some((p, c)),
                _ => None,
            }),
            r matches Some(l) ==> self.last_prompt_tokens == Some(l.0)
                && self.last_completion_tokens == Some(l.1),
    {
        match self.last_prompt_tokens {
            Some(p) => match self.last_completion_tokens {
                Some(c) => Some((p, c)),
                None => None,
            },
            None => None,
        }
    }

    /// Set the latest call's usage; `None` clears it.
    pub fn set_last(&mut self, last: Option<(u32, u32)>)
        ensures
            *final(self) == (AgentUsage {
                last_prompt_tokens: match last {
                    Some(l) => Some(l.0),
                    None => None,
                },
                last_completion_tokens: match last {
                    Some(l) => Some(l.1),
                    None => None,
                },
                ..*old(self)
            }),
    {
        match last {
            Some(l) => {
                self.last_prompt_tokens = Some(l.0);
                self.last_completion_tokens = Some(l.1);
            },
            None => {
                self.last_prompt_tokens = None;
                self.last_completion_tokens = None;
            },
        }
    }

    /// Count one model call.
    pub fn record_call(&mut self, prompt: u32, completion: u32)
        requires
            old(self).tokens_in + prompt <= usize::MAX,
            old(self).tokens_out + completion <= usize::MAX,
        ensures
            *final(self) == call_recorded(*old(self), prompt, completion),
    {
        self.tokens_in = self.tokens_in + prompt as usize;
        self.tokens_out = self.tokens_out + completion as usize;
        self.set_last(Some((prompt, completion)));
    }

    /// Count one call's cache figures. `prompt` is the call's whole prompt. A provider
    /// that says nothing of its cache is not one whose cache is never hit: such a call
    /// counts nowhere.
    pub fn record_cache(&mut self, prompt: u32, read: Option<u32>, written: Option<u32>)
        requires
            has_cache_room(*old(self), prompt, read, written),
        ensures
            *final(self) == cache_recorded(*old(self), prompt, read, written),
    {
        if read.is_none() && written.is_none() {
            return;
        }
        self.cache_read_tokens = self.cache_read_tokens + read.unwrap_or(0) as usize;
        self.cache_write_tokens = self.cache_write_tokens + written.unwrap_or(0) as usize;
        self.cache_measured_tokens = self.cache_measured_tokens + prompt as usize;
    }

    /// Count an event: a usage report, and nothing else.
    pub fn record_event(&mut self, ev: &AgentEvent)
        requires
            ev@ matches AgentEvent::Usage(p) ==> has_room(*old(self), p),
        ensures
            *final(self) == (match ev@ {
                AgentEvent::Usage(p) => report_recorded(*old(self), p),
                _ => *old(self),
            }),
    {
        if let AgentEvent::Usage(p) = ev {
            self.record_call(p.prompt_tokens, p.completion_tokens);
            self.record_cache(
                p.prompt_tokens,
                p.cached_prompt_tokens,
                p.cache_creation_tokens,
            );
            if let Some(total) = p.session_cost_usd_bits {
                self.cost_usd_bits = total;
            }
            self.cost_partial = self.cost_partial || p.cost_partial;
        }
    }

    /// The two numbers whose quotient is the share of measured prompt tokens served from
    /// the cache; `None` where no call reported any cache figure.
    pub fn cache_share(&self) -> (r: Option<(usize, usize)>)
        ensures
            r == (if self.cache_measured_tokens > 0 {
                Some((self.cache_read_tokens, self.cache_measured_tokens))
            } else {
                None
            }),
            r is None <==> self.cache_measured_tokens == 0,
            r matches Some((part, whole)) ==> whole > 0 && part == self.cache_read_tokens,
    {
        if self.cache_measured_tokens > 0 {
            Some((self.cache_read_tokens, self.cache_measured_tokens))
        } else {
            None
        }
    }

    /// The live context: the last call's prompt tokens.
    pub fn ctx_used(&self) -> (r: usize)
        ensures
            r == or_zero(self.last_prompt_tokens),
    {
        self.last_prompt_tokens.unwrap_or(0) as usize
    }
}

/// Once a call was left out of the cost, the cost stays a floor whatever comes later.
pub proof fn law_partial_cost_stays_partial(u: AgentUsage, p: UsageReport)
    ensures
        u.cost_partial ==> report_recorded(u, p).cost_partial,
        p.cost_partial ==> report_recorded(u, p).cost_partial,
        report_recorded(u, p).cost_partial ==> u.cost_partial || p.cost_partial,
{
}

/// A call that reports no cache figure leaves the measured share as it was; one that
/// reports any is measured whole.
pub proof fn law_unreported_calls_are_not_measured(u: AgentUsage, p: UsageReport)
    requires
        has_room(u, p),
    ensures
        p.cached_prompt_tokens is None && p.cache_creation_tokens is None ==> {
            &&& report_recorded(u, p).cache_measured_tokens == u.cache_measured_tokens
            &&& report_recorded(u, p).cache_read_tokens == u.cache_read_tokens
            &&& report_recorded(u, p).cache_write_tokens == u.cache_write_tokens
        },
        p.cached_prompt_tokens is Some || p.cache_creation_tokens is Some
            ==> report_recorded(u, p).cache_measured_tokens == u.cache_measured_tokens
            + p.prompt_tokens,
{
}

/// If every call reports at most its own prompt as read from the cache, the share never
/// passes one.
pub proof fn law_cache_share_is_at_most_one(u: AgentUsage, p: UsageReport)
    requires
        has_room(u, p),
        u.cache_read_tokens <= u.cache_measured_tokens,
        or_zero(p.cached_prompt_tokens) <= p.prompt_tokens,
    ensures
        report_recorded(u, p).cache_read_tokens <= report_recorded(u, p).cache_measured_tokens,
{
}

/// A report is added up where it belongs: the prompt to what went in, the completion to
/// what came out, what was read from the cache and written to it to their own sums. The
/// last call is this one, and the cost is the session's where the report gives it.
pub proof fn law_a_report_is_added_up(u: AgentUsage, p: UsageReport)
    requires
        has_room(u, p),
    ensures
        ({
            let r = report_recorded(u, p);
            &&& r.tokens_in == u.tokens_in + p.prompt_tokens
            &&& r.tokens_out == u.tokens_out + p.completion_tokens
            &&& r.last_prompt_tokens == Some(p.prompt_tokens)
            &&& r.last_completion_tokens == Some(p.completion_tokens)
            &&& p.cached_prompt_tokens matches Some(n) ==> r.cache_read_tokens
                == u.cache_read_tokens + n
            &&& p.cached_prompt_tokens is None ==> r.cache_read_tokens == u.cache_read_tokens
            &&& p.cache_creation_tokens matches Some(n) ==> r.cache_write_tokens
                == u.cache_write_tokens + n
            &&& p.cache_creation_tokens is None ==> r.cache_write_tokens == u.cache_write_tokens
            &&& p.session_cost_usd_bits matches Some(c) ==> r.cost_usd_bits == c
            &&& p.session_cost_usd_bits is None ==> r.cost_usd_bits == u.cost_usd_bits
            &&& r.context_window == u.context_window
        }),
{
}

} // verus!
