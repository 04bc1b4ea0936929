//! Compacting a conversation: when it is due, when it is refused, and what is said of it.
use crate::double;
use crate::text;
use crate::text::{cat, cat3, decimal_string};
use vstd::prelude::*;

verus! {

/// What is said where the conversation of a sub-agent is to be compacted.
pub const SUBAGENT_REFUSAL: &'static str =
    "a sub-agent's conversation is not compacted — it is transient, and its context is the parent's to manage";

/// What a compaction did.
#[derive(Debug, Clone, PartialEq, Eq)]
pub struct CompactionReport<S = String> {
    /// Why it was made, as it is told.
    pub reason: S,
    /// The messages before it.
    pub before: usize,
    /// The messages after it.
    pub after: usize,
    /// The prompt tokens of the call that summarised.
    pub prompt_tokens: u32,
    /// Those of them that came from the cache, where that was reported.
    pub cached_prompt_tokens: Option<u32>,
    /// The tokens of the summary.
    pub output_tokens: u32,
}

impl View for CompactionReport<String> {
    type V = CompactionReport<Seq<char>>;

    open spec fn view(&self) -> CompactionReport<Seq<char>> {
        CompactionReport {
            reason: self.reason@,
            before: self.before,
            after: self.after,
            prompt_tokens: self.prompt_tokens,
            cached_prompt_tokens: self.cached_prompt_tokens,
            output_tokens: self.output_tokens,
        }
    }
}

/// The view of an outcome.
pub open spec fn outcome_view(r: Result<CompactionReport, String>) -> Result<
    CompactionReport<Seq<char>>,
    Seq<char>,
> {
    match r {
        Ok(c) => Ok(c@),
        Err(e) => Err(e@),
    }
}

/// Why a conversation may not be compacted: it is a sub-agent's. Only the conversation
/// that the user owns and comes back to is.
pub fn run_compaction(is_subagent: bool) -> (r: Result<(), String>)
    ensures
        match r {
            Ok(_) => !is_subagent,
            Err(e) => is_subagent && e@ == SUBAGENT_REFUSAL@,
        },
{
    if is_subagent {
        Err(SUBAGENT_REFUSAL.to_string())
    } else {
        Ok(())
    }
}

/// How much of the prompt came from the cache, in percent.
pub open spec fn cache_part(r: CompactionReport<Seq<char>>) -> Seq<char> {
    match r.cached_prompt_tokens {
        Some(c) => if r.prompt_tokens > 0 {
            ", "@ + text::decimal(double::nearest(100 * c as nat, r.prompt_tokens as nat))
                + "% from cache"@
        } else {
            Seq::empty()
        },
        None => Seq::empty(),
    }
}

/// What is said of a compaction.
pub open spec fn message(r: Result<CompactionReport<Seq<char>>, Seq<char>>) -> Seq<char> {
    match r {
        Ok(c) => if c.before == c.after {
            "nothing to compact yet"@
        } else {
            "compacted "@ + c.reason + " "@ + text::decimal(c.before as nat) + " → "@
                + text::decimal(c.after as nat) + " messages\nsummary call: "@ + text::decimal(
                c.prompt_tokens as nat,
            ) + " prompt tokens"@ + cache_part(c) + ", "@ + text::decimal(c.output_tokens as nat)
                + " output\n(summary kept; scrollback above is preserved for you)"@
        },
        Err(e) => "[compact failed] "@ + e,
    }
}

fn cached_share(c: &CompactionReport) -> (r: String)
    ensures
        r@ == cache_part(c@),
{
    match c.cached_prompt_tokens {
        Some(n) => if c.prompt_tokens > 0 {
            let percent: u64 = double::nearest_quotient(
                100 * n as u64,
                c.prompt_tokens as u64,
            );
            cat3(", ", decimal_string(percent).as_str(), "% from cache")
        } else {
            let none = String::new();
            assert(none@ =~= Seq::empty());
            none
        },
        None => {
            let none = String::new();
            assert(none@ =~= Seq::empty());
            none
        },
    }
}

/// What is said of a compaction: what it left, what its call cost, and that the text
/// above it stays.
pub fn compaction_message(res: &Result<CompactionReport, String>) -> (r: String)
    ensures
        r@ == message(outcome_view(*res)),
{
    match res {
        Ok(c) => {
            if c.before == c.after {
                return "nothing to compact yet".to_string();
            }
            let mut s = cat3("compacted ", c.reason.as_str(), " ");
            s.append(decimal_string(c.before as u64).as_str());
            s.append(" → ");
            s.append(decimal_string(c.after as u64).as_str());
            s.append(" messages\nsummary call: ");
            s.append(decimal_string(c.prompt_tokens as u64).as_str());
            s.append(" prompt tokens");
            s.append(cached_share(c).as_str());
            s.append(", ");
            s.append(decimal_string(c.output_tokens as u64).as_str());
            s.append(" output\n(summary kept; scrollback above is preserved for you)");
            s
        },
        Err(e) => cat("[compact failed] ", e.as_str()),
    }
}

/// How many tokens of the window have to be used for a compaction to be due: all but
/// those that are held back, of which there are at most a quarter.
pub open spec fn trigger(window: u32, reserved: u32) -> int {
    window - (if reserved < window / 4 {
        reserved
    } else {
        window / 4
    })
}

/// How many tokens of the window have to be used for a compaction to be due.
pub fn compaction_trigger(window: u32, reserved: u32) -> (r: u32)
    ensures
        r == trigger(window, reserved),
{
    let quarter: u32 = window / 4;
    window - (if reserved < quarter {
        reserved
    } else {
        quarter
    })
}

/// Whether a compaction is due: it is wanted, and what is known of the last call fills
/// the known window up to the trigger.
pub fn should_auto_compact(
    last_prompt_tokens: Option<u32>,
    context_window: Option<u32>,
    reserved: u32,
    enabled: bool,
) -> (r: bool)
    ensures
        r == (enabled && (match (last_prompt_tokens, context_window) {
            (Some(p), Some(w)) => w > 0 && p >= trigger(w, reserved),
            _ => false,
        })),
        r ==> enabled && last_prompt_tokens is Some && context_window is Some,
        last_prompt_tokens matches Some(p) ==> (context_window matches Some(w) ==> {
            &&& w > 0 && p >= w ==> r == enabled
            &&& 4 * p < 3 * w ==> !r
            &&& reserved <= w / 4 && p + reserved < w ==> !r
            &&& w > 0 && p + reserved >= w && 4 * p >= 3 * w + 3 ==> r == enabled
        }),
        context_window == Some(0u32) ==> !r,
{
    if !enabled {
        return false;
    }
    match (last_prompt_tokens, context_window) {
        (Some(p), Some(w)) => w > 0 && p >= compaction_trigger(w, reserved),
        _ => false,
    }
}

/// However much is held back, a compaction is due only from three quarters of the window
/// on, and always when it is full.
pub proof fn law_the_trigger_stays_in_the_last_quarter(window: u32, reserved: u32)
    ensures
        4 * trigger(window, reserved) >= 3 * window,
        trigger(window, reserved) <= window,
{
}

/// What is told of a compaction: that there was nothing to do, what failed, or the count
/// of messages before it and behind it, in that order, and what the summary took.
#[verifier::rlimit(40)]
pub proof fn law_a_compaction_tells_its_counts(c: CompactionReport<Seq<char>>, e: Seq<char>)
    requires
        c.before != c.after,
    ensures
        text::contains(
            message(Ok(c)),
            text::decimal(c.before as nat) + " → "@ + text::decimal(c.after as nat),
        ),
        text::contains(message(Ok(c)), text::decimal(c.prompt_tokens as nat) + " prompt tokens"@),
        text::contains(message(Ok(c)), text::decimal(c.output_tokens as nat)),
        text::contains(message(Ok(c)), c.reason),
        e.is_suffix_of(message(Err(e))),
{
    broadcast use text::lemma_sum_holds;

    let counts = text::decimal(c.before as nat) + " → "@ + text::decimal(c.after as nat);
    let prompt = text::decimal(c.prompt_tokens as nat) + " prompt tokens"@;
    let out = text::decimal(c.output_tokens as nat);
    text::lemma_holds_itself(counts);
    text::lemma_holds_itself(prompt);
    text::lemma_holds_itself(out);
    text::lemma_holds_itself(c.reason);
    let head = "compacted "@ + c.reason + " "@;
    let end = " output\n(summary kept; scrollback above is preserved for you)"@;
    let same = head + counts + " messages\nsummary call: "@ + prompt + cache_part(c) + ", "@ + out
        + end;
    assert(same =~= message(Ok(c)));
    let failed = message(Err(e));
    assert(failed.skip(failed.len() - e.len()) =~= e);
}

/// How much of a prompt came from the cache is told exactly where both are known and there
/// was a prompt; it is nothing for none of it and all for all of it.
pub proof fn law_the_share_from_the_cache(c: CompactionReport<Seq<char>>)
    ensures
        c.cached_prompt_tokens is None ==> cache_part(c).len() == 0,
        c.prompt_tokens == 0 ==> cache_part(c).len() == 0,
        c.prompt_tokens > 0 ==> (c.cached_prompt_tokens matches Some(n) ==> text::contains(
            cache_part(c),
            text::decimal(double::nearest(100 * n as nat, c.prompt_tokens as nat)),
        )),
{
    if let Some(n) = c.cached_prompt_tokens {
        let share = text::decimal(double::nearest(100 * n as nat, c.prompt_tokens as nat));
        text::lemma_holds_itself(share);
        text::lemma_sum_holds(", "@, share, share);
        text::lemma_sum_holds(", "@ + share, "% from cache"@, share);
    }
}

} // verus!
