//! The breaker for calls that a model makes over and over.
//!
//! A call that keeps failing is refused once it has failed often enough in a row; one
//! that keeps succeeding is only pointed out, because refusing a call that works would
//! break real work. Any different call in between starts the count anew.
use crate::text;
use crate::text::decimal_string;
use crate::transcript;
use crate::transcript::hash_text;
use std::collections::hash_map::DefaultHasher;
use std::hash::Hasher;
use vstd::prelude::*;
use vstd::std_specs::hash::DefaultHasherAdditionalSpecFns;

verus! {

/// Failures in a row after which the same call is refused.
pub const REPEAT_REFUSE_AFTER: u32 = 2;

/// Calls in a row, whatever their outcome, after which the model is told.
pub const REPEAT_NUDGE_AFTER: u32 = 3;

/// The key of a call: a hash of its name and its arguments as the model wrote them.
pub open spec fn key_of(name: Seq<char>, raw_args: Seq<char>) -> u64 {
    DefaultHasher::spec_finish(transcript::text_writes(name) + transcript::text_writes(raw_args))
}

/// The key of a call: a hash of its name and its arguments as the model wrote them.
pub fn call_key(name: &str, raw_args: &str) -> (r: u64)
    ensures
        r == key_of(name@, raw_args@),
{
    let mut h = DefaultHasher::new();
    hash_text(&mut h, name);
    hash_text(&mut h, raw_args);
    assert(h@ =~= transcript::text_writes(name@) + transcript::text_writes(raw_args@));
    h.finish()
}

/// The last call, how often it was made in a row, and how many of its latest runs failed.
#[derive(Debug, Clone, Copy, PartialEq, Eq, Structural)]
pub struct RepeatGuard {
    pub key: Option<u64>,
    /// Calls in a row with `key`, successes counted.
    pub calls: u32,
    /// Failures in a row with `key`; a success sets them back and keeps `key`.
    pub failures: u32,
}

impl Default for RepeatGuard {
    fn default() -> (r: Self)
        ensures
            r == fresh_guard(),
    {
        RepeatGuard { key: None, calls: 0, failures: 0 }
    }
}

/// A guard that has seen no call.
pub open spec fn fresh_guard() -> RepeatGuard {
    RepeatGuard { key: None, calls: 0, failures: 0 }
}

/// Whether the guard refuses the call with `key`.
pub open spec fn refuses(g: RepeatGuard, key: u64) -> bool {
    g.key == Some(key) && g.failures >= REPEAT_REFUSE_AFTER
}

/// What a refused call is answered.
pub open spec fn refusal_text(name: Seq<char>, failures: u32) -> Seq<char> {
    "refused without running: this exact "@ + name + " call already failed "@ + text::decimal(
        failures as nat,
    )
        + " times in a row — change the arguments or the approach; if you're stuck, stop and tell the user what you tried"@
}

/// The guard after the call with `key` ran.
pub open spec fn recorded(g: RepeatGuard, key: u64, ok: bool) -> RepeatGuard {
    if g.key != Some(key) {
        RepeatGuard {
            key: Some(key),
            calls: 1,
            failures: if ok {
                0
            } else {
                1
            },
        }
    } else {
        RepeatGuard {
            key: g.key,
            calls: (g.calls + 1) as u32,
            failures: if ok {
                0
            } else {
                (g.failures + 1) as u32
            },
        }
    }
}

/// What is said of a call that failed again.
pub open spec fn failure_nudge(failures: u32) -> Seq<char> {
    "\n[note: this exact call has failed "@ + text::decimal(failures as nat)
        + " times in a row — change the input or approach instead of retrying it verbatim]"@
}

/// What is said of a call that succeeded again.
pub open spec fn success_nudge(name: Seq<char>, made: u32) -> Seq<char> {
    "\n[note: you have now made this exact "@ + name + " call "@ + text::decimal(made as nat)
        + " times in a row. It succeeded and nothing changed in between, so making it again cannot tell you anything new — change approach, or stop and report what you have]"@
}

/// What the model is told of a call that ran, given the guard before it.
pub open spec fn nudge(
    g: RepeatGuard,
    name: Seq<char>,
    key: u64,
    ok: bool,
    repeatable: bool,
) -> Option<Seq<char>> {
    let after = recorded(g, key, ok);
    if g.key != Some(key) {
        None
    } else if !ok {
        if after.failures >= REPEAT_REFUSE_AFTER {
            Some(failure_nudge(after.failures))
        } else {
            None
        }
    } else if !repeatable && after.calls >= REPEAT_NUDGE_AFTER {
        Some(success_nudge(name, after.calls))
    } else {
        None
    }
}

impl RepeatGuard {
    /// There are no more failures than calls.
    pub open spec fn wf(self) -> bool {
        self.failures <= self.calls
    }

    /// The answer to a call that must not run again, else `None`.
    pub fn refusal(&self, name: &str, raw_args: &str) -> (r: Option<String>)
        ensures
            match r {
                Some(s) => refuses(*self, key_of(name@, raw_args@)) && s@ == refusal_text(
                    name@,
                    self.failures,
                ),
                None => !refuses(*self, key_of(name@, raw_args@)),
            },
    {
        let same: bool = match self.key {
            Some(k) => k == call_key(name, raw_args),
            None => false,
        };
        if same && self.failures >= REPEAT_REFUSE_AFTER {
            let mut s = "refused without running: this exact ".to_string();
            s.append(name);
            s.append(" call already failed ");
            s.append(decimal_string(self.failures as u64).as_str());
            s.append(
                " times in a row — change the arguments or the approach; if you're stuck, stop and tell the user what you tried",
            );
            Some(s)
        } else {
            None
        }
    }

    /// Record how a call went: what to add to the result that the model sees, if the
    /// call is a repeat worth telling it about. A `repeatable` tool is one that is
    /// meant to be asked the same thing until the answer changes: its successes are
    /// never pointed out.
    pub fn record(&mut self, name: &str, raw_args: &str, ok: bool, repeatable: bool) -> (r: Option<
        String,
    >)
        requires
            old(self).wf(),
            old(self).calls < u32::MAX,
        ensures
            final(self).wf(),
            *final(self) == recorded(*old(self), key_of(name@, raw_args@), ok),
            match r {
                Some(s) => nudge(*old(self), name@, key_of(name@, raw_args@), ok, repeatable)
                    == Some(s@),
                None => nudge(*old(self), name@, key_of(name@, raw_args@), ok, repeatable) is None,
            },
    {
        let k: u64 = call_key(name, raw_args);
        let same: bool = match self.key {
            Some(old_key) => old_key == k,
            None => false,
        };
        if !same {
            self.key = Some(k);
            self.calls = 1;
            self.failures = if ok {
                0
            } else {
                1
            };
            return None;
        }
        self.calls = self.calls + 1;
        if !ok {
            self.failures = self.failures + 1;
            if self.failures >= REPEAT_REFUSE_AFTER {
                let mut s = "\n[note: this exact call has failed ".to_string();
                s.append(decimal_string(self.failures as u64).as_str());
                s.append(
                    " times in a row — change the input or approach instead of retrying it verbatim]",
                );
                return Some(s);
            }
            return None;
        }
        self.failures = 0;
        if !repeatable && self.calls >= REPEAT_NUDGE_AFTER {
            let mut s = "\n[note: you have now made this exact ".to_string();
            s.append(name);
            s.append(" call ");
            s.append(decimal_string(self.calls as u64).as_str());
            s.append(
                " times in a row. It succeeded and nothing changed in between, so making it again cannot tell you anything new — change approach, or stop and report what you have]",
            );
            Some(s)
        } else {
            None
        }
    }
}

/// A call in between that has another key starts both counts anew: nothing is refused
/// and nothing pointed out.
pub proof fn law_a_different_call_resets(
    g: RepeatGuard,
    name: Seq<char>,
    key: u64,
    ok: bool,
    repeatable: bool,
)
    requires
        g.key != Some(key),
    ensures
        nudge(g, name, key, ok, repeatable) is None,
        forall|k: u64| !#[trigger] refuses(recorded(g, key, ok), k),
        recorded(g, key, ok).calls == 1,
{
}

/// A success lifts a refusal.
pub proof fn law_a_success_lifts_the_refusal(g: RepeatGuard, key: u64)
    ensures
        forall|k: u64| !#[trigger] refuses(recorded(g, key, true), k),
{
}

/// A call is refused after exactly so many failures in a row: one fewer does not refuse
/// it, and every further failure keeps it refused.
pub proof fn law_failures_in_a_row_refuse(g: RepeatGuard, key: u64)
    requires
        g.wf(),
        g.calls < u32::MAX - 2,
        g.key != Some(key) || g.failures == 0,
    ensures
        ({
            let one = recorded(g, key, false);
            let two = recorded(one, key, false);
            let three = recorded(two, key, false);
            !refuses(one, key) && refuses(two, key) && refuses(three, key)
        }),
{
}

/// A tool that is meant to be asked again and again is never told that it succeeded
/// again.
pub proof fn law_repeatable_success_is_never_nudged(g: RepeatGuard, name: Seq<char>, key: u64)
    ensures
        nudge(g, name, key, true, true) is None,
{
}

/// A call that fails over and over is told how often it did, one that succeeds over and
/// over is told its name and how often it was made, and neither is told of before that.
pub proof fn law_a_repeat_is_told_how_often(
    g: RepeatGuard,
    name: Seq<char>,
    key: u64,
    repeatable: bool,
)
    requires
        g.key == Some(key),
        g.calls < u32::MAX,
        g.failures <= g.calls,
    ensures
        g.failures + 1 >= REPEAT_REFUSE_AFTER ==> (nudge(g, name, key, false, repeatable) matches Some(
            n,
        ) && text::contains(n, text::decimal((g.failures + 1) as nat))),
        g.failures + 1 < REPEAT_REFUSE_AFTER ==> nudge(g, name, key, false, repeatable) is None,
        g.calls + 1 >= REPEAT_NUDGE_AFTER ==> (nudge(g, name, key, true, false) matches Some(n)
            && text::contains(n, text::decimal((g.calls + 1) as nat)) && text::contains(n, name)),
        g.calls + 1 < REPEAT_NUDGE_AFTER ==> nudge(g, name, key, true, false) is None,
        g.failures >= REPEAT_REFUSE_AFTER ==> refuses(g, key),
        text::contains(refusal_text(name, g.failures), name),
        text::contains(refusal_text(name, g.failures), text::decimal(g.failures as nat)),
{
    broadcast use text::lemma_sum_holds;

    text::lemma_holds_itself(name);
    text::lemma_holds_itself(text::decimal(g.failures as nat));
    let f = (g.failures + 1) as u32;
    let c = (g.calls + 1) as u32;
    text::lemma_holds_itself(text::decimal(f as nat));
    text::lemma_holds_itself(text::decimal(c as nat));
    assert(text::contains(failure_nudge(f), text::decimal(f as nat)));
    assert(text::contains(success_nudge(name, c), text::decimal(c as nat)));
    assert(text::contains(success_nudge(name, c), name));
}

/// What is counted is how often one call was made in a row, and how often it failed in a
/// row.
pub proof fn law_a_row_is_counted(g: RepeatGuard, key: u64, ok: bool)
    requires
        g.calls < u32::MAX,
        g.failures <= g.calls,
    ensures
        recorded(g, key, ok).key == Some(key),
        g.key == Some(key) ==> recorded(g, key, ok).calls == g.calls + 1,
        g.key != Some(key) ==> recorded(g, key, ok).calls == 1,
        ok ==> recorded(g, key, ok).failures == 0,
        !ok && g.key == Some(key) ==> recorded(g, key, ok).failures == g.failures + 1,
        !ok && g.key != Some(key) ==> recorded(g, key, ok).failures == 1,
{
}

} // verus!
