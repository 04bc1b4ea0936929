use hrdr::event::{AgentEvent, UsageReport};
use hrdr::usage::AgentUsage;

fn share(u: &AgentUsage) -> Option<f64> {
    u.cache_share().map(|(read, measured)| read as f64 / measured as f64)
}

fn report() -> UsageReport {
    UsageReport {
        prompt_tokens: 10,
        completion_tokens: 4,
        decode_ms: 0,
        cached_prompt_tokens: None,
        cache_creation_tokens: None,
        reasoning_tokens: None,
        cost_usd_bits: None,
        session_cost_usd_bits: None,
        cost_partial: false,
    }
}

#[test]
fn a_call_accumulates_totals_and_becomes_the_latest() {
    let mut u = AgentUsage::default();
    assert_eq!(u.last(), None);
    u.record_call(100, 20);
    u.record_call(300, 5);
    assert_eq!(u.tokens_in, 400);
    assert_eq!(u.tokens_out, 25);
    assert_eq!(u.last(), Some((300, 5)), "the latest call, not the sum");
    assert_eq!(u.ctx_used(), 300, "context in use is the last prompt");
    u.set_last(None);
    assert_eq!(u.ctx_used(), 0, "cleared after a /clear or a compaction");
}

/// The session cache rate divides by what was measured.
#[test]
fn the_cache_rate_divides_by_what_was_measured() {
    let mut u = AgentUsage::default();
    // Nothing reported yet: absent, not zero.
    assert_eq!(share(&u), None);
    u.record_cache(1_000, None, None);
    assert_eq!(share(&u), None, "a provider that says nothing has no rate");
    assert_eq!(u.cache_measured_tokens, 0);

    // A reporting call: 900 of its 1000 prompt tokens came from cache.
    u.record_cache(1_000, Some(900), Some(50));
    assert_eq!(u.cache_read_tokens, 900);
    assert_eq!(u.cache_write_tokens, 50);
    assert_eq!(share(&u), Some(0.9));

    // A second silent call must not move it.
    u.record_cache(9_000, None, None);
    assert_eq!(share(&u), Some(0.9), "an unreported call must not dilute a measured rate");

    // A first turn writes the cache and reads nothing: a rate of zero.
    let mut fresh = AgentUsage::default();
    fresh.record_cache(2_000, None, Some(2_000));
    assert_eq!(share(&fresh), Some(0.0));
}

#[test]
fn a_usage_event_folds_into_the_counters() {
    let mut u = AgentUsage::default();
    u.record_event(&AgentEvent::Usage(UsageReport {
        cached_prompt_tokens: Some(6),
        cache_creation_tokens: Some(2),
        session_cost_usd_bits: Some(0.5f64.to_bits()),
        ..report()
    }));
    assert_eq!(u.tokens_in, 10);
    assert_eq!(u.tokens_out, 4);
    assert_eq!(f64::from_bits(u.cost_usd_bits), 0.5);
    assert_eq!(u.cache_read_tokens, 6);
    assert_eq!(u.cache_write_tokens, 2);
    assert_eq!(share(&u), Some(0.6));
    assert!(!u.cost_partial, "a fully-priced total is complete");
    // Anything else leaves them alone.
    u.record_event(&AgentEvent::TurnDone);
    assert_eq!(u.tokens_in, 10);
}

/// A mark that the total is partial stays.
#[test]
fn an_excluded_unpriced_call_marks_the_total_partial() {
    let mut u = AgentUsage::default();
    u.record_event(&AgentEvent::Usage(UsageReport {
        cost_usd_bits: Some(0.25f64.to_bits()),
        session_cost_usd_bits: Some(0.25f64.to_bits()),
        cost_partial: true,
        ..report()
    }));
    assert_eq!(f64::from_bits(u.cost_usd_bits), 0.25, "priced usage still counts");
    assert!(u.cost_partial, "the excluded unpriced call is admitted");
    // A later purely-priced event must not clear the mark.
    u.record_event(&AgentEvent::Usage(UsageReport {
        prompt_tokens: 5,
        completion_tokens: 2,
        cost_usd_bits: Some(0.1f64.to_bits()),
        session_cost_usd_bits: Some(0.35f64.to_bits()),
        ..report()
    }));
    assert!(u.cost_partial, "partial latches for the whole session");
}
