use hrdr::clock::Moment;
use hrdr::event::{AgentEvent, UsageReport};
use hrdr::turn::{elapsed, TurnStats};

const MS: u64 = 1_000_000;

fn wall() -> Moment {
    Moment { secs: 0, nanos: 0 }
}

fn begun() -> TurnStats {
    let mut t = TurnStats::default();
    t.begin(0, wall());
    t
}

fn tool_start() -> AgentEvent {
    AgentEvent::ToolStart { id: "c1".into(), name: "bash".into(), args: "{}".into() }
}

fn tool_end() -> AgentEvent {
    AgentEvent::ToolEnd { id: "c1".into(), name: "bash".into(), result: String::new(), ok: true }
}

fn text(s: &str) -> AgentEvent {
    AgentEvent::Text(s.into())
}

fn usage(completion_tokens: u32, decode_ms: u32) -> AgentEvent {
    AgentEvent::Usage(UsageReport {
        prompt_tokens: 1000,
        completion_tokens,
        decode_ms,
        cached_prompt_tokens: None,
        cache_creation_tokens: None,
        reasoning_tokens: None,
        cost_usd_bits: None,
        session_cost_usd_bits: None,
        cost_partial: false,
    })
}

/// Tokens a second, as they are shown.
fn rate(t: &TurnStats, now: u64) -> f64 {
    match t.tok_per_sec(now) {
        Some((tokens, nanos)) => tokens as f64 / (nanos as f64 / 1e9),
        None => 0.0,
    }
}

/// The clock stops while the model waits on a tool call.
#[test]
fn the_model_clock_stops_while_a_tool_runs() {
    let mut t = begun();
    assert!(t.inferring(), "a turn opens with the model working");
    t.record(&tool_start(), 5 * MS);
    assert!(!t.inferring(), "it is idle while a tool runs");
    let banked = t.infer_elapsed(5 * MS);
    assert_eq!(banked, 5 * MS);
    assert_eq!(t.infer_elapsed(15 * MS), banked, "the clock does not advance while it waits");
    t.record(&tool_end(), 15 * MS);
    assert!(t.inferring(), "it is working again once the round returns");
    assert_eq!(t.infer_elapsed(16 * MS), 6 * MS);
}

/// A round with several tools is one idle stretch, not one per tool.
#[test]
fn a_round_of_several_tools_is_one_idle_stretch() {
    let mut t = begun();
    t.record(&tool_start(), 1);
    t.record(&tool_start(), 2);
    t.record(&tool_end(), 3);
    assert!(!t.inferring(), "still waiting on the second tool");
    t.record(&tool_end(), 4);
    assert!(t.inferring());
}

#[test]
fn deltas_count_toward_throughput_and_the_first_one_is_ttft() {
    let mut t = begun();
    assert_eq!(t.ttft(), None, "nothing has streamed yet");
    t.record(&text("four"), 3 * MS);
    t.record(&AgentEvent::Reasoning("four".into()), 4 * MS);
    assert_eq!(t.out_tokens(), 2, "reasoning is output too — 8 chars is ~2 tokens");
    assert_eq!(t.ttft(), Some(3 * MS), "the first delta is time-to-first-token");
    assert!(rate(&t, 5 * MS) > 0.0);
}

/// The live estimate is measured in characters, not in deltas.
#[test]
fn the_live_estimate_does_not_depend_on_how_the_reply_was_chunked() {
    let words = "the quick brown fox jumps over the lazy dog";
    let mut one_chunk = begun();
    one_chunk.record(&text(words), 1);
    let mut many_chunks = begun();
    for word in words.split_inclusive(' ') {
        many_chunks.record(&text(word), 1);
    }
    assert_eq!(one_chunk.out_tokens(), many_chunks.out_tokens());
    assert_eq!(one_chunk.out_tokens(), words.len().div_ceil(4), "~4 characters to the token");
}

/// Anything streamed is at least a token.
#[test]
fn a_partial_token_still_counts_as_one() {
    let mut t = begun();
    t.record(&text("hi"), MS);
    assert_eq!(t.out_tokens(), 1);
    assert!(rate(&t, 2 * MS) > 0.0);
}

/// Throughput is measured over the time in which tokens came.
#[test]
fn throughput_ignores_the_prefill_the_round_waited_through() {
    let mut t = begun();
    // A long prefill: working time accrues, no tokens arrive.
    t.record(&text("a"), 60 * MS);
    // The round reports: 20 tokens generated over 10ms of streaming.
    t.record(&usage(20, 10), 70 * MS);
    let now = 70 * MS;
    assert_eq!(t.decode_elapsed(now), 10 * MS);
    assert!(t.infer_elapsed(now) > t.decode_elapsed(now));
    assert_eq!(t.out_tokens(), 20);
    assert!((rate(&t, now) - 2000.0).abs() < 1.0, "20 tokens in 10ms: {}", rate(&t, now));
}

/// A round whose entire output is one tool call streams no text and no reasoning.
#[test]
fn a_tool_call_only_round_is_counted_and_timed() {
    let mut t = begun();
    t.record(&usage(300, 100), MS);
    assert_eq!(t.out_tokens(), 300, "tool-call arguments are output");
    assert_eq!(t.decode_elapsed(MS), 100 * MS);
    assert!((rate(&t, MS) - 3000.0).abs() < 1.0);
}

/// The provider's count replaces the round's estimate.
#[test]
fn a_reported_round_replaces_its_own_estimate() {
    let mut t = begun();
    t.record(&text("aaaa"), 1);
    t.record(&text("bbbb"), 2);
    assert_eq!(t.out_tokens(), 2, "the estimate stands in until the round reports");
    t.record(&usage(500, 50), 3);
    assert_eq!(t.out_tokens(), 500, "not 502");
    // And the next round accumulates on top.
    t.record(&text("cccc"), 4);
    assert_eq!(t.out_tokens(), 501);
    t.record(&usage(100, 50), 5);
    assert_eq!(t.out_tokens(), 600);
    assert_eq!(t.decode_elapsed(5), 100 * MS, "both rounds");
}

/// A report of no tokens does not erase output that was seen.
#[test]
fn a_round_reporting_no_tokens_keeps_what_was_observed() {
    let mut t = begun();
    t.record(&text("four"), 1);
    t.record(&AgentEvent::Reasoning("four".into()), 2);
    t.record(&usage(0, 40), 3);
    assert_eq!(t.out_tokens(), 2);
    assert!(rate(&t, 3) > 0.0, "and it still reads as throughput");
}

/// The generation clock stops with the turn.
#[test]
fn ending_a_turn_mid_stream_closes_the_generation_clock() {
    let mut t = begun();
    t.record(&text("a"), 1);
    t.end(5);
    let decoded = t.decode_elapsed(5);
    assert_eq!(t.decode_elapsed(10 * MS), decoded);
}

#[test]
fn a_finished_turn_stops_the_clock() {
    let mut t = begun();
    t.record(&AgentEvent::TurnDone, 7);
    assert!(!t.inferring(), "a finished turn is not still generating");
    let spent = t.infer_elapsed(7);
    assert_eq!(spent, 7);
    assert_eq!(t.infer_elapsed(10 * MS), spent, "and its clock is frozen");
}

#[test]
fn a_clock_shows_what_is_banked_and_what_runs() {
    assert_eq!(elapsed(10, None, 99), 10);
    assert_eq!(elapsed(10, Some(90), 99), 19);
    // A clock that seems to run backwards shows no time.
    assert_eq!(elapsed(10, Some(100), 99), 10);
    let mut t = begun();
    t.pause(3);
    t.resume(5);
    assert_eq!(t.infer_elapsed(6), 4);
    assert_eq!(t.tok_per_sec(6), None, "no time is no measurement");
}

/// Ending a turn stops all of it, and ending it again changes nothing.
#[test]
fn a_turn_that_was_ended_stands_still() {
    let mut t = begun();
    t.record(&text("hello"), 1);
    t.record(&tool_start(), 4);
    let tokens = t.out_tokens();
    t.end(9);
    assert!(!t.inferring());
    assert_eq!(t.tools_running, 0);
    assert_eq!(t.out_tokens(), tokens);
    assert_eq!(t.infer_elapsed(9), 4);
    assert_eq!(t.infer_elapsed(50 * MS), 4);
    assert_eq!(t.decode_elapsed(9), 3);
    assert_eq!(t.decode_elapsed(50 * MS), 3);
    let over = t;
    t.end(99 * MS);
    assert_eq!(t, over);
}
