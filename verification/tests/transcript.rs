use std::collections::hash_map::DefaultHasher;
use std::hash::{Hash, Hasher};
use hrdr::clock::Moment;
use hrdr::event::AgentEvent;
use hrdr::transcript::{
    apply_event, apply_event_at, find_hits, first_message_since, message_count, nth_message_text,
    settle_restored_tools, time_from_unix, transcript_to_text, Entry, EntryKind,
};

fn sample() -> Vec<Entry> {
    vec![
        Entry::system("welcome"),
        Entry::user("Fix the parser bug"),
        Entry::reasoning("thinking…"),
        Entry::assistant("Done — it was an off-by-one."),
        Entry::user("thanks"),
    ]
}

#[test]
fn message_count_and_nth_skip_non_messages() {
    let e = sample();
    assert_eq!(message_count(&e), 3); // 2 user + 1 assistant
    assert_eq!(
        nth_message_text(&e, 1).as_deref(),
        Some("Fix the parser bug")
    );
    assert_eq!(
        nth_message_text(&e, 2).as_deref(),
        Some("Done — it was an off-by-one.")
    );
    assert_eq!(nth_message_text(&e, 3).as_deref(), Some("thanks"));
    assert_eq!(nth_message_text(&e, 0), None);
    assert_eq!(nth_message_text(&e, 4), None);
}

#[test]
fn find_hits_are_case_insensitive_message_numbers() {
    let e = sample();
    assert_eq!(find_hits(&e, "PARSER"), vec![1]);
    assert_eq!(find_hits(&e, "off-by-one"), vec![2]);
    // Reasoning/system are never matched even if they contain the needle.
    assert_eq!(find_hits(&e, "welcome"), Vec::<usize>::new());
    assert_eq!(find_hits(&e, "thinking"), Vec::<usize>::new());
}

#[test]
fn to_text_omits_reasoning_and_stats() {
    let e = sample();
    let txt = transcript_to_text(&e);
    assert!(txt.contains("## User\nFix the parser bug"));
    assert!(txt.contains("## Assistant\nDone"));
    assert!(txt.contains("[welcome]"));
    assert!(!txt.contains("thinking")); // reasoning dropped
    assert!(!txt.ends_with('\n')); // trailing whitespace trimmed
}

fn tool_start(id: &str, name: &str) -> AgentEvent {
    AgentEvent::ToolStart {
        id: id.to_string(),
        name: name.to_string(),
        args: "{}".to_string(),
    }
}

#[test]
fn text_coalesces_and_an_empty_delta_opens_nothing() {
    let mut t = Vec::new();
    apply_event(&mut t, &AgentEvent::Text(String::new()));
    assert!(t.is_empty(), "an empty delta must not open an entry");
    apply_event(&mut t, &AgentEvent::Text("he".into()));
    apply_event(&mut t, &AgentEvent::Text("llo".into()));
    assert_eq!(t.len(), 1);
    assert!(matches!(&t[0].kind, EntryKind::Assistant(s) if s == "hello"));
}

#[test]
fn a_tool_call_opens_streams_and_closes() {
    let mut t = Vec::new();
    apply_event(&mut t, &tool_start("c1", "bash"));
    apply_event(
        &mut t,
        &AgentEvent::ToolOutput {
            id: "c1".into(),
            chunk: "partial".into(),
        },
    );
    assert!(
        matches!(&t[0].kind, EntryKind::Tool { result, done: false, .. } if result == "partial")
    );
    apply_event(
        &mut t,
        &AgentEvent::ToolEnd {
            id: "c1".into(),
            name: "bash".into(),
            result: "final".into(),
            ok: false,
        },
    );
    assert!(
        matches!(&t[0].kind, EntryKind::Tool { result, done: true, ok: false, .. } if result == "final")
    );
}

#[test]
fn a_steered_message_becomes_a_user_turn_in_the_pane() {
    // This is what makes a sub-agent view a conversation rather than a log:
    // what you send it shows up in its transcript, where you said it.
    let mut t = Vec::new();
    apply_event(&mut t, &AgentEvent::Text("working".into()));
    apply_event(&mut t, &AgentEvent::Steered("actually, stop".into()));
    apply_event(&mut t, &AgentEvent::Text("ok".into()));
    let kinds: Vec<&EntryKind> = t.iter().map(|e| &e.kind).collect();
    assert!(matches!(kinds[0], EntryKind::Assistant(s) if s == "working"));
    assert!(matches!(kinds[1], EntryKind::User(s) if s == "actually, stop"));
    assert!(
        matches!(kinds[2], EntryKind::Assistant(s) if s == "ok"),
        "the reply after steering is a new block, not appended to the old one"
    );
}

#[test]
fn reasoning_closes_when_anything_else_arrives() {
    let mut t = Vec::new();
    apply_event(&mut t, &AgentEvent::Reasoning("hmm".into()));
    assert!(matches!(
        &t[0].kind,
        EntryKind::Reasoning { took_ms: None, .. }
    ));
    apply_event(&mut t, &AgentEvent::Text("answer".into()));
    assert!(
        matches!(
            &t[0].kind,
            EntryKind::Reasoning {
                took_ms: Some(_),
                ..
            }
        ),
        "the block is closed once the model moves on"
    );
}

/// An empty reasoning delta must not split a streamed reply into one block
/// per chunk.
///
/// Regression: a Qwen3-style backend keeps emitting `reasoning_content: ""`
/// on every content chunk once it has stopped thinking (providers that omit
/// the field deserialize to `None` and never reach here). Each empty delta
/// used to push a `Reasoning` entry that rendered as nothing but sat at the
/// tail of the transcript, so the next `Text` could not coalesce — the reply
/// came out as `#8 assistant`, `#9 assistant`, … one header per token group,
/// with the prose sliced across them.
#[test]
fn an_empty_reasoning_delta_does_not_split_the_reply() {
    let mut t = Vec::new();
    for fragment in ["I'll ", "audit ", "the codebase."] {
        apply_event(&mut t, &AgentEvent::Reasoning(String::new()));
        apply_event(&mut t, &AgentEvent::Text(fragment.into()));
    }
    assert_eq!(
        t.len(),
        1,
        "one streamed reply is one block, not one per chunk: {:?}",
        t.iter().map(|e| &e.kind).collect::<Vec<_>>()
    );
    assert!(matches!(&t[0].kind, EntryKind::Assistant(s) if s == "I'll audit the codebase."));
}

/// The guard is on emptiness, not on reasoning: real reasoning still opens
/// its own block and still breaks the assistant run, as before.
#[test]
fn a_non_empty_reasoning_delta_still_starts_its_own_block() {
    let mut t = Vec::new();
    apply_event(&mut t, &AgentEvent::Text("before".into()));
    apply_event(&mut t, &AgentEvent::Reasoning("thinking".into()));
    apply_event(&mut t, &AgentEvent::Text("after".into()));
    let kinds: Vec<&EntryKind> = t.iter().map(|e| &e.kind).collect();
    assert_eq!(kinds.len(), 3);
    assert!(matches!(kinds[0], EntryKind::Assistant(s) if s == "before"));
    assert!(matches!(kinds[1], EntryKind::Reasoning { text, .. } if text == "thinking"));
    assert!(matches!(kinds[2], EntryKind::Assistant(s) if s == "after"));
}

fn at(secs: i64) -> Moment {
    Moment { secs, nanos: 0 }
}

#[test]
fn a_block_of_reasoning_is_timed_by_the_events() {
    let mut t: Vec<Entry> = Vec::new();
    apply_event_at(&mut t, &AgentEvent::Reasoning("hmm".into()), at(100));
    apply_event_at(&mut t, &AgentEvent::Text("answer".into()), at(103));
    assert_eq!(t.len(), 2);
    assert_eq!(t[0].time, at(100));
    assert_eq!(t[1].time, at(103));
    // What the agent says of the run stands in the transcript.
    apply_event_at(&mut t, &AgentEvent::Notice("note".into()), at(104));
    assert!(matches!(&t[2].kind, EntryKind::System(s) if s == "note"));
}

#[test]
fn the_hash_follows_what_is_drawn() {
    let mut a = Entry::at(EntryKind::Assistant("one".into()), at(1));
    let b = Entry::at(EntryKind::Assistant("one".into()), at(2));
    let c = Entry::at(EntryKind::Assistant("two".into()), at(1));
    let mut h = DefaultHasher::new();
    "one".hash(&mut h);
    assert_eq!(a.content_hash, b.content_hash);
    assert_ne!(a.content_hash, c.content_hash);
    assert_eq!(a.content_hash, h.finish());
    a.kind = EntryKind::Assistant("two".into());
    a.refresh_hash();
    assert_eq!(a.content_hash, c.content_hash);
}

#[test]
fn restored_tools_are_over() {
    let mut t = vec![Entry::tool_running("c1", "shell", "{}"), Entry::user("hi")];
    settle_restored_tools(&mut t);
    assert!(matches!(&t[0].kind, EntryKind::Tool { done: true, .. }));
    assert!(matches!(&t[1].kind, EntryKind::User(s) if s == "hi"));
}

#[test]
fn stored_times_are_read_back() {
    let fallback = at(7);
    assert_eq!(time_from_unix(1_700_000_000, fallback), at(1_700_000_000));
    // A time that no calendar has.
    assert_eq!(time_from_unix(i64::MAX, fallback), fallback);
    assert_eq!(time_from_unix(i64::MIN, fallback), fallback);
}

#[test]
fn messages_are_found_by_time() {
    let t = vec![
        Entry::at(EntryKind::User("a".into()), at(10)),
        Entry::at(EntryKind::System("s".into()), at(20)),
        Entry::at(EntryKind::Assistant("b".into()), at(30)),
    ];
    assert_eq!(first_message_since(&t, at(5)), Some(1));
    assert_eq!(first_message_since(&t, at(11)), Some(2));
    assert_eq!(first_message_since(&t, at(31)), None);
}
