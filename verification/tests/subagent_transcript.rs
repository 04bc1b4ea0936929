use hrdr::clock::Moment;
use hrdr::event::AgentEvent;
use hrdr::subagent_transcript::{
    is_complete, read_transcript, read_transcript_at, record_line, EndStatus, Record, SpawnKind,
    TranscriptLine,
};
use hrdr::transcript::EntryKind;

fn start(prompt: &str) -> Record {
    Record::Start {
        model: "m".into(),
        label: "l".into(),
        kind: SpawnKind::Blocking,
        prompt: prompt.into(),
    }
}

fn line(r: Record) -> TranscriptLine {
    TranscriptLine { text: "{}".into(), record: Some(r) }
}

#[test]
fn subagent_transcript_write_appends_one_line_per_record() {
    let mut file = String::new();
    for json in [
        r#"{"t":"start","model":"m","label":"l","kind":"blocking","prompt":"p"}"#,
        r#"{"t":"text","chunk":"hello"}"#,
        r#"{"t":"end","status":"ok","bytes":5}"#,
    ] {
        file.push_str(&record_line(json));
    }
    let lines: Vec<&str> = file.lines().collect();
    assert_eq!(lines.len(), 3, "one line per record: {file:?}");
    for l in &lines {
        let v: serde_json::Value = serde_json::from_str(l).expect("each line stands alone");
        assert!(v.is_object());
    }
}

/// The arguments and the result of a tool call survive.
#[test]
fn subagent_transcript_read_transcript_preserves_tool_args_and_result() {
    let args = r#"{"path":"src/lib.rs"}"#;
    let result = "@@ -1 +1 @@\n-old line\n+new line";
    let entries = read_transcript(&vec![
        line(start("edit the file")),
        line(Record::ToolStart { id: "call-1".into(), name: "edit".into(), args: args.into() }),
        line(Record::ToolEnd {
            id: "call-1".into(),
            name: "edit".into(),
            result: result.into(),
            ok: true,
        }),
        line(Record::End { status: EndStatus::Success, bytes: 0 }),
    ]);
    let tool = entries
        .iter()
        .find_map(|e| match &e.kind {
            EntryKind::Tool { name, args, result, ok, .. } => {
                Some((name.clone(), args.clone(), result.clone(), *ok))
            }
            _ => None,
        })
        .expect("a folded Tool entry");
    assert_eq!(tool.0, "edit");
    assert!(tool.1.contains("src/lib.rs"), "args (path) survive: {}", tool.1);
    assert!(tool.2.contains("new line"), "result (diff) survives: {}", tool.2);
    assert!(tool.3, "ok flag survives");
}

#[test]
fn is_complete_flags_orphan_and_preserves_partial_text() {
    let mut file = vec![line(start("p")), line(Record::Text { chunk: "done work".into() })];
    // In the middle of the run there is no end yet, and the work so far is there.
    assert!(!is_complete(&file), "no End line => orphan");
    let entries = read_transcript(&file);
    assert!(entries
        .iter()
        .any(|e| matches!(&e.kind, EntryKind::Assistant(s) if s == "done work")));
    file.push(line(Record::End { status: EndStatus::Failed, bytes: 9 }));
    assert!(is_complete(&file), "End line => complete");
    // Blank lines after it do not matter, a line that does not parse does.
    file.push(TranscriptLine { text: "  ".into(), record: None });
    assert!(is_complete(&file));
    file.push(TranscriptLine { text: "{\"t\":".into(), record: None });
    assert!(!is_complete(&file));
}

#[test]
fn subagent_transcript_read_transcript_folds_an_event_stream_in_order() {
    let events = [
        AgentEvent::Steered("audit the config".into()),
        AgentEvent::Text("looking now".into()),
        AgentEvent::ToolStart {
            id: "call-1".into(),
            name: "read".into(),
            args: r#"{"path":"config.toml"}"#.into(),
        },
        AgentEvent::ToolEnd {
            id: "call-1".into(),
            name: "read".into(),
            result: "port = 8080".into(),
            ok: true,
        },
    ];
    let file: Vec<TranscriptLine> =
        events.iter().map(|e| line(Record::from_event(e).unwrap())).collect();
    let entries = read_transcript(&file);
    let tool = entries
        .iter()
        .find_map(|e| match &e.kind {
            EntryKind::Tool { args, result, .. } => Some((args.clone(), result.clone())),
            _ => None,
        })
        .expect("folded Tool entry present");
    assert!(tool.0.contains("config.toml"), "tool args survive: {}", tool.0);
    assert!(tool.1.contains("8080"), "tool result survives: {}", tool.1);
    let kinds: Vec<&EntryKind> = entries.iter().map(|e| &e.kind).collect();
    assert!(
        matches!(kinds.as_slice(),
            [
                EntryKind::User(u),
                EntryKind::Assistant(a),
                EntryKind::Tool { .. },
            ] if u == "audit the config" && a == "looking now"
        ),
        "reconstructed in log order: {kinds:?}"
    );
}

/// A file that is not there has no lines.
#[test]
fn is_complete_is_false_for_missing_file() {
    assert!(!is_complete(&Vec::new()));
}

#[test]
fn a_line_that_does_not_parse_is_skipped() {
    let now = Moment { secs: 3, nanos: 0 };
    let entries = read_transcript_at(
        &vec![
            line(start("p")),
            TranscriptLine { text: "broken".into(), record: None },
            line(Record::Text { chunk: "x".into() }),
        ],
        now,
    );
    assert_eq!(entries.len(), 2);
    assert_eq!(entries[1].time, now);
    assert_eq!(Record::from_event(&AgentEvent::History(vec![])), None);
}
