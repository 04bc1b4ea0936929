use hrdr::event::AgentEvent;
use hrdr::transcript::{apply_event, Entry, EntryKind};
use hrdr::transcript_log::{
    append_all, append_start, delta_len, ends_mid_line, fold_transcript, merge, read_transcript,
    text_lines, AppendOutcome, AppendStep, EndStatus, LogLine, Record, TranscriptLog, WriteReply,
    COALESCE_AGE_MS, COALESCE_BYTES,
};
use hrdr::clock::Moment;

fn text(chunk: &str) -> Record {
    Record::Text { chunk: chunk.into() }
}

fn start(prompt: &str) -> Record {
    Record::Start { model: "m".into(), label: "l".into(), prompt: prompt.into() }
}

/// What reaches the file when `records` are written, one millisecond apart.
fn written(records: &[Record]) -> Vec<Record> {
    let mut log = TranscriptLog::create();
    let mut out = Vec::new();
    for (i, r) in records.iter().enumerate() {
        out.extend(log.write(r, i as u64));
    }
    out.extend(log.flush());
    out
}

/// The lines of a file with these records.
fn lines(records: &[Record]) -> Vec<LogLine> {
    records
        .iter()
        .map(|r| LogLine { text: "{}".into(), record: Some(r.clone()) })
        .collect()
}

fn now() -> Moment {
    Moment { secs: 0, nanos: 0 }
}

fn kinds(v: &[Entry]) -> Vec<EntryKind> {
    v.iter().map(|e| e.kind.clone()).collect()
}

/// Append one line to a file that takes it all.
fn append(file: &mut Vec<u8>, log: &mut TranscriptLog, json: &str) {
    let bytes = log.line(json);
    file.extend_from_slice(&bytes);
    log.appended(bytes.len(), AppendOutcome::Whole);
}

#[test]
fn transcript_log_write_appends_one_line_per_record() {
    let mut log = TranscriptLog::create();
    let mut file = Vec::new();
    for json in [
        r#"{"t":"start","model":"m","label":"l","prompt":"p"}"#,
        r#"{"t":"text","chunk":"hello"}"#,
        r#"{"t":"end","status":"ok","bytes":5}"#,
    ] {
        append(&mut file, &mut log, json);
    }
    assert_eq!(log.len, file.len() as u64);
    let lines = text_lines(&file);
    assert_eq!(lines.len(), 3, "one line per record");
    for l in &lines {
        let v: serde_json::Value = serde_json::from_slice(l).unwrap();
        assert!(v.is_object());
    }
}

/// The arguments and the result of a tool call survive.
#[test]
fn transcript_log_read_transcript_preserves_tool_args_and_result() {
    let args = r#"{"path":"src/lib.rs"}"#;
    let result = "@@ -1 +1 @@\n-old line\n+new line";
    let file = written(&[
        Record::Start {
            model: "m".into(),
            label: "edit-task".into(),
            prompt: "edit the file".into(),
        },
        Record::ToolStart { id: "call-1".into(), name: "edit".into(), args: args.into() },
        Record::ToolEnd {
            id: "call-1".into(),
            name: "edit".into(),
            result: result.into(),
            ok: true,
        },
        Record::End { status: EndStatus::Success, bytes: 0 },
    ]);
    let entries = read_transcript(&lines(&file));
    let tool = entries
        .iter()
        .find_map(|e| match &e.kind {
            EntryKind::Tool { name, args, result, ok, .. } => {
                Some((name.clone(), args.clone(), result.clone(), *ok))
            }
            _ => None,
        })
        .expect("a folded Tool entry");
    assert_eq!(tool.0, "edit");
    assert!(tool.1.contains("src/lib.rs"), "args (path) survive: {}", tool.1);
    assert!(tool.2.contains("new line"), "result (diff) survives: {}", tool.2);
    assert!(tool.3, "ok flag survives");
}

/// A transcript is a fold of the events.
#[test]
fn transcript_log_read_transcript_folds_an_event_stream_in_order() {
    let events = [
        AgentEvent::Steered("audit the config".into()),
        AgentEvent::Text("looking now".into()),
        AgentEvent::ToolStart {
            id: "call-1".into(),
            name: "read".into(),
            args: r#"{"path":"config.toml"}"#.into(),
        },
        AgentEvent::ToolEnd {
            id: "call-1".into(),
            name: "read".into(),
            result: "port = 8080".into(),
            ok: true,
        },
    ];
    let records: Vec<Record> =
        events.iter().map(|e| Record::from_event(e).unwrap()).collect();
    let entries = read_transcript(&lines(&written(&records)));
    let tool = entries
        .iter()
        .find_map(|e| match &e.kind {
            EntryKind::Tool { args, result, .. } => Some((args.clone(), result.clone())),
            _ => None,
        })
        .expect("folded Tool entry present");
    assert!(tool.0.contains("config.toml"), "tool args survive: {}", tool.0);
    assert!(tool.1.contains("8080"), "tool result survives: {}", tool.1);
    assert!(entries
        .iter()
        .any(|e| matches!(&e.kind, EntryKind::Assistant(s) if s == "looking now")));
    let kinds: Vec<&EntryKind> = entries.iter().map(|e| &e.kind).collect();
    assert!(
        matches!(kinds.as_slice(),
            [
                EntryKind::User(u),
                EntryKind::Assistant(_),
                EntryKind::Tool { .. },
            ] if u == "audit the config"
        ),
        "reconstructed in log order: {kinds:?}"
    );
}

/// Write `total` bytes to a disk that has room for `cap`.
fn append_to(cap: usize, total: usize) -> Result<(), usize> {
    let mut done = 0;
    let mut step = append_start(total);
    loop {
        match step {
            AppendStep::Write { from } => {
                done = from;
                let reply = if cap > done {
                    WriteReply::Wrote((cap - done).min(total - done))
                } else {
                    WriteReply::Failed
                };
                step = append_all(total, done, reply);
            }
            AppendStep::Done => return Ok(()),
            AppendStep::Stopped { landed } => {
                assert_eq!(landed, done);
                return Err(landed);
            }
        }
    }
}

/// A partial write is reported as one.
#[test]
fn append_all_reports_how_many_bytes_landed_before_the_error() {
    let line = b"{\"t\":\"reasoning\",\"text\":\"x\"}\n";
    assert_eq!(append_to(21, line.len()), Err(21));
    // Nothing accepted at all: the file is still on a boundary.
    assert_eq!(append_to(0, 3), Err(0));
    // A writer with room takes the whole buffer.
    assert_eq!(append_to(1000, 4), Ok(()));
    // An interrupted attempt is made again, an attempt that takes nothing is not.
    assert_eq!(append_all(4, 1, WriteReply::Interrupted), AppendStep::Write { from: 1 });
    assert_eq!(append_all(4, 1, WriteReply::Wrote(0)), AppendStep::Stopped { landed: 1 });
    assert_eq!(append_start(0), AppendStep::Done);
}

/// A file that ends in the middle of a record costs that record and no other.
#[test]
fn a_torn_tail_does_not_swallow_the_next_record() {
    let mut file = Vec::new();
    let mut log = TranscriptLog::create();
    append(&mut file, &mut log, r#"{"t":"text","chunk":"before"}"#);
    file.extend_from_slice(b"{\"t\":\"reasoning\",\"tex");

    let torn = ends_mid_line(file.len() as u64, file.last().copied());
    assert!(torn);
    let mut log = TranscriptLog::append(file.len() as u64, torn);
    append(&mut file, &mut log, r#"{"t":"tool_start","id":"call-1","name":"shell","args":"{}"}"#);
    append(&mut file, &mut log, r#"{"t":"text","chunk":"after"}"#);

    let found = text_lines(&file);
    assert_eq!(found.len(), 4, "the fragment is its own line");
    assert_eq!(found[1], b"{\"t\":\"reasoning\",\"tex", "it stayed a lone broken line");

    let read = vec![
        LogLine { text: "{}".into(), record: Some(text("before")) },
        LogLine { text: "{\"t\":\"reasoning\",\"tex".into(), record: None },
        LogLine {
            text: "{}".into(),
            record: Some(Record::ToolStart {
                id: "call-1".into(),
                name: "shell".into(),
                args: "{}".into(),
            }),
        },
        LogLine { text: "{}".into(), record: Some(text("after")) },
    ];
    let (entries, skipped) = fold_transcript(&read, now());
    assert_eq!(skipped, 1, "only the fragment is lost");
    let said: String = entries
        .iter()
        .filter_map(|e| match &e.kind {
            EntryKind::Assistant(s) => Some(s.clone()),
            _ => None,
        })
        .collect();
    assert!(said.contains("before") && said.contains("after"));
    assert!(entries
        .iter()
        .any(|e| matches!(&e.kind, EntryKind::Tool { name, .. } if name == "shell")));
}

/// A line that could not be finished and not be taken back leaves the file torn.
#[test]
fn a_failed_append_is_followed_by_a_line_break() {
    let mut log = TranscriptLog::create();
    log.appended(10, AppendOutcome::Partial { rolled_back: false });
    assert!(log.torn);
    assert_eq!(log.line("{}"), b"\n{}\n".to_vec());
    let mut log = TranscriptLog::create();
    log.appended(10, AppendOutcome::Partial { rolled_back: true });
    assert_eq!(log.line("{}"), b"{}\n".to_vec());
    log.appended(3, AppendOutcome::Nothing);
    assert_eq!(log.len, 0);
    log.appended(3, AppendOutcome::Whole);
    assert_eq!(log.len, 3);
}

/// A token-sized piece does not cost a line of its own.
#[test]
fn streaming_deltas_coalesce_into_one_line() {
    let file = written(&[text("The "), text("quick "), text("brown "), text("fox")]);
    assert_eq!(file, vec![text("The quick brown fox")], "four deltas, one line");
}

#[test]
fn a_kind_change_or_a_tool_call_breaks_the_line() {
    let tool_start =
        Record::ToolStart { id: "c1".into(), name: "read".into(), args: "{}".into() };
    let tool_end = Record::ToolEnd {
        id: "c1".into(),
        name: "read".into(),
        result: "ok".into(),
        ok: true,
    };
    let file = written(&[
        Record::Reasoning { text: "think".into() },
        Record::Reasoning { text: "ing".into() },
        text("say"),
        text("ing"),
        tool_start.clone(),
        tool_end.clone(),
        text("after"),
    ]);
    assert_eq!(
        file,
        vec![
            Record::Reasoning { text: "thinking".into() },
            text("saying"),
            tool_start,
            tool_end,
            text("after"),
        ],
    );
}

/// The output of two tools is not merged.
#[test]
fn output_from_two_tools_never_merges() {
    let out = |id: &str, chunk: &str| Record::ToolOutput { id: id.into(), chunk: chunk.into() };
    let file = written(&[out("a", "a1"), out("a", "a2"), out("b", "b1"), out("a", "a3")]);
    assert_eq!(file, vec![out("a", "a1a2"), out("b", "b1"), out("a", "a3")]);
}

/// Gathering pieces cannot be seen in the transcript.
#[test]
fn a_coalesced_transcript_folds_exactly_like_the_event_stream() {
    let events = vec![
        AgentEvent::Steered("do the thing".into()),
        AgentEvent::Reasoning("first ".into()),
        AgentEvent::Reasoning("I plan".into()),
        AgentEvent::Text("Now ".into()),
        AgentEvent::Text("editing".into()),
        AgentEvent::ToolStart {
            id: "c1".into(),
            name: "shell".into(),
            args: r#"{"cmd":"ls"}"#.into(),
        },
        AgentEvent::ToolOutput { id: "c1".into(), chunk: "src\n".into() },
        AgentEvent::ToolOutput { id: "c1".into(), chunk: "Cargo.toml\n".into() },
        AgentEvent::ToolEnd {
            id: "c1".into(),
            name: "shell".into(),
            result: "src\nCargo.toml\n".into(),
            ok: true,
        },
        AgentEvent::Text("Done".into()),
    ];
    let records: Vec<Record> =
        events.iter().map(|e| Record::from_event(e).unwrap()).collect();
    let file = written(&records);
    assert!(file.len() < events.len(), "deltas were merged: {file:?}");
    let mut want = Vec::new();
    for ev in &events {
        apply_event(&mut want, ev);
    }
    let got = read_transcript(&lines(&file));
    assert_eq!(kinds(&got), kinds(&want), "same fold, fewer lines");
}

#[test]
fn a_long_stream_lands_in_pieces() {
    let mut log = TranscriptLog::create();
    let mut file = Vec::new();
    for _ in 0..500 {
        file.extend(log.write(&text("tok "), 0));
    }
    assert!(file.len() > 1, "not one giant line at the end");
    for rec in &file {
        let len = delta_len(rec).unwrap();
        assert!(len < COALESCE_BYTES + 4, "about one threshold of payload, got {len}");
    }
    // One oversized piece needs no partner.
    log.flush();
    let big = "x".repeat(COALESCE_BYTES * 2);
    assert_eq!(log.write(&text(&big), 0), vec![text(&big)]);
}

/// A piece does not wait for longer than its time.
#[test]
fn an_old_piece_is_written() {
    let mut log = TranscriptLog::create();
    assert!(log.write(&text("a"), 10).is_empty());
    assert!(log.write(&text("b"), 10 + COALESCE_AGE_MS - 1).is_empty());
    assert_eq!(log.write(&text("c"), 10 + COALESCE_AGE_MS), vec![text("abc")]);
    assert_eq!(log.flush(), None);
}

#[test]
fn only_pieces_of_one_stream_merge() {
    let mut open = text("a");
    assert!(merge(&mut open, &text("b")));
    assert_eq!(open, text("ab"));
    assert!(!merge(&mut open, &Record::Reasoning { text: "c".into() }));
    assert!(!merge(&mut open, &start("p")));
    assert_eq!(open, text("ab"));
    assert_eq!(delta_len(&start("p")), None);
    assert_eq!(delta_len(&text("é")), Some(2));
}

/// A line that is not valid UTF-8 does not hide the lines after it.
#[test]
fn read_survives_a_line_that_is_not_valid_utf8() {
    let mut raw = Vec::new();
    raw.extend_from_slice(br#"{"t":"text","chunk":"first"}"#);
    raw.push(b'\n');
    // A record cut in the middle of a 3-byte character.
    raw.extend_from_slice(b"{\"t\":\"text\",\"chunk\":\"\xe2\x82\n");
    raw.extend_from_slice(br#"{"t":"text","chunk":"second"}"#);
    raw.push(b'\n');
    raw.extend_from_slice(br#"{"t":"end","status":"ok","bytes":0}"#);
    raw.push(b'\n');
    let read: Vec<LogLine> = text_lines(&raw)
        .iter()
        .map(|l| {
            let text = String::from_utf8_lossy(l).into_owned();
            let value: Option<serde_json::Value> = serde_json::from_str(&text).ok();
            let record = value.map(|v| match v["t"].as_str().unwrap() {
                "text" => Record::Text { chunk: v["chunk"].as_str().unwrap().to_string() },
                _ => Record::End { status: EndStatus::Success, bytes: 0 },
            });
            LogLine { text, record }
        })
        .collect();
    let (entries, skipped) = fold_transcript(&read, now());
    assert_eq!(skipped, 1);
    let said: String = entries
        .iter()
        .filter_map(|e| match &e.kind {
            EntryKind::Assistant(s) => Some(s.clone()),
            _ => None,
        })
        .collect();
    assert!(said.contains("first") && said.contains("second"));
}

/// What an event and a record stand for.
#[test]
fn records_and_events_correspond() {
    assert_eq!(Record::from_event(&AgentEvent::TurnDone), None);
    assert_eq!(start("p").as_event(), Some(AgentEvent::Steered("p".into())));
    assert_eq!(
        Record::Error { msg: "x".into() }.as_event(),
        Some(AgentEvent::Notice("x".into()))
    );
    assert_eq!(Record::End { status: EndStatus::Failed, bytes: 1 }.as_event(), None);
    let ev = AgentEvent::Notice("n".into());
    assert_eq!(Record::from_event(&ev).unwrap().as_event(), Some(ev));
}

/// The transcript that events build, and the one that is read back of their records.
fn built_and_read(events: &[AgentEvent]) -> (Vec<EntryKind>, Vec<EntryKind>) {
    let mut built = Vec::new();
    for ev in events {
        apply_event(&mut built, ev);
    }
    let records: Vec<Record> = events.iter().filter_map(Record::from_event).collect();
    let read = read_transcript(&lines(&written(&records)));
    (kinds(&built), kinds(&read))
}

/// An event that is not kept may end reasoning, as long as something else is kept next.
#[test]
fn a_log_replays_reasoning_that_an_unkept_event_ends() {
    let start = AgentEvent::ToolStart { id: "c1".into(), name: "shell".into(), args: "{}".into() };
    let (built, read) = built_and_read(&[
        AgentEvent::Reasoning("let me ".into()),
        AgentEvent::Reasoning("look".into()),
        AgentEvent::History(vec![]),
        AgentEvent::TodoUpdated(vec![]),
        start.clone(),
        AgentEvent::TurnDone,
    ]);
    assert_eq!(
        built[0],
        EntryKind::Reasoning { text: "let me look".into(), took_ms: Some(0) }
    );
    assert_eq!(built, read);
    // A piece that holds nothing takes up no reasoning.
    let (built, read) = built_and_read(&[
        AgentEvent::Reasoning("hm".into()),
        AgentEvent::History(vec![]),
        AgentEvent::Reasoning(String::new()),
        start,
    ]);
    assert_eq!(built.len(), 2);
    assert_eq!(built, read);
}

/// Where reasoning goes on after such an event, or nothing kept comes after it, the
/// records cannot tell.
#[test]
fn a_log_does_not_show_where_an_unkept_event_ended_reasoning() {
    let (built, read) = built_and_read(&[
        AgentEvent::Reasoning("one".into()),
        AgentEvent::History(vec![]),
        AgentEvent::Reasoning("two".into()),
        AgentEvent::Text("done".into()),
    ]);
    assert_eq!(built.len(), 3);
    assert_eq!(read[0], EntryKind::Reasoning { text: "onetwo".into(), took_ms: Some(0) });
    let (built, read) =
        built_and_read(&[AgentEvent::Reasoning("one".into()), AgentEvent::TurnDone]);
    assert_eq!(built, vec![EntryKind::Reasoning { text: "one".into(), took_ms: Some(0) }]);
    assert_eq!(read, vec![EntryKind::Reasoning { text: "one".into(), took_ms: None }]);
}

/// A buffer that is taken in pieces is taken once.
#[test]
fn an_append_goes_on_where_the_bytes_ended_that_were_taken() {
    let line = b"{\"t\":\"text\"}\n";
    let replies = [
        WriteReply::Wrote(4),
        WriteReply::Interrupted,
        WriteReply::Wrote(1),
        WriteReply::Wrote(8),
    ];
    let mut file: Vec<u8> = Vec::new();
    let mut step = append_start(line.len());
    for reply in replies {
        let AppendStep::Write { from } = step else { panic!("{step:?}") };
        assert_eq!(from, file.len());
        if let WriteReply::Wrote(n) = reply {
            file.extend_from_slice(&line[from..from + n]);
        }
        step = append_all(line.len(), from, reply);
    }
    assert_eq!(step, AppendStep::Done);
    assert_eq!(file, line);
}
