use hrdr::config::{StatusBarMode, TimestampStyle};
use hrdr::dispatch::Host;
use hrdr::effects::{CopySource, Effect, Report, RewindFor, Setting};
use hrdr::frontend::ExpandMode;
use hrdr::gui_commands::{
    after_rewind, checkpoints_text, compaction_message, copy_found, copy_range, diff_text,
    dispatch, endpoint_health_warning, enter_dir, export_target, file_found, init_prompt, file_read, info_text,
    messages_text, models_text, provider_found, reload_project_docs, revert_text, run,
    session_found, set_temperature, set_thinking, CheckpointRow, Checkpoints, FoundProvider,
    GuiHost,
};
use hrdr::reports::{AgentStatus, SessionStatus, SessionUsage};

fn status() -> SessionStatus {
    SessionStatus {
        id: Some("s-1".into()),
        label: None,
        model: "m".into(),
        base_url: "http://x".into(),
        context_used: Some(10),
        context_window: None,
        effort: None,
        usage: SessionUsage {
            tokens_in: 1,
            tokens_out: 2,
            cost: None,
            cost_partial: false,
            cache: None,
        },
    }
}

fn host() -> GuiHost {
    GuiHost {
        host: Host {
            busy: false,
            cwd: "/w".into(),
            dir: "/w".into(),
            config_path: None,
            status: status(),
            verbose: false,
            todo_ttl: 1,
            statusbar: StatusBarMode::Truncate,
            lacks: vec![],
            tips: None,
            vendor: "acme".into(),
        },
        show_thinking: true,
        timestamps: TimestampStyle::Relative,
    }
}

fn busy() -> GuiHost {
    let mut h = host();
    h.host.busy = true;
    h
}

fn info(s: &str) -> Effect {
    Effect::Info(s.into())
}

fn persist(key: &str, value: Setting) -> Effect {
    Effect::Persist { key: key.into(), value }
}

fn did(h: &GuiHost, line: &str) -> Vec<Effect> {
    dispatch(h, line).unwrap_or_else(|| panic!("not a command: {line}"))
}

#[test]
fn messages_of_compactions() {
    assert_eq!(compaction_message(&Ok((2, 2))), "nothing to compact yet");
    assert!(compaction_message(&Ok((10, 2))).contains("compacted: 10 → 2"));
    assert!(compaction_message(&Err("boom".into())).contains("[compact failed] boom"));
}

#[test]
fn the_model_is_named_on_the_line() {
    assert_eq!(did(&host(), "/model"), vec![info("model: m")]);
    assert_eq!(did(&host(), "/model x"), vec![Effect::SetModel("x".into()), info("model → x")]);
    assert_eq!(
        did(&host(), "/models"),
        vec![info("fetching models…"), Effect::Report(Report::Models)]
    );
    assert_eq!(models_text(&Ok(vec!["a".into(), "b".into()])), "models:\n  a\n  b");
    assert_eq!(models_text(&Ok(vec![])), "endpoint reported no models");
    assert_eq!(models_text(&Err("x".into())), "models error: x");
}

#[test]
fn an_endpoint_is_healthy_or_not() {
    let ok = |m: &str, list: &[&str]| {
        endpoint_health_warning(
            &Ok(list.iter().map(|s| s.to_string()).collect()),
            m,
            "http://x",
        )
    };
    assert_eq!(ok("a", &["a", "b"]), None);
    assert_eq!(ok("default", &["a"]), None);
    assert_eq!(ok("c", &[]), None);
    assert_eq!(
        ok("c", &["a", "b"]).as_deref(),
        Some("⚠ model 'c' not found at http://x; available: a, b")
    );
    assert_eq!(
        endpoint_health_warning(&Err("refused".into()), "c", "http://x").as_deref(),
        Some("⚠ endpoint http://x looks unreachable: refused")
    );
    assert_eq!(reload_project_docs(false), None);
    assert_eq!(
        reload_project_docs(true).as_deref(),
        Some("loaded AGENTS.md into the system prompt")
    );
}

#[test]
fn providers_are_switched() {
    assert_eq!(did(&host(), "/provider"), vec![info("usage: /provider <name>")]);
    assert_eq!(did(&host(), "/provider p"), vec![Effect::FindProvider("p".into())]);
    assert_eq!(provider_found("p", None, false), vec![info("unknown provider 'p'")]);
    let p = FoundProvider {
        base_url: "http://p".into(),
        model: Some("m2".into()),
        context_window: Some(9),
        remote: false,
    };
    assert_eq!(
        provider_found("p", Some(&p), true),
        vec![info("busy — try again after the current turn")]
    );
    assert_eq!(
        provider_found("p", Some(&p), false),
        vec![
            Effect::SetEndpoint("http://p".into()),
            Effect::SetModel("m2".into()),
            Effect::SetContextWindow(9),
            Effect::SetBaseUrl("http://p".into()),
            info("provider → p (http://p)"),
            info("note: a running backend isn't restarted; relaunch hrdr for a local backend"),
        ]
    );
}

#[test]
fn things_are_copied() {
    assert_eq!(did(&host(), "/copy"), vec![Effect::Copy(CopySource::Reply)]);
    assert_eq!(did(&host(), "/copy CODE"), vec![Effect::Copy(CopySource::Code)]);
    assert_eq!(did(&host(), "/copy all"), vec![Effect::Copy(CopySource::Transcript)]);
    assert_eq!(did(&host(), "/copy msg 2-3"), vec![Effect::ParseRange("2-3".into())]);
    assert_eq!(
        did(&host(), "/copy msg"),
        vec![info("usage: /copy [code | all | msg N[-M]]")]
    );
    let range = CopySource::Messages { first: 2, last: 3 };
    assert_eq!(copy_range(Some((2, 3))), vec![Effect::Copy(range)]);
    assert_eq!(copy_range(None), vec![info("usage: /copy msg <N> or <N-M>")]);
    assert_eq!(
        messages_text(&vec![Some("a".into()), None, Some("b".into())]).as_deref(),
        Some("a\n\nb")
    );
    assert_eq!(messages_text(&vec![None]), None);
    assert_eq!(
        copy_found(range, Some("t")),
        vec![Effect::ToClipboard { text: "t".into(), label: "messages #2-3".into() }]
    );
    assert_eq!(
        copy_found(CopySource::Messages { first: 4, last: 4 }, None),
        vec![info("nothing to copy (message #4)")]
    );
    assert_eq!(
        copy_found(CopySource::Reply, Some("")),
        vec![info("nothing to copy (last reply)")]
    );
}

#[test]
fn exports_take_the_first_name() {
    let t = export_target("a.md b.md --json");
    assert!(t.json);
    assert_eq!(t.file.as_deref(), Some("a.md"));
    let t = export_target("out.json");
    assert!(!t.json);
    assert_eq!(export_target("").file, None);
}

#[test]
fn files_are_read_and_edited() {
    assert_eq!(did(&host(), "/add"), vec![info("usage: /add <file>")]);
    assert_eq!(did(&host(), "/add a"), vec![Effect::ReadFile("a".into())]);
    assert_eq!(
        file_read("a", &Ok("x\ny\n".into())),
        vec![
            Effect::PrependInput("`a`:\n```\nx\ny\n\n```\n\n".into()),
            info("added a (2 lines) to the input")
        ]
    );
    assert_eq!(file_read("a", &Err("gone".into())), vec![info("can't read a: gone")]);
    assert_eq!(did(&host(), "/edit a"), vec![Effect::FindFile("a".into())]);
    assert_eq!(file_found("/w/a", true), vec![Effect::OpenEditor("/w/a".into())]);
    assert_eq!(file_found("/w/a", false), vec![info("file not found: /w/a")]);
    assert_eq!(diff_text(&Ok(" \n".into())), "git diff: no changes");
    assert_eq!(diff_text(&Ok("diff x".into())), "diff x");
    assert_eq!(diff_text(&Err("e".into())), "git diff failed: e");
    assert_eq!(
        enter_dir("/x", Some("/y")),
        vec![Effect::SetCwd("/y".into()), info("cwd → /y")]
    );
    assert_eq!(enter_dir("/x", None), vec![info("not a directory: /x")]);
}

#[test]
fn checkpoints_are_listed_and_reverted() {
    assert_eq!(
        did(&host(), "/revert"),
        vec![Effect::FilesChanged, Effect::Report(Report::Revert)]
    );
    assert_eq!(did(&busy(), "/revert"), vec![info("can't revert while a turn is running")]);
    assert_eq!(
        revert_text(&Checkpoints::Answer(Ok(vec!["a".into(), "b".into()]))),
        "reverted 2 file(s): a, b"
    );
    assert_eq!(revert_text(&Checkpoints::Answer(Ok(vec![]))), "nothing to revert");
    assert_eq!(revert_text(&Checkpoints::Answer(Err("x".into()))), "revert failed: x");
    assert_eq!(revert_text(&Checkpoints::Busy), "checkpoint store busy");
    assert!(revert_text(&Checkpoints::Off).starts_with("checkpoints are off"));
    let row = |turn| CheckpointRow { turn, files: vec!["f".into()] };
    assert_eq!(
        checkpoints_text(&Checkpoints::Answer(vec![row(3)])),
        "file checkpoints (newest first; /revert undoes the latest):\n  turn 3 · 1 file(s): f"
    );
    let many = checkpoints_text(&Checkpoints::Answer((0..30).map(row).collect()));
    assert_eq!(many.lines().count(), 21);
    assert_eq!(checkpoints_text(&Checkpoints::Answer(vec![])), "no file checkpoints yet");
}

#[test]
fn the_last_turn_is_taken_back() {
    assert_eq!(did(&host(), "/retry"), vec![Effect::Rewind(RewindFor::Retry)]);
    assert_eq!(
        did(&host(), "/retry m2"),
        vec![
            Effect::SetModel("m2".into()),
            info("model → m2"),
            Effect::Rewind(RewindFor::Retry)
        ]
    );
    assert_eq!(did(&busy(), "/undo"), vec![info("can't undo while a turn is running")]);
    assert_eq!(
        after_rewind(RewindFor::Retry, Some("q")),
        vec![Effect::SendPrompt { prompt: "q".into(), show_as_user: true }]
    );
    assert_eq!(
        after_rewind(RewindFor::Undo, Some("q")),
        vec![
            Effect::SetInput("q".into()),
            Effect::Autosave,
            info("undid last turn — edit and resend")
        ]
    );
    assert_eq!(after_rewind(RewindFor::Undo, None), vec![info("nothing to undo")]);
    assert_eq!(after_rewind(RewindFor::Retry, None), vec![info("nothing to retry")]);
}

#[test]
fn settings_are_set() {
    assert_eq!(
        did(&host(), "/thinking"),
        vec![Effect::ShowThinking(false), info("thinking hidden")]
    );
    assert_eq!(
        set_thinking(Some(true)),
        vec![Effect::ShowThinking(true), info("thinking shown")]
    );
    assert_eq!(set_thinking(None), vec![info("usage: /thinking [on | off]")]);
    assert_eq!(did(&host(), "/effort"), vec![info("effort: —")]);
    assert_eq!(
        did(&host(), "/effort high"),
        vec![
            Effect::SetEffort(Some("high".into())),
            persist("effort", Setting::Text("high".into())),
            info("effort → high"),
        ]
    );
    assert_eq!(
        set_temperature(&Some((5.0f32.to_bits(), "5".into()))),
        vec![
            Effect::SetTemperature(Some(5.0f32.to_bits())),
            persist("temperature", Setting::Float(5.0f32.to_bits())),
            info("temperature → 5"),
        ]
    );
    assert_eq!(set_temperature(&None), vec![info("usage: /temp <number>")]);
    assert_eq!(did(&host(), "/expand"), vec![Effect::SetExpansion(ExpandMode::ToggleLast)]);
    assert_eq!(did(&host(), "/expand ALL"), vec![Effect::SetExpansion(ExpandMode::All)]);
    assert_eq!(did(&host(), "/expand x"), vec![info("usage: /expand [all | off]")]);
    assert_eq!(
        did(&host(), "/ts"),
        vec![
            Effect::SetTimestamps(TimestampStyle::Hidden),
            persist("timestamps", Setting::Text("none".into())),
            info("timestamps: off"),
        ]
    );
    assert_eq!(
        did(&host(), "/timestamps abs")[0],
        Effect::SetTimestamps(TimestampStyle::Exact)
    );
    assert_eq!(
        did(&host(), "/theme"),
        vec![
            Effect::SetTheme(None),
            Effect::Unpersist("theme".into()),
            info("theme reset to default")
        ]
    );
    let most = did(&host(), "/todo-ttl 18446744073709551615");
    assert_eq!(most[1], persist("todo_ttl", Setting::Int(u64::MAX as i64)));
    let mid = did(&host(), "/todo-ttl 9223372036854775808");
    assert_eq!(mid[1], persist("todo_ttl", Setting::Int(9_223_372_036_854_775_808u64 as i64)));
}

#[test]
fn sessions_are_looked_for() {
    assert_eq!(
        did(&host(), "/resume"),
        vec![info("usage: /resume <id or name> (see /sessions)")]
    );
    assert_eq!(
        run(&host(), "sessions", "all"),
        Some(vec![Effect::ListSessions("all".into())])
    );
    assert_eq!(
        session_found("a", None),
        vec![info("no session matching 'a' (see /sessions)")]
    );
    assert_eq!(session_found("a", Some("i")), vec![Effect::Resume("i".into())]);
    assert_eq!(
        run(&host(), "clear", ""),
        Some(vec![Effect::ClearConversation, info("conversation cleared")])
    );
    assert_eq!(run(&host(), "info", ""), Some(vec![Effect::Report(Report::Status)]));
    assert_eq!(dispatch(&host(), "/doctor"), None);
}

#[test]
fn turns_are_left_alone() {
    assert_eq!(did(&busy(), "/compact"), vec![info("can't compact while a turn is running")]);
    assert_eq!(did(&host(), "/compact x"), vec![Effect::StartCompaction(Some("x".into()))]);
    let init = did(&host(), "/init");
    assert_eq!(init[1], Effect::MarkInitTurn);
    assert_eq!(
        init[2],
        Effect::SendPrompt { prompt: init_prompt("acme"), show_as_user: false }
    );
    assert!(init_prompt("acme").contains("(or ACME.md / .cursorrules / similar) already exists"));
    assert_eq!(did(&busy(), "/init"), vec![info("can't /init while a turn is running")]);
}

#[test]
fn the_info_is_the_short_status() {
    let a = AgentStatus {
        temperature: Some("0.5".into()),
        messages: 1,
        prompt_cache: true,
        dir: "~".into(),
        branch: None,
    };
    assert_eq!(
        info_text(&status(), &a),
        "session: s-1\nmodel: m\nendpoint: http://x\ncwd: ~ (—)\ncontext: 10\ntokens: ↑1 ↓2\ntemperature: 0.5\neffort: —"
    );
}
