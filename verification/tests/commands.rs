use hrdr::chat::{ChatMessage, TodoItem};
use hrdr::compaction::{
    compaction_message, compaction_trigger, run_compaction, should_auto_compact, CompactionReport,
    SUBAGENT_REFUSAL,
};
use hrdr::conversation::{
    conversation_to_json, conversation_to_markdown, default_export_name, export_content,
    export_conversation, export_message, export_target, WriteOutcome,
};
use hrdr::model_switch::{
    after_switch, apply_choice, apply_provider, apply_provider_or_pick, apply_reference,
    before_switch, endpoint_health_warning, health_probe, restore_session_provider, switch_model,
    unreachable_guidance, HealthProbe, ModelSpec, NamedModel, ProviderSwitchError,
    ResolvedProvider, Switch, SwitchEffect,
};
use hrdr::notices::{
    agent_cwd, cancel_message, cancel_message_restored, clipboard_copy, clipboard_copy_status,
    git_working_diff, reload_hot_message, reload_invalid_message, resume_plan,
    session_saved_notice, should_bell, startup_config_warning, ClipboardWrite, SessionDir,
    SessionInfo, BELL_MIN_NANOS,
};
use hrdr::outgoing::{
    agent_names, agent_todos, files_to_mark, prepare_outgoing_relayed, prepare_outgoing_via,
};
use hrdr::test_support::user_state_dirs;
use hrdr::validate::ModelRef;

fn strings(list: &[&str]) -> Vec<String> {
    list.iter().map(|s| s.to_string()).collect()
}

fn reference(spec: &str) -> ModelRef {
    let (provider, model) = spec.split_once("://").unwrap();
    ModelRef { provider: provider.into(), model: model.into() }
}

// ---------------------------------------------------------------------------
// Compaction and export
// ---------------------------------------------------------------------------

#[test]
fn mod_auto_compact_threshold_and_messages() {
    // Reserved 200 → fires at window − reserved = 800.
    assert!(should_auto_compact(Some(800), Some(1000), 200, true));
    assert!(should_auto_compact(Some(950), Some(1000), 200, true));
    assert!(!should_auto_compact(Some(799), Some(1000), 200, true));
    assert!(!should_auto_compact(Some(999), Some(1000), 200, false)); // disabled
    assert!(!should_auto_compact(None, Some(1000), 200, true));
    assert!(!should_auto_compact(Some(999), None, 200, true));
    // With window 1000 it fires at 75% (750), not 0.
    assert!(should_auto_compact(Some(750), Some(1000), 5000, true));
    assert!(!should_auto_compact(Some(749), Some(1000), 5000, true));
    assert_eq!(compaction_trigger(1000, 200), 800);
    // Message formatting covers the three outcomes.
    let report = |before, after| CompactionReport {
        reason: "on request".to_string(),
        before,
        after,
        prompt_tokens: 1_000,
        cached_prompt_tokens: Some(900),
        output_tokens: 42,
    };
    assert_eq!(compaction_message(&Ok(report(2, 2))), "nothing to compact yet");
    let line = compaction_message(&Ok(report(10, 2)));
    assert!(line.contains("compacted on request 10 → 2 messages"), "{line}");
    assert!(line.contains("90% from cache"), "{line}");
    assert!(
        line.ends_with("\n(summary kept; scrollback above is preserved for you)"),
        "{line}"
    );
    assert!(
        line.contains("\nsummary call: 1000 prompt tokens, 90% from cache, 42 output"),
        "{line}"
    );
    assert!(compaction_message(&Err("boom".into())).contains("[compact failed] boom"));
    assert_eq!(run_compaction(true), Err(SUBAGENT_REFUSAL.to_string()));
    assert_eq!(run_compaction(false), Ok(()));
}

fn msgs() -> Vec<ChatMessage> {
    vec![
        ChatMessage::user("hello"),
        ChatMessage::assistant("hi there"),
        ChatMessage::assistant(""), // empty assistant (tool-call turn) skipped
    ]
}

#[test]
fn mod_conversation_export_covers_only_user_assistant() {
    let md = conversation_to_markdown(&msgs());
    assert!(md.contains("## User\nhello"));
    assert!(md.contains("## Assistant\nhi there"));
    assert!(!md.ends_with('\n'));
    let v: serde_json::Value = serde_json::from_str(&conversation_to_json(&msgs())).unwrap();
    let arr = v.as_array().unwrap();
    assert_eq!(arr.len(), 2);
    assert_eq!(arr[0]["role"], "user");
    assert_eq!(arr[1]["role"], "assistant");
}

#[test]
fn commands_conversation_export_covers_only_user_assistant() {
    let mut all = msgs();
    all.push(ChatMessage::tool_result("c1", "result"));
    let md = conversation_to_markdown(&all);
    assert_eq!(md, "## User\nhello\n\n## Assistant\nhi there");
    let v: serde_json::Value = serde_json::from_str(&conversation_to_json(&all)).unwrap();
    let arr = v.as_array().unwrap();
    assert_eq!(arr.len(), 2);
    assert_eq!(arr[0]["n"], 1);
    assert_eq!(arr[1]["n"], 2);
    assert_eq!(arr[1]["content"], "hi there");
}

#[test]
fn export_writes_json_when_the_file_is_named_json() {
    let t = export_target("out.json").unwrap();
    assert_eq!(t.file.as_deref(), Some("out.json"));
    let text = export_content(&msgs(), t.json);
    let v: serde_json::Value = serde_json::from_str(&text).expect("valid JSON");
    assert!(v.is_array(), "expected a JSON array, got: {text}");
}

#[test]
fn export_writes_markdown_without_the_flag() {
    let t = export_target("out.md").unwrap();
    let text = export_content(&msgs(), t.json);
    assert!(text.starts_with("## User"), "expected markdown, got: {text}");
}

#[test]
fn export_flag_forces_json_even_without_an_extension() {
    let t = export_target("--json out").unwrap();
    assert_eq!(t.file.as_deref(), Some("out"));
    let text = export_content(&msgs(), t.json);
    let v: serde_json::Value = serde_json::from_str(&text).expect("valid JSON");
    assert!(v.is_array(), "expected a JSON array, got: {text}");
}

#[test]
fn export_refuses_to_overwrite_an_existing_file() {
    let out = export_conversation("/d/out.md", "text", &WriteOutcome::Exists);
    let said = export_message(&out);
    assert!(said.contains("refusing to overwrite existing file"), "{said}");
    assert_eq!(said, "export failed: refusing to overwrite existing file /d/out.md");
    let out = export_conversation("/d/out.md", "a\nb", &WriteOutcome::Written);
    assert_eq!(export_message(&out), "exported transcript to /d/out.md (2 lines)");
    let out = export_conversation("/d/out.md", "a", &WriteOutcome::Failed("full".into()));
    assert_eq!(out, Err("full".into()));
}

#[test]
fn export_rejects_extra_tokens_without_writing() {
    let err = export_target("a.md b.md").unwrap_err();
    assert!(err.contains("usage: /export [--json] <file>"), "{err}");
    assert_eq!(default_export_name("20260101-000000", true), "hrdr-transcript-20260101-000000.json");
    assert_eq!(default_export_name("x", false), "hrdr-transcript-x.md");
}

// ---------------------------------------------------------------------------
// The endpoint
// ---------------------------------------------------------------------------

/// The provider that is spoken to by the Messages API.
const VENDOR: &str = "acme";

#[test]
fn unreachable_guidance_shows_setup_paths() {
    let msg = unreachable_guidance("http://localhost:8080/v1", "connection refused", VENDOR);
    // Names the failed endpoint + the underlying error…
    assert!(msg.contains("http://localhost:8080/v1"));
    assert!(msg.contains("connection refused"));
    // …then points at both a local server and the /login wizard.
    assert!(msg.contains("infr serve"));
    assert!(msg.contains("llama-server"));
    assert!(msg.contains("/login"));
    assert!(msg.ends_with("(zen/openai/openrouter/acme) and its API key."));
}

#[test]
fn a_remote_provider_with_no_key_is_told_to_log_in_not_that_it_is_down() {
    let warning =
        match health_probe(false, false, "openai", "https://api.openai.com/v1", false) {
            HealthProbe::Warn(w) => w,
            other => panic!("{other:?}"),
        };
    assert!(
        warning.contains("no API key configured for openai") && warning.contains("/login"),
        "it names the real problem and the fix: {warning}"
    );
    assert!(
        !warning.contains("unreachable") && !warning.contains("llama-server"),
        "and does not blame the endpoint: {warning}"
    );
}

#[test]
fn a_local_endpoint_with_no_key_is_still_probed() {
    let url = "http://127.0.0.1:1/v1";
    assert_eq!(health_probe(false, true, "local", url, false), HealthProbe::Ask);
    let warning = endpoint_health_warning(
        &Err("connection refused".into()),
        &reference("local://qwen3"),
        "qwen3",
        url,
        VENDOR,
    )
    .expect("a dead local endpoint is reported");
    assert!(warning.contains("looks unreachable"), "{warning}");
}

#[test]
fn health_probe_skipped_for_trusted_chatgpt_oauth() {
    assert_eq!(health_probe(true, false, "chatgpt", "https://x", true), HealthProbe::Skip);
}

#[test]
fn an_endpoint_without_the_model_is_reported() {
    let listed = Ok(strings(&["a", "b"]));
    let r = reference("local://c");
    assert_eq!(
        endpoint_health_warning(&listed, &r, "c", "http://x", VENDOR).as_deref(),
        Some("⚠ model 'c' not found at http://x; available: a, b")
    );
    assert_eq!(endpoint_health_warning(&listed, &reference("local://a"), "a", "u", VENDOR), None);
    let placeholder = endpoint_health_warning(
        &listed,
        &reference("local://default"),
        "default",
        "http://x",
        VENDOR,
    )
    .unwrap();
    assert!(placeholder.starts_with("⚠ this endpoint serves 2 models"), "{placeholder}");
}

// ---------------------------------------------------------------------------
// Changing the model
// ---------------------------------------------------------------------------

fn change(spec: &str, window: Option<u32>, remember: bool) -> Switch {
    Switch { reference: reference(spec), window, remember }
}

#[test]
fn a_change_shows_and_uses_the_same_model() {
    let r = reference("p://m");
    let told = SwitchEffect::SwitchAgent { reference: r.clone(), validated: true, probe: false };
    assert_eq!(
        apply_reference(
            &change("p://m", Some(9), true),
            &Some(Ok(strings(&["careful"]))),
            "q",
            Some("http://p".into()),
        ),
        vec![
            SwitchEffect::Info("careful".into()),
            SwitchEffect::SetModelRef(r.clone()),
            SwitchEffect::SetBaseUrl("http://p".into()),
            SwitchEffect::SetContextWindow(9),
            SwitchEffect::Remember(r.clone()),
            told,
        ]
    );
    // The endpoint stays with the provider, and a busy agent is asked later.
    assert_eq!(
        apply_reference(&change("p://m", None, false), &None, "p", Some("http://p".into())),
        vec![
            SwitchEffect::SetModelRef(r.clone()),
            SwitchEffect::SwitchAgent { reference: r, validated: false, probe: true },
        ]
    );
}

#[test]
fn a_refused_model_changes_nothing() {
    assert_eq!(
        apply_reference(
            &change("p://m", Some(9), true),
            &Some(Err("no".into())),
            "q",
            Some("http://p".into()),
        ),
        vec![SwitchEffect::Info("no".into())]
    );
}

#[test]
fn the_agent_checks_what_was_not_checked() {
    assert_eq!(before_switch(true, &Err("no".into())), Ok("".into()));
    assert_eq!(before_switch(false, &Err("no".into())), Err("no".into()));
    assert_eq!(before_switch(false, &Ok(strings(&["a", "b"]))), Ok("a\nb".into()));
    assert_eq!(after_switch("said".into(), Ok(()), true), ("said".into(), true));
    assert_eq!(after_switch("said".into(), Err("bad".into()), true), ("bad".into(), false));
}

#[test]
fn models_are_named_in_three_ways() {
    let current = reference("p://old");
    let named = |s: Result<ModelSpec, String>| switch_model("x", &s, &current);
    assert_eq!(
        named(Ok(ModelSpec::Model("new".into()))),
        NamedModel::Apply(reference("p://new"))
    );
    assert_eq!(
        named(Ok(ModelSpec::Full(reference("q://m")))),
        NamedModel::Apply(reference("q://m"))
    );
    assert_eq!(
        named(Ok(ModelSpec::ProviderOnly("q".into()))),
        NamedModel::Provider("q".into())
    );
    assert_eq!(named(Err("bad".into())), NamedModel::Refuse("/model x: bad".into()));
}

#[test]
fn a_provider_is_not_a_model() {
    let found = ResolvedProvider { base_url: "http://p".into(), context_window: Some(7) };
    let m = || Ok(reference("p://m"));
    assert_eq!(
        apply_provider("p", Some(&found), false, m()),
        Ok(change("p://m", Some(7), true))
    );
    let e = apply_provider("p", None, false, m()).unwrap_err();
    assert_eq!(e.message(), "unknown provider 'p'");
    assert!(apply_provider_or_pick(&e).is_empty());
    let e = apply_provider("p", Some(&found), true, m()).unwrap_err();
    assert_eq!(e.message(), "busy — try again after the current turn");
    let e = apply_provider("p", Some(&found), false, Err("name one".into())).unwrap_err();
    assert!(matches!(e, ProviderSwitchError::NeedsModel { .. }));
    assert_eq!(
        apply_provider_or_pick(&e),
        vec![
            SwitchEffect::Info("name one — pick one:".into()),
            SwitchEffect::PickModel("p".into())
        ]
    );
}

#[test]
fn picks_are_remembered_and_sessions_are_not() {
    let found = ResolvedProvider { base_url: "http://p".into(), context_window: Some(7) };
    let m = || Ok(reference("p://m"));
    assert_eq!(
        apply_choice("p", "m", Some(&found), false, m(), Some(3)),
        Ok(change("p://m", Some(3), true))
    );
    assert_eq!(
        restore_session_provider("p", "m", Some(&found), false, m(), None),
        Ok(change("p://m", Some(7), false))
    );
    assert_eq!(
        apply_choice("p", "m", Some(&found), false, Err("bad".into()), None),
        Err("p://m: bad".into())
    );
    assert_eq!(
        apply_choice("p", "m", None, true, m(), None),
        Err("unknown provider 'p'".into())
    );
}

// ---------------------------------------------------------------------------
// Notices
// ---------------------------------------------------------------------------

/// The notice names the file that changed, where that can be told.
#[test]
fn hot_reload_notice_names_the_config_file() {
    let msg = reload_hot_message(Some("~/.config/hrdr/config.toml"));
    assert!(msg.starts_with("config reloaded"), "{msg}");
    assert!(msg.contains("config.toml"), "{msg}");
    assert!(msg.ends_with(')'), "{msg}");
    assert_eq!(reload_hot_message(None), "config reloaded");
    assert_eq!(
        reload_invalid_message("line 3"),
        "config invalid — keeping current settings: line 3"
    );
}

#[test]
fn a_session_is_taken_up_where_it_was() {
    let s = SessionInfo {
        name: "plan".into(),
        messages: 3,
        cwd: "/a".into(),
        base_url: "http://old".into(),
    };
    let p = resume_plan(&s, SessionDir::Elsewhere, "/b", "http://new");
    assert_eq!(p.new_cwd.as_deref(), Some("/a"));
    assert_eq!(
        p.lines,
        strings(&[
            "resumed 'plan' (3 messages)",
            "cwd → /a",
            "note: session endpoint was http://old (current: http://new)"
        ])
    );
    let p = resume_plan(&s, SessionDir::Missing, "/b", "http://old");
    assert_eq!(p.new_cwd, None);
    assert_eq!(p.lines[1], "note: session cwd /a no longer exists; staying in /b");
    assert_eq!(p.lines.len(), 2);
}

#[test]
fn short_notices() {
    assert!(should_bell(true, Some(BELL_MIN_NANOS)));
    assert!(!should_bell(true, Some(BELL_MIN_NANOS - 1)));
    assert!(!should_bell(false, Some(u64::MAX)) && !should_bell(true, None));
    assert_eq!(cancel_message(0), "[cancelled]");
    assert_eq!(cancel_message(2), "[cancelled · 2 queued message(s) discarded]");
    assert_eq!(
        cancel_message_restored(1),
        "[cancelled · 1 queued line put back in the input]"
    );
    assert_eq!(
        cancel_message_restored(2),
        "[cancelled · 2 queued lines put back in the input]"
    );
    assert_eq!(session_saved_notice("s"), "session saved as 's' — /resume s");
    assert_eq!(startup_config_warning(vec![], vec![]), None);
    assert_eq!(
        startup_config_warning(strings(&["a"]), strings(&["b"])).as_deref(),
        Some("configuration warnings:\n  a\n  b")
    );
    assert_eq!(clipboard_copy(Some(true)), ClipboardWrite::Copied);
    assert_eq!(
        clipboard_copy_status(clipboard_copy(Some(false)), "x"),
        "clipboard write failed"
    );
    assert_eq!(clipboard_copy_status(clipboard_copy(None), "x"), "clipboard unavailable");
    assert_eq!(
        clipboard_copy_status(ClipboardWrite::Copied, "reply"),
        "copied reply to clipboard"
    );
    assert_eq!(git_working_diff(true, "d".into(), "e"), Ok("d".into()));
    assert_eq!(git_working_diff(false, "d".into(), " e\n"), Err("e".into()));
    assert_eq!(agent_cwd(Some("/a".into()), Some("/p".into())), "/a");
    assert_eq!(agent_cwd(None, None), "");
}

#[test]
fn messages_are_made_ready_with_what_is_known() {
    let todo = TodoItem { content: "x".into(), status: "pending".into() };
    let m = prepare_outgoing_via(
        Some(strings(&["planner"])),
        "/w".into(),
        Some(vec![todo.clone()]),
    );
    assert_eq!((m.names, m.cwd, m.todos), (strings(&["planner"]), "/w".into(), vec![todo]));
    let m = prepare_outgoing_relayed(None, "/w".into());
    assert!(m.names.is_empty() && m.todos.is_empty());
    assert!(agent_names(None).is_empty() && agent_todos(None).is_empty());
    let files = strings(&["a.rs"]);
    assert_eq!(files_to_mark(files.clone(), false, true), files);
    assert!(files_to_mark(files.clone(), true, true).is_empty());
    assert!(files_to_mark(files, false, false).is_empty());
}

#[test]
fn state_is_kept_under_its_root() {
    let (data, config, cache) = user_state_dirs("/tmp/x");
    assert_eq!((data.as_str(), config.as_str()), ("/tmp/x/data", "/tmp/x/config"));
    assert_eq!(cache, "/tmp/x/cache");
    assert_eq!(user_state_dirs("/").0, "/data");
}
