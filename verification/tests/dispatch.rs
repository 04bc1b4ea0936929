use hrdr::config::StatusBarMode;
use hrdr::dispatch::{
    apply_effort, dispatch, enter_dir, init_prompt, paste_effects, run, session_found, set_temperature,
    set_verbose, split_command, Host, INIT_MSG,
};
use hrdr::effects::{Effect, Picker, Report, Setting};
use hrdr::effort::effort_choices;
use hrdr::frontend::{
    diff_line_kind, efforts_text, open_editor_message, skills_text, themes_text,
    windows_escape_for_cmd_start, ExpandMode, LineKind, SkillRow, MODEL_SELECTOR_UNAVAILABLE,
};
use hrdr::registry::help_body_for;
use hrdr::reports::{
    cost_line, doctor_report, guardrails_text, lsp_status_text, prompt_text, status_text,
    temperature_text, tools_text, AgentStatus, CacheFigures, DoctorFindings, LspReport,
    SessionStatus, SessionUsage,
};
use hrdr::trust::{is_trusted, trust};

fn usage() -> SessionUsage {
    SessionUsage { tokens_in: 12, tokens_out: 3, cost: None, cost_partial: false, cache: None }
}

fn status() -> SessionStatus {
    SessionStatus {
        id: None,
        label: None,
        model: "test-model".into(),
        base_url: "http://test.invalid".into(),
        context_used: None,
        context_window: None,
        effort: None,
        usage: usage(),
    }
}

fn host() -> Host {
    Host {
        busy: false,
        cwd: "/tmp/here".into(),
        dir: "~/here".into(),
        config_path: None,
        status: status(),
        verbose: false,
        todo_ttl: 5,
        statusbar: StatusBarMode::Truncate,
        lacks: vec![],
        tips: None,
        vendor: "acme".into(),
    }
}

fn busy() -> Host {
    Host { busy: true, ..host() }
}

fn info(s: &str) -> Effect {
    Effect::Info(s.into())
}

fn persist(key: &str, value: Setting) -> Effect {
    Effect::Persist { key: key.into(), value }
}

fn text(s: &str) -> Setting {
    Setting::Text(s.into())
}

fn did(h: &Host, line: &str) -> Vec<Effect> {
    dispatch(h, line).unwrap_or_else(|| panic!("not a command: {line}"))
}

fn lines(effects: &[Effect]) -> Vec<String> {
    effects
        .iter()
        .filter_map(|e| match e {
            Effect::Info(s) => Some(s.clone()),
            _ => None,
        })
        .collect()
}

/// `/model` opens the picker and switches nothing itself.
#[test]
fn model_opens_the_picker_and_ignores_arguments() {
    assert_eq!(did(&host(), "/model other-model"), vec![Effect::Pick(Picker::Model)]);
    assert!(MODEL_SELECTOR_UNAVAILABLE.contains("model selector isn't available"));
}

/// A directory that nobody has answered for is not entered.
#[test]
fn cwd_refuses_a_directory_that_was_never_trusted() {
    let elsewhere = "/tmp/elsewhere";
    assert_eq!(
        did(&host(), &format!("/cwd {elsewhere}")),
        vec![Effect::Enter(elsewhere.into())]
    );
    let done = enter_dir(elsewhere, Some(elsewhere), is_trusted(None, elsewhere));
    assert!(!done.iter().any(|e| matches!(e, Effect::SetCwd(_))), "the session has not moved");
    assert!(lines(&done).iter().any(|l| l.contains("not a trusted directory")), "{done:?}");
}

#[test]
fn cwd_enters_a_trusted_directory() {
    let target = "/tmp/target";
    let store = trust(None, target).unwrap();
    let done = enter_dir(target, Some(target), is_trusted(Some(&store), target));
    assert_eq!(done, vec![Effect::SetCwd(target.into()), info("cwd → /tmp/target")]);
    assert_eq!(enter_dir("/x", None, true), vec![info("not a directory: /x")]);
    // Without an argument it is shown, and during a turn it stays.
    assert_eq!(did(&host(), "/cd"), vec![info("cwd: /tmp/here")]);
    assert_eq!(did(&busy(), "/cwd /x"), vec![info("busy — try again after the current turn")]);
}

#[test]
fn windows_cmd_start_escapes_ampersand_in_oauth_url() {
    let url = "https://example.com/authorize?client_id=abc&state=xyz&scope=read+write";
    assert_eq!(
        windows_escape_for_cmd_start(url),
        "https://example.com/authorize?client_id=abc^&state=xyz^&scope=read+write"
    );
}

/// A URL/path with no `&` is passed through unchanged.
#[test]
fn windows_cmd_start_leaves_url_without_ampersand_untouched() {
    let url = "https://example.com/callback?code=abc123";
    assert_eq!(windows_escape_for_cmd_start(url), url);
}

/// `/cost` says what the prompt cache did, where that is known.
#[test]
fn cost_reports_the_sessions_prompt_cache_rate() {
    let silent = lines(&did(&host(), "/cost")).remove(0);
    assert!(silent.contains("session tokens:"), "{silent}");
    assert!(!silent.contains("prompt cache"), "{silent}");

    let mut h = host();
    h.status.usage.cache = Some(CacheFigures {
        percent: format!("{:.0}", 0.78 * 100.0),
        read: 120_000,
        written: 30_000,
    });
    let measured = lines(&did(&h, "/cost")).remove(0);
    assert!(
        measured.contains("prompt cache: 78% read (120.0k), 30.0k written"),
        "{measured}"
    );
    h.status.usage.cost = Some("$0.12".into());
    h.status.usage.cost_partial = true;
    assert!(cost_line(&h.status.usage).contains(" · est. "), "{}", cost_line(&h.status.usage));
}

/// What an argument of `/temp` is, as a number.
fn number(arg: &str) -> Option<(u32, String)> {
    arg.parse::<f32>().ok().map(|t| (t.to_bits(), t.to_string()))
}

/// `/temp` takes numbers from zero to two.
#[test]
fn temp_rejects_invalid_values_without_persisting() {
    for bad in ["nan", "inf", "5", "-1", "1e40", "-nan", "-inf", "2.0001", "x"] {
        assert_eq!(
            did(&host(), &format!("/temp {bad}")),
            vec![Effect::ParseTemperature(bad.into())]
        );
        assert_eq!(
            set_temperature(&number(bad)),
            vec![info("usage: /temp <0-2> | default")],
            "/temp {bad}"
        );
    }
}

#[test]
fn temp_valid_value_persists_and_applies() {
    for (arg, t) in [("0.7", 0.7f32), ("0", 0.0), ("2", 2.0), ("-0", -0.0)] {
        assert_eq!(
            set_temperature(&number(arg)),
            vec![
                Effect::SetTemperature(Some(t.to_bits())),
                persist("temperature", Setting::Float(t.to_bits())),
                info(&format!("temperature → {t}")),
            ]
        );
    }
    assert_eq!(did(&host(), "/temp"), vec![Effect::Report(Report::Temperature)]);
    assert_eq!(temperature_text(Some("0.7")), "temperature: 0.7");
    assert_eq!(temperature_text(None), "temperature: default");
}

#[test]
fn temp_default_clears_the_override() {
    for arg in ["default", "RESET"] {
        assert_eq!(
            did(&host(), &format!("/temp {arg}")),
            vec![
                Effect::SetTemperature(None),
                Effect::Unpersist("temperature".into()),
                info("temperature → default"),
            ]
        );
    }
}

fn choices() -> Vec<hrdr::effort::EffortChoice> {
    effort_choices(None)
}

#[test]
fn effort_applies_a_valid_value() {
    assert_eq!(did(&host(), "/effort high"), vec![Effect::FindEffort("high".into())]);
    assert_eq!(
        apply_effort("high", &choices()),
        vec![
            persist("effort", text("high")),
            Effect::SetEffort(Some("high".into())),
            info("effort → High (high)"),
        ]
    );
    assert_eq!(did(&host(), "/effort"), vec![Effect::Pick(Picker::Effort)]);
}

#[test]
fn effort_default_clears_the_override() {
    assert_eq!(
        apply_effort("default", &choices()),
        vec![
            Effect::Unpersist("effort".into()),
            Effect::SetEffort(None),
            info("effort → default (the model/provider default)"),
        ]
    );
}

#[test]
fn effort_unknown_value_lists_the_available_levels() {
    let done = lines(&apply_effort("zzz", &choices()));
    assert!(done[0].contains("unknown effort 'zzz'"), "{done:?}");
    assert!(done[0].contains("available: Default, High, Medium, Low, Minimal"), "{done:?}");
}

fn findings() -> DoctorFindings {
    DoctorFindings {
        git: None,
        auth: Some(("~/.config/auth.toml".into(), false)),
        endpoint: None,
        lsp: None,
        sessions: vec![],
    }
}

#[test]
fn doctor_reports_not_a_repo_from_the_spawned_task() {
    let done = did(&host(), "/doctor");
    assert!(lines(&done)[0].contains("probing endpoint…"), "{done:?}");
    assert!(!lines(&done)[0].contains("branch:"), "{done:?}");
    assert_eq!(done[1], Effect::Report(Report::Doctor));
    let report = doctor_report(&findings());
    assert!(report.contains("git: not a repo"), "{report}");
    assert!(report.contains("auth:"), "{report}");
    assert_eq!(
        report,
        "git: not a repo\nauth: ~/.config/auth.toml (not found)\n✓ endpoint healthy\nlsp: disabled\nsessions: ✓"
    );
}

#[test]
fn doctor_reports_the_branch_inside_a_git_repo() {
    let f = DoctorFindings {
        git: Some(Some("main".into())),
        auth: None,
        endpoint: Some("⚠ down".into()),
        lsp: Some((
            500,
            vec![LspReport {
                command: "rust-analyzer".into(),
                extensions: vec!["rs".into(), "toml".into()],
                status: "ready".into(),
            }],
        )),
        sessions: vec![("a.json".into(), "broken".into())],
    };
    let report = doctor_report(&f);
    assert!(report.contains("git: on branch"), "{report}");
    assert_eq!(
        report,
        "git: on branch main\nauth: —\n⚠ down\nlsp: enabled (wait 500ms)\n  rust-analyzer (.rs/.toml): ready\nsessions: 1 corrupt file(s)\n  a.json: broken"
    );
    assert_eq!(lsp_status_text(&None), "lsp: disabled");
}

#[test]
fn login_with_an_argument_still_opens_the_wizard() {
    assert_eq!(
        did(&host(), "/login foo"),
        vec![info("/login takes no argument"), Effect::Login]
    );
    assert_eq!(did(&host(), "/login"), vec![Effect::Login]);
}

#[test]
fn skills_with_an_argument_still_opens_the_picker() {
    let done = did(&host(), "/skills foo");
    assert!(lines(&done)[0].contains("/skills takes no argument"), "{done:?}");
    assert_eq!(done[1], Effect::Pick(Picker::Skill));
    let rows = vec![
        SkillRow { name: "ship".into(), description: "release".into(), source: "user".into() },
        SkillRow { name: "x".into(), description: "".into(), source: "repo".into() },
    ];
    assert_eq!(
        skills_text(&rows, "acme"),
        "2 skills (invoke with :name [arguments]):\n  :ship — release  [user]\n  :x  [repo]"
    );
    assert_eq!(
        skills_text(&vec![], "acme"),
        "no skills yet — put Markdown prompt templates in .hrdr/skills/ (or .acme/commands/, ~/.config/hrdr/skills/), then invoke one with :name [arguments]"
    );
}

#[test]
fn compact_idle_starts_with_instructions() {
    assert_eq!(
        did(&host(), "/compact keep the file paths"),
        vec![Effect::StartCompaction(Some("keep the file paths".into()))]
    );
}

#[test]
fn compact_while_busy_is_queued_not_refused() {
    assert_eq!(
        did(&busy(), "/compact drop the build details"),
        vec![Effect::QueueCompaction(Some("drop the build details".into()))]
    );
}

#[test]
fn compact_without_a_message_carries_none() {
    assert_eq!(did(&host(), "/compact"), vec![Effect::StartCompaction(None)]);
    assert_eq!(did(&busy(), "/summarize"), vec![Effect::QueueCompaction(None)]);
}

#[test]
fn lines_are_split_into_name_and_argument() {
    assert_eq!(split_command("/a  b c "), Some(("a".into(), "b c".into())));
    assert_eq!(split_command("/a\tb"), Some(("a".into(), "b".into())));
    assert_eq!(split_command("/"), Some(("".into(), "".into())));
    assert_eq!(split_command("a /b"), None);
    assert_eq!(dispatch(&host(), "hello"), None);
    assert_eq!(dispatch(&host(), "/nonsense"), None);
    assert_eq!(dispatch(&host(), "/ help"), None);
    // Names are as they are written, aliases in any case.
    assert_eq!(dispatch(&host(), "/TOOLS"), None);
    assert_eq!(dispatch(&host(), "/HEALTH"), dispatch(&host(), "/doctor"));
    assert_eq!(run(&host(), "clear", ""), None);
}

#[test]
fn the_help_leaves_out_what_a_frontend_lacks() {
    let mut h = host();
    h.lacks = vec!["/paste".into()];
    h.tips = Some("ctrl-c quits".into());
    let help = lines(&did(&h, "/?")).remove(0);
    assert_eq!(help, help_body_for(|n: &str| n != "/paste") + "\n\nctrl-c quits");
    assert!(!help.contains("/paste"));
}

#[test]
fn new_and_rename_name_the_session() {
    assert_eq!(
        did(&host(), "/clear"),
        vec![Effect::ClearConversation, info("conversation cleared")]
    );
    assert_eq!(
        did(&host(), "/new plan b"),
        vec![
            Effect::ClearConversation,
            Effect::SetSessionLabel("plan b".into()),
            info("new session 'plan b'"),
        ]
    );
    assert_eq!(did(&host(), "/rename"), vec![info("usage: /rename <name>")]);
    assert_eq!(
        did(&host(), "/rename x"),
        vec![Effect::SetSessionLabel("x".into()), Effect::Autosave, info("session renamed → x")]
    );
}

#[test]
fn switches_are_set() {
    assert_eq!(did(&host(), "/verbose"), vec![Effect::SetExpansion(ExpandMode::All)]);
    assert_eq!(
        did(&Host { verbose: true, ..host() }, "/verbose"),
        vec![Effect::SetExpansion(ExpandMode::Off)]
    );
    assert_eq!(did(&host(), "/verbose on"), vec![Effect::ParseSwitch("on".into())]);
    assert_eq!(set_verbose(Some(true)), vec![Effect::SetExpansion(ExpandMode::All)]);
    assert_eq!(set_verbose(None), vec![info("usage: /verbose [on | off]")]);
}

#[test]
fn a_pasted_path_is_attached() {
    assert_eq!(did(&host(), "/paste"), vec![Effect::ReadClipboard]);
    assert_eq!(
        paste_effects(Some(" src/a.rs\n"), true),
        vec![
            Effect::InsertInput("@src/a.rs ".into()),
            info("attached @src/a.rs from clipboard")
        ]
    );
    assert_eq!(
        paste_effects(Some(" src/a.rs\n"), false),
        vec![Effect::InsertInput(" src/a.rs\n".into())]
    );
    assert_eq!(paste_effects(Some("a\nb"), true), vec![Effect::InsertInput("a\nb".into())]);
    for none in [None, Some("")] {
        assert_eq!(paste_effects(none, true), vec![info("clipboard unavailable or empty")]);
    }
}

#[test]
fn init_writes_the_projects_instructions() {
    assert_eq!(
        did(&host(), "/init"),
        vec![
            info(INIT_MSG),
            Effect::SendPrompt { prompt: init_prompt("acme"), show_as_user: false }
        ]
    );
    assert_eq!(did(&busy(), "/init"), vec![info("can't /init while a turn is running")]);
    let prompt = init_prompt("acme");
    assert!(prompt.contains("\n1. Explore the project"));
    assert!(prompt.contains(
        "\n2. If an AGENTS.md (or ACME.md / .cursorrules / similar) already exists, read it"
    ));
    assert!(!prompt.contains("  files"));
}

#[test]
fn todo_ttl_is_shown_and_set() {
    assert_eq!(did(&host(), "/todos"), vec![info("todo-ttl: 5 turns")]);
    assert_eq!(
        did(&host(), "/todo-ttl 1"),
        vec![
            Effect::SetTodoTtl(1),
            persist("todo_ttl", Setting::Int(1)),
            info("todo-ttl → 1 turn")
        ]
    );
    // What is stored stays positive.
    let done = did(&host(), "/todottl 18446744073709551615");
    assert_eq!(done[0], Effect::SetTodoTtl(u64::MAX));
    assert_eq!(done[1], persist("todo_ttl", Setting::Int(i64::MAX)));
    assert_eq!(
        did(&host(), "/todo-ttl -1"),
        vec![info("usage: /todo-ttl <turns> (a whole number, e.g. 5)")]
    );
}

#[test]
fn themes_are_set_and_reset() {
    assert_eq!(did(&host(), "/theme"), vec![Effect::Pick(Picker::Theme)]);
    assert_eq!(
        did(&host(), "/theme nord"),
        vec![
            Effect::SetTheme(Some("nord".into())),
            persist("theme", text("nord")),
            info("theme → nord")
        ]
    );
    assert_eq!(
        did(&host(), "/theme reset"),
        vec![
            Effect::SetTheme(None),
            Effect::Unpersist("theme".into()),
            info("theme reset to default")
        ]
    );
    assert_eq!(
        themes_text(&vec![("nord".into(), "built-in".into())]),
        "themes (apply with /theme <name or path>):\n  nord  [built-in]"
    );
}

#[test]
fn the_status_bar_cycles() {
    let mut h = host();
    for (mode, name, shown) in [
        (StatusBarMode::Wrap, "wrap", "status bar: wrap"),
        (StatusBarMode::Hidden, "none", "status bar: hidden"),
        (StatusBarMode::Truncate, "truncate", "status bar: truncate"),
    ] {
        assert_eq!(
            did(&h, "/statusbar"),
            vec![Effect::SetStatusBar(mode), persist("statusbar", text(name)), info(shown)]
        );
        h.statusbar = mode;
    }
    assert_eq!(did(&h, "/statusbar OFF")[0], Effect::SetStatusBar(StatusBarMode::Hidden));
    assert_eq!(
        did(&h, "/statusbar x"),
        vec![info("usage: /statusbar [none | truncate | wrap]")]
    );
}

#[test]
fn sessions_are_taken_up() {
    assert_eq!(did(&host(), "/continue"), vec![Effect::Pick(Picker::Session)]);
    assert_eq!(did(&host(), "/resume a b"), vec![Effect::FindSession("a b".into())]);
    assert_eq!(
        did(&busy(), "/load a"),
        vec![info("a turn is running — interrupt it before /resume")]
    );
    assert_eq!(session_found("a", Some("id")), vec![Effect::Resume("id".into())]);
    assert_eq!(
        session_found("a", None),
        vec![info("no session matching 'a' (see /resume)")]
    );
}

#[test]
fn reports_are_asked_for() {
    for (line, report) in [
        ("/tools", Report::Tools),
        ("/prompt", Report::Prompt),
        ("/system", Report::Prompt),
        ("/rails", Report::Guardrails),
        ("/info", Report::Status),
    ] {
        assert_eq!(did(&host(), line), vec![Effect::Report(report)], "{line}");
    }
    assert_eq!(did(&host(), "/export --json x"), vec![Effect::Export("--json x".into())]);
    assert_eq!(did(&host(), "/reload"), vec![Effect::ReloadConfig]);
    assert_eq!(
        tools_text(&vec![("read".into(), "reads a file".into())]),
        "1 tools:\n  read        reads a file"
    );
    assert_eq!(prompt_text(Some("dé")), "system prompt (2 chars):\ndé");
    assert_eq!(prompt_text(None), "no system prompt is set");
    assert_eq!(
        guardrails_text(&vec![("rm -rf".into(), "no".into())]),
        "1 guardrails (blocked shell commands; add more via [[guardrails]] in config):\n  rm -rf\n    → no"
    );
}

#[test]
fn the_status_is_complete() {
    let s = SessionStatus {
        id: Some("s-1".into()),
        label: Some("plan".into()),
        context_used: Some(10),
        context_window: Some(100),
        effort: Some("high".into()),
        usage: SessionUsage {
            cost: Some("$0.50".into()),
            cache: Some(CacheFigures { percent: "50".into(), read: 5, written: 1 }),
            ..usage()
        },
        ..status()
    };
    let a = AgentStatus {
        temperature: None,
        messages: 4,
        prompt_cache: true,
        dir: "~/here".into(),
        branch: Some("main".into()),
    };
    assert_eq!(
        status_text(&s, &a),
        "session: s-1  (name: plan)\nmodel: test-model\nendpoint: http://test.invalid\ncwd: ~/here (main)\ncontext: 10 / 100\ntokens: ↑12 ↓3\ncost: $0.50 (est.)\ntemperature: default\neffort: high\nprompt cache: on · 50% read (5), 1 written\nmessages: 4"
    );
    let bare = AgentStatus { prompt_cache: false, branch: None, ..a };
    assert_eq!(
        status_text(&status(), &bare),
        "session: (unsaved — send a message to start one)\nmodel: test-model\nendpoint: http://test.invalid\ncwd: ~/here (—)\ncontext: —\ntokens: ↑12 ↓3\ntemperature: default\neffort: —\nprompt cache: off\nmessages: 4"
    );
}

#[test]
fn lines_are_shown_as_what_they_are() {
    assert_eq!(diff_line_kind(""), None);
    assert_eq!(diff_line_kind("diff --git a b"), Some(LineKind::Diff));
    assert_eq!(diff_line_kind("git diff: no changes"), Some(LineKind::System));
    assert_eq!(open_editor_message("a", &Ok(())), "opened a in the system editor");
    assert_eq!(open_editor_message("a", &Err("no".into())), "couldn't open a: no");
    assert_eq!(
        efforts_text(None, &choices()[..2].to_vec()),
        "effort: default — levels for this model:\n  Default — the model/provider default\n  High"
    );
}
