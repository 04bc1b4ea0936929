use hrdr::config::{
    StatusBarMode, TimestampStyle, UiConfig, UiEnv, UiFileConfig, DEFAULT_TODO_TTL,
};

fn no_env() -> UiEnv {
    UiEnv {
        theme: None,
        icons: None,
        timestamps: None,
        statusbar: None,
        bell: None,
        auto_resume: None,
        todo_ttl: None,
        show_thinking: None,
        scrollback: None,
    }
}

#[test]
fn ui_file_config_applies_over_defaults() {
    let fc = UiFileConfig {
        vim: Some(true),
        theme: Some("dark".to_string()),
        icons: Some("ascii".to_string()),
        timestamps: Some("exact".to_string()),
        statusbar: Some("wrap".to_string()),
        bell: Some(false),
        auto_resume: Some(false),
        todo_ttl: Some(10),
        show_thinking: Some(false),
        scrollback: None,
    };
    let mut cfg = UiConfig::default();
    cfg.apply_file(fc);
    assert!(cfg.vim_mode);
    assert_eq!(cfg.theme.as_deref(), Some("dark"));
    assert_eq!(cfg.icons.as_deref(), Some("ascii"));
    assert_eq!(cfg.timestamps.as_deref(), Some("exact"));
    assert_eq!(cfg.statusbar.as_deref(), Some("wrap"));
    assert!(!cfg.bell);
    assert!(!cfg.auto_resume);
    assert_eq!(cfg.todo_ttl, 10);
    assert!(!cfg.show_thinking);
    // Empty file keeps defaults.
    let mut d = UiConfig::default();
    d.apply_file(UiFileConfig::default());
    assert!(!d.vim_mode);
    assert!(d.bell && d.auto_resume && d.show_thinking);
    assert_eq!(d.todo_ttl, DEFAULT_TODO_TTL);
    assert_eq!(d.scrollback, 500);
}

#[test]
fn timestamp_style_from_config() {
    assert_eq!(
        TimestampStyle::from_config(Some("off")),
        TimestampStyle::Hidden
    );
    assert_eq!(
        TimestampStyle::from_config(Some("ABS")),
        TimestampStyle::Exact
    );
    assert_eq!(TimestampStyle::from_config(None), TimestampStyle::Relative);
    assert_eq!(
        TimestampStyle::from_config(Some("garbage")),
        TimestampStyle::Relative
    );
}

#[test]
fn unknown_enum_values_warn_naming_valid_options() {
    let mut cfg = UiConfig {
        icons: Some("nerdfont".to_string()),
        timestamps: Some("fuzzy".to_string()),
        statusbar: Some("compact".to_string()),
        ..Default::default()
    };
    let warnings = cfg.validate();
    // Every bad enum is reported together, each naming its valid options.
    assert_eq!(warnings.len(), 3, "{warnings:?}");
    assert!(
        warnings
            .iter()
            .any(|w| w.contains("icons") && w.contains("nerd, unicode, ascii")),
        "{warnings:?}"
    );
    assert!(
        warnings
            .iter()
            .any(|w| w.contains("timestamps") && w.contains("none, relative, exact")),
        "{warnings:?}"
    );
    assert!(
        warnings
            .iter()
            .any(|w| w.contains("statusbar") && w.contains("none, truncate, wrap")),
        "{warnings:?}"
    );
    assert_eq!(
        warnings[0],
        "icons = \"nerdfont\" is not a known value (valid: nerd, unicode, ascii); using the default"
    );

    // Recognized values (including aliases and case/whitespace) warn about
    // nothing; unset fields are silent.
    cfg.icons = Some("ASCII".to_string());
    cfg.timestamps = Some(" abs ".to_string());
    cfg.statusbar = None;
    assert!(cfg.validate().is_empty(), "{:?}", cfg.validate());
}

#[test]
fn status_bar_mode_from_config() {
    assert_eq!(
        StatusBarMode::from_config(Some("hidden")),
        StatusBarMode::Hidden
    );
    assert_eq!(
        StatusBarMode::from_config(Some("wrap")),
        StatusBarMode::Wrap
    );
    assert_eq!(StatusBarMode::from_config(None), StatusBarMode::Truncate);
}

#[test]
fn config_strings_round_trip() {
    for s in [
        TimestampStyle::Hidden,
        TimestampStyle::Relative,
        TimestampStyle::Exact,
    ] {
        assert_eq!(TimestampStyle::from_config(Some(s.as_config_str())), s);
    }
    for m in [
        StatusBarMode::Hidden,
        StatusBarMode::Truncate,
        StatusBarMode::Wrap,
    ] {
        assert_eq!(StatusBarMode::from_config(Some(m.as_config_str())), m);
    }
}

#[test]
fn the_environment_wins_over_the_file() {
    let file = UiFileConfig {
        theme: Some("file".to_string()),
        bell: Some(true),
        todo_ttl: Some(7),
        scrollback: Some(100),
        statusbar: Some("wrap".to_string()),
        ..Default::default()
    };
    let env = UiEnv {
        theme: Some("env".to_string()),
        bell: Some(false),
        todo_ttl: Some("12".to_string()),
        scrollback: Some("many".to_string()),
        icons: Some("emoji".to_string()),
        ..no_env()
    };
    let (cfg, warnings) = UiConfig::load_diagnosed(Some(file), env);
    assert_eq!(cfg.theme.as_deref(), Some("env"));
    assert!(!cfg.bell);
    assert_eq!(cfg.todo_ttl, 12);
    assert_eq!(cfg.scrollback, 100, "a number that does not parse says nothing");
    assert_eq!(cfg.statusbar.as_deref(), Some("wrap"));
    assert_eq!(warnings.len(), 1);
    assert_eq!(UiConfig::load(None, no_env()), UiConfig::default());
}
