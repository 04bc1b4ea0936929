use hrdr::registry::{
    is_known_command, is_quit_command, resolve_alias, HELP_GROUPS, SLASH_COMMANDS,
};

#[test]
fn aliases_resolve_to_canonical() {
    assert_eq!(resolve_alias("clear"), "new");
    assert_eq!(resolve_alias("RESET"), "new"); // case-insensitive
    assert_eq!(resolve_alias("cd"), "cwd");
    assert_eq!(resolve_alias("info"), "status");
    assert_eq!(resolve_alias("continue"), "resume");
    assert_eq!(resolve_alias("sessions"), "resume");
    assert_eq!(resolve_alias("summarize"), "compact");
    assert_eq!(resolve_alias("?"), "help");
    assert_eq!(resolve_alias("model"), "model"); // unknown passes through
}

#[test]
fn recognizes_common_quit_commands() {
    for cmd in [
        "exit", "quit", "q", "bye", "/exit", "/quit", "/bye", ":q", ":qa", ":wq", ":x", "EXIT",
        "  /quit  ",
    ] {
        assert!(is_quit_command(cmd), "{cmd:?} should quit");
    }
}

#[test]
fn leaves_normal_messages_alone() {
    for msg in [
        "exit the loop early",
        "how do I quit vim?",
        "q1 results",
        "fix bye-bug",
    ] {
        assert!(!is_quit_command(msg), "{msg:?} should NOT quit");
    }
}

#[test]
fn known_command_classification() {
    assert!(is_known_command("/new")); // alias entries count
    assert!(is_known_command("model"));
    assert!(!is_known_command("/frobnicate"));
}

#[test]
fn every_help_group_command_exists() {
    for (_, name) in HELP_GROUPS {
        assert!(
            SLASH_COMMANDS.iter().any(|(n, _)| *n == name),
            "help group references unknown command {name}"
        );
    }
}
