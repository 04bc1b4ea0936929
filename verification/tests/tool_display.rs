use hrdr::tool_display::{extract_shell_command, tool_display, ToolBody};

#[test]
fn shell_puts_the_command_in_the_body_not_the_headline() {
    let d = tool_display("shell", r#"{"command":"ls -la"}"#);
    assert!(d.headline.is_empty());
    assert_eq!(
        d.body,
        ToolBody::Shell {
            command: "ls -la".into()
        }
    );
}

#[test]
fn write_shows_path_and_contents_with_the_extension_as_lang() {
    let d = tool_display("write", r#"{"path":"src/a.rs","content":"fn main() {}"}"#);
    assert_eq!(d.headline, "src/a.rs");
    assert_eq!(
        d.body,
        ToolBody::Code {
            lang: "rs".into(),
            content: "fn main() {}".into()
        }
    );
}

#[test]
fn edit_shows_the_path_and_renders_a_diff() {
    let d = tool_display(
        "edit",
        r#"{"path":"x.rs","old_string":"a","new_string":"b"}"#,
    );
    assert_eq!(d.headline, "x.rs");
    assert_eq!(d.body, ToolBody::Diff);
}

#[test]
fn read_summarizes_offset_and_limit() {
    let d = tool_display("read", r#"{"path":"x.rs","offset":10,"limit":5}"#);
    assert_eq!(d.headline, "x.rs  (offset: 10, limit: 5)");
    assert_eq!(d.body, ToolBody::Read);
    // offset 1 is the default — not worth the noise.
    let d = tool_display("read", r#"{"path":"x.rs","offset":1}"#);
    assert_eq!(d.headline, "x.rs");
}

#[test]
fn grep_shows_pattern_scope_and_glob() {
    let d = tool_display("grep", r#"{"pattern":"fn ","path":"src","glob":"*.rs"}"#);
    assert_eq!(d.headline, "fn   in src  (*.rs)");
    assert_eq!(d.body, ToolBody::Text);
}

/// Every other tool — `task`, MCP calls — shows its arguments as `key: value`
/// rows below the name, never raw JSON beside it.
#[test]
fn other_tools_show_their_args_as_detail_rows() {
    let d = tool_display(
        "task",
        r#"{"agent":"explore","description":"Explore the crate","prompt":"You are\n  an agent"}"#,
    );
    assert_eq!(d.headline, "", "nothing beside the tool name");
    assert_eq!(
        d.body,
        // Sorted by key: serde_json's Map is a BTreeMap here.
        ToolBody::Details(vec![
            ("agent".into(), "explore".into()),
            ("description".into(), "Explore the crate".into()),
            // Newlines and runs of spaces collapse: a row stays one row.
            ("prompt".into(), "You are an agent".into()),
        ])
    );

    // Non-string values render as compact JSON, not as Rust debug output.
    let d = tool_display("mcp__x__y", r#"{"a":1,"b":true,"c":[1,2],"d":null}"#);
    assert_eq!(
        d.body,
        ToolBody::Details(vec![
            ("a".into(), "1".into()),
            ("b".into(), "true".into()),
            ("c".into(), "[1,2]".into()),
            ("d".into(), "null".into()),
        ])
    );

    // No args at all: no rows, and nothing beside the name.
    let d = tool_display("mcp__x__y", "{}");
    assert_eq!(d.body, ToolBody::Details(vec![]));

    // A bare (non-object) argument becomes one unlabelled row.
    let d = tool_display("mcp__x__y", r#""just a string""#);
    assert_eq!(
        d.body,
        ToolBody::Details(vec![(String::new(), "just a string".into())])
    );

    // Malformed args must not panic: they parse as null, so no rows.
    assert_eq!(
        tool_display("mcp__x__y", "not json").body,
        ToolBody::Details(vec![])
    );
    assert_eq!(tool_display("write", "not json").headline, "?");
}

/// `todo` renders only its normalized replacement list from the result.
#[test]
fn todo_does_not_duplicate_its_input_items() {
    let d = tool_display(
        "todo",
        r#"{"todos":[{"content":"first","status":"completed"}]}"#,
    );
    assert_eq!(d.headline, "");
    assert_eq!(d.body, ToolBody::Text);
}

#[test]
fn git_shows_subcommand_and_args_inline() {
    let d = tool_display(
        "git",
        r#"{"subcommand":"status","args":["--short","--branch"]}"#,
    );
    assert_eq!(d.headline, "status --short --branch");
    assert_eq!(d.body, ToolBody::Text);
}

#[test]
fn git_without_args_shows_only_subcommand() {
    let d = tool_display("git", r#"{"subcommand":"log"}"#);
    assert_eq!(d.headline, "log");
    assert_eq!(d.body, ToolBody::Text);
}

#[test]
fn git_with_empty_args_array_shows_only_subcommand() {
    let d = tool_display("git", r#"{"subcommand":"status","args":[]}"#);
    assert_eq!(d.headline, "status");
    assert_eq!(d.body, ToolBody::Text);
}

#[test]
fn git_malformed_args_falls_back_to_empty_headline() {
    let d = tool_display("git", "not json");
    assert_eq!(d.headline, "");
    assert_eq!(d.body, ToolBody::Text);
}

#[test]
fn git_no_args_falls_back_to_empty_headline() {
    let d = tool_display("git", "{}");
    assert_eq!(d.headline, "");
    assert_eq!(d.body, ToolBody::Text);
}

#[test]
fn the_command_of_a_shell_call_is_found() {
    assert_eq!(
        extract_shell_command("shell", r#"{"command":"ls -la"}"#).as_deref(),
        Some("ls -la")
    );
    assert_eq!(extract_shell_command("read", r#"{"command":"ls"}"#), None);
    assert_eq!(extract_shell_command("shell", "not json"), None);
}
