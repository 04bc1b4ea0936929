use hrdr::completion::{
    active_file_token, arg_completions, is_alias, rank_agent_matches, rank_file_matches,
    slash_completions, Template,
};
use hrdr::registry::SLASH_COMMANDS;

fn names(i: &str) -> Vec<&'static str> {
    slash_completions(i).iter().map(|(n, _)| *n).collect()
}

#[test]
fn slash_completions_prefix_ranks_first() {
    assert_eq!(names("/he").first(), Some(&"/help"));
    // Name-prefix matches rank first (/compact, /cwd, /copy all start
    // with c); /compact is the earliest such canonical in registry order.
    assert_eq!(names("/c").first(), Some(&"/compact"));
    assert!(names("/c").contains(&"/copy") && names("/c").contains(&"/cwd"));
    // Description match: "/list" surfaces "/help" ("list commands").
    assert!(names("/list").contains(&"/help"));
    assert!(!names("/list").contains(&"/new"));
    // A space kills completion; non-slash input yields nothing.
    assert!(names("/help ").is_empty());
    assert!(names("hello").is_empty());
    // Bare slash returns every canonical command — alias rows are hidden.
    let canonical = SLASH_COMMANDS.iter().filter(|(n, _)| !is_alias(n)).count();
    assert_eq!(names("/").len(), canonical);
    assert!(canonical < SLASH_COMMANDS.len(), "aliases exist to hide");
}

#[test]
fn aliases_match_but_never_render() {
    // Typing an alias surfaces its canonical command…
    assert_eq!(names("/clear").first(), Some(&"/new"));
    assert_eq!(names("/usage").first(), Some(&"/cost"));
    assert_eq!(names("/health").first(), Some(&"/doctor"));
    // …and alias rows themselves never appear anywhere in the list.
    for i in ["/", "/c", "/new", "/us", "/h"] {
        assert!(
            names(i).iter().all(|n| !is_alias(n)),
            "alias row rendered for input {i:?}: {:?}",
            names(i)
        );
    }
    // A canonical name still outranks an alias on the same prefix:
    // "/re" prefix-matches /rename, /resume, /reload (rank 0)
    // before /new via its "reset" alias (rank 1).
    let re = names("/re");
    let new_pos = re.iter().position(|n| *n == "/new");
    assert!(re.contains(&"/rename") && re.contains(&"/resume"));
    assert!(new_pos > re.iter().position(|n| *n == "/rename"));
}

#[test]
fn active_file_token_detection() {
    assert_eq!(active_file_token("@"), Some((0, String::new())));
    assert_eq!(
        active_file_token("look at @src/ma"),
        Some((8, "src/ma".into()))
    );
    assert_eq!(active_file_token("me@host"), None); // not a token boundary
    assert_eq!(active_file_token("@src/main.rs and"), None); // completed
    assert_eq!(active_file_token("hello world"), None); // no @
    // The offset counts bytes.
    assert_eq!(active_file_token("é @x"), Some((3, "x".into())));
}

#[test]
fn arg_completions_complete_enum_theme_and_skill_arguments() {
    let skills = vec![Template {
        name: "deploy".to_string(),
        args: vec!["staging".to_string(), "production".to_string()],
    }];
    let themes = vec![
        ("dark".to_string(), "built-in".to_string()),
        ("dracula".to_string(), "built-in".to_string()),
    ];
    let sessions = vec![("s-1".to_string(), "fix the parser".to_string())];
    let vals = |i: &str| {
        arg_completions(i, &skills, &themes, &sessions)
            .map(|(_, rows)| rows.into_iter().map(|(v, _)| v).collect::<Vec<_>>())
            .unwrap_or_default()
    };
    // Enum arguments: prefix match, and the empty partial lists all.
    assert_eq!(vals("/statusbar tr"), vec!["truncate"]);
    assert_eq!(vals("/timestamps ").len(), 3);
    // Dispatch-level alt names and registry aliases both resolve.
    assert_eq!(vals("/ts ex"), vec!["exact"]);
    assert_eq!(vals("/reasoning o").len(), 2); // on, off
    // Theme names come from the registry (built-ins are always there).
    assert!(vals("/theme dra").contains(&"dracula".to_string()));
    assert!(vals("/theme re").contains(&"reset".to_string()));
    // Skill arguments come from the frontmatter `args:` list.
    assert_eq!(vals(":deploy st"), vec!["staging"]);
    assert_eq!(vals(":deploy ").len(), 2);
    // Sessions complete by id and by name, under an alias too.
    assert_eq!(vals("/continue the par"), vec!["s-1"]);
    // No argument yet, unknown command, or no match → nothing.
    assert!(arg_completions("/statusbar", &skills, &themes, &sessions).is_none());
    assert!(arg_completions("/help x", &skills, &themes, &sessions).is_none());
    assert!(arg_completions("/statusbar zz", &skills, &themes, &sessions).is_none());
    assert!(arg_completions("hello there", &skills, &themes, &sessions).is_none());
    // The offset points at the argument, past the whitespace run.
    let (start, _) = arg_completions("/goto   to", &skills, &themes, &sessions).unwrap();
    assert_eq!(&"/goto   to"[start..], "to");
}

fn strings(list: &[&str]) -> Vec<String> {
    list.iter().map(|s| s.to_string()).collect()
}

#[test]
fn rank_agent_matches_prefix_then_substring() {
    let one = "revisor".to_string();
    let other = "code-revisor".to_string();
    let names = vec![one.clone(), "planner".to_string(), other.clone()];
    assert_eq!(rank_agent_matches(&names, "rev"), vec![one, other]);
    assert_eq!(rank_agent_matches(&names, "").len(), 3);
    assert!(rank_agent_matches(&names, "zzz").is_empty());
    // Case-insensitive.
    assert_eq!(
        rank_agent_matches(&names, "PLAN"),
        vec!["planner".to_string()]
    );
    // Without a query the order is kept.
    assert_eq!(rank_agent_matches(&names, ""), names);
    // Equal matches are in alphabetical order.
    assert_eq!(
        rank_agent_matches(&strings(&["b-x", "a-x", "x"]), "x"),
        strings(&["x", "a-x", "b-x"])
    );
}

#[test]
fn rank_file_matches_prefers_basename_prefix() {
    let files = strings(&[
        "src/main.rs",
        "src/app/main_loop.rs",
        "docs/mainframe.md",
        "other.rs",
    ]);
    let out = rank_file_matches(&files, "main");
    // Basename prefix matches come first (main.rs, main_loop.rs, mainframe.md),
    // ordered by path length; "other.rs" doesn't match at all.
    assert_eq!(out.first().map(String::as_str), Some("src/main.rs"));
    assert!(!out.iter().any(|p| p == "other.rs"));
    // Empty query keeps everything (shortest first) capped at 8.
    assert_eq!(rank_file_matches(&files, "").len(), 4);
    assert_eq!(rank_file_matches(&files, "")[0], "other.rs");
    let many: Vec<String> = (0..20).map(|i| format!("f{i}")).collect();
    assert_eq!(rank_file_matches(&many, "f").len(), 8);
    assert_eq!(
        rank_file_matches(&strings(&["b/x", "a/x", "x/zz", "c/ax"]), "x"),
        strings(&["a/x", "b/x", "c/ax", "x/zz"])
    );
}
