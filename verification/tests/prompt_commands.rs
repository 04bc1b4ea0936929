use hrdr::prompt_commands::{
    command_match_key, filter_prompt_entries, prompt_completions, prompt_entries,
    prompt_entry_haystack, Command, DiscoveredSkills, InvalidSkill, PromptEntryKind, Skill,
};

fn command(name: &str, desc: &str) -> Command {
    Command { name: name.to_string(), description: desc.to_string(), source: "test".to_string() }
}

fn skill(name: &str, desc: &str) -> Skill {
    Skill {
        name: name.to_string(),
        description: desc.to_string(),
        source: "~/.acme/skills".to_string(),
    }
}

fn found(skills: Vec<Skill>) -> DiscoveredSkills {
    DiscoveredSkills { skills, shadowed: vec![], invalid: vec![] }
}

#[test]
fn completions_rank_prefix_then_substring_then_description() {
    let commands =
        vec![command("ship", "release checklist"), command("review", "inspect a shipped diff")];
    let names = |i: &str| {
        prompt_completions(i, &commands, &vec![]).into_iter().map(|(n, _)| n).collect::<Vec<_>>()
    };
    assert_eq!(names(":"), vec![":review", ":ship"]);
    assert_eq!(names(":sh").first().map(String::as_str), Some(":ship"));
    // Description match surfaces :review for "diff".
    assert_eq!(names(":diff"), vec![":review"]);
    // A space kills completion; non-: input yields nothing.
    assert!(names(":ship ").is_empty());
    assert!(names("/ship").is_empty());
}

/// A command in a namespace completes under each separator.
#[test]
fn a_namespace_prefix_surfaces_its_nested_commands() {
    let commands = vec![command("git/commit", "commit the tree"), command("ship", "release checklist")];
    let names = |i: &str| {
        prompt_completions(i, &commands, &vec![]).into_iter().map(|(n, _)| n).collect::<Vec<_>>()
    };
    for typed in [":git", ":git/", ":git:", ":git.", ":GIT/co"] {
        assert_eq!(names(typed), vec![":git/commit"], "typed {typed}");
    }
    assert_eq!(command_match_key("Git:Commit.x"), command_match_key("git/commit/x"));
}

#[test]
fn completions_include_skills_and_skip_the_shadowed_ones() {
    let commands = vec![command("ship", "release checklist")];
    let skills = vec![skill("pdf-fill", "fill in a PDF form"), skill("ship", "the shadowed one")];
    let names = |i: &str| {
        prompt_completions(i, &commands, &skills).into_iter().map(|(n, _)| n).collect::<Vec<_>>()
    };
    assert_eq!(names(":"), vec![":pdf-fill", ":ship"]);
    assert_eq!(names(":pdf"), vec![":pdf-fill"]);
    // One `:ship` row, and it is the command's.
    assert_eq!(
        prompt_completions(":ship", &commands, &skills),
        vec![(":ship".to_string(), "release checklist".to_string())]
    );
}

#[test]
fn filter_matches_name_detail_and_source() {
    let entries = prompt_entries(
        &vec![command("ship", "release checklist"), command("audit", "review")],
        &found(vec![skill("pdf-fill", "fill in a PDF form")]),
    );
    let hay = entries.iter().map(prompt_entry_haystack).collect::<Vec<_>>();
    let hits = |q: &str| filter_prompt_entries(&hay, q);
    assert_eq!(hits(""), vec![0, 1, 2]);
    assert_eq!(hits("ship"), vec![0]);
    assert_eq!(hits("checklist"), vec![0]);
    assert_eq!(hits("test"), vec![0, 1], "source matches");
    assert_eq!(hits("skill"), vec![2], "the kind is searchable");
    assert!(hits("nomatch").is_empty());
}

#[test]
fn entries_mark_both_shadowings_and_invalid_skills() {
    let entries = prompt_entries(
        &vec![command("ship", "release checklist")],
        &DiscoveredSkills {
            skills: vec![skill("ship", "the shadowed one"), skill("pdf-fill", "fill a PDF")],
            shadowed: vec![skill("pdf-fill", "the user-scope copy")],
            invalid: vec![InvalidSkill {
                name: "broken".to_string(),
                path: "~/.acme/skills/broken/SKILL.md".to_string(),
                reason: "missing `description`".to_string(),
            }],
        },
    );
    let by = |name: &str| entries.iter().find(|e| e.name == name).unwrap();
    assert_eq!(by("ship").kind, PromptEntryKind::Command);
    assert_eq!(by("ship").detail(), "release checklist");
    assert_eq!(by("pdf-fill").kind, PromptEntryKind::Skill);
    assert_eq!(by("pdf-fill").detail(), "skill · fill a PDF");
    let details: Vec<String> = entries
        .iter()
        .filter(|e| matches!(e.kind, PromptEntryKind::ShadowedSkill(_)))
        .map(|e| format!("{}: {}", e.name, e.detail()))
        .collect();
    assert_eq!(
        details,
        vec![
            "ship: skill, shadowed by a command · the shadowed one",
            "pdf-fill: skill, shadowed by a higher-precedence skill · the user-scope copy",
        ],
        "both shadowings are shown, and say which one it is"
    );
    assert_eq!(
        by("broken").detail(),
        "invalid skill: missing `description`",
        "the reason is on the row"
    );
}
