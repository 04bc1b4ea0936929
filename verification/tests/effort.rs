use hrdr::effort::{
    choices_from, default_effort, effort_choice_haystack, effort_choices, filter_effort_choices,
    pick,
};

fn vals(list: &[&str]) -> Vec<String> {
    list.iter().map(|v| (*v).to_string()).collect()
}

#[test]
fn choices_order_highest_first_with_default_on_top() {
    // Catalog order is lowest-first; the picker shows highest-first.
    let c = choices_from(&vals(&["minimal", "low", "medium", "high"]));
    let labels: Vec<&str> = c.iter().map(|c| c.label.as_str()).collect();
    assert_eq!(labels, vec!["Default", "High", "Medium", "Low", "Minimal"]);
    assert_eq!(c[0].value, None, "Default clears the override");
    assert_eq!(c[1].value.as_deref(), Some("high"));

    // The extended ladder orders too.
    let c = choices_from(&vals(&["low", "medium", "high", "xhigh", "max"]));
    let labels: Vec<&str> = c.iter().map(|c| c.label.as_str()).collect();
    assert_eq!(
        labels,
        vec!["Default", "Max", "Extra high", "High", "Medium", "Low"]
    );

    // An unknown future level still shows (capitalized), after the known.
    let c = choices_from(&vals(&["low", "ultra"]));
    assert_eq!(c.last().unwrap().label, "Ultra");
    assert_eq!(c.last().unwrap().value.as_deref(), Some("ultra"));

    // Several of them come last first.
    let c = choices_from(&vals(&["alpha", "low", "beta"]));
    let labels: Vec<&str> = c.iter().map(|c| c.label.as_str()).collect();
    assert_eq!(labels, vec!["Default", "Low", "Beta", "Alpha"]);
}

#[test]
fn filter_matches_label_value_and_default() {
    let c = choices_from(&vals(&["minimal", "low", "medium", "high"]));
    let hay = c.iter().map(effort_choice_haystack).collect::<Vec<_>>();
    let hits = |q: &str| filter_effort_choices(&hay, q);
    assert_eq!(hits("").len(), c.len());
    // Subsequence match: "hig" hits High only ("hi" would also catch
    // Default via "the … provider").
    assert_eq!(hits("hig").len(), 1);
    assert_eq!(c[hits("hig")[0]].label, "High");
    // The Default row matches by its label and by "default".
    assert_eq!(c[hits("def")[0]].label, "Default");
    // Detail text matches too ("fastest" → Minimal).
    assert_eq!(c[hits("fastest")[0]].label, "Minimal");
    assert!(hits("zzz").is_empty());
    // Case and white space around the query do not matter.
    assert_eq!(hits("  HIG "), hits("hig"));
}

#[test]
fn a_haystack_is_in_lower_case() {
    let c = choices_from(&vals(&["Élevé"]));
    assert_eq!(effort_choice_haystack(&c[1]), "Élevé Élevé ".to_lowercase());
    assert_eq!(
        effort_choice_haystack(&c[0]),
        "default default the model/provider default"
    );
}

/// The provider that is spoken to by the Messages API.
const VENDOR: &str = "acme";

#[test]
fn default_effort_names_the_documented_provider_defaults_only() {
    // The three built-ins with a documented API default.
    assert_eq!(default_effort("deepseek", VENDOR), Some("high"));
    assert_eq!(default_effort("openai", VENDOR), Some("medium"));
    assert_eq!(default_effort(VENDOR, VENDOR), Some("high"));
    // Providers with no single documented default stay unknown, so the
    // status bar keeps its old behaviour for them.
    for unknown in ["openrouter", "zen", "go", "local", "custom", ""] {
        assert_eq!(default_effort(unknown, VENDOR), None, "{unknown}");
    }
    // It is that provider that has the third default, and no other of its name's shape.
    for other in ["Acme", "acme2", "acm"] {
        assert_eq!(default_effort(other, VENDOR), None, "{other}");
    }
}

#[test]
fn an_unknown_model_gets_the_levels_that_every_backend_has() {
    let c = effort_choices(None);
    let labels: Vec<&str> = c.iter().map(|c| c.label.as_str()).collect();
    assert_eq!(labels, vec!["Default", "High", "Medium", "Low", "Minimal"]);
    assert_eq!(
        effort_choices(Some(vals(&["none", "max"])))
            .iter()
            .map(|c| c.label.clone())
            .collect::<Vec<_>>(),
        vals(&["Default", "Max", "None"])
    );
}

#[test]
fn an_argument_picks_by_value_or_label() {
    let c = choices_from(&vals(&["low", "xhigh"]));
    assert_eq!(pick("XHIGH", &c).unwrap().label, "Extra high");
    assert_eq!(pick("extra high", &c).unwrap().value.as_deref(), Some("xhigh"));
    assert_eq!(pick("Reset", &c).unwrap().value, None);
    assert_eq!(pick("default", &c).unwrap().label, "Default");
    assert!(pick("zzz", &c).is_none());
}
