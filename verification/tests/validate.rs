use hrdr::validate::{
    confirm_identity, entitlements_from, needs_confirmation, relocation_warnings, sample,
    validate_identity, validate_placeholder_model, CatalogSource, Entitlements, Identity, ModelRef,
    Relocation, ResolvedModel, ResolvedProviderKind,
};

const CODEX: &str = "https://chatgpt.com/backend-api/codex";

fn reference(spec: &str) -> ModelRef {
    let (provider, model) = spec.split_once("://").unwrap();
    ModelRef { provider: provider.into(), model: model.into() }
}

fn resolved(spec: &str, base_url: &str) -> ResolvedModel {
    ResolvedModel {
        reference: reference(spec),
        kind: ResolvedProviderKind::BuiltIn,
        base_url: base_url.into(),
        codex_oauth: false,
        has_key: false,
    }
}

fn codex(model: &str) -> ResolvedModel {
    ResolvedModel {
        kind: ResolvedProviderKind::ChatGptOAuth,
        codex_oauth: true,
        ..resolved(&format!("chatgpt://{model}"), CODEX)
    }
}

fn strings(list: &[&str]) -> Vec<String> {
    list.iter().map(|s| s.to_string()).collect()
}

/// What comes of it, and how often was asked.
fn settle(v: Identity, answer: Entitlements) -> (Result<Vec<String>, String>, usize) {
    let asked = needs_confirmation(&v) as usize;
    (confirm_identity(v, &answer), asked)
}

fn silent() -> Identity {
    Identity::Known(Vec::new())
}

/// The models of a provider that the public catalogue has.
fn catalog() -> Vec<String> {
    strings(&["acme-sonnet-4-5", "acme-opus-4-8"])
}

#[test]
fn a_model_present_in_the_cached_entitlements_is_accepted_without_a_fetch() {
    let m = codex("gpt-5.5-codex");
    let rows = strings(&["gpt-5.5", "gpt-5.5-codex", "gpt-5.3-codex-spark"]);
    let v = validate_identity(&m, false, Some(&rows), None);
    assert_eq!(v, silent());
    let (out, calls) = settle(v, Entitlements::Fresh(strings(&["unused"])));
    assert_eq!(out.unwrap(), Vec::<String>::new());
    assert_eq!(calls, 0, "a cached hit costs no round-trip");
}

#[test]
fn a_stale_absence_warns_when_it_cannot_be_confirmed_and_never_refuses() {
    let m = codex("gpt-5.7"); // shipped this morning
    let rows = strings(&["gpt-5.5", "gpt-5.5-codex"]); // yesterday's list
    let v = validate_identity(&m, false, Some(&rows), None);
    assert!(matches!(&v, Identity::Unconfirmed(u) if u.model() == "gpt-5.7"), "{v:?}");

    // The refresh fails → warn, carry on.
    let (out, calls) =
        settle(v.clone(), Entitlements::Unavailable("endpoint unreachable".to_string()));
    assert_eq!(
        out.unwrap(),
        [
            "⚠ couldn't confirm 'gpt-5.7' against your ChatGPT entitlements (endpoint unreachable) — continuing"
        ],
    );
    assert_eq!(calls, 1, "and it did try");

    // An empty list is not "nothing is entitled".
    let (out, _) = settle(v.clone(), Entitlements::Fresh(Vec::new()));
    assert!(out.unwrap()[0].contains("couldn't confirm 'gpt-5.7'"));

    // A fresh list that does have it: the cache was simply behind.
    let (out, _) = settle(v, Entitlements::Fresh(strings(&["gpt-5.5", "gpt-5.7"])));
    assert_eq!(out.unwrap(), Vec::<String>::new());
}

#[test]
fn a_confirmed_absence_from_a_fresh_entitlement_list_is_refused() {
    let m = codex("gpt-4o");
    let rows = strings(&["gpt-5.5", "gpt-5.5-codex"]);
    let v = validate_identity(&m, false, Some(&rows), None);
    let (out, calls) = settle(
        v,
        Entitlements::Fresh(strings(&["gpt-5.5", "gpt-5.5-codex", "gpt-5.3-codex-spark"])),
    );
    assert_eq!(calls, 1, "we paid for proof before refusing");
    let err = out.expect_err("a CONFIRMED absence is a refusal");
    assert!(err.contains("'gpt-4o' is not entitled"), "{err}");
    assert!(err.contains("gpt-5.5"), "it names what IS entitled: {err}");
    assert!(err.contains("/model"), "and how to fix it: {err}");
}

#[test]
fn a_cold_account_catalog_routes_through_confirmation_and_never_refuses() {
    let m = codex("gpt-4o");
    let empty = Vec::new();
    for entitled in [None, Some(&empty)] {
        let v = validate_identity(&m, false, entitled, None);
        assert!(matches!(v, Identity::Unconfirmed(_)), "{v:?}");
        let (out, calls) = settle(v, Entitlements::Unavailable("no credentials".to_string()));
        assert!(out.unwrap()[0].contains("couldn't confirm 'gpt-4o'"));
        assert_eq!(calls, 1);
    }
}

/// A provider of the user's own is never measured against an account.
#[test]
fn a_shadowed_chatgpt_provider_is_never_refused_by_the_account_catalog() {
    let m = ResolvedModel {
        kind: ResolvedProviderKind::Custom,
        ..resolved("chatgpt://gpt-4o", "http://localhost:9099/v1")
    };
    let rows = strings(&["gpt-5.5"]);
    let v = validate_identity(&m, true, Some(&rows), Some(&catalog()));
    assert_eq!(v, silent());
    let (out, calls) = settle(v, Entitlements::Fresh(strings(&["gpt-5.5"])));
    assert_eq!(out.unwrap(), Vec::<String>::new());
    assert_eq!(calls, 0);
}

/// The public catalogue only ever warns.
#[test]
fn an_unknown_model_on_a_models_dev_provider_warns_but_never_errs() {
    let m = resolved("acme://acme-sonet-4-5", "https://api.anthropic.com/v1"); // typo'd
    assert_eq!(
        validate_identity(&m, false, None, Some(&catalog())),
        Identity::Known(vec![
            "⚠ models.dev doesn't list 'acme-sonet-4-5' on acme — it may be new, or a typo".to_string()
        ]),
    );
    // A model it does list is silent.
    let known = resolved("acme://acme-opus-4-8", "https://api.anthropic.com/v1");
    assert_eq!(validate_identity(&known, false, None, Some(&catalog())), silent());
    // Another spelling of the provider folds onto the same answer.
    let alias = resolved("anthropic://acme-opus-4-8", "https://api.anthropic.com/v1");
    assert_eq!(validate_identity(&alias, false, None, Some(&catalog())), silent());
}

#[test]
fn what_we_cannot_know_we_do_not_mention() {
    // A local server, which the catalogue has no key for.
    for spec in ["local://qwen3-coder-next", "local://default"] {
        let m = resolved(spec, "http://localhost:8080/v1");
        assert_eq!(validate_identity(&m, false, None, None), silent(), "{spec}");
    }
    // A provider of the user's own: the catalogue describes somebody else's server.
    let m = ResolvedModel {
        kind: ResolvedProviderKind::Custom,
        ..resolved("mygateway://whatever-v9", "https://gw.internal/v1")
    };
    assert_eq!(validate_identity(&m, true, None, Some(&catalog())), silent());
    // A provider without any models in the catalogue.
    let m = resolved("openrouter://deepseek/deepseek-v4", "https://openrouter.ai/api/v1");
    assert_eq!(validate_identity(&m, false, None, Some(&Vec::new())), silent());
    // No catalogue at all.
    let m = resolved("acme://acme-sonet-4-5", "https://api.anthropic.com/v1");
    assert_eq!(validate_identity(&m, false, None, None), silent());
}

#[test]
fn default_is_legal_only_where_the_endpoint_names_nothing() {
    let local = reference("local://default");
    let advertised = vec![
        "qwen3-coder".to_string(),
        "llama-3.3-70b".to_string(),
        "gpt-oss-120b".to_string(),
    ];

    // The endpoint advertises a namespace → `default` names nothing in it.
    let err = validate_placeholder_model(&local, Some(&advertised))
        .expect_err("a served model list makes `default` meaningless")
        .to_string();
    assert!(err.contains("this endpoint serves 3 models"), "{err}");
    assert!(err.contains("--model 'local://qwen3-coder'"), "it names a real one: {err}");
    assert!(err.contains("qwen3-coder, llama-3.3-70b, gpt-oss-120b"), "{err}");
    assert!(err.contains("only means something on a server with no model list"), "{err}");

    // A 404 / an empty list → `default` is exactly right. Proceed, silently.
    assert!(validate_placeholder_model(&local, Some(&vec![])).is_ok());
    // The probe failed (timeout, connection refused) → FAIL OPEN.
    assert!(validate_placeholder_model(&local, None).is_ok());
    // A NAMED model is never the placeholder, whatever the endpoint serves.
    assert!(
        validate_placeholder_model(&reference("local://qwen3-coder"), Some(&advertised)).is_ok()
    );

    // ANY endpoint, not just `local`, and the suggestion is spelled with ITS name.
    let custom = reference("mygateway://default");
    let err = validate_placeholder_model(&custom, Some(&advertised)).unwrap_err().to_string();
    assert!(err.contains("--model 'mygateway://qwen3-coder'"), "{err}");
}

const OWN: &str = "https://api.anthropic.com/v1";

fn moved(host: &str, now: &str, local: bool) -> Relocation {
    Relocation {
        canonical_host: "api.anthropic.com".into(),
        host: host.into(),
        was: "Anthropic".into(),
        now: now.into(),
        local,
    }
}

fn at(base_url: &str, has_key: bool) -> ResolvedModel {
    ResolvedModel { has_key, ..resolved("acme://acme-sonnet-4-5", base_url) }
}

#[test]
fn relocating_a_provider_off_its_host_warns_that_the_api_changed() {
    let m = at("http://localhost:1234/v1", false);
    assert_eq!(
        relocation_warnings(&m, OWN, &moved("localhost", "OpenAI", true)),
        ["⚠ --base-url moves acme off api.anthropic.com — hrdr will speak the OpenAI API here, not Anthropic's"],
    );
    // A relocation that does not change the protocol says nothing of it.
    let m = resolved("openai://gpt-5", "http://localhost:4000/v1");
    let to_gateway = Relocation {
        canonical_host: "api.openai.com".into(),
        host: "localhost".into(),
        was: "OpenAI".into(),
        now: "OpenAI".into(),
        local: true,
    };
    assert!(relocation_warnings(&m, "https://api.openai.com/v1", &to_gateway).is_empty());
    // Not relocated at all → nothing to warn about.
    let same = moved("api.anthropic.com", "Anthropic", false);
    assert!(relocation_warnings(&at(OWN, false), OWN, &same).is_empty());
    // The same host at a trailing slash is the same endpoint.
    let slash = at(&format!("{OWN}/"), true);
    assert!(relocation_warnings(&slash, OWN, &moved("x", "OpenAI", false)).is_empty());
}

#[test]
fn relocating_a_keyed_provider_to_a_foreign_host_warns_where_the_key_is_going() {
    let m = at("http://evil.example/v1", true);
    let warnings = relocation_warnings(&m, OWN, &moved("evil.example", "OpenAI", false));
    assert!(
        warnings.contains(
            &"⚠ your acme API key will be sent to evil.example (--base-url moved the endpoint off api.anthropic.com)"
                .to_string()
        ),
        "{warnings:?}"
    );
    let key = |w: &Vec<String>| w.iter().any(|w| w.contains("API key will be sent"));
    // Your own machine is not a third party.
    let local = at("http://localhost:1234/v1", true);
    assert!(!key(&relocation_warnings(&local, OWN, &moved("localhost", "OpenAI", true))));
    // Without a key there is nothing to send.
    let keyless = at("http://gateway.example/v1", false);
    assert!(!key(&relocation_warnings(&keyless, OWN, &moved("gateway.example", "OpenAI", false))));
    // A different path at the provider's own host.
    let same_host = at("https://api.anthropic.com/v2", true);
    let stays = moved("api.anthropic.com", "Anthropic", false);
    assert!(relocation_warnings(&same_host, OWN, &stays).is_empty());
}

#[test]
fn the_public_entry_point_is_network_free_and_refuses_nothing_it_cannot_prove() {
    let m = resolved("local://qwen3", "http://localhost:8080/v1");
    assert_eq!(validate_identity(&m, false, None, None), silent());
}

#[test]
fn only_a_fresh_list_counts() {
    let rows = strings(&["a"]);
    assert_eq!(
        entitlements_from(CatalogSource::Fresh, rows.clone(), None),
        Entitlements::Fresh(rows.clone())
    );
    assert_eq!(
        entitlements_from(CatalogSource::Stale, rows.clone(), None),
        Entitlements::Unavailable("the account catalog was unavailable".into())
    );
    assert_eq!(
        entitlements_from(CatalogSource::BuiltInFallback, rows, Some("401".into())),
        Entitlements::Unavailable("401".into())
    );
}

#[test]
fn long_lists_are_cut() {
    let list: Vec<String> = (1..=9).map(|i| i.to_string()).collect();
    assert_eq!(sample(&list), "1, 2, 3, 4, 5, 6, 7, 8, …");
    assert_eq!(sample(&list[..2].to_vec()), "1, 2");
}
