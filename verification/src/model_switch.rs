//! Changing the model: what is asked of the frontend and of the agent, so that what is
//! shown and what is used never differ.
use crate::json;
use crate::notices;
use crate::notices::busy_generic;
use crate::text;
use crate::text::{cat, cat3, has_string, join_strings, str_eq};
use crate::validate;
use crate::validate::{first_few, validate_placeholder_model, ModelRef, PLACEHOLDER_MODEL, SAMPLE};
use vstd::prelude::*;

verus! {

/// Something to do for a change of the model.
#[derive(Debug, Clone, PartialEq, Eq)]
pub enum SwitchEffect<S = String> {
    /// Show a line.
    Info(S),
    /// Show this model.
    SetModelRef(ModelRef<S>),
    /// Show this endpoint.
    SetBaseUrl(S),
    /// Show this context window.
    SetContextWindow(u32),
    /// Remember the model as the last one used with its provider.
    Remember(ModelRef<S>),
    /// Have the agent use the model, once it is free. `validated` says that it was found
    /// good already, `probe` that the context window is to be asked for afterwards.
    SwitchAgent { reference: ModelRef<S>, validated: bool, probe: bool },
    /// Let the user pick one of the provider's models.
    PickModel(S),
}

impl View for SwitchEffect<String> {
    type V = SwitchEffect<Seq<char>>;

    open spec fn view(&self) -> SwitchEffect<Seq<char>> {
        match self {
            SwitchEffect::Info(s) => SwitchEffect::Info(s@),
            SwitchEffect::SetModelRef(m) => SwitchEffect::SetModelRef(m@),
            SwitchEffect::SetBaseUrl(u) => SwitchEffect::SetBaseUrl(u@),
            SwitchEffect::SetContextWindow(w) => SwitchEffect::SetContextWindow(*w),
            SwitchEffect::Remember(m) => SwitchEffect::Remember(m@),
            SwitchEffect::SwitchAgent { reference, validated, probe } =>
                SwitchEffect::SwitchAgent {
                    reference: reference@,
                    validated: *validated,
                    probe: *probe,
                },
            SwitchEffect::PickModel(p) => SwitchEffect::PickModel(p@),
        }
    }
}

/// The views of a list of effects.
pub open spec fn effects(v: Seq<SwitchEffect>) -> Seq<SwitchEffect<Seq<char>>> {
    Seq::new(v.len(), |i: int| v[i]@)
}

/// A change of the model: to what, the context window where it is known, and whether it
/// is to be remembered.
#[derive(Debug, Clone, PartialEq, Eq)]
pub struct Switch<S = String> {
    pub reference: ModelRef<S>,
    pub window: Option<u32>,
    pub remember: bool,
}

impl View for Switch<String> {
    type V = Switch<Seq<char>>;

    open spec fn view(&self) -> Switch<Seq<char>> {
        Switch {
            reference: self.reference@,
            window: self.window,
            remember: self.remember,
        }
    }
}

/// What was found of the new model: what to say of it, or why it is refused. `None` where
/// the agent is busy and cannot be asked.
pub type Verdict = Option<Result<Vec<String>, String>>;

/// The view of a verdict.
pub open spec fn verdict_view(v: Verdict) -> Option<Result<Seq<Seq<char>>, Seq<char>>> {
    match v {
        Some(r) => Some(validate::outcome_view(r)),
        None => None,
    }
}

/// Lines to show.
pub open spec fn infos(lines: Seq<Seq<char>>) -> Seq<SwitchEffect<Seq<char>>> {
    Seq::new(lines.len(), |i: int| SwitchEffect::Info(lines[i]))
}

/// What a change of the model does once nothing speaks against it. The endpoint moves
/// only with the provider: a model of the same provider is reached where that is now.
pub open spec fn applied(
    s: Switch<Seq<char>>,
    current_provider: Seq<char>,
    endpoint: Option<Seq<char>>,
    validated: bool,
) -> Seq<SwitchEffect<Seq<char>>> {
    seq![SwitchEffect::SetModelRef(s.reference)] + (if current_provider != s.reference.provider
        && endpoint is Some {
        seq![SwitchEffect::SetBaseUrl(endpoint->0)]
    } else {
        Seq::empty()
    }) + (match s.window {
        Some(w) => seq![SwitchEffect::SetContextWindow(w)],
        None => Seq::empty(),
    }) + (if s.remember {
        seq![SwitchEffect::Remember(s.reference)]
    } else {
        Seq::empty()
    }) + seq![
        SwitchEffect::SwitchAgent {
            reference: s.reference,
            validated,
            probe: s.window is None,
        },
    ]
}

/// What a change of the model does. One that is refused changes nothing.
pub open spec fn switched(
    s: Switch<Seq<char>>,
    verdict: Option<Result<Seq<Seq<char>>, Seq<char>>>,
    current_provider: Seq<char>,
    endpoint: Option<Seq<char>>,
) -> Seq<SwitchEffect<Seq<char>>> {
    match verdict {
        Some(Ok(warnings)) => infos(warnings) + applied(s, current_provider, endpoint, true),
        Some(Err(why)) => seq![SwitchEffect::Info(why)],
        None => applied(s, current_provider, endpoint, false),
    }
}

fn push_infos(out: &mut Vec<SwitchEffect>, lines: &Vec<String>)
    ensures
        effects(final(out)@) == effects(old(out)@) + infos(text::views(lines@)),
{
    let ghost before = effects(out@);
    let ghost want = infos(text::views(lines@));
    assert(before + want.take(0) =~= before);
    for i in 0..lines.len()
        invariant
            want == infos(text::views(lines@)),
            effects(out@) == before + want.take(i as int),
    {
        let ghost now = effects(out@);
        out.push(SwitchEffect::Info(lines[i].clone()));
        assert(effects(out@) =~= now.push(want[i as int]));
        assert(effects(out@) =~= before + want.take(i + 1));
    }
    assert(want.take(lines@.len() as int) =~= want);
}

/// What a change of the model does. `endpoint` is where the new model's provider is
/// reached, where that is known.
pub fn apply_reference(
    s: &Switch,
    verdict: &Verdict,
    current_provider: &str,
    endpoint: Option<String>,
) -> (r: Vec<SwitchEffect>)
    ensures
        effects(r@) == switched(
            s@,
            verdict_view(*verdict),
            current_provider@,
            json::opt_view(endpoint),
        ),
{
    let mut out: Vec<SwitchEffect> = Vec::new();
    assert(effects(out@) =~= Seq::empty());
    let mut validated: bool = false;
    match verdict {
        Some(Ok(warnings)) => {
            push_infos(&mut out, warnings);
            validated = true;
        },
        Some(Err(why)) => {
            out.push(SwitchEffect::Info(why.clone()));
            assert(effects(out@) =~= seq![SwitchEffect::Info(why@)]);
            return out;
        },
        None => {},
    }
    let ghost said = effects(out@);
    let ghost rest = applied(s@, current_provider@, json::opt_view(endpoint), validated);
    out.push(SwitchEffect::SetModelRef(s.reference.copied()));
    if !str_eq(current_provider, s.reference.provider.as_str()) {
        if let Some(url) = endpoint {
            out.push(SwitchEffect::SetBaseUrl(url));
        }
    }
    if let Some(w) = s.window {
        out.push(SwitchEffect::SetContextWindow(w));
    }
    if s.remember {
        out.push(SwitchEffect::Remember(s.reference.copied()));
    }
    out.push(
        SwitchEffect::SwitchAgent {
            reference: s.reference.copied(),
            validated,
            probe: s.window.is_none(),
        },
    );
    assert(effects(out@) =~= said + rest);
    out
}

/// A refused model changes neither what is shown nor what is used.
pub proof fn law_a_refusal_changes_nothing(
    s: Switch<Seq<char>>,
    why: Seq<char>,
    current_provider: Seq<char>,
    endpoint: Option<Seq<char>>,
)
    ensures
        forall|i: int|
            0 <= i < switched(s, Some(Err(why)), current_provider, endpoint).len() ==> (
            #[trigger] switched(s, Some(Err(why)), current_provider, endpoint)[i]) is Info,
{
}

/// What is shown and what the agent is told to use is the same model.
pub proof fn law_the_display_follows_the_agent(
    s: Switch<Seq<char>>,
    current_provider: Seq<char>,
    endpoint: Option<Seq<char>>,
    validated: bool,
)
    ensures
        ({
            let all = applied(s, current_provider, endpoint, validated);
            &&& all.first() == SwitchEffect::SetModelRef(s.reference)
            &&& all.last() matches SwitchEffect::SwitchAgent { reference, .. } && reference
                == s.reference
        }),
{
}

// ---------------------------------------------------------------------------
// The agent's part
// ---------------------------------------------------------------------------

/// What the agent's part of a change comes to before the model is set: what to say in the
/// end, or why the model is refused. A model that was found good already is not asked
/// for again.
pub fn before_switch(validated: bool, verdict: &Result<Vec<String>, String>) -> (r: Result<
    String,
    String,
>)
    ensures
        match r {
            Ok(s) => if validated {
                s@ == Seq::<char>::empty()
            } else {
                *verdict matches Ok(w) && s@ == text::join(text::views(w@), "\n"@)
            },
            Err(e) => !validated && (*verdict matches Err(why) && e@ == why@),
        },
{
    if validated {
        let none = String::new();
        assert(none@ =~= Seq::empty());
        return Ok(none);
    }
    match verdict {
        Ok(w) => Ok(join_strings(w, "\n")),
        Err(e) => Err(e.clone()),
    }
}

/// What the agent's part of a change comes to once the model was set, or could not be:
/// what to say, and whether to ask for the context window.
pub fn after_switch(said: String, set: Result<(), String>, probe: bool) -> (r: (String, bool))
    ensures
        match set {
            Ok(_) => r.0@ == said@ && r.1 == probe,
            Err(e) => r.0@ == e@ && !r.1,
        },
{
    match set {
        Ok(_) => (said, probe),
        Err(e) => (e, false),
    }
}

// ---------------------------------------------------------------------------
// Naming a model
// ---------------------------------------------------------------------------

/// What a user can name.
#[derive(Debug, Clone, PartialEq, Eq)]
pub enum ModelSpec<S = String> {
    /// A model of the current provider.
    Model(S),
    /// A model and its provider.
    Full(ModelRef<S>),
    /// A provider alone.
    ProviderOnly(S),
}

impl View for ModelSpec<String> {
    type V = ModelSpec<Seq<char>>;

    open spec fn view(&self) -> ModelSpec<Seq<char>> {
        match self {
            ModelSpec::Model(m) => ModelSpec::Model(m@),
            ModelSpec::Full(r) => ModelSpec::Full(r@),
            ModelSpec::ProviderOnly(p) => ModelSpec::ProviderOnly(p@),
        }
    }
}

/// What to do for what a user named.
#[derive(Debug, Clone, PartialEq, Eq)]
pub enum NamedModel<S = String> {
    /// Change to this model, and remember it.
    Apply(ModelRef<S>),
    /// Change to a model of this provider.
    Provider(S),
    /// Say what is wrong.
    Refuse(S),
}

impl View for NamedModel<String> {
    type V = NamedModel<Seq<char>>;

    open spec fn view(&self) -> NamedModel<Seq<char>> {
        match self {
            NamedModel::Apply(r) => NamedModel::Apply(r@),
            NamedModel::Provider(p) => NamedModel::Provider(p@),
            NamedModel::Refuse(s) => NamedModel::Refuse(s@),
        }
    }
}

/// What to do for what a user named, going by how it was read: a bare name is one of the
/// current provider's.
pub fn switch_model(name: &str, parsed: &Result<ModelSpec, String>, current: &ModelRef) -> (r:
    NamedModel)
    ensures
        r@ == (match *parsed {
            Ok(spec) => match spec@ {
                ModelSpec::Model(m) => NamedModel::Apply(
                    ModelRef { provider: current@.provider, model: m },
                ),
                ModelSpec::Full(f) => NamedModel::Apply(f),
                ModelSpec::ProviderOnly(p) => NamedModel::Provider(p),
            },
            Err(e) => NamedModel::Refuse("/model "@ + name@ + ": "@ + e@),
        }),
{
    match parsed {
        Ok(ModelSpec::Model(m)) => NamedModel::Apply(
            ModelRef { provider: current.provider.clone(), model: m.clone() },
        ),
        Ok(ModelSpec::Full(f)) => NamedModel::Apply(f.copied()),
        Ok(ModelSpec::ProviderOnly(p)) => NamedModel::Provider(p.clone()),
        Err(e) => {
            let mut s = cat3("/model ", name, ": ");
            s.append(e.as_str());
            NamedModel::Refuse(s)
        },
    }
}

/// Why a change to a provider did not happen.
#[derive(Debug, Clone, PartialEq, Eq)]
pub enum ProviderSwitchError<S = String> {
    /// There is no such provider.
    Unknown(S),
    /// A turn is running.
    Busy(S),
    /// It is not known which of its models to use.
    NeedsModel { provider: S, message: S },
}

impl View for ProviderSwitchError<String> {
    type V = ProviderSwitchError<Seq<char>>;

    open spec fn view(&self) -> ProviderSwitchError<Seq<char>> {
        match self {
            ProviderSwitchError::Unknown(s) => ProviderSwitchError::Unknown(s@),
            ProviderSwitchError::Busy(s) => ProviderSwitchError::Busy(s@),
            ProviderSwitchError::NeedsModel { provider, message } =>
                ProviderSwitchError::NeedsModel { provider: provider@, message: message@ },
        }
    }
}

impl ProviderSwitchError {
    /// What is said of it.
    pub fn message(&self) -> (r: &str)
        ensures
            r@ == (match self@ {
                ProviderSwitchError::Unknown(s) => s,
                ProviderSwitchError::Busy(s) => s,
                ProviderSwitchError::NeedsModel { provider, message } => message,
            }),
    {
        match self {
            ProviderSwitchError::Unknown(s) => s.as_str(),
            ProviderSwitchError::Busy(s) => s.as_str(),
            ProviderSwitchError::NeedsModel { message, .. } => message.as_str(),
        }
    }
}

/// A provider that was found.
#[derive(Debug, Clone, PartialEq, Eq)]
pub struct ResolvedProvider<S = String> {
    pub base_url: S,
    pub context_window: Option<u32>,
}

/// What is said of a provider that there is not.
pub open spec fn unknown_provider(name: Seq<char>) -> Seq<char> {
    "unknown provider '"@ + name + "'"@
}

fn unknown(name: &str) -> (r: String)
    ensures
        r@ == unknown_provider(name@),
{
    cat3("unknown provider '", name, "'")
}

/// The change that naming a provider asks for. `model` is the one that was last used with
/// it, or the one that it declares, or what is said where there is neither; the model
/// that is used with another provider is never taken along.
pub fn apply_provider(
    name: &str,
    found: Option<&ResolvedProvider>,
    busy: bool,
    model: Result<ModelRef, String>,
) -> (r: Result<Switch, ProviderSwitchError>)
    ensures
        match r {
            Ok(s) => found is Some && !busy && (model matches Ok(m) && s@ == (Switch {
                reference: m@,
                window: found->0.context_window,
                remember: true,
            })),
            Err(e) => e@ == (if found is None {
                ProviderSwitchError::Unknown(unknown_provider(name@))
            } else if busy {
                ProviderSwitchError::Busy(notices::BUSY_MSG@)
            } else {
                ProviderSwitchError::NeedsModel { provider: name@, message: model->Err_0@ }
            }) && (found is None || busy || model is Err),
        },
{
    let p = match found {
        Some(p) => p,
        None => {
            return Err(ProviderSwitchError::Unknown(unknown(name)));
        },
    };
    if busy {
        return Err(ProviderSwitchError::Busy(busy_generic()));
    }
    match model {
        Ok(m) => Ok(Switch { reference: m, window: p.context_window, remember: true }),
        Err(message) => Err(
            ProviderSwitchError::NeedsModel { provider: name.to_string(), message },
        ),
    }
}

/// What a failed change to a provider asks of the frontend: where only the model is
/// missing, the user picks one.
pub fn apply_provider_or_pick(e: &ProviderSwitchError) -> (r: Vec<SwitchEffect>)
    ensures
        effects(r@) == (match e@ {
            ProviderSwitchError::NeedsModel { provider, message } => seq![
                SwitchEffect::Info(message + " — pick one:"@),
                SwitchEffect::PickModel(provider),
            ],
            _ => Seq::empty(),
        }),
{
    let mut out: Vec<SwitchEffect> = Vec::new();
    if let ProviderSwitchError::NeedsModel { provider, message } = e {
        out.push(SwitchEffect::Info(cat(message.as_str(), " — pick one:")));
        out.push(SwitchEffect::PickModel(provider.clone()));
    }
    assert(effects(out@) =~= (match e@ {
        ProviderSwitchError::NeedsModel { provider, message } => seq![
            SwitchEffect::Info(message + " — pick one:"@),
            SwitchEffect::PickModel(provider),
        ],
        _ => Seq::empty(),
    }));
    out
}

/// The change to a model of a provider that was picked or belongs to a session.
pub open spec fn repointed(
    provider: Seq<char>,
    model: Seq<char>,
    found: Option<Option<u32>>,
    busy: bool,
    reference: Result<ModelRef<Seq<char>>, Seq<char>>,
    window: Option<u32>,
    remember: bool,
) -> Result<Switch<Seq<char>>, Seq<char>> {
    match found {
        None => Err(unknown_provider(provider)),
        Some(provider_window) => if busy {
            Err(notices::BUSY_MSG@)
        } else {
            match reference {
                Ok(r) => Ok(
                    Switch {
                        reference: r,
                        window: if window is Some {
                            window
                        } else {
                            provider_window
                        },
                        remember,
                    },
                ),
                Err(e) => Err(provider + "://"@ + model + ": "@ + e),
            }
        },
    }
}

/// The context window of a provider that was found.
pub open spec fn found_window(found: Option<&ResolvedProvider>) -> Option<Option<u32>> {
    match found {
        Some(p) => Some(p.context_window),
        None => None,
    }
}

/// The view of a reference that may not be one.
pub open spec fn reference_view(r: Result<ModelRef, String>) -> Result<
    ModelRef<Seq<char>>,
    Seq<char>,
> {
    match r {
        Ok(m) => Ok(m@),
        Err(e) => Err(e@),
    }
}

/// The view of a change.
pub open spec fn switch_view(r: Result<Switch, String>) -> Result<Switch<Seq<char>>, Seq<char>> {
    match r {
        Ok(s) => Ok(s@),
        Err(e) => Err(e@),
    }
}

fn repoint(
    provider: &str,
    model: &str,
    found: Option<&ResolvedProvider>,
    busy: bool,
    reference: Result<ModelRef, String>,
    window: Option<u32>,
    remember: bool,
) -> (r: Result<Switch, String>)
    ensures
        switch_view(r) == repointed(
            provider@,
            model@,
            found_window(found),
            busy,
            reference_view(reference),
            window,
            remember,
        ),
{
    let p = match found {
        Some(p) => p,
        None => {
            return Err(unknown(provider));
        },
    };
    if busy {
        return Err(busy_generic());
    }
    match reference {
        Ok(m) => Ok(
            Switch {
                reference: m,
                window: match window {
                    Some(w) => Some(w),
                    None => p.context_window,
                },
                remember,
            },
        ),
        Err(e) => {
            let mut s = cat3(provider, "://", model);
            s.append(": ");
            s.append(e.as_str());
            Err(s)
        },
    }
}

/// The change to the model of a session that is taken up. It is not remembered: nobody
/// chose it.
pub fn restore_session_provider(
    provider: &str,
    model: &str,
    found: Option<&ResolvedProvider>,
    busy: bool,
    reference: Result<ModelRef, String>,
    window: Option<u32>,
) -> (r: Result<Switch, String>)
    ensures
        switch_view(r) == repointed(
            provider@,
            model@,
            found_window(found),
            busy,
            reference_view(reference),
            window,
            false,
        ),
{
    repoint(provider, model, found, busy, reference, window, false)
}

/// The change to a model that was picked. What is known of the model's context window
/// wins over what is known of its provider's.
pub fn apply_choice(
    provider: &str,
    model: &str,
    found: Option<&ResolvedProvider>,
    busy: bool,
    reference: Result<ModelRef, String>,
    window: Option<u32>,
) -> (r: Result<Switch, String>)
    ensures
        switch_view(r) == repointed(
            provider@,
            model@,
            found_window(found),
            busy,
            reference_view(reference),
            window,
            true,
        ),
{
    repoint(provider, model, found, busy, reference, window, true)
}

// ---------------------------------------------------------------------------
// The endpoint's health
// ---------------------------------------------------------------------------

/// What is said where there is no key.
pub open spec fn missing_credential(provider: Option<Seq<char>>, base_url: Seq<char>) -> Seq<char> {
    "⚠ no API key configured for "@ + (match provider {
        Some(p) => p,
        None => base_url,
    })
        + " — hrdr won't call it until there is one.\nRun `/login` to set one up, or set the provider's key env var. To use a local model instead, point hrdr at a server that needs no key (e.g. `infr serve <model> --addr 127.0.0.1:8080`)."@
}

/// What is said where there is no key: that is a matter of the configuration, not of
/// whether the endpoint can be reached.
pub fn missing_credential_guidance(provider: Option<&str>, base_url: &str) -> (r: String)
    ensures
        r@ == missing_credential(crate::config::opt_str_view(provider), base_url@),
{
    let who = match provider {
        Some(p) => p,
        None => base_url,
    };
    cat3(
        "⚠ no API key configured for ",
        who,
        " — hrdr won't call it until there is one.\nRun `/login` to set one up, or set the provider's key env var. To use a local model instead, point hrdr at a server that needs no key (e.g. `infr serve <model> --addr 127.0.0.1:8080`).",
    )
}

/// What is said where the endpoint cannot be reached.
pub open spec fn unreachable_text(
    base_url: Seq<char>,
    error: Seq<char>,
    vendor: Seq<char>,
) -> Seq<char> {
    "⚠ endpoint "@ + base_url + " looks unreachable: "@ + error
        + "\nhrdr talks to a running OpenAI-compatible server. Start one listening at "@ + base_url
        + " — e.g. `infr serve <model> --addr 127.0.0.1:8080` or `llama-server -hf <ref> --jinja --port 8080` — and it connects on your next message. Or run `/login` to set up a hosted provider (zen/openai/openrouter/"@
        + vendor + ") and its API key."@
}

/// What is said where the endpoint cannot be reached: what failed, and how to get a
/// model to talk to. `vendor` is the provider that is spoken to by the Messages API.
pub fn unreachable_guidance(base_url: &str, error: &str, vendor: &str) -> (r: String)
    ensures
        r@ == unreachable_text(base_url@, error@, vendor@),
{
    let mut s = cat3("⚠ endpoint ", base_url, " looks unreachable: ");
    s.append(error);
    s.append("\nhrdr talks to a running OpenAI-compatible server. Start one listening at ");
    s.append(base_url);
    s.append(
        " — e.g. `infr serve <model> --addr 127.0.0.1:8080` or `llama-server -hf <ref> --jinja --port 8080` — and it connects on your next message. Or run `/login` to set up a hosted provider (zen/openai/openrouter/",
    );
    s.append(vendor);
    s.append(") and its API key.");
    s
}

/// Whether the endpoint is to be asked for its models.
#[derive(Debug, Clone, PartialEq, Eq)]
pub enum HealthProbe<S = String> {
    /// Ask.
    Ask,
    /// Do not, and say this.
    Warn(S),
    /// Do not, and say nothing.
    Skip,
}

impl View for HealthProbe<String> {
    type V = HealthProbe<Seq<char>>;

    open spec fn view(&self) -> HealthProbe<Seq<char>> {
        match self {
            HealthProbe::Ask => HealthProbe::Ask,
            HealthProbe::Warn(s) => HealthProbe::Warn(s@),
            HealthProbe::Skip => HealthProbe::Skip,
        }
    }
}

/// Whether the endpoint is to be asked for its models: not without a key, where it is on
/// another machine, because it would answer for the missing key alone; nor where a
/// ChatGPT account is used, which has a list of its own.
pub fn health_probe(
    has_credential: bool,
    local: bool,
    provider: &str,
    base_url: &str,
    chatgpt_oauth: bool,
) -> (r: HealthProbe)
    ensures
        r@ == (if !has_credential && !local {
            HealthProbe::Warn(missing_credential(Some(provider@), base_url@))
        } else if chatgpt_oauth {
            HealthProbe::Skip
        } else {
            HealthProbe::Ask
        }),
        r is Ask <==> (has_credential || local) && !chatgpt_oauth,
        r is Warn <==> !has_credential && !local,
        r matches HealthProbe::Warn(t) ==> text::contains(t@, provider@),
{
    proof {
        law_a_missing_key_names_its_owner(Some(provider@), base_url@);
    }
    if !has_credential && !local {
        HealthProbe::Warn(missing_credential_guidance(Some(provider), base_url))
    } else if chatgpt_oauth {
        HealthProbe::Skip
    } else {
        HealthProbe::Ask
    }
}

/// What is said of the models that an endpoint has, if anything.
pub open spec fn health_warning(
    models: Result<Seq<Seq<char>>, Seq<char>>,
    reference: ModelRef<Seq<char>>,
    model: Seq<char>,
    base_url: Seq<char>,
    vendor: Seq<char>,
) -> Option<Seq<char>> {
    match models {
        Err(e) => Some(unreachable_text(base_url, e, vendor)),
        Ok(list) => if validate::placeholder_is_empty(reference, Some(list)) {
            Some("⚠ "@ + validate::placeholder_text(reference, list))
        } else if model != PLACEHOLDER_MODEL@ && list.len() > 0 && !list.contains(model) {
            Some(
                "⚠ model '"@ + model + "' not found at "@ + base_url + "; available: "@
                    + text::join(
                    if list.len() > SAMPLE {
                        list.take(SAMPLE as int)
                    } else {
                        list
                    },
                    ", "@,
                ),
            )
        } else {
            None
        },
    }
}

/// What is said of the models that an endpoint has: that it cannot be reached, that the
/// placeholder names none of them, or that the model is not among them.
pub fn endpoint_health_warning(
    models: &Result<Vec<String>, String>,
    reference: &ModelRef,
    model: &str,
    base_url: &str,
    vendor: &str,
) -> (r: Option<String>)
    ensures
        json::opt_view(r) == health_warning(
            validate::outcome_view(*models),
            reference@,
            model@,
            base_url@,
            vendor@,
        ),
{
    let list = match models {
        Ok(l) => l,
        Err(e) => {
            return Some(unreachable_guidance(base_url, e.as_str(), vendor));
        },
    };
    assert(text::views(list@).len() == list@.len());
    if let Err(e) = validate_placeholder_model(reference, Some(list)) {
        return Some(cat("⚠ ", e.as_str()));
    }
    if !str_eq(model, PLACEHOLDER_MODEL) && list.len() > 0 && !has_string(list, model) {
        let mut s = cat3("⚠ model '", model, "' not found at ");
        s.append(base_url);
        s.append("; available: ");
        let shown = first_few(list, SAMPLE);
        s.append(join_strings(&shown, ", ").as_str());
        return Some(s);
    }
    None
}

/// An endpoint that has the model is healthy, and so is one that lists none.
pub proof fn law_a_listed_model_is_healthy(
    list: Seq<Seq<char>>,
    reference: ModelRef<Seq<char>>,
    base_url: Seq<char>,
    vendor: Seq<char>,
)
    requires
        list.contains(reference.model) || list.len() == 0,
        reference.model != PLACEHOLDER_MODEL@,
    ensures
        health_warning(Ok(list), reference, reference.model, base_url, vendor) is None,
{
}

/// A change that nothing speaks against sets, shows and hands to the agent one and the same
/// model: the one that was asked for. The endpoint moves where the provider does, to that
/// provider's; the window is the model's, and the agent looks for it where it is not known;
/// the model is remembered where that is asked for.
pub proof fn law_what_was_asked_for_is_switched_to(
    s: Switch<Seq<char>>,
    warnings: Seq<Seq<char>>,
    current_provider: Seq<char>,
    endpoint: Option<Seq<char>>,
    i: int,
)
    ensures
        ({
            let e = switched(s, Some(Ok(warnings)), current_provider, endpoint);
            &&& e.len() > warnings.len()
            &&& 0 <= i < warnings.len() ==> e[i] == SwitchEffect::Info(warnings[i])
            &&& e[warnings.len() as int] == SwitchEffect::SetModelRef(s.reference)
            &&& e.last() == (SwitchEffect::SwitchAgent {
                reference: s.reference,
                validated: true,
                probe: s.window is None,
            })
            &&& 0 <= i < e.len() ==> (match e[i] {
                SwitchEffect::SetModelRef(r) => r == s.reference,
                SwitchEffect::SetBaseUrl(u) => endpoint == Some(u) && current_provider
                    != s.reference.provider,
                SwitchEffect::SetContextWindow(w) => s.window == Some(w),
                SwitchEffect::Remember(r) => s.remember && r == s.reference,
                SwitchEffect::SwitchAgent { reference, validated, probe } => reference
                    == s.reference && validated && probe == s.window is None,
                SwitchEffect::Info(t) => warnings.contains(t),
                SwitchEffect::PickModel(_) => false,
            })
            &&& s.remember ==> e.contains(SwitchEffect::Remember(s.reference))
            &&& s.window matches Some(w) ==> e.contains(SwitchEffect::SetContextWindow(w))
            &&& current_provider != s.reference.provider ==> (endpoint matches Some(u)
                ==> e.contains(SwitchEffect::SetBaseUrl(u)))
        }),
        switched(s, None, current_provider, endpoint).last() == (SwitchEffect::SwitchAgent {
            reference: s.reference,
            validated: false,
            probe: s.window is None,
        }),
{
    let e = switched(s, Some(Ok(warnings)), current_provider, endpoint);
    let n = warnings.len() as int;
    let moved = current_provider != s.reference.provider && endpoint is Some;
    let a = if moved {
        1int
    } else {
        0int
    };
    let b = if s.window is Some {
        1int
    } else {
        0int
    };
    if 0 <= i < n {
        assert(warnings.contains(warnings[i]));
    }
    if moved {
        assert(e[n + 1] == SwitchEffect::SetBaseUrl(endpoint->0));
    }
    if s.window is Some {
        assert(e[n + 1 + a] == SwitchEffect::<Seq<char>>::SetContextWindow(s.window->0));
    }
    if s.remember {
        assert(e[n + 1 + a + b] == SwitchEffect::Remember(s.reference));
    }
}

/// A model that was picked, or that belongs to a session, is switched to as it was read,
/// with its own window or else its provider's; there is no change to a provider that there
/// is not, during a turn, or to what is no model.
pub proof fn law_a_picked_model_is_switched_to(
    provider: Seq<char>,
    model: Seq<char>,
    provider_window: Option<u32>,
    reference: ModelRef<Seq<char>>,
    why: Seq<char>,
    window: Option<u32>,
    remember: bool,
)
    ensures
        repointed(provider, model, Some(provider_window), false, Ok(reference), window, remember)
            matches Ok(s) && s.reference == reference && s.remember == remember && (match window {
            Some(w) => s.window == Some(w),
            None => s.window == provider_window,
        }),
        repointed(provider, model, Some(provider_window), true, Ok(reference), window, remember)
            is Err,
        repointed(provider, model, None, false, Ok(reference), window, remember) is Err,
        repointed(provider, model, Some(provider_window), false, Err(why), window, remember)
            matches Err(e) && e.len() >= why.len() && e.skip(e.len() - why.len()) == why,
{
    let e = provider + "://"@ + model + ": "@ + why;
    assert(e.skip(e.len() - why.len()) =~= why);
}

/// An endpoint is warned of where it cannot be reached, with why, and where it has models
/// but not the one that is used, by its name.
pub proof fn law_a_model_that_is_missing_is_warned_of(
    list: Seq<Seq<char>>,
    error: Seq<char>,
    reference: ModelRef<Seq<char>>,
    model: Seq<char>,
    base_url: Seq<char>,
    vendor: Seq<char>,
)
    ensures
        health_warning(Err(error), reference, model, base_url, vendor) matches Some(t)
            && text::contains(t, error) && text::contains(t, base_url),
        list.len() > 0 && model != PLACEHOLDER_MODEL@ && (forall|i: int|
            0 <= i < list.len() ==> #[trigger] list[i] != model)
            && !validate::placeholder_is_empty(reference, Some(list)) ==> (health_warning(
            Ok(list),
            reference,
            model,
            base_url,
            vendor,
        ) matches Some(t) && text::contains(t, model) && text::contains(t, base_url)),
{
    let one = "⚠ endpoint "@ + base_url + " looks unreachable: "@;
    let t = unreachable_text(base_url, error, vendor);
    text::lemma_holds_itself(error);
    text::lemma_part_holds(one, error, t.skip((one.len() + error.len()) as int), error);
    assert(one + error + t.skip((one.len() + error.len()) as int) =~= t);
    text::lemma_holds_itself(base_url);
    let head = "⚠ endpoint "@;
    text::lemma_part_holds(head, base_url, t.skip((head.len() + base_url.len()) as int), base_url);
    assert(head + base_url + t.skip((head.len() + base_url.len()) as int) =~= t);
    if list.len() > 0 && model != PLACEHOLDER_MODEL@ && (forall|i: int|
        0 <= i < list.len() ==> #[trigger] list[i] != model) && !validate::placeholder_is_empty(
        reference,
        Some(list),
    ) {
        assert(!list.contains(model));
        let w = health_warning(Ok(list), reference, model, base_url, vendor)->0;
        let a = "⚠ model '"@;
        text::lemma_holds_itself(model);
        text::lemma_part_holds(a, model, w.skip((a.len() + model.len()) as int), model);
        assert(a + model + w.skip((a.len() + model.len()) as int) =~= w);
        let b = a + model + "' not found at "@;
        text::lemma_part_holds(b, base_url, w.skip((b.len() + base_url.len()) as int), base_url);
        assert(b + base_url + w.skip((b.len() + base_url.len()) as int) =~= w);
    }
}

/// What is said of a missing key names whose it is: the provider, or where there is none
/// the endpoint.
pub proof fn law_a_missing_key_names_its_owner(provider: Option<Seq<char>>, base_url: Seq<char>)
    ensures
        provider matches Some(p) ==> text::contains(missing_credential(provider, base_url), p),
        provider is None ==> text::contains(missing_credential(provider, base_url), base_url),
{
    let who = match provider {
        Some(p) => p,
        None => base_url,
    };
    text::lemma_holds_itself(who);
    text::lemma_sum_holds("⚠ no API key configured for "@, who, who);
    text::lemma_sum_holds(
        "⚠ no API key configured for "@ + who,
        " — hrdr won't call it until there is one.\nRun `/login` to set one up, or set the provider's key env var. To use a local model instead, point hrdr at a server that needs no key (e.g. `infr serve <model> --addr 127.0.0.1:8080`)."@,
        who,
    );
}

/// A change of the model sets the model first and the agent last, both to the one that was
/// asked for; the endpoint moves exactly where the provider does and has one, the window
/// is set where it is known and asked for where it is not, and the choice is remembered
/// where it is to be.
pub proof fn law_what_a_switch_changes(
    s: Switch<Seq<char>>,
    provider: Seq<char>,
    endpoint: Option<Seq<char>>,
    validated: bool,
)
    ensures
        ({
            let e = applied(s, provider, endpoint, validated);
            &&& e[0] == SwitchEffect::SetModelRef(s.reference)
            &&& e.last() == (SwitchEffect::SwitchAgent {
                reference: s.reference,
                validated,
                probe: s.window is None,
            })
            &&& forall|u: Seq<char>| #[trigger]
                e.contains(SwitchEffect::SetBaseUrl(u)) <==> endpoint == Some(u) && provider
                    != s.reference.provider
            &&& forall|w| #[trigger]
                e.contains(SwitchEffect::SetContextWindow(w)) <==> s.window == Some(w)
            &&& e.contains(SwitchEffect::Remember(s.reference)) <==> s.remember
        }),
{
    let e = applied(s, provider, endpoint, validated);
    let moved = if provider != s.reference.provider && endpoint is Some {
        1int
    } else {
        0int
    };
    let sized = if s.window is Some {
        1int
    } else {
        0int
    };
    assert forall|u: Seq<char>| endpoint == Some(u) && provider
        != s.reference.provider implies #[trigger] e.contains(SwitchEffect::SetBaseUrl(u)) by {
        assert(e[1] == SwitchEffect::SetBaseUrl(u));
    }
    assert forall|w| s.window == Some(w) implies #[trigger] e.contains(
        SwitchEffect::SetContextWindow(w),
    ) by {
        assert(e[1 + moved] == SwitchEffect::<Seq<char>>::SetContextWindow(w));
    }
    if s.remember {
        assert(e[1 + moved + sized] == SwitchEffect::Remember(s.reference));
    }
}

} // verus!
