//! Whether a model is real, as far as can be known without asking anybody: only what is
//! known to be wrong is refused, and only a list that was fetched just now knows that.
use crate::text;
use crate::text::{cat3, decimal_string, has_string, join_strings, str_eq};
use vstd::prelude::*;

verus! {

/// The name that stands for whatever model a server has.
pub const PLACEHOLDER_MODEL: &'static str = "default";

/// How many names a message lists at most.
pub const SAMPLE: usize = 8;

/// A model and who provides it.
#[derive(Debug, Clone, PartialEq, Eq)]
pub struct ModelRef<S = String> {
    pub provider: S,
    pub model: S,
}

impl View for ModelRef<String> {
    type V = ModelRef<Seq<char>>;

    open spec fn view(&self) -> ModelRef<Seq<char>> {
        ModelRef { provider: self.provider@, model: self.model@ }
    }
}

impl ModelRef {
    /// A copy of this reference.
    pub fn copied(&self) -> (r: ModelRef)
        ensures
            r@ == self@,
    {
        ModelRef { provider: self.provider.clone(), model: self.model.clone() }
    }
}

/// What a provider is.
#[derive(Debug, Clone, Copy, PartialEq, Eq, Structural)]
pub enum ResolvedProviderKind {
    /// One that the program knows.
    BuiltIn,
    /// One that the user configured.
    Custom,
    /// A ChatGPT account.
    ChatGptOAuth,
}

/// A model and where it is reached.
#[derive(Debug, Clone, PartialEq, Eq)]
pub struct ResolvedModel<S = String> {
    pub reference: ModelRef<S>,
    pub kind: ResolvedProviderKind,
    pub base_url: S,
    /// It is a ChatGPT account's, at the endpoint that such accounts are served from.
    pub codex_oauth: bool,
    /// There is a key for it.
    pub has_key: bool,
}

impl View for ResolvedModel<String> {
    type V = ResolvedModel<Seq<char>>;

    open spec fn view(&self) -> ResolvedModel<Seq<char>> {
        ResolvedModel {
            reference: self.reference@,
            kind: self.kind,
            base_url: self.base_url@,
            codex_oauth: self.codex_oauth,
            has_key: self.has_key,
        }
    }
}

// ---------------------------------------------------------------------------
// Lists in messages
// ---------------------------------------------------------------------------

/// The first few of a list, and a mark where there are more.
pub open spec fn sample_text(items: Seq<Seq<char>>) -> Seq<char> {
    if items.len() > SAMPLE {
        text::join(items.take(SAMPLE as int), ", "@) + ", …"@
    } else {
        text::join(items, ", "@)
    }
}

/// The first `n` of a list of strings.
pub fn first_few(items: &Vec<String>, n: usize) -> (r: Vec<String>)
    ensures
        text::views(r@) == (if items@.len() > n {
            text::views(items@).take(n as int)
        } else {
            text::views(items@)
        }),
{
    let ghost all = text::views(items@);
    let count: usize = if items.len() > n {
        n
    } else {
        items.len()
    };
    let mut out: Vec<String> = Vec::new();
    for i in 0..count
        invariant
            count <= items@.len(),
            all == text::views(items@),
            text::views(out@) == all.take(i as int),
    {
        let ghost before = text::views(out@);
        out.push(items[i].clone());
        assert(text::views(out@) =~= before.push(all[i as int]));
        assert(text::views(out@) =~= all.take(i + 1));
    }
    assert(items@.len() <= n ==> all.take(count as int) =~= all);
    out
}

/// The first few of a list, and a mark where there are more.
pub fn sample(items: &Vec<String>) -> (r: String)
    ensures
        r@ == sample_text(text::views(items@)),
{
    let shown = first_few(items, SAMPLE);
    let mut s = join_strings(&shown, ", ");
    if items.len() > SAMPLE {
        s.append(", …");
    }
    s
}

// ---------------------------------------------------------------------------
// What is known without asking
// ---------------------------------------------------------------------------

/// A model of a ChatGPT account of which it is not known whether the account may use it.
/// Nothing in it lets anybody refuse the model.
#[derive(Debug, Clone, PartialEq, Eq)]
pub struct Unconfirmed<S = String> {
    pub model: S,
    pub kind: ResolvedProviderKind,
    pub base_url: S,
}

impl View for Unconfirmed<String> {
    type V = Unconfirmed<Seq<char>>;

    open spec fn view(&self) -> Unconfirmed<Seq<char>> {
        Unconfirmed { model: self.model@, kind: self.kind, base_url: self.base_url@ }
    }
}

impl Unconfirmed {
    /// The model.
    pub fn model(&self) -> (r: &str)
        ensures
            r@ == self@.model,
    {
        self.model.as_str()
    }
}

/// What is known of a model without asking. It cannot say that the model is refused.
#[derive(Debug, Clone, PartialEq, Eq)]
pub enum Identity {
    /// Go on, and say this.
    Known(Vec<String>),
    /// Ask.
    Unconfirmed(Unconfirmed),
}

/// What an [`Identity`] holds.
pub enum IdentityView {
    Known(Seq<Seq<char>>),
    Unconfirmed(Unconfirmed<Seq<char>>),
}

impl View for Identity {
    type V = IdentityView;

    open spec fn view(&self) -> IdentityView {
        match self {
            Identity::Known(w) => IdentityView::Known(text::views(w@)),
            Identity::Unconfirmed(u) => IdentityView::Unconfirmed(u@),
        }
    }
}

/// What is said of a model that the public catalogue does not list.
pub open spec fn unlisted(r: ModelRef<Seq<char>>) -> Seq<char> {
    "⚠ models.dev doesn't list '"@ + r.model + "' on "@ + r.provider
        + " — it may be new, or a typo"@
}

/// What is known of a model without asking. `shadowed` says that the user configured a
/// provider of that name; `entitled` is the account's list as it was last fetched, if
/// there is one; `listed` is what the public catalogue has of the provider, if it has
/// anything.
pub open spec fn identity(
    m: ResolvedModel<Seq<char>>,
    shadowed: bool,
    entitled: Option<Seq<Seq<char>>>,
    listed: Option<Seq<Seq<char>>>,
) -> IdentityView {
    if m.codex_oauth {
        if entitled matches Some(rows) && rows.contains(m.reference.model) {
            IdentityView::Known(Seq::empty())
        } else {
            IdentityView::Unconfirmed(
                Unconfirmed { model: m.reference.model, kind: m.kind, base_url: m.base_url },
            )
        }
    } else if shadowed || m.kind == ResolvedProviderKind::Custom {
        IdentityView::Known(Seq::empty())
    } else {
        match listed {
            Some(models) => if models.len() > 0 && !models.contains(m.reference.model) {
                IdentityView::Known(seq![unlisted(m.reference)])
            } else {
                IdentityView::Known(Seq::empty())
            },
            None => IdentityView::Known(Seq::empty()),
        }
    }
}

/// The view of an optional list of strings.
pub open spec fn opt_list(l: Option<&Vec<String>>) -> Option<Seq<Seq<char>>> {
    match l {
        Some(v) => Some(text::views(v@)),
        None => None,
    }
}

fn nothing_to_say() -> (r: Identity)
    ensures
        r@ == IdentityView::Known(Seq::empty()),
{
    let none: Vec<String> = Vec::new();
    assert(text::views(none@) =~= Seq::empty());
    Identity::Known(none)
}

/// What is known of a model without asking. Being on a list that was fetched some time
/// ago settles that an account may use a model; not being on it settles nothing, because
/// such lists grow. The public catalogue lags, so it only ever warns. Of anything else
/// nothing is known and nothing said.
pub fn validate_identity(
    m: &ResolvedModel,
    shadowed: bool,
    entitled: Option<&Vec<String>>,
    listed: Option<&Vec<String>>,
) -> (r: Identity)
    ensures
        r@ == identity(m@, shadowed, opt_list(entitled), opt_list(listed)),
{
    let model = m.reference.model.as_str();
    if m.codex_oauth {
        if let Some(rows) = entitled {
            if has_string(rows, model) {
                return nothing_to_say();
            }
        }
        return Identity::Unconfirmed(
            Unconfirmed {
                model: m.reference.model.clone(),
                kind: m.kind,
                base_url: m.base_url.clone(),
            },
        );
    }
    if shadowed || m.kind == ResolvedProviderKind::Custom {
        return nothing_to_say();
    }
    if let Some(models) = listed {
        assert(text::views(models@).len() == models@.len());
        if models.len() > 0 && !has_string(models, model) {
            let mut s = cat3("⚠ models.dev doesn't list '", model, "' on ");
            s.append(m.reference.provider.as_str());
            s.append(" — it may be new, or a typo");
            let mut w: Vec<String> = Vec::new();
            w.push(s);
            assert(text::views(w@) =~= seq![unlisted(m@.reference)]);
            return Identity::Known(w);
        }
    }
    nothing_to_say()
}

// ---------------------------------------------------------------------------
// Asking
// ---------------------------------------------------------------------------

/// What an account may use.
#[derive(Debug, Clone, PartialEq, Eq)]
pub enum Entitlements {
    /// The list, fetched just now.
    Fresh(Vec<String>),
    /// There is none: why.
    Unavailable(String),
}

/// What an [`Entitlements`] holds.
pub enum EntitlementsView {
    Fresh(Seq<Seq<char>>),
    Unavailable(Seq<char>),
}

impl View for Entitlements {
    type V = EntitlementsView;

    open spec fn view(&self) -> EntitlementsView {
        match self {
            Entitlements::Fresh(l) => EntitlementsView::Fresh(text::views(l@)),
            Entitlements::Unavailable(why) => EntitlementsView::Unavailable(why@),
        }
    }
}

/// Where an account's list comes from.
#[derive(Debug, Clone, Copy, PartialEq, Eq, Structural)]
pub enum CatalogSource {
    /// The endpoint answered for it just now.
    Fresh,
    /// It was fetched some time ago.
    Stale,
    /// It is the one that the program has.
    BuiltInFallback,
}

/// What an account may use, going by a list and where that comes from: only one that the
/// endpoint just answered for counts.
pub fn entitlements_from(
    source: CatalogSource,
    slugs: Vec<String>,
    warning: Option<String>,
) -> (r: Entitlements)
    ensures
        r@ == (if source == CatalogSource::Fresh {
            EntitlementsView::Fresh(text::views(slugs@))
        } else {
            EntitlementsView::Unavailable(
                match warning {
                    Some(w) => w@,
                    None => "the account catalog was unavailable"@,
                },
            )
        }),
{
    match source {
        CatalogSource::Fresh => Entitlements::Fresh(slugs),
        _ => Entitlements::Unavailable(
            match warning {
                Some(w) => w,
                None => "the account catalog was unavailable".to_string(),
            },
        ),
    }
}

/// What is said of a model that could not be confirmed.
pub open spec fn unconfirmed_text(model: Seq<char>, why: Seq<char>) -> Seq<char> {
    "⚠ couldn't confirm '"@ + model + "' against your ChatGPT entitlements ("@ + why
        + ") — continuing"@
}

/// What is said of a model that an account may not use.
pub open spec fn refusal_text(model: Seq<char>, slugs: Seq<Seq<char>>) -> Seq<char> {
    "model '"@ + model + "' is not entitled on this ChatGPT account — entitled: "@ + sample_text(
        slugs,
    ) + " (run `/model` to pick one)"@
}

/// What asking came to: what to say, or why the model is refused.
pub open spec fn confirmed(model: Seq<char>, e: EntitlementsView) -> Result<
    Seq<Seq<char>>,
    Seq<char>,
> {
    match e {
        EntitlementsView::Fresh(slugs) => if slugs.len() == 0 {
            Ok(seq![unconfirmed_text(model, "the account catalog came back empty"@)])
        } else if slugs.contains(model) {
            Ok(Seq::empty())
        } else {
            Err(refusal_text(model, slugs))
        },
        EntitlementsView::Unavailable(why) => Ok(seq![unconfirmed_text(model, why)]),
    }
}

/// The view of what asking came to.
pub open spec fn outcome_view(r: Result<Vec<String>, String>) -> Result<
    Seq<Seq<char>>,
    Seq<char>,
> {
    match r {
        Ok(w) => Ok(text::views(w@)),
        Err(e) => Err(e@),
    }
}

fn could_not_confirm(model: &str, why: &str) -> (r: Result<Vec<String>, String>)
    ensures
        outcome_view(r) == Ok::<Seq<Seq<char>>, Seq<char>>(
            seq![unconfirmed_text(model@, why@)],
        ),
{
    let mut s = cat3(
        "⚠ couldn't confirm '",
        model,
        "' against your ChatGPT entitlements (",
    );
    s.append(why);
    s.append(") — continuing");
    let mut w: Vec<String> = Vec::new();
    w.push(s);
    assert(text::views(w@) =~= seq![unconfirmed_text(model@, why@)]);
    Ok(w)
}

/// What asking came to. A list that was fetched just now proves both that a model may be
/// used and that it may not; without one nothing is refused. An empty list says nothing.
pub fn confirm(model: &str, e: &Entitlements) -> (r: Result<Vec<String>, String>)
    ensures
        outcome_view(r) == confirmed(model@, e@),
{
    match e {
        Entitlements::Fresh(slugs) => {
            assert(text::views(slugs@).len() == slugs@.len());
            if slugs.len() == 0 {
                return could_not_confirm(model, "the account catalog came back empty");
            }
            if has_string(slugs, model) {
                let none: Vec<String> = Vec::new();
                assert(text::views(none@) =~= Seq::empty());
                return Ok(none);
            }
            let mut s = cat3(
                "model '",
                model,
                "' is not entitled on this ChatGPT account — entitled: ",
            );
            s.append(sample(slugs).as_str());
            s.append(" (run `/model` to pick one)");
            Err(s)
        },
        Entitlements::Unavailable(why) => could_not_confirm(model, why.as_str()),
    }
}

/// Whether there is anything to ask.
pub fn needs_confirmation(v: &Identity) -> (r: bool)
    ensures
        r == (v@ is Unconfirmed),
{
    match v {
        Identity::Known(_) => false,
        Identity::Unconfirmed(_) => true,
    }
}

/// What is known of a model in the end. `fetched` is what came of asking, which is done
/// only where [`needs_confirmation`] says so.
pub fn confirm_identity(v: Identity, fetched: &Entitlements) -> (r: Result<Vec<String>, String>)
    ensures
        outcome_view(r) == (match v@ {
            IdentityView::Known(w) => Ok(w),
            IdentityView::Unconfirmed(u) => confirmed(u.model, fetched@),
        }),
{
    match v {
        Identity::Known(w) => Ok(w),
        Identity::Unconfirmed(u) => confirm(u.model.as_str(), fetched),
    }
}

/// A model is refused only where a list that was fetched just now, and that is not
/// empty, does not have it.
pub proof fn law_only_proof_refuses(
    m: ResolvedModel<Seq<char>>,
    shadowed: bool,
    entitled: Option<Seq<Seq<char>>>,
    listed: Option<Seq<Seq<char>>>,
    fetched: EntitlementsView,
)
    requires
        match identity(m, shadowed, entitled, listed) {
            IdentityView::Known(w) => false,
            IdentityView::Unconfirmed(u) => confirmed(u.model, fetched) is Err,
        },
    ensures
        m.codex_oauth,
        fetched matches EntitlementsView::Fresh(slugs) && slugs.len() > 0 && !slugs.contains(
            m.reference.model,
        ),
        !(entitled matches Some(rows) && rows.contains(m.reference.model)),
{
}

/// A model that is on the account's list is accepted without asking, however old that
/// list is; and of a provider that the user configured nothing is said.
pub proof fn law_known_models_are_not_asked_for(
    m: ResolvedModel<Seq<char>>,
    shadowed: bool,
    rows: Seq<Seq<char>>,
    listed: Option<Seq<Seq<char>>>,
)
    ensures
        m.codex_oauth && rows.contains(m.reference.model) ==> identity(
            m,
            shadowed,
            Some(rows),
            listed,
        ) == IdentityView::Known(Seq::empty()),
        !m.codex_oauth && shadowed ==> identity(m, shadowed, Some(rows), listed)
            == IdentityView::Known(Seq::empty()),
        !m.codex_oauth ==> identity(m, shadowed, Some(rows), listed) is Known,
{
}

// ---------------------------------------------------------------------------
// The placeholder
// ---------------------------------------------------------------------------

/// What is said where a server has models and none of them was named.
pub open spec fn placeholder_text(r: ModelRef<Seq<char>>, models: Seq<Seq<char>>) -> Seq<char> {
    "this endpoint serves "@ + text::decimal(models.len()) + " models — name one (e.g. --model '"@
        + r.provider + "://"@ + models[0] + "'); '"@ + PLACEHOLDER_MODEL@
        + "' only means something on a server with no model list. It serves: "@ + sample_text(
        models,
    )
}

/// Whether the placeholder says nothing at a server with these models.
pub open spec fn placeholder_is_empty(
    r: ModelRef<Seq<char>>,
    advertised: Option<Seq<Seq<char>>>,
) -> bool {
    r.model == PLACEHOLDER_MODEL@ && (advertised matches Some(models) && models.len() > 0)
}

/// Refuse the placeholder at a server that has models to name. Where it is not known
/// which models a server has, or it has none, the placeholder is right.
pub fn validate_placeholder_model(r: &ModelRef, advertised: Option<&Vec<String>>) -> (out: Result<
    (),
    String,
>)
    ensures
        match out {
            Ok(_) => !placeholder_is_empty(r@, opt_list(advertised)),
            Err(e) => placeholder_is_empty(r@, opt_list(advertised)) && e@ == placeholder_text(
                r@,
                opt_list(advertised)->0,
            ),
        },
{
    if !str_eq(r.model.as_str(), PLACEHOLDER_MODEL) {
        return Ok(());
    }
    let models = match advertised {
        Some(m) => m,
        None => {
            return Ok(());
        },
    };
    let ghost all = text::views(models@);
    assert(all.len() == models@.len());
    if models.len() == 0 {
        return Ok(());
    }
    assert(all[0] == models@[0]@);
    let mut s = cat3(
        "this endpoint serves ",
        decimal_string(models.len() as u64).as_str(),
        " models — name one (e.g. --model '",
    );
    s.append(r.provider.as_str());
    s.append("://");
    s.append(models[0].as_str());
    s.append("'); '");
    s.append(PLACEHOLDER_MODEL);
    s.append("' only means something on a server with no model list. It serves: ");
    s.append(sample(models).as_str());
    Err(s)
}

// ---------------------------------------------------------------------------
// A provider at another address
// ---------------------------------------------------------------------------

/// What is known of an address that a provider was moved to, and of its own.
#[derive(Debug, Clone, PartialEq, Eq)]
pub struct Relocation<S = String> {
    /// The provider's own host.
    pub canonical_host: S,
    /// The host that it was moved to.
    pub host: S,
    /// The protocol that is spoken at its own address.
    pub was: S,
    /// The protocol that is spoken at the other.
    pub now: S,
    /// The other address is on this machine.
    pub local: bool,
}

impl View for Relocation<String> {
    type V = Relocation<Seq<char>>;

    open spec fn view(&self) -> Relocation<Seq<char>> {
        Relocation {
            canonical_host: self.canonical_host@,
            host: self.host@,
            was: self.was@,
            now: self.now@,
            local: self.local,
        }
    }
}

/// `s` without the slashes that it ends with.
pub open spec fn without_end_slashes(s: Seq<char>) -> Seq<char>
    decreases s.len(),
{
    if s.len() > 0 && s.last() == '/' {
        without_end_slashes(s.drop_last())
    } else {
        s
    }
}

fn strip_end_slashes(s: &str) -> (r: String)
    ensures
        r@ == without_end_slashes(s@),
{
    let v = text::chars_of(s);
    let mut n: usize = v.len();
    assert(v@.take(n as int) =~= v@);
    while n > 0 && v[n - 1] == '/'
        invariant
            n <= v@.len(),
            without_end_slashes(v@) == without_end_slashes(v@.take(n as int)),
        decreases n,
    {
        assert(v@.take(n as int).drop_last() =~= v@.take(n - 1));
        n = n - 1;
    }
    assert(v@.take(n as int) =~= v@.subrange(0, n as int));
    text::string_of_range(&v, 0, n)
}

/// What is said of a provider at another address: that another protocol is spoken there,
/// and that its key goes there.
pub open spec fn relocation_lines(
    m: ResolvedModel<Seq<char>>,
    canonical: Seq<char>,
    f: Relocation<Seq<char>>,
) -> Seq<Seq<char>> {
    if without_end_slashes(m.base_url) == without_end_slashes(canonical) {
        Seq::empty()
    } else {
        (if f.was != f.now {
            seq![
                "⚠ --base-url moves "@ + m.reference.provider + " off "@ + f.canonical_host
                    + " — hrdr will speak the "@ + f.now + " API here, not "@ + f.was + "'s"@,
            ]
        } else {
            Seq::empty()
        }) + (if m.has_key && !f.local && f.host != f.canonical_host {
            seq![
                "⚠ your "@ + m.reference.provider + " API key will be sent to "@ + f.host
                    + " (--base-url moved the endpoint off "@ + f.canonical_host + ")"@,
            ]
        } else {
            Seq::empty()
        })
    }
}

/// What is said of a provider at another address.
pub fn relocation_warnings(m: &ResolvedModel, canonical_base_url: &str, f: &Relocation) -> (r: Vec<
    String,
>)
    ensures
        text::views(r@) == relocation_lines(m@, canonical_base_url@, f@),
{
    let mut out: Vec<String> = Vec::new();
    assert(text::views(out@) =~= Seq::empty());
    if str_eq(
        strip_end_slashes(m.base_url.as_str()).as_str(),
        strip_end_slashes(canonical_base_url).as_str(),
    ) {
        return out;
    }
    let name = m.reference.provider.as_str();
    if !str_eq(f.was.as_str(), f.now.as_str()) {
        let mut s = cat3("⚠ --base-url moves ", name, " off ");
        s.append(f.canonical_host.as_str());
        s.append(" — hrdr will speak the ");
        s.append(f.now.as_str());
        s.append(" API here, not ");
        s.append(f.was.as_str());
        s.append("'s");
        out.push(s);
    }
    if m.has_key && !f.local && !str_eq(f.host.as_str(), f.canonical_host.as_str()) {
        let mut s = cat3("⚠ your ", name, " API key will be sent to ");
        s.append(f.host.as_str());
        s.append(" (--base-url moved the endpoint off ");
        s.append(f.canonical_host.as_str());
        s.append(")");
        out.push(s);
    }
    assert(text::views(out@) =~= relocation_lines(m@, canonical_base_url@, f@));
    out
}

/// Nothing is said of a provider at its own address, nor of a key where there is none or
/// it stays on this machine or at the provider.
pub proof fn law_a_key_that_stays_is_not_mentioned(
    m: ResolvedModel<Seq<char>>,
    canonical: Seq<char>,
    f: Relocation<Seq<char>>,
)
    ensures
        m.base_url == canonical ==> relocation_lines(m, canonical, f).len() == 0,
        f.was == f.now && (!m.has_key || f.local || f.host == f.canonical_host)
            ==> relocation_lines(m, canonical, f).len() == 0,
{
}

/// Asking settles whether an account may use a model: it may where the fresh list has it,
/// and may not where that list has others but not it, of which it then says so by name;
/// where there is no list, or an empty one, the model is used and that is told.
pub proof fn law_a_fresh_list_settles_it(
    model: Seq<char>,
    slugs: Seq<Seq<char>>,
    why: Seq<char>,
    i: int,
)
    ensures
        0 <= i < slugs.len() && slugs[i] == model ==> confirmed(
            model,
            EntitlementsView::Fresh(slugs),
        ) == Ok::<Seq<Seq<char>>, Seq<char>>(Seq::empty()),
        slugs.len() > 0 && (forall|k: int| 0 <= k < slugs.len() ==> #[trigger] slugs[k] != model)
            ==> (confirmed(model, EntitlementsView::Fresh(slugs)) matches Err(e) && text::contains(
            e,
            model,
        )),
        confirmed(model, EntitlementsView::Fresh(Seq::empty())) matches Ok(w) && w.len() == 1
            && text::contains(w[0], model),
        confirmed(model, EntitlementsView::Unavailable(why)) matches Ok(w) && w.len() == 1
            && text::contains(w[0], model) && text::contains(w[0], why),
{
    if 0 <= i < slugs.len() && slugs[i] == model {
        assert(slugs.contains(model));
    }
    text::lemma_holds_itself(model);
    text::lemma_holds_itself(why);
    let e = refusal_text(model, slugs);
    let a = "model '"@;
    text::lemma_part_holds(a, model, e.skip((a.len() + model.len()) as int), model);
    assert(a + model + e.skip((a.len() + model.len()) as int) =~= e);
    lemma_unconfirmed(model, why);
    lemma_unconfirmed(model, "the account catalog came back empty"@);
}

#[verifier::rlimit(40)]
proof fn lemma_unconfirmed(model: Seq<char>, why: Seq<char>)
    ensures
        text::contains(unconfirmed_text(model, why), model),
        text::contains(unconfirmed_text(model, why), why),
{
    let t = unconfirmed_text(model, why);
    text::lemma_holds_itself(model);
    text::lemma_holds_itself(why);
    let a = "⚠ couldn't confirm '"@;
    text::lemma_part_holds(a, model, t.skip((a.len() + model.len()) as int), model);
    assert(a + model + t.skip((a.len() + model.len()) as int) =~= t);
    let b = a + model + "' against your ChatGPT entitlements ("@;
    text::lemma_part_holds(b, why, t.skip((b.len() + why.len()) as int), why);
    assert(b + why + t.skip((b.len() + why.len()) as int) =~= t);
}

/// What is known without asking: a model of an account that is not on its list has to be
/// asked about, by its own name and where it is reached; one of a public provider that the
/// catalogue knows without it is warned of by its name; nothing is said of any other.
#[verifier::rlimit(40)]
pub proof fn law_what_is_known_without_asking(
    m: ResolvedModel<Seq<char>>,
    rows: Seq<Seq<char>>,
    listed: Seq<Seq<char>>,
)
    ensures
        m.codex_oauth && (forall|k: int|
            0 <= k < rows.len() ==> #[trigger] rows[k] != m.reference.model) ==> (identity(
            m,
            false,
            Some(rows),
            Some(listed),
        ) matches IdentityView::Unconfirmed(u) && u.model == m.reference.model && u.kind == m.kind
            && u.base_url == m.base_url),
        m.codex_oauth ==> identity(m, false, None, Some(listed)) is Unconfirmed,
        !m.codex_oauth && m.kind != ResolvedProviderKind::Custom && listed.len() > 0 && (
        forall|k: int| 0 <= k < listed.len() ==> #[trigger] listed[k] != m.reference.model) ==> (
        identity(m, false, Some(rows), Some(listed)) matches IdentityView::Known(w) && w.len() == 1
            && text::contains(w[0], m.reference.model) && text::contains(
            w[0],
            m.reference.provider,
        )),
        !m.codex_oauth && listed.contains(m.reference.model) ==> identity(
            m,
            false,
            Some(rows),
            Some(listed),
        ) == IdentityView::Known(Seq::empty()),
        !m.codex_oauth ==> identity(m, false, Some(rows), None) == IdentityView::Known(Seq::empty()),
{
    let r = m.reference;
    let t = unlisted(r);
    text::lemma_holds_itself(r.model);
    text::lemma_holds_itself(r.provider);
    let a = "⚠ models.dev doesn't list '"@;
    text::lemma_part_holds(a, r.model, t.skip((a.len() + r.model.len()) as int), r.model);
    assert(a + r.model + t.skip((a.len() + r.model.len()) as int) =~= t);
    let b = a + r.model + "' on "@;
    text::lemma_part_holds(b, r.provider, t.skip((b.len() + r.provider.len()) as int), r.provider);
    assert(b + r.provider + t.skip((b.len() + r.provider.len()) as int) =~= t);
}

/// The placeholder is refused exactly at a server that is known to have models, and one of
/// them is then named.
#[verifier::rlimit(40)]
pub proof fn law_the_placeholder_is_refused_where_models_are_known(
    r: ModelRef<Seq<char>>,
    models: Seq<Seq<char>>,
)
    ensures
        r.model != PLACEHOLDER_MODEL@ ==> !placeholder_is_empty(r, Some(models)),
        !placeholder_is_empty(r, None),
        !placeholder_is_empty(r, Some(Seq::empty())),
        r.model == PLACEHOLDER_MODEL@ && models.len() > 0 ==> placeholder_is_empty(r, Some(models))
            && text::contains(placeholder_text(r, models), r.provider + "://"@ + models[0]),
{
    if models.len() > 0 {
        let name = r.provider + "://"@ + models[0];
        let before = "this endpoint serves "@ + text::decimal(models.len())
            + " models — name one (e.g. --model '"@;
        let named = before + name;
        assert(named =~= before + r.provider + "://"@ + models[0]);
        let quoted = named + "'); '"@;
        let said = quoted + PLACEHOLDER_MODEL@;
        let means = "' only means something on a server with no model list. It serves: "@;
        text::lemma_holds_itself(name);
        text::lemma_sum_holds(before, name, name);
        text::lemma_sum_holds(named, "'); '"@, name);
        text::lemma_sum_holds(quoted, PLACEHOLDER_MODEL@, name);
        text::lemma_sum_holds(said, means, name);
        text::lemma_sum_holds(said + means, sample_text(models), name);
    }
}

/// The user is told where their key goes when an endpoint is moved off the provider's own
/// to another machine: to that machine, by its name.
#[verifier::rlimit(40)]
pub proof fn law_a_key_that_leaves_is_told(
    m: ResolvedModel<Seq<char>>,
    canonical: Seq<char>,
    f: Relocation<Seq<char>>,
)
    requires
        m.has_key,
        !f.local,
        f.host != f.canonical_host,
        without_end_slashes(m.base_url) != without_end_slashes(canonical),
    ensures
        relocation_lines(m, canonical, f).len() > 0,
        text::contains(relocation_lines(m, canonical, f).last(), f.host),
        text::contains(relocation_lines(m, canonical, f).last(), m.reference.provider),
{
    let t = relocation_lines(m, canonical, f).last();
    let p = m.reference.provider;
    text::lemma_holds_itself(f.host);
    text::lemma_holds_itself(p);
    let a = "⚠ your "@;
    text::lemma_part_holds(a, p, t.skip((a.len() + p.len()) as int), p);
    assert(a + p + t.skip((a.len() + p.len()) as int) =~= t);
    let b = a + p + " API key will be sent to "@;
    text::lemma_part_holds(b, f.host, t.skip((b.len() + f.host.len()) as int), f.host);
    assert(b + f.host + t.skip((b.len() + f.host.len()) as int) =~= t);
}

} // verus!
