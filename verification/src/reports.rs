//! What the commands that look at the session and at the agent report.
use crate::config;
use crate::format::{fmt_cost_maybe_partial, fmt_count};
use crate::json;
use crate::text;
use crate::text::{cat, cat3, decimal_string, join_strings, pad_right};
use vstd::prelude::*;

verus! {

/// A text, or a dash where there is none.
pub open spec fn or_dash(s: Option<Seq<char>>) -> Seq<char> {
    match s {
        Some(t) => t,
        None => "—"@,
    }
}

fn dashed(s: &Option<String>) -> (r: &str)
    ensures
        r@ == or_dash(json::opt_view(*s)),
{
    match s {
        Some(t) => t.as_str(),
        None => "—",
    }
}

/// A number, or a dash where there is none.
pub open spec fn number_or_dash(n: Option<u32>) -> Seq<char> {
    match n {
        Some(v) => text::decimal(v as nat),
        None => "—"@,
    }
}

fn dashed_number(n: Option<u32>) -> (r: String)
    ensures
        r@ == number_or_dash(n),
{
    match n {
        Some(v) => decimal_string(v as u64),
        None => "—".to_string(),
    }
}

// ---------------------------------------------------------------------------
// Tools, prompt, guardrails
// ---------------------------------------------------------------------------

/// The lines of the first `n` tools.
pub open spec fn tool_lines(tools: Seq<(Seq<char>, Seq<char>)>, n: int) -> Seq<char>
    decreases n,
{
    if n <= 0 {
        Seq::empty()
    } else {
        tool_lines(tools, n - 1) + ("\n  "@ + text::padded(tools[n - 1].0, 12) + tools[n - 1].1)
    }
}

/// The tools that the model has: the name and the description of each, in two columns.
pub fn tools_text(tools: &Vec<(String, String)>) -> (r: String)
    ensures
        r@ == text::decimal(tools@.len()) + " tools:"@ + tool_lines(
            text::pairs(tools@),
            tools@.len() as int,
        ),
{
    let ghost all = text::pairs(tools@);
    let mut lines = String::new();
    assert(lines@ =~= tool_lines(all, 0));
    for i in 0..tools.len()
        invariant
            all == text::pairs(tools@),
            lines@ == tool_lines(all, i as int),
    {
        assert(all[i as int].0 == tools@[i as int].0@);
        let line = cat3(
            "\n  ",
            pad_right(tools[i].0.as_str(), 12).as_str(),
            tools[i].1.as_str(),
        );
        lines.append(line.as_str());
        assert(lines@ == tool_lines(all, i + 1));
    }
    cat3(decimal_string(tools.len() as u64).as_str(), " tools:", lines.as_str())
}

/// The system prompt, under a line with its length.
pub fn prompt_text(prompt: Option<&str>) -> (r: String)
    ensures
        r@ == (match config::opt_str_view(prompt) {
            Some(p) => "system prompt ("@ + text::decimal(p.len()) + " chars):\n"@ + p,
            None => "no system prompt is set"@,
        }),
{
    match prompt {
        Some(p) => {
            let count = text::chars_of(p).len();
            let mut s = cat3(
                "system prompt (",
                decimal_string(count as u64).as_str(),
                " chars):\n",
            );
            s.append(p);
            s
        },
        None => "no system prompt is set".to_string(),
    }
}

/// The lines of the first `n` guardrails.
pub open spec fn rail_lines(rails: Seq<(Seq<char>, Seq<char>)>, n: int) -> Seq<char>
    decreases n,
{
    if n <= 0 {
        Seq::empty()
    } else {
        rail_lines(rails, n - 1) + ("\n  "@ + rails[n - 1].0 + "\n    → "@ + rails[n - 1].1)
    }
}

/// The guardrails: what each forbids, and what is said of it.
pub fn guardrails_text(rails: &Vec<(String, String)>) -> (r: String)
    ensures
        r@ == text::decimal(rails@.len())
            + " guardrails (blocked shell commands; add more via [[guardrails]] in config):"@
            + rail_lines(text::pairs(rails@), rails@.len() as int),
{
    let ghost all = text::pairs(rails@);
    let mut lines = String::new();
    assert(lines@ =~= rail_lines(all, 0));
    for i in 0..rails.len()
        invariant
            all == text::pairs(rails@),
            lines@ == rail_lines(all, i as int),
    {
        assert(all[i as int].0 == rails@[i as int].0@);
        let mut line = cat3("\n  ", rails[i].0.as_str(), "\n    → ");
        line.append(rails[i].1.as_str());
        lines.append(line.as_str());
        assert(lines@ == rail_lines(all, i + 1));
    }
    cat3(
        decimal_string(rails.len() as u64).as_str(),
        " guardrails (blocked shell commands; add more via [[guardrails]] in config):",
        lines.as_str(),
    )
}

/// The sampling temperature, or that there is none of its own.
pub open spec fn temperature_or_default(t: Option<Seq<char>>) -> Seq<char> {
    match t {
        Some(s) => s,
        None => "default"@,
    }
}

/// What is said of the sampling temperature.
pub fn temperature_text(t: Option<&str>) -> (r: String)
    ensures
        r@ == "temperature: "@ + temperature_or_default(config::opt_str_view(t)),
{
    cat(
        "temperature: ",
        match t {
            Some(s) => s,
            None => "default",
        },
    )
}

// ---------------------------------------------------------------------------
// The session
// ---------------------------------------------------------------------------

/// What the prompt cache did in the session.
#[derive(Debug, Clone, PartialEq, Eq)]
pub struct CacheFigures<S = String> {
    /// The share of the prompts that was read from it, in whole percent.
    pub percent: S,
    /// How many tokens were read from it.
    pub read: usize,
    /// How many were written to it.
    pub written: usize,
}

impl View for CacheFigures<String> {
    type V = CacheFigures<Seq<char>>;

    open spec fn view(&self) -> CacheFigures<Seq<char>> {
        CacheFigures { percent: self.percent@, read: self.read, written: self.written }
    }
}

/// What the session used so far.
#[derive(Debug, Clone, PartialEq, Eq)]
pub struct SessionUsage<S = String> {
    pub tokens_in: usize,
    pub tokens_out: usize,
    /// What it cost, as it is shown; `None` where nothing was priced.
    pub cost: Option<S>,
    /// Whether some of it could not be priced.
    pub cost_partial: bool,
    /// What the prompt cache did; `None` where the endpoint says nothing of it.
    pub cache: Option<CacheFigures<S>>,
}

impl View for SessionUsage<String> {
    type V = SessionUsage<Seq<char>>;

    open spec fn view(&self) -> SessionUsage<Seq<char>> {
        SessionUsage {
            tokens_in: self.tokens_in,
            tokens_out: self.tokens_out,
            cost: json::opt_view(self.cost),
            cost_partial: self.cost_partial,
            cache: match self.cache {
                Some(c) => Some(c@),
                None => None,
            },
        }
    }
}

/// What is said of the prompt cache.
pub open spec fn cache_text(c: CacheFigures<Seq<char>>) -> Seq<char> {
    c.percent + "% read ("@ + crate::format::count_text(c.read as nat) + "), "@ + crate::format::count_text(
        c.written as nat,
    ) + " written"@
}

fn cache_string(c: &CacheFigures) -> (r: String)
    ensures
        r@ == cache_text(c@),
{
    let mut s = cat3(c.percent.as_str(), "% read (", fmt_count(c.read).as_str());
    s.append("), ");
    s.append(fmt_count(c.written).as_str());
    s.append(" written");
    s
}

/// What `/cost` says.
pub open spec fn usage_text(u: SessionUsage<Seq<char>>) -> Seq<char> {
    "session tokens: ↑"@ + text::decimal(u.tokens_in as nat) + " input · ↓"@ + text::decimal(
        u.tokens_out as nat,
    ) + " output"@ + (match u.cache {
        Some(c) => " · prompt cache: "@ + cache_text(c),
        None => Seq::empty(),
    }) + (match u.cost {
        Some(c) => " · est. "@ + crate::format::cost_text(c, u.cost_partial),
        None => Seq::empty(),
    })
}

/// What `/cost` says: the tokens, what the prompt cache did where that is known, and what
/// it cost where that is.
pub fn cost_line(u: &SessionUsage) -> (r: String)
    ensures
        r@ == usage_text(u@),
{
    let mut s = cat3(
        "session tokens: ↑",
        decimal_string(u.tokens_in as u64).as_str(),
        " input · ↓",
    );
    s.append(decimal_string(u.tokens_out as u64).as_str());
    s.append(" output");
    match &u.cache {
        Some(c) => {
            s.append(cat(" · prompt cache: ", cache_string(c).as_str()).as_str());
        },
        None => {
            assert(s@ + Seq::empty() =~= s@);
        },
    }
    match &u.cost {
        Some(c) => {
            s.append(
                cat(" · est. ", fmt_cost_maybe_partial(c.as_str(), u.cost_partial).as_str()).as_str(),
            );
        },
        None => {
            assert(s@ + Seq::empty() =~= s@);
        },
    }
    s
}

/// What is known of the prompt cache is added to the line; without it nothing is said of
/// the cache.
pub proof fn law_cache_figures_are_an_addition(
    u: SessionUsage<Seq<char>>,
    c: CacheFigures<Seq<char>>,
)
    requires
        u.cache is None,
    ensures
        usage_text(SessionUsage { cache: Some(c), cost: None, ..u }) == usage_text(
            SessionUsage { cost: None, ..u },
        ) + " · prompt cache: "@ + cache_text(c),
{
    let plain = usage_text(SessionUsage { cost: None, ..u });
    assert(plain =~= "session tokens: ↑"@ + text::decimal(u.tokens_in as nat) + " input · ↓"@
        + text::decimal(u.tokens_out as nat) + " output"@);
    assert(usage_text(SessionUsage { cache: Some(c), cost: None, ..u }) =~= plain
        + " · prompt cache: "@ + cache_text(c));
}

/// What is known of the session without asking anyone.
#[derive(Debug, Clone, PartialEq, Eq)]
pub struct SessionStatus<S = String> {
    /// What it is stored under, where it is.
    pub id: Option<S>,
    /// The name that the user gave it.
    pub label: Option<S>,
    pub model: S,
    pub base_url: S,
    /// How many tokens the last prompt had.
    pub context_used: Option<u32>,
    /// How many tokens the model takes.
    pub context_window: Option<u32>,
    pub effort: Option<S>,
    pub usage: SessionUsage<S>,
}

impl View for SessionStatus<String> {
    type V = SessionStatus<Seq<char>>;

    open spec fn view(&self) -> SessionStatus<Seq<char>> {
        SessionStatus {
            id: json::opt_view(self.id),
            label: json::opt_view(self.label),
            model: self.model@,
            base_url: self.base_url@,
            context_used: self.context_used,
            context_window: self.context_window,
            effort: json::opt_view(self.effort),
            usage: self.usage@,
        }
    }
}

/// What the agent and the working directory say of themselves.
#[derive(Debug, Clone, PartialEq, Eq)]
pub struct AgentStatus<S = String> {
    /// The sampling temperature, as it is shown; `None` for the default.
    pub temperature: Option<S>,
    /// How many messages the conversation has.
    pub messages: usize,
    /// Whether the prompt cache is used.
    pub prompt_cache: bool,
    /// The working directory, as it is shown.
    pub dir: S,
    /// The branch that is checked out there.
    pub branch: Option<S>,
}

impl View for AgentStatus<String> {
    type V = AgentStatus<Seq<char>>;

    open spec fn view(&self) -> AgentStatus<Seq<char>> {
        AgentStatus {
            temperature: json::opt_view(self.temperature),
            messages: self.messages,
            prompt_cache: self.prompt_cache,
            dir: self.dir@,
            branch: json::opt_view(self.branch),
        }
    }
}

/// What the session is called.
pub open spec fn session_name(id: Option<Seq<char>>, label: Option<Seq<char>>) -> Seq<char> {
    match id {
        Some(i) => match label {
            Some(name) => i + "  (name: "@ + name + ")"@,
            None => i,
        },
        None => "(unsaved — send a message to start one)"@,
    }
}

/// How much of the model's context is used.
pub open spec fn context_text(used: Option<u32>, window: Option<u32>) -> Seq<char> {
    match used {
        Some(p) => match window {
            Some(w) => text::decimal(p as nat) + " / "@ + text::decimal(w as nat),
            None => text::decimal(p as nat),
        },
        None => "—"@,
    }
}

fn session_string(id: &Option<String>, label: &Option<String>) -> (r: String)
    ensures
        r@ == session_name(json::opt_view(*id), json::opt_view(*label)),
{
    match id {
        Some(i) => match label {
            Some(name) => {
                let mut s = cat3(i.as_str(), "  (name: ", name.as_str());
                s.append(")");
                s
            },
            None => i.clone(),
        },
        None => "(unsaved — send a message to start one)".to_string(),
    }
}

fn context_string(used: Option<u32>, window: Option<u32>) -> (r: String)
    ensures
        r@ == context_text(used, window),
{
    match used {
        Some(p) => match window {
            Some(w) => cat3(
                decimal_string(p as u64).as_str(),
                " / ",
                decimal_string(w as u64).as_str(),
            ),
            None => decimal_string(p as u64),
        },
        None => "—".to_string(),
    }
}

/// The lines of a status up to the tokens.
pub open spec fn status_head(s: SessionStatus<Seq<char>>, a: AgentStatus<Seq<char>>) -> Seq<char> {
    "session: "@ + session_name(s.id, s.label) + "\nmodel: "@ + s.model + "\nendpoint: "@
        + s.base_url + "\ncwd: "@ + a.dir + " ("@ + or_dash(a.branch) + ")\ncontext: "@
        + context_text(s.context_used, s.context_window) + "\ntokens: ↑"@ + text::decimal(
        s.usage.tokens_in as nat,
    ) + " ↓"@ + text::decimal(s.usage.tokens_out as nat)
}

/// The lines of a status up to the tokens.
pub fn status_top(s: &SessionStatus, a: &AgentStatus) -> (r: String)
    ensures
        r@ == status_head(s@, a@),
{
    let mut out = cat3("session: ", session_string(&s.id, &s.label).as_str(), "\nmodel: ");
    out.append(s.model.as_str());
    out.append("\nendpoint: ");
    out.append(s.base_url.as_str());
    out.append("\ncwd: ");
    out.append(a.dir.as_str());
    out.append(" (");
    out.append(dashed(&a.branch));
    out.append(")\ncontext: ");
    out.append(context_string(s.context_used, s.context_window).as_str());
    out.append("\ntokens: ↑");
    out.append(decimal_string(s.usage.tokens_in as u64).as_str());
    out.append(" ↓");
    out.append(decimal_string(s.usage.tokens_out as u64).as_str());
    out
}

/// What `/status` says.
pub open spec fn status(s: SessionStatus<Seq<char>>, a: AgentStatus<Seq<char>>) -> Seq<char> {
    status_head(s, a) + (match s.usage.cost {
        Some(c) => "\ncost: "@ + crate::format::cost_text(c, s.usage.cost_partial) + " (est.)"@,
        None => Seq::empty(),
    }) + "\ntemperature: "@ + temperature_or_default(a.temperature) + "\neffort: "@ + or_dash(
        s.effort,
    ) + "\nprompt cache: "@ + (if a.prompt_cache {
        "on"@
    } else {
        "off"@
    }) + (match s.usage.cache {
        Some(c) => " · "@ + cache_text(c),
        None => Seq::empty(),
    }) + "\nmessages: "@ + text::decimal(a.messages as nat)
}

/// What `/status` says.
pub fn status_text(s: &SessionStatus, a: &AgentStatus) -> (r: String)
    ensures
        r@ == status(s@, a@),
{
    let mut out = status_top(s, a);
    match &s.usage.cost {
        Some(c) => {
            let cost = fmt_cost_maybe_partial(c.as_str(), s.usage.cost_partial);
            out.append(cat3("\ncost: ", cost.as_str(), " (est.)").as_str());
        },
        None => {
            assert(out@ + Seq::empty() =~= out@);
        },
    }
    out.append("\ntemperature: ");
    out.append(
        match &a.temperature {
            Some(t) => t.as_str(),
            None => "default",
        },
    );
    out.append("\neffort: ");
    out.append(dashed(&s.effort));
    out.append("\nprompt cache: ");
    out.append(
        if a.prompt_cache {
            "on"
        } else {
            "off"
        },
    );
    match &s.usage.cache {
        Some(c) => {
            out.append(cat(" · ", cache_string(c).as_str()).as_str());
        },
        None => {
            assert(out@ + Seq::empty() =~= out@);
        },
    }
    out.append("\nmessages: ");
    out.append(decimal_string(a.messages as u64).as_str());
    out
}

// ---------------------------------------------------------------------------
// Health
// ---------------------------------------------------------------------------

/// What `/doctor` says at once.
pub open spec fn doctor_head(
    s: SessionStatus<Seq<char>>,
    dir: Seq<char>,
    config_path: Option<Seq<char>>,
) -> Seq<char> {
    "model: "@ + s.model + "\nendpoint: "@ + s.base_url + "\ncontext window: "@ + number_or_dash(
        s.context_window,
    ) + "\ncwd: "@ + dir + "\nconfig: "@ + or_dash(config_path) + "\nprobing endpoint…"@
}

/// What `/doctor` says at once, before anything is looked up.
pub fn doctor_header(s: &SessionStatus, dir: &str, config_path: &Option<String>) -> (r: String)
    ensures
        r@ == doctor_head(s@, dir@, json::opt_view(*config_path)),
{
    let mut out = cat3("model: ", s.model.as_str(), "\nendpoint: ");
    out.append(s.base_url.as_str());
    out.append("\ncontext window: ");
    out.append(dashed_number(s.context_window).as_str());
    out.append("\ncwd: ");
    out.append(dir);
    out.append("\nconfig: ");
    out.append(dashed(config_path));
    out.append("\nprobing endpoint…");
    out
}

/// A language server, as it is reported.
#[derive(Debug, Clone, PartialEq, Eq)]
pub struct LspReport {
    pub command: String,
    /// The file extensions that it is for.
    pub extensions: Vec<String>,
    /// How it is.
    pub status: String,
}

/// The view of a [`LspReport`].
pub struct LspReportView {
    pub command: Seq<char>,
    pub extensions: Seq<Seq<char>>,
    pub status: Seq<char>,
}

impl View for LspReport {
    type V = LspReportView;

    open spec fn view(&self) -> LspReportView {
        LspReportView {
            command: self.command@,
            extensions: text::views(self.extensions@),
            status: self.status@,
        }
    }
}

/// The views of a list of reports.
pub open spec fn lsp_reports(v: Seq<LspReport>) -> Seq<LspReportView> {
    Seq::new(v.len(), |i: int| v[i]@)
}

/// The lines of the first `n` language servers.
pub open spec fn lsp_lines(v: Seq<LspReportView>, n: int) -> Seq<char>
    decreases n,
{
    if n <= 0 {
        Seq::empty()
    } else {
        lsp_lines(v, n - 1) + ("\n  "@ + v[n - 1].command + " (."@ + text::join(
            v[n - 1].extensions,
            "/."@,
        ) + "): "@ + v[n - 1].status)
    }
}

/// What is said of the language servers.
pub open spec fn lsp_text(servers: Option<(u64, Seq<LspReportView>)>) -> Seq<char> {
    match servers {
        None => "lsp: disabled"@,
        Some((wait, v)) => "lsp: enabled (wait "@ + text::decimal(wait as nat) + "ms)"@ + lsp_lines(
            v,
            v.len() as int,
        ),
    }
}

/// The view of what is known of the language servers.
pub open spec fn lsp_view(servers: Option<(u64, Vec<LspReport>)>) -> Option<
    (u64, Seq<LspReportView>),
> {
    match servers {
        Some((wait, v)) => Some((wait, lsp_reports(v@))),
        None => None,
    }
}

/// What is said of the language servers: that they are off, or how long is waited for
/// them, and how each of them is.
pub fn lsp_status_text(servers: &Option<(u64, Vec<LspReport>)>) -> (r: String)
    ensures
        r@ == lsp_text(lsp_view(*servers)),
{
    match servers {
        None => "lsp: disabled".to_string(),
        Some((wait, v)) => {
            let ghost all = lsp_reports(v@);
            let mut lines = String::new();
            assert(lines@ =~= lsp_lines(all, 0));
            for i in 0..v.len()
                invariant
                    all == lsp_reports(v@),
                    lines@ == lsp_lines(all, i as int),
            {
                assert(all[i as int] == v@[i as int]@);
                let mut line = cat3("\n  ", v[i].command.as_str(), " (.");
                line.append(join_strings(&v[i].extensions, "/.").as_str());
                line.append("): ");
                line.append(v[i].status.as_str());
                lines.append(line.as_str());
                assert(lines@ == lsp_lines(all, i + 1));
            }
            let head = cat3(
                "lsp: enabled (wait ",
                decimal_string(*wait).as_str(),
                "ms)",
            );
            cat(head.as_str(), lines.as_str())
        },
    }
}

/// What `/doctor` looked up.
#[derive(Debug, Clone, PartialEq, Eq)]
pub struct DoctorFindings {
    /// Whether the working directory is in a repository, and the branch where it has one.
    pub git: Option<Option<String>>,
    /// Where credentials are stored, and whether there are any.
    pub auth: Option<(String, bool)>,
    /// What is wrong with the endpoint.
    pub endpoint: Option<String>,
    /// How long language servers are waited for, and how each is; `None` where they are off.
    pub lsp: Option<(u64, Vec<LspReport>)>,
    /// The session files that cannot be read, and why.
    pub sessions: Vec<(String, String)>,
}

/// What is said of the repository.
pub open spec fn git_text(git: Option<Option<Seq<char>>>) -> Seq<char> {
    match git {
        Some(branch) => "git: on branch "@ + or_dash(branch),
        None => "git: not a repo"@,
    }
}

/// What is said of the credentials.
pub open spec fn auth_text(auth: Option<(Seq<char>, bool)>) -> Seq<char> {
    match auth {
        Some((path, found)) => "auth: "@ + path + " ("@ + (if found {
            "found"@
        } else {
            "not found"@
        }) + ")"@,
        None => "auth: —"@,
    }
}

/// The lines of the first `n` session files that cannot be read.
pub open spec fn broken_lines(v: Seq<(Seq<char>, Seq<char>)>, n: int) -> Seq<char>
    decreases n,
{
    if n <= 0 {
        Seq::empty()
    } else {
        broken_lines(v, n - 1) + ("\n  "@ + v[n - 1].0 + ": "@ + v[n - 1].1)
    }
}

/// What is said of the sessions.
pub open spec fn sessions_text(v: Seq<(Seq<char>, Seq<char>)>) -> Seq<char> {
    if v.len() > 0 {
        "\nsessions: "@ + text::decimal(v.len()) + " corrupt file(s)"@ + broken_lines(
            v,
            v.len() as int,
        )
    } else {
        "\nsessions: ✓"@
    }
}

/// The view of where credentials are.
pub open spec fn auth_view(auth: Option<(String, bool)>) -> Option<(Seq<char>, bool)> {
    match auth {
        Some((path, found)) => Some((path@, found)),
        None => None,
    }
}

/// The view of what is known of the repository.
pub open spec fn git_view(git: Option<Option<String>>) -> Option<Option<Seq<char>>> {
    match git {
        Some(branch) => Some(json::opt_view(branch)),
        None => None,
    }
}

/// What `/doctor` says in the end.
pub open spec fn findings_text(f: DoctorFindings) -> Seq<char> {
    git_text(git_view(f.git)) + "\n"@ + auth_text(auth_view(f.auth)) + "\n"@ + (match f.endpoint {
        Some(w) => w@,
        None => "✓ endpoint healthy"@,
    }) + "\n"@ + lsp_text(lsp_view(f.lsp)) + sessions_text(text::pairs(f.sessions@))
}

fn git_string(git: &Option<Option<String>>) -> (r: String)
    ensures
        r@ == git_text(git_view(*git)),
{
    match git {
        Some(branch) => cat("git: on branch ", dashed(branch)),
        None => "git: not a repo".to_string(),
    }
}

fn auth_string(auth: &Option<(String, bool)>) -> (r: String)
    ensures
        r@ == auth_text(auth_view(*auth)),
{
    match auth {
        Some((path, found)) => {
            let mut s = cat3("auth: ", path.as_str(), " (");
            s.append(
                if *found {
                    "found"
                } else {
                    "not found"
                },
            );
            s.append(")");
            s
        },
        None => "auth: —".to_string(),
    }
}

fn sessions_string(v: &Vec<(String, String)>) -> (r: String)
    ensures
        r@ == sessions_text(text::pairs(v@)),
{
    let ghost all = text::pairs(v@);
    assert(all.len() == v@.len());
    if v.len() == 0 {
        return "\nsessions: ✓".to_string();
    }
    let mut lines = String::new();
    assert(lines@ =~= broken_lines(all, 0));
    for i in 0..v.len()
        invariant
            all == text::pairs(v@),
            lines@ == broken_lines(all, i as int),
    {
        assert(all[i as int].0 == v@[i as int].0@);
        let mut line = cat3("\n  ", v[i].0.as_str(), ": ");
        line.append(v[i].1.as_str());
        lines.append(line.as_str());
        assert(lines@ == broken_lines(all, i + 1));
    }
    let head = cat3(
        "\nsessions: ",
        decimal_string(v.len() as u64).as_str(),
        " corrupt file(s)",
    );
    cat(head.as_str(), lines.as_str())
}

/// What `/doctor` says in the end: of the repository, of the credentials, of the
/// endpoint, of the language servers and of the stored sessions.
pub fn doctor_report(f: &DoctorFindings) -> (r: String)
    ensures
        r@ == findings_text(*f),
{
    let mut out = cat3(
        git_string(&f.git).as_str(),
        "\n",
        auth_string(&f.auth).as_str(),
    );
    out.append("\n");
    out.append(
        match &f.endpoint {
            Some(w) => w.as_str(),
            None => "✓ endpoint healthy",
        },
    );
    out.append("\n");
    out.append(lsp_status_text(&f.lsp).as_str());
    out.append(sessions_string(&f.sessions).as_str());
    out
}

/// The state of a session is told in full: its name, where it is saved, model, endpoint,
/// directory and branch, what has gone in and come out, and how long the conversation is.
#[verifier::rlimit(40)]
pub proof fn law_the_status_tells_all(s: SessionStatus<Seq<char>>, a: AgentStatus<Seq<char>>)
    ensures
        ({
            let t = status(s, a);
            &&& text::contains(t, s.model)
            &&& text::contains(t, s.base_url)
            &&& text::contains(t, a.dir)
            &&& a.branch matches Some(b) ==> text::contains(t, b)
            &&& s.id matches Some(i) ==> text::contains(t, i)
            &&& s.id is Some ==> (s.label matches Some(n) ==> text::contains(t, n))
            &&& text::contains(t, "↑"@ + text::decimal(s.usage.tokens_in as nat))
            &&& text::contains(t, "↓"@ + text::decimal(s.usage.tokens_out as nat))
            &&& s.effort matches Some(e) ==> text::contains(t, e)
            &&& a.temperature matches Some(x) ==> text::contains(t, x)
            &&& s.usage.cost matches Some(c) ==> text::contains(t, c)
            &&& text::decimal(a.messages as nat).is_suffix_of(t)
            &&& s.context_used matches Some(p) ==> text::contains(t, text::decimal(p as nat))
        }),
{
    broadcast use text::lemma_sum_holds;

    let t = status(s, a);
    text::lemma_holds_itself(s.model);
    text::lemma_holds_itself(s.base_url);
    text::lemma_holds_itself(a.dir);
    if let Some(b) = a.branch {
        text::lemma_holds_itself(b);
    }
    if let Some(i) = s.id {
        text::lemma_holds_itself(i);
        assert(text::contains(session_name(s.id, s.label), i));
        if let Some(n) = s.label {
            text::lemma_holds_itself(n);
            assert(text::contains(session_name(s.id, s.label), n));
        }
    }
    if let Some(e) = s.effort {
        text::lemma_holds_itself(e);
    }
    if let Some(x) = a.temperature {
        text::lemma_holds_itself(x);
    }
    if let Some(c) = s.usage.cost {
        text::lemma_holds_itself(c);
        assert(text::contains(crate::format::cost_text(c, s.usage.cost_partial), c));
    }
    if let Some(p) = s.context_used {
        text::lemma_holds_itself(text::decimal(p as nat));
        assert(text::contains(
            context_text(s.context_used, s.context_window),
            text::decimal(p as nat),
        ));
    }
    let n = text::decimal(a.messages as nat);
    assert(t.skip(t.len() - n.len()) =~= n);
    lemma_arrow(s, a);
}

#[verifier::rlimit(40)]
proof fn lemma_arrow(s: SessionStatus<Seq<char>>, a: AgentStatus<Seq<char>>)
    ensures
        text::contains(status_head(s, a), "↑"@ + text::decimal(s.usage.tokens_in as nat)),
        text::contains(status_head(s, a), "↓"@ + text::decimal(s.usage.tokens_out as nat)),
{
    broadcast use text::lemma_sum_holds;

    let up = "↑"@ + text::decimal(s.usage.tokens_in as nat);
    let down = "↓"@ + text::decimal(s.usage.tokens_out as nat);
    text::lemma_holds_itself(up);
    text::lemma_holds_itself(down);
    reveal_strlit("\ntokens: ↑");
    reveal_strlit("\ntokens: ");
    reveal_strlit("↑");
    reveal_strlit(" ↓");
    reveal_strlit(" ");
    reveal_strlit("↓");
    assert("\ntokens: ↑"@ =~= "\ntokens: "@ + "↑"@);
    assert(" ↓"@ =~= " "@ + "↓"@);
    let head = "session: "@ + session_name(s.id, s.label) + "\nmodel: "@ + s.model + "\nendpoint: "@
        + s.base_url + "\ncwd: "@ + a.dir + " ("@ + or_dash(a.branch) + ")\ncontext: "@
        + context_text(s.context_used, s.context_window);
    assert(status_head(s, a) =~= head + "\ntokens: "@ + up + " "@ + down);
}

proof fn lemma_a_shown_row(name: Seq<char>, says: Seq<char>)
    ensures
        text::contains("\n  "@ + name + says, says),
{
    text::lemma_holds_itself(says);
    text::lemma_sum_holds("\n  "@ + name, says, says);
}

proof fn lemma_a_row(a: Seq<char>, b: Seq<char>)
    ensures
        text::contains("\n  "@ + a + "\n    → "@ + b, a),
        text::contains("\n  "@ + a + "\n    → "@ + b, b),
        text::contains("\n  "@ + a + ": "@ + b, a + ": "@ + b),
{
    text::lemma_row_of_three("\n  "@, a, ": "@, b);
    lemma_an_arrow_row("\n  "@, a, "\n    → "@, b);
}

proof fn lemma_an_arrow_row(before: Seq<char>, a: Seq<char>, between: Seq<char>, b: Seq<char>)
    ensures
        text::contains(before + a + between + b, a),
        text::contains(before + a + between + b, b),
{
    text::lemma_holds_itself(a);
    text::lemma_holds_itself(b);
    text::lemma_sum_holds(before, a, a);
    text::lemma_sum_holds(before + a, between, a);
    text::lemma_sum_holds(before + a + between, b, a);
    text::lemma_sum_holds(before + a + between, b, b);
}

proof fn lemma_a_server_row(command: Seq<char>, named: Seq<char>, says: Seq<char>)
    ensures
        text::contains("\n  "@ + command + " (."@ + named + "): "@ + says, command),
        text::contains("\n  "@ + command + " (."@ + named + "): "@ + says, says),
{
    broadcast use text::lemma_sum_holds;

    text::lemma_holds_itself(command);
    text::lemma_holds_itself(says);
}

/// A report on what is installed says of every tool its name and what it does, of every
/// guard what it watches and what it says, of every language server its command and how it
/// is, and of every broken file which it is and why.
#[verifier::rlimit(40)]
pub proof fn law_a_list_tells_every_row(
    rows: Seq<(Seq<char>, Seq<char>)>,
    servers: Seq<LspReportView>,
    n: int,
    i: int,
)
    requires
        0 <= i < n,
    ensures
        n <= rows.len() ==> text::contains(tool_lines(rows, n), rows[i].1),
        n <= rows.len() ==> text::contains(rail_lines(rows, n), rows[i].0),
        n <= rows.len() ==> text::contains(rail_lines(rows, n), rows[i].1),
        n <= rows.len() ==> text::contains(broken_lines(rows, n), rows[i].0 + ": "@ + rows[i].1),
        n <= servers.len() ==> text::contains(lsp_lines(servers, n), servers[i].command),
        n <= servers.len() ==> text::contains(lsp_lines(servers, n), servers[i].status),
    decreases n,
{
    let m = n - 1;
    if i < m {
        law_a_list_tells_every_row(rows, servers, m, i);
    }
    if n <= rows.len() {
        lemma_a_row(rows[m].0, rows[m].1);
        lemma_a_shown_row(text::padded(rows[m].0, 12), rows[m].1);
        let tool = "\n  "@ + text::padded(rows[m].0, 12) + rows[m].1;
        let rail = "\n  "@ + rows[m].0 + "\n    → "@ + rows[m].1;
        let broken = "\n  "@ + rows[m].0 + ": "@ + rows[m].1;
        text::lemma_sum_holds(tool_lines(rows, m), tool, rows[i].1);
        text::lemma_sum_holds(rail_lines(rows, m), rail, rows[i].0);
        text::lemma_sum_holds(rail_lines(rows, m), rail, rows[i].1);
        text::lemma_sum_holds(broken_lines(rows, m), broken, rows[i].0 + ": "@ + rows[i].1);
    }
    if n <= servers.len() {
        let v = servers[m];
        let named = text::join(v.extensions, "/."@);
        let row = "\n  "@ + v.command + " (."@ + named + "): "@ + v.status;
        lemma_a_server_row(v.command, named, v.status);
        text::lemma_sum_holds(lsp_lines(servers, m), row, servers[i].command);
        text::lemma_sum_holds(lsp_lines(servers, m), row, servers[i].status);
    }
}

/// What a session has used is told with each figure behind its own arrow, with what the
/// cache gave and what it cost where that is known.
#[verifier::rlimit(40)]
pub proof fn law_usage_is_told_by_its_figures(u: SessionUsage<Seq<char>>)
    ensures
        text::contains(usage_text(u), text::decimal(u.tokens_in as nat) + " input"@),
        text::contains(usage_text(u), text::decimal(u.tokens_out as nat) + " output"@),
        u.cost matches Some(c) ==> text::contains(usage_text(u), c),
        u.cache matches Some(c) ==> text::contains(usage_text(u), c.percent),
{
    broadcast use text::lemma_sum_holds;

    let i = text::decimal(u.tokens_in as nat) + " input"@;
    let o = text::decimal(u.tokens_out as nat) + " output"@;
    text::lemma_holds_itself(i);
    text::lemma_holds_itself(o);
    reveal_strlit(" input · ↓");
    reveal_strlit(" input");
    reveal_strlit(" · ↓");
    assert(" input · ↓"@ =~= " input"@ + " · ↓"@);
    let cache = match u.cache {
        Some(c) => " · prompt cache: "@ + cache_text(c),
        None => Seq::empty(),
    };
    let cost = match u.cost {
        Some(c) => " · est. "@ + crate::format::cost_text(c, u.cost_partial),
        None => Seq::empty(),
    };
    assert(usage_text(u) =~= "session tokens: ↑"@ + i + " · ↓"@ + o + cache + cost);
    if let Some(c) = u.cost {
        text::lemma_holds_itself(c);
        assert(text::contains(crate::format::cost_text(c, u.cost_partial), c));
    }
    if let Some(c) = u.cache {
        text::lemma_holds_itself(c.percent);
        assert(text::contains(cache_text(c), c.percent));
    }
}

/// What a check finds is told part by part: the branch, where the keys are, what is wrong
/// with the endpoint, and how many files are broken.
#[verifier::rlimit(40)]
pub proof fn law_findings_are_told(
    branch: Seq<char>,
    path: Seq<char>,
    wait: u64,
    servers: Seq<LspReportView>,
    broken: Seq<(Seq<char>, Seq<char>)>,
)
    ensures
        text::contains(git_text(Some(Some(branch))), branch),
        git_text(None) != git_text(Some(Some(branch))),
        text::contains(auth_text(Some((path, true))), path),
        text::contains(auth_text(Some((path, true))), "(found)"@),
        text::contains(auth_text(Some((path, false))), "(not found)"@),
        text::contains(lsp_text(Some((wait, servers))), text::decimal(wait as nat)),
        broken.len() > 0 ==> text::contains(sessions_text(broken), text::decimal(broken.len())),
        broken.len() == 0 ==> sessions_text(broken) == "\nsessions: ✓"@,
{
    text::lemma_holds_itself(branch);
    text::lemma_sum_holds("git: on branch "@, branch, branch);
    reveal_strlit("git: on branch ");
    reveal_strlit("git: not a repo");
    assert("git: not a repo"@[5] == 'n');
    assert(git_text(Some(Some(branch)))[5] == 'o');
    text::lemma_holds_itself(path);
    lemma_auth(path, "found"@);
    lemma_auth(path, "not found"@);
    lemma_found_words();
    let w = text::decimal(wait as nat);
    text::lemma_holds_itself(w);
    text::lemma_sum_holds("lsp: enabled (wait "@, w, w);
    text::lemma_sum_holds("lsp: enabled (wait "@ + w, "ms)"@, w);
    text::lemma_sum_holds(
        "lsp: enabled (wait "@ + w + "ms)"@,
        lsp_lines(servers, servers.len() as int),
        w,
    );
    let n = text::decimal(broken.len());
    text::lemma_holds_itself(n);
    text::lemma_sum_holds("\nsessions: "@, n, n);
    text::lemma_sum_holds("\nsessions: "@ + n, " corrupt file(s)"@, n);
    text::lemma_sum_holds(
        "\nsessions: "@ + n + " corrupt file(s)"@,
        broken_lines(broken, broken.len() as int),
        n,
    );
}

proof fn lemma_found_words()
    ensures
        "("@ + "found"@ + ")"@ == "(found)"@,
        "("@ + "not found"@ + ")"@ == "(not found)"@,
{
    reveal_strlit("(");
    reveal_strlit(")");
    reveal_strlit("found");
    reveal_strlit("not found");
    reveal_strlit("(found)");
    reveal_strlit("(not found)");
    assert("("@ + "found"@ + ")"@ =~= "(found)"@);
    assert("("@ + "not found"@ + ")"@ =~= "(not found)"@);
}

#[verifier::rlimit(40)]
proof fn lemma_auth(path: Seq<char>, what: Seq<char>)
    ensures
        text::contains("auth: "@ + path + " ("@ + what + ")"@, path),
        text::contains("auth: "@ + path + " ("@ + what + ")"@, "("@ + what + ")"@),
{
    text::lemma_holds_itself(path);
    text::lemma_sum_holds("auth: "@, path, path);
    text::lemma_sum_holds("auth: "@ + path, " ("@, path);
    text::lemma_sum_holds("auth: "@ + path + " ("@, what, path);
    text::lemma_sum_holds("auth: "@ + path + " ("@ + what, ")"@, path);
    reveal_strlit(" (");
    reveal_strlit(" ");
    reveal_strlit("(");
    assert(" ("@ =~= " "@ + "("@);
    text::lemma_row_of_three("auth: "@ + path + " "@, "("@, what, ")"@);
    assert("auth: "@ + path + " ("@ =~= "auth: "@ + path + " "@ + "("@);
}

} // verus!
