//! The commands of the frontends that have windows instead of pickers: they take their
//! arguments on the line.
use crate::config;
use crate::config::TimestampStyle;
use crate::conversation::ExportTarget;
use crate::dispatch;
use crate::dispatch::{
    cwd_effects, help_line, rename_effects, split_command, statusbar_effects, Host, HostView,
    INIT_MSG,
};
use crate::effects;
use crate::effects::{one, say, three, two, CopySource, Effect, Report, RewindFor, Setting};
use crate::frontend::ExpandMode;
use crate::json;
use crate::notices;
use crate::notices::{busy_generic, busy_guard};
use crate::registry;
use crate::registry::resolve_alias;
use crate::reports;
use crate::reports::{AgentStatus, SessionStatus};
use crate::text;
use crate::text::{
    cat, cat3, decimal_string, has_string, join_strings, parse_up_to, str_eq, str_lines, str_lower,
    str_trim, str_upper, str_words,
};
use crate::validate;
use crate::validate::{first_few, PLACEHOLDER_MODEL, SAMPLE};
use vstd::prelude::*;

verus! {

/// The beginning of what `/init` sends the model, up to the instruction files that the
/// project may have already.
pub const INIT_PROMPT: &'static str =
    "Analyze this codebase and create an AGENTS.md file at the repository root to guide AI coding agents working here (the open standard at https://agents.md).\n\nDo this:\n1. Explore the project with your tools — read the README(s), the build/manifest files (Cargo.toml, package.json, pyproject.toml, go.mod, Makefile, etc.), CI config, and skim the source layout with glob/grep/read_file to understand how it's organized.\n2. If an AGENTS.md (or ";

/// The rest of it.
pub const INIT_PROMPT_REST: &'static str =
    ".md / .cursorrules / similar) already exists, read it and improve it instead of discarding useful content.\n3. Write AGENTS.md (use the write_file tool) with concise, repo-specific sections:\n   - Project overview: what it is and does.\n   - Setup / build / run: the actual commands for THIS repo.\n   - Testing: how to run the test suite and a single test.\n   - Code style & conventions: formatting, linting, naming — inferred from config and existing code.\n   - Architecture / layout: key directories and how they fit together.\n   - Gotchas or rules an agent must follow.\n\nPrefer real commands, paths, and specifics over generic advice. Keep it tight. When finished, give a one-line summary of what you wrote.";

/// What is said where no checkpoints are kept.
pub const CHECKPOINTS_OFF: &'static str =
    "checkpoints are off (auto-disabled in git repos — use git, or set checkpoints = on)";

/// What is said where the checkpoints cannot be had.
pub const CHECKPOINTS_BUSY: &'static str = "checkpoint store busy";

/// How many checkpoints are listed at most.
pub const LISTED_CHECKPOINTS: usize = 20;

/// What the commands see of the frontend.
#[derive(Debug, Clone, PartialEq, Eq)]
pub struct GuiHost {
    pub host: Host,
    /// Whether the model's reasoning is shown.
    pub show_thinking: bool,
    pub timestamps: TimestampStyle,
}

/// The view of a [`GuiHost`].
pub struct GuiHostView {
    pub host: HostView,
    pub show_thinking: bool,
    pub timestamps: TimestampStyle,
}

impl View for GuiHost {
    type V = GuiHostView;

    open spec fn view(&self) -> GuiHostView {
        GuiHostView {
            host: self.host@,
            show_thinking: self.show_thinking,
            timestamps: self.timestamps,
        }
    }
}

// ---------------------------------------------------------------------------
// The model
// ---------------------------------------------------------------------------

/// What `/model` asks for.
pub open spec fn model(current: Seq<char>, arg: Seq<char>) -> Seq<Effect<Seq<char>>> {
    if arg.len() == 0 {
        effects::said("model: "@ + current)
    } else {
        seq![Effect::SetModel(arg), Effect::Info("model → "@ + arg)]
    }
}

fn model_effects(current: &str, arg: &str) -> (r: Vec<Effect>)
    ensures
        effects::effects(r@) == model(current@, arg@),
{
    if arg.is_empty() {
        say(cat("model: ", current).as_str())
    } else {
        two(Effect::SetModel(arg.to_string()), Effect::Info(cat("model → ", arg)))
    }
}

/// What is said of the models that an endpoint has.
pub fn models_text(models: &Result<Vec<String>, String>) -> (r: String)
    ensures
        r@ == (match validate::outcome_view(*models) {
            Ok(m) => if m.len() > 0 {
                "models:\n  "@ + text::join(m, "\n  "@)
            } else {
                "endpoint reported no models"@
            },
            Err(e) => "models error: "@ + e,
        }),
{
    match models {
        Ok(m) => {
            assert(text::views(m@).len() == m@.len());
            if m.len() > 0 {
                cat("models:\n  ", join_strings(m, "\n  ").as_str())
            } else {
                "endpoint reported no models".to_string()
            }
        },
        Err(e) => cat("models error: ", e.as_str()),
    }
}

/// What is said of the models that an endpoint has, if anything.
pub open spec fn warning(
    models: Result<Seq<Seq<char>>, Seq<char>>,
    model: Seq<char>,
    base_url: Seq<char>,
) -> Option<Seq<char>> {
    match models {
        Err(e) => Some("⚠ endpoint "@ + base_url + " looks unreachable: "@ + e),
        Ok(list) => if model != PLACEHOLDER_MODEL@ && list.len() > 0 && !list.contains(model) {
            Some(
                "⚠ model '"@ + model + "' not found at "@ + base_url + "; available: "@
                    + text::join(
                    if list.len() > SAMPLE {
                        list.take(SAMPLE as int)
                    } else {
                        list
                    },
                    ", "@,
                ),
            )
        } else {
            None
        },
    }
}

/// What is said of the models that an endpoint has: that it cannot be reached, or that
/// the model is not among them.
pub fn endpoint_health_warning(
    models: &Result<Vec<String>, String>,
    model: &str,
    base_url: &str,
) -> (r: Option<String>)
    ensures
        json::opt_view(r) == warning(validate::outcome_view(*models), model@, base_url@),
{
    match models {
        Err(e) => {
            let mut s = cat3("⚠ endpoint ", base_url, " looks unreachable: ");
            s.append(e.as_str());
            Some(s)
        },
        Ok(list) => {
            assert(text::views(list@).len() == list@.len());
            if !str_eq(model, PLACEHOLDER_MODEL) && list.len() > 0 && !has_string(list, model) {
                let mut s = cat3("⚠ model '", model, "' not found at ");
                s.append(base_url);
                s.append("; available: ");
                s.append(join_strings(&first_few(list, SAMPLE), ", ").as_str());
                Some(s)
            } else {
                None
            }
        },
    }
}

/// What is said when the project's instructions were read again, where there are any.
pub fn reload_project_docs(found: bool) -> (r: Option<String>)
    ensures
        json::opt_view(r) == (if found {
            Some("loaded AGENTS.md into the system prompt"@)
        } else {
            None
        }),
{
    if found {
        Some("loaded AGENTS.md into the system prompt".to_string())
    } else {
        None
    }
}

/// A provider that was found.
#[derive(Debug, Clone, PartialEq, Eq)]
pub struct FoundProvider<S = String> {
    pub base_url: S,
    /// The model that it declares.
    pub model: Option<S>,
    pub context_window: Option<u32>,
    /// Whether it is on another machine.
    pub remote: bool,
}

impl View for FoundProvider<String> {
    type V = FoundProvider<Seq<char>>;

    open spec fn view(&self) -> FoundProvider<Seq<char>> {
        FoundProvider {
            base_url: self.base_url@,
            model: json::opt_view(self.model),
            context_window: self.context_window,
            remote: self.remote,
        }
    }
}

/// What `/provider` asks for once the provider was looked for.
pub open spec fn provider(
    arg: Seq<char>,
    found: Option<FoundProvider<Seq<char>>>,
    busy: bool,
) -> Seq<Effect<Seq<char>>> {
    match found {
        None => effects::said("unknown provider '"@ + arg + "'"@),
        Some(p) => if busy {
            effects::said(notices::BUSY_MSG@)
        } else {
            seq![Effect::SetEndpoint(p.base_url)] + (match p.model {
                Some(m) => seq![Effect::SetModel(m)],
                None => Seq::empty(),
            }) + (match p.context_window {
                Some(w) => seq![Effect::SetContextWindow(w)],
                None => Seq::empty(),
            }) + seq![
                Effect::SetBaseUrl(p.base_url),
                Effect::Info("provider → "@ + arg + " ("@ + p.base_url + ")"@),
            ] + (if p.remote {
                Seq::empty()
            } else {
                effects::said(
                    "note: a running backend isn't restarted; relaunch hrdr for a local backend"@,
                )
            })
        },
    }
}

/// The view of a provider that may have been found.
pub open spec fn found_view(p: Option<&FoundProvider>) -> Option<FoundProvider<Seq<char>>> {
    match p {
        Some(f) => Some(f@),
        None => None,
    }
}

/// What `/provider` asks for once the provider was looked for.
pub fn provider_found(arg: &str, found: Option<&FoundProvider>, busy: bool) -> (r: Vec<Effect>)
    ensures
        effects::effects(r@) == provider(arg@, found_view(found), busy),
{
    let p = match found {
        None => {
            return say(cat3("unknown provider '", arg, "'").as_str());
        },
        Some(p) => p,
    };
    if busy {
        return one(Effect::Info(busy_generic()));
    }
    let mut v: Vec<Effect> = Vec::new();
    v.push(Effect::SetEndpoint(p.base_url.clone()));
    if let Some(m) = &p.model {
        v.push(Effect::SetModel(m.clone()));
    }
    if let Some(w) = p.context_window {
        v.push(Effect::SetContextWindow(w));
    }
    v.push(Effect::SetBaseUrl(p.base_url.clone()));
    let mut line = cat3("provider → ", arg, " (");
    line.append(p.base_url.as_str());
    line.append(")");
    v.push(Effect::Info(line));
    if !p.remote {
        v.push(
            Effect::Info(
                "note: a running backend isn't restarted; relaunch hrdr for a local backend".to_string(),
            ),
        );
    }
    assert(effects::effects(v@) =~= provider(arg@, found_view(found), busy));
    v
}

// ---------------------------------------------------------------------------
// The session
// ---------------------------------------------------------------------------

/// What `/info` says.
pub fn info_text(s: &SessionStatus, a: &AgentStatus) -> (r: String)
    ensures
        r@ == reports::status_head(s@, a@) + "\ntemperature: "@ + reports::temperature_or_default(
            a@.temperature,
        ) + "\neffort: "@ + reports::or_dash(s@.effort),
{
    let mut out = reports::status_top(s, a);
    out.append("\ntemperature: ");
    out.append(
        match &a.temperature {
            Some(t) => t.as_str(),
            None => "default",
        },
    );
    out.append("\neffort: ");
    out.append(
        match &s.effort {
            Some(e) => e.as_str(),
            None => "—",
        },
    );
    out
}

/// What `/resume` asks for.
pub open spec fn resume(arg: Seq<char>) -> Seq<Effect<Seq<char>>> {
    if arg.len() == 0 {
        effects::said("usage: /resume <id or name> (see /sessions)"@)
    } else {
        seq![Effect::FindSession(arg)]
    }
}

fn resume_effects(arg: &str) -> (r: Vec<Effect>)
    ensures
        effects::effects(r@) == resume(arg@),
{
    if arg.is_empty() {
        say("usage: /resume <id or name> (see /sessions)")
    } else {
        one(Effect::FindSession(arg.to_string()))
    }
}

/// What `/resume` asks for once the session was looked for.
pub fn session_found(arg: &str, id: Option<&str>) -> (r: Vec<Effect>)
    ensures
        effects::effects(r@) == (match config::opt_str_view(id) {
            Some(i) => seq![Effect::Resume(i)],
            None => effects::said("no session matching '"@ + arg@ + "' (see /sessions)"@),
        }),
{
    match id {
        Some(i) => one(Effect::Resume(i.to_string())),
        None => say(cat3("no session matching '", arg, "' (see /sessions)").as_str()),
    }
}

/// What `/retry` asks for: the last turn again, with another model where one is named.
pub open spec fn retry(busy: bool, arg: Seq<char>) -> Seq<Effect<Seq<char>>> {
    if busy {
        effects::said(notices::busy_text("retry"@))
    } else if arg.len() == 0 {
        seq![Effect::Rewind(RewindFor::Retry)]
    } else {
        seq![
            Effect::SetModel(arg),
            Effect::Info("model → "@ + arg),
            Effect::Rewind(RewindFor::Retry),
        ]
    }
}

fn retry_effects(busy: bool, arg: &str) -> (r: Vec<Effect>)
    ensures
        effects::effects(r@) == retry(busy, arg@),
{
    if busy {
        one(Effect::Info(busy_guard("retry")))
    } else if arg.is_empty() {
        one(Effect::Rewind(RewindFor::Retry))
    } else {
        three(
            Effect::SetModel(arg.to_string()),
            Effect::Info(cat("model → ", arg)),
            Effect::Rewind(RewindFor::Retry),
        )
    }
}

/// What follows once the last turn was taken back, with what the user had said in it.
pub open spec fn rewound(purpose: RewindFor, said: Option<Seq<char>>) -> Seq<Effect<Seq<char>>> {
    match purpose {
        RewindFor::Retry => match said {
            Some(t) => seq![Effect::SendPrompt { prompt: t, show_as_user: true }],
            None => effects::said("nothing to retry"@),
        },
        RewindFor::Undo => match said {
            Some(t) => seq![
                Effect::SetInput(t),
                Effect::Autosave,
                Effect::Info("undid last turn — edit and resend"@),
            ],
            None => effects::said("nothing to undo"@),
        },
    }
}

/// What follows once the last turn was taken back, with what the user had said in it.
pub fn after_rewind(purpose: RewindFor, said: Option<&str>) -> (r: Vec<Effect>)
    ensures
        effects::effects(r@) == rewound(purpose, config::opt_str_view(said)),
{
    match purpose {
        RewindFor::Retry => match said {
            Some(t) => one(Effect::SendPrompt { prompt: t.to_string(), show_as_user: true }),
            None => say("nothing to retry"),
        },
        RewindFor::Undo => match said {
            Some(t) => three(
                Effect::SetInput(t.to_string()),
                Effect::Autosave,
                Effect::Info("undid last turn — edit and resend".to_string()),
            ),
            None => say("nothing to undo"),
        },
    }
}

/// What a command asks for that cannot run during a turn.
pub open spec fn unless_busy(
    busy: bool,
    action: Seq<char>,
    e: Seq<Effect<Seq<char>>>,
) -> Seq<Effect<Seq<char>>> {
    if busy {
        effects::said(notices::busy_text(action))
    } else {
        e
    }
}

fn idle_or(busy: bool, action: &str, e: Vec<Effect>) -> (r: Vec<Effect>)
    ensures
        effects::effects(r@) == unless_busy(busy, action@, effects::effects(e@)),
{
    if busy {
        one(Effect::Info(busy_guard(action)))
    } else {
        e
    }
}

/// What is said of a compaction: how many messages there were before and after it.
pub fn compaction_message(res: &Result<(usize, usize), String>) -> (r: String)
    ensures
        r@ == (match *res {
            Ok((before, after)) => if before == after {
                "nothing to compact yet"@
            } else {
                "compacted: "@ + text::decimal(before as nat) + " → "@ + text::decimal(after as nat)
                    + " messages (summary kept; scrollback above is preserved for you)"@
            },
            Err(e) => "[compact failed] "@ + e@,
        }),
{
    match res {
        Ok((before, after)) => {
            let (before, after): (usize, usize) = (*before, *after);
            if before == after {
                "nothing to compact yet".to_string()
            } else {
                let mut s = cat3("compacted: ", decimal_string(before as u64).as_str(), " → ");
                s.append(decimal_string(after as u64).as_str());
                s.append(" messages (summary kept; scrollback above is preserved for you)");
                s
            }
        },
        Err(e) => cat("[compact failed] ", e.as_str()),
    }
}

/// Where `/export` writes to: JSON where that is asked for, and the first other word as
/// the name of the file.
pub open spec fn export_words(words: Seq<Seq<char>>) -> (bool, Option<Seq<char>>) {
    let files = words.filter(|w: Seq<char>| w != "--json"@);
    (
        words.contains("--json"@),
        if files.len() > 0 {
            Some(files[0])
        } else {
            None
        },
    )
}

/// Where `/export` writes to: JSON where that is asked for, and the first other word as
/// the name of the file.
pub fn export_target(arg: &str) -> (r: ExportTarget)
    ensures
        (r.json, json::opt_view(r.file)) == export_words(text::words(arg@)),
{
    let words = str_words(arg);
    let ghost all = text::words(arg@);
    let ghost keep = |w: Seq<char>| w != "--json"@;
    let mut json: bool = false;
    let mut file: Option<String> = None;
    assert(all.take(0) =~= Seq::empty());
    assert(all.len() == words@.len());
    proof {
        reveal(Seq::filter);
    }
    for i in 0..words.len()
        invariant
            all == text::words(arg@),
            all == text::views(words@),
            keep == (|w: Seq<char>| w != "--json"@),
            json == all.take(i as int).contains("--json"@),
            match file {
                Some(f) => all.take(i as int).filter(keep).len() > 0 && all.take(i as int).filter(
                    keep,
                )[0] == f@,
                None => all.take(i as int).filter(keep).len() == 0,
            },
    {
        proof {
            reveal(Seq::filter);
            assert(all.take(i + 1).drop_last() =~= all.take(i as int));
            assert(all.take(i + 1) =~= all.take(i as int).push(all[i as int]));
            text::lemma_contains_push(all.take(i as int), all[i as int], "--json"@);
        }
        if str_eq(words[i].as_str(), "--json") {
            json = true;
        } else if file.is_none() {
            file = Some(words[i].clone());
        }
    }
    assert(all.take(all.len() as int) =~= all);
    ExportTarget { json, file }
}

// ---------------------------------------------------------------------------
// Copying
// ---------------------------------------------------------------------------

/// What `/copy` asks for, going by the words of its argument.
pub open spec fn copy(words: Seq<Seq<char>>) -> Seq<Effect<Seq<char>>> {
    if words.len() == 0 || (words.len() == 1 && (words[0] == "reply"@ || words[0] == "last"@)) {
        seq![Effect::Copy(CopySource::Reply)]
    } else if words.len() == 1 && words[0] == "code"@ {
        seq![Effect::Copy(CopySource::Code)]
    } else if words.len() == 1 && (words[0] == "all"@ || words[0] == "transcript"@) {
        seq![Effect::Copy(CopySource::Transcript)]
    } else if words.len() == 2 && (words[0] == "msg"@ || words[0] == "message"@ || words[0]
        == "m"@) {
        seq![Effect::ParseRange(words[1])]
    } else {
        effects::said("usage: /copy [code | all | msg N[-M]]"@)
    }
}

fn copy_effects(arg: &str) -> (r: Vec<Effect>)
    ensures
        effects::effects(r@) == copy(text::words(text::lower(arg@))),
{
    let words = str_words(str_lower(arg).as_str());
    let ghost all = text::words(text::lower(arg@));
    assert(all == text::views(words@));
    assert(all.len() == words@.len());
    if words.len() == 0 {
        return one(Effect::Copy(CopySource::Reply));
    }
    assert(all[0] == words@[0]@);
    let first = words[0].as_str();
    if words.len() == 1 {
        if str_eq(first, "reply") || str_eq(first, "last") {
            return one(Effect::Copy(CopySource::Reply));
        }
        if str_eq(first, "code") {
            return one(Effect::Copy(CopySource::Code));
        }
        if str_eq(first, "all") || str_eq(first, "transcript") {
            return one(Effect::Copy(CopySource::Transcript));
        }
    } else if words.len() == 2 {
        if str_eq(first, "msg") || str_eq(first, "message") || str_eq(first, "m") {
            assert(all[1] == words@[1]@);
            return one(Effect::ParseRange(words[1].clone()));
        }
    }
    say("usage: /copy [code | all | msg N[-M]]")
}

/// What `/copy msg` asks for once its argument was read, if it names messages.
pub fn copy_range(range: Option<(usize, usize)>) -> (r: Vec<Effect>)
    ensures
        effects::effects(r@) == (match range {
            Some((first, last)) => seq![Effect::Copy(CopySource::Messages { first, last })],
            None => effects::said("usage: /copy msg <N> or <N-M>"@),
        }),
{
    match range {
        Some((first, last)) => one(Effect::Copy(CopySource::Messages { first, last })),
        None => say("usage: /copy msg <N> or <N-M>"),
    }
}

/// What is copied, in words.
pub open spec fn copy_label(source: CopySource) -> Seq<char> {
    match source {
        CopySource::Reply => "last reply"@,
        CopySource::Code => "last code block"@,
        CopySource::Transcript => "transcript"@,
        CopySource::Messages { first, last } => if first == last {
            "message #"@ + text::decimal(first as nat)
        } else {
            "messages #"@ + text::decimal(first as nat) + "-"@ + text::decimal(last as nat)
        },
    }
}

fn label_string(source: CopySource) -> (r: String)
    ensures
        r@ == copy_label(source),
{
    match source {
        CopySource::Reply => "last reply".to_string(),
        CopySource::Code => "last code block".to_string(),
        CopySource::Transcript => "transcript".to_string(),
        CopySource::Messages { first, last } => if first == last {
            cat("message #", decimal_string(first as u64).as_str())
        } else {
            let mut s = cat3("messages #", decimal_string(first as u64).as_str(), "-");
            s.append(decimal_string(last as u64).as_str());
            s
        },
    }
}

/// The first `n` of the messages that there are.
pub open spec fn present(found: Seq<Option<String>>, n: int) -> Seq<Seq<char>>
    decreases n,
{
    if n <= 0 {
        Seq::empty()
    } else {
        match found[n - 1] {
            Some(m) => present(found, n - 1).push(m@),
            None => present(found, n - 1),
        }
    }
}

/// The text of several messages: those that there are, with a blank line between two of
/// them; nothing where there are none.
pub fn messages_text(found: &Vec<Option<String>>) -> (r: Option<String>)
    ensures
        json::opt_view(r) == (if present(found@, found@.len() as int).len() > 0 {
            Some(text::join(present(found@, found@.len() as int), "\n\n"@))
        } else {
            None
        }),
{
    let mut parts: Vec<String> = Vec::new();
    assert(text::views(parts@) =~= present(found@, 0));
    for i in 0..found.len()
        invariant
            text::views(parts@) == present(found@, i as int),
    {
        if let Some(m) = &found[i] {
            let ghost before = text::views(parts@);
            parts.push(m.clone());
            assert(text::views(parts@) =~= before.push(m@));
        }
    }
    assert(text::views(parts@).len() == parts@.len());
    if parts.len() > 0 {
        Some(join_strings(&parts, "\n\n"))
    } else {
        None
    }
}

/// What copying comes to, going by the text that there is to copy.
pub fn copy_found(source: CopySource, found: Option<&str>) -> (r: Vec<Effect>)
    ensures
        effects::effects(r@) == (match config::opt_str_view(found) {
            Some(t) if t.len() > 0 => seq![
                Effect::ToClipboard { text: t, label: copy_label(source) },
            ],
            _ => effects::said("nothing to copy ("@ + copy_label(source) + ")"@),
        }),
{
    let label = label_string(source);
    if let Some(t) = found {
        if !t.is_empty() {
            return one(Effect::ToClipboard { text: t.to_string(), label });
        }
    }
    say(cat3("nothing to copy (", label.as_str(), ")").as_str())
}

// ---------------------------------------------------------------------------
// Files
// ---------------------------------------------------------------------------

/// What is said of the changes in the working tree.
pub fn diff_text(diff: &Result<String, String>) -> (r: String)
    ensures
        r@ == (match *diff {
            Ok(d) => if text::trim(d@).len() == 0 {
                "git diff: no changes"@
            } else {
                d@
            },
            Err(e) => "git diff failed: "@ + e@,
        }),
{
    match diff {
        Ok(d) => if str_trim(d.as_str()).as_str().is_empty() {
            "git diff: no changes".to_string()
        } else {
            d.clone()
        },
        Err(e) => cat("git diff failed: ", e.as_str()),
    }
}

/// What going to a directory comes to. `canonical` is its real path, where it is one.
pub fn enter_dir(path: &str, canonical: Option<&str>) -> (r: Vec<Effect>)
    ensures
        effects::effects(r@) == (match config::opt_str_view(canonical) {
            Some(dir) => seq![Effect::SetCwd(dir), Effect::Info("cwd → "@ + dir)],
            None => effects::said("not a directory: "@ + path@),
        }),
{
    match canonical {
        Some(dir) => two(Effect::SetCwd(dir.to_string()), Effect::Info(cat("cwd → ", dir))),
        None => say(cat("not a directory: ", path).as_str()),
    }
}

/// What a command that needs a file asks for.
pub open spec fn with_file(
    arg: Seq<char>,
    usage: Seq<char>,
    e: Effect<Seq<char>>,
) -> Seq<Effect<Seq<char>>> {
    if arg.len() == 0 {
        effects::said(usage)
    } else {
        seq![e]
    }
}

fn file_or_usage(arg: &str, usage: &str, e: Effect) -> (r: Vec<Effect>)
    ensures
        effects::effects(r@) == with_file(arg@, usage@, e@),
{
    if arg.is_empty() {
        say(usage)
    } else {
        one(e)
    }
}

/// What `/add` comes to once the file was read.
pub open spec fn added(
    arg: Seq<char>,
    content: Result<Seq<char>, Seq<char>>,
) -> Seq<Effect<Seq<char>>> {
    match content {
        Ok(c) => seq![
            Effect::PrependInput("`"@ + arg + "`:\n```\n"@ + c + "\n```\n\n"@),
            Effect::Info(
                "added "@ + arg + " ("@ + text::decimal(text::lines(c).len())
                    + " lines) to the input"@,
            ),
        ],
        Err(e) => effects::said("can't read "@ + arg + ": "@ + e),
    }
}

/// The view of a text that may not have been read.
pub open spec fn content_view(r: Result<String, String>) -> Result<Seq<char>, Seq<char>> {
    match r {
        Ok(s) => Ok(s@),
        Err(e) => Err(e@),
    }
}

/// What `/add` comes to once the file was read: its text goes before the input, in a
/// fenced block under its name.
pub fn file_read(arg: &str, content: &Result<String, String>) -> (r: Vec<Effect>)
    ensures
        effects::effects(r@) == added(arg@, content_view(*content)),
{
    match content {
        Ok(c) => {
            let count = str_lines(c.as_str()).len();
            assert(text::lines(c@).len() == count);
            let mut block = cat3("`", arg, "`:\n```\n");
            block.append(c.as_str());
            block.append("\n```\n\n");
            let mut line = cat3("added ", arg, " (");
            line.append(decimal_string(count as u64).as_str());
            line.append(" lines) to the input");
            two(Effect::PrependInput(block), Effect::Info(line))
        },
        Err(e) => {
            let mut line = cat3("can't read ", arg, ": ");
            line.append(e.as_str());
            one(Effect::Info(line))
        },
    }
}

/// What `/edit` comes to once the file was looked for.
pub fn file_found(path: &str, exists: bool) -> (r: Vec<Effect>)
    ensures
        effects::effects(r@) == (if exists {
            seq![Effect::OpenEditor(path@)]
        } else {
            effects::said("file not found: "@ + path@)
        }),
{
    if exists {
        one(Effect::OpenEditor(path.to_string()))
    } else {
        say(cat("file not found: ", path).as_str())
    }
}

/// What the checkpoints can be asked for.
#[derive(Debug, Clone, PartialEq, Eq)]
pub enum Checkpoints<T> {
    /// None are kept.
    Off,
    /// They cannot be had.
    Busy,
    /// They were asked.
    Answer(T),
}

/// What is said of files that were put back, by their names.
pub fn revert_text(outcome: &Checkpoints<Result<Vec<String>, String>>) -> (r: String)
    ensures
        r@ == (match *outcome {
            Checkpoints::Off => CHECKPOINTS_OFF@,
            Checkpoints::Busy => CHECKPOINTS_BUSY@,
            Checkpoints::Answer(Ok(names)) => if names@.len() == 0 {
                "nothing to revert"@
            } else {
                "reverted "@ + text::decimal(names@.len()) + " file(s): "@ + text::join(
                    text::views(names@),
                    ", "@,
                )
            },
            Checkpoints::Answer(Err(e)) => "revert failed: "@ + e@,
        }),
{
    match outcome {
        Checkpoints::Off => CHECKPOINTS_OFF.to_string(),
        Checkpoints::Busy => CHECKPOINTS_BUSY.to_string(),
        Checkpoints::Answer(Ok(names)) => if names.len() == 0 {
            "nothing to revert".to_string()
        } else {
            cat3(
                "reverted ",
                decimal_string(names.len() as u64).as_str(),
                cat(" file(s): ", join_strings(names, ", ").as_str()).as_str(),
            )
        },
        Checkpoints::Answer(Err(e)) => cat("revert failed: ", e.as_str()),
    }
}

/// A checkpoint, as it is listed.
#[derive(Debug, Clone, PartialEq, Eq)]
pub struct CheckpointRow {
    /// The turn that it was made in.
    pub turn: u64,
    /// The names of the files in it.
    pub files: Vec<String>,
}

/// The lines of the first `n` checkpoints.
pub open spec fn checkpoint_lines(rows: Seq<CheckpointRow>, n: int) -> Seq<char>
    decreases n,
{
    if n <= 0 {
        Seq::empty()
    } else {
        checkpoint_lines(rows, n - 1) + ("\n  turn "@ + text::decimal(rows[n - 1].turn as nat)
            + " · "@ + text::decimal(rows[n - 1].files@.len()) + " file(s): "@ + text::join(
            text::views(rows[n - 1].files@),
            ", "@,
        ))
    }
}

/// What is said of the checkpoints, newest first; of no more than the first twenty.
pub open spec fn checkpoints_listed(rows: Seq<CheckpointRow>) -> Seq<char> {
    if rows.len() == 0 {
        "no file checkpoints yet"@
    } else {
        "file checkpoints (newest first; /revert undoes the latest):"@ + checkpoint_lines(
            rows,
            if rows.len() < LISTED_CHECKPOINTS {
                rows.len() as int
            } else {
                LISTED_CHECKPOINTS as int
            },
        )
    }
}

fn checkpoint_list(rows: &Vec<CheckpointRow>) -> (r: String)
    ensures
        r@ == checkpoints_listed(rows@),
{
    if rows.len() == 0 {
        return "no file checkpoints yet".to_string();
    }
    let count: usize = if rows.len() < LISTED_CHECKPOINTS {
        rows.len()
    } else {
        LISTED_CHECKPOINTS
    };
    let mut lines = String::new();
    assert(lines@ =~= checkpoint_lines(rows@, 0));
    for i in 0..count
        invariant
            count <= rows@.len(),
            lines@ == checkpoint_lines(rows@, i as int),
    {
        let mut line = cat3("\n  turn ", decimal_string(rows[i].turn).as_str(), " · ");
        line.append(decimal_string(rows[i].files.len() as u64).as_str());
        line.append(" file(s): ");
        line.append(join_strings(&rows[i].files, ", ").as_str());
        lines.append(line.as_str());
        assert(lines@ == checkpoint_lines(rows@, i + 1));
    }
    cat("file checkpoints (newest first; /revert undoes the latest):", lines.as_str())
}

/// What is said of the checkpoints, newest first; of no more than the first twenty.
pub fn checkpoints_text(outcome: &Checkpoints<Vec<CheckpointRow>>) -> (r: String)
    ensures
        r@ == (match *outcome {
            Checkpoints::Off => CHECKPOINTS_OFF@,
            Checkpoints::Busy => CHECKPOINTS_BUSY@,
            Checkpoints::Answer(rows) => checkpoints_listed(rows@),
        }),
{
    match outcome {
        Checkpoints::Off => CHECKPOINTS_OFF.to_string(),
        Checkpoints::Busy => CHECKPOINTS_BUSY.to_string(),
        Checkpoints::Answer(rows) => checkpoint_list(rows),
    }
}

// ---------------------------------------------------------------------------
// Settings
// ---------------------------------------------------------------------------

/// What showing the reasoning, or hiding it, asks for.
pub open spec fn thinking_shown(on: bool) -> Seq<Effect<Seq<char>>> {
    seq![
        Effect::ShowThinking(on),
        Effect::Info(
            if on {
                "thinking shown"@
            } else {
                "thinking hidden"@
            },
        ),
    ]
}

fn show_thinking(on: bool) -> (r: Vec<Effect>)
    ensures
        effects::effects(r@) == thinking_shown(on),
{
    two(
        Effect::ShowThinking(on),
        Effect::Info(
            if on {
                "thinking shown".to_string()
            } else {
                "thinking hidden".to_string()
            },
        ),
    )
}

/// What `/thinking` asks for once its argument was read as a switch, if it is one.
pub fn set_thinking(on: Option<bool>) -> (r: Vec<Effect>)
    ensures
        effects::effects(r@) == (match on {
            Some(b) => thinking_shown(b),
            None => effects::said("usage: /thinking [on | off]"@),
        }),
{
    match on {
        Some(b) => show_thinking(b),
        None => say("usage: /thinking [on | off]"),
    }
}

/// What `/temp` asks for once its argument was read as a number, if it is one: by its
/// bits, and as it is shown.
pub fn set_temperature(number: &Option<(u32, String)>) -> (r: Vec<Effect>)
    ensures
        effects::effects(r@) == (match dispatch::number_view(*number) {
            Some((bits, shown)) => seq![
                Effect::SetTemperature(Some(bits)),
                Effect::Persist { key: "temperature"@, value: Setting::Float(bits) },
                Effect::Info("temperature → "@ + shown),
            ],
            None => effects::said("usage: /temp <number>"@),
        }),
{
    match number {
        Some((bits, shown)) => three(
            Effect::SetTemperature(Some(*bits)),
            Effect::Persist { key: "temperature".to_string(), value: Setting::Float(*bits) },
            Effect::Info(cat("temperature → ", shown.as_str())),
        ),
        None => say("usage: /temp <number>"),
    }
}

/// What `/temp` asks for.
pub open spec fn temperature(arg: Seq<char>) -> Seq<Effect<Seq<char>>> {
    if arg.len() == 0 {
        seq![Effect::Report(Report::Temperature)]
    } else {
        seq![Effect::ParseTemperature(arg)]
    }
}

fn temperature_effects(arg: &str) -> (r: Vec<Effect>)
    ensures
        effects::effects(r@) == temperature(arg@),
{
    if arg.is_empty() {
        one(Effect::Report(Report::Temperature))
    } else {
        one(Effect::ParseTemperature(arg.to_string()))
    }
}

/// What `/effort` asks for.
pub open spec fn effort(current: Option<Seq<char>>, arg: Seq<char>) -> Seq<Effect<Seq<char>>> {
    if arg.len() == 0 {
        effects::said("effort: "@ + reports::or_dash(current))
    } else {
        seq![
            Effect::SetEffort(Some(arg)),
            Effect::Persist { key: "effort"@, value: Setting::Text(arg) },
            Effect::Info("effort → "@ + arg),
        ]
    }
}

fn effort_effects(current: &Option<String>, arg: &str) -> (r: Vec<Effect>)
    ensures
        effects::effects(r@) == effort(json::opt_view(*current), arg@),
{
    if arg.is_empty() {
        let line = cat(
            "effort: ",
            match current {
                Some(e) => e.as_str(),
                None => "—",
            },
        );
        one(Effect::Info(line))
    } else {
        three(
            Effect::SetEffort(Some(arg.to_string())),
            Effect::Persist {
                key: "effort".to_string(),
                value: Setting::Text(arg.to_string()),
            },
            Effect::Info(cat("effort → ", arg)),
        )
    }
}

/// What `/expand` asks for.
pub open spec fn expand(arg: Seq<char>) -> Seq<Effect<Seq<char>>> {
    let a = text::lower(arg);
    if a == "all"@ || a == "on"@ {
        seq![Effect::SetExpansion(ExpandMode::All)]
    } else if a == "off"@ || a == "none"@ || a == "collapse"@ {
        seq![Effect::SetExpansion(ExpandMode::Off)]
    } else if a.len() == 0 {
        seq![Effect::SetExpansion(ExpandMode::ToggleLast)]
    } else {
        effects::said("usage: /expand [all | off]"@)
    }
}

fn expand_effects(arg: &str) -> (r: Vec<Effect>)
    ensures
        effects::effects(r@) == expand(arg@),
{
    let a = str_lower(arg);
    if str_eq(a.as_str(), "all") || str_eq(a.as_str(), "on") {
        one(Effect::SetExpansion(ExpandMode::All))
    } else if str_eq(a.as_str(), "off") || str_eq(a.as_str(), "none") || str_eq(
        a.as_str(),
        "collapse",
    ) {
        one(Effect::SetExpansion(ExpandMode::Off))
    } else if a.as_str().is_empty() {
        one(Effect::SetExpansion(ExpandMode::ToggleLast))
    } else {
        say("usage: /expand [all | off]")
    }
}

/// The style that `/timestamps` sets, if its argument names one; times shown if they were
/// not, and the other way round, where it names nothing.
pub open spec fn next_timestamps(current: TimestampStyle, arg: Seq<char>) -> Option<
    TimestampStyle,
> {
    let a = text::lower(arg);
    if a.len() == 0 {
        Some(
            if current == TimestampStyle::Hidden {
                TimestampStyle::Relative
            } else {
                TimestampStyle::Hidden
            },
        )
    } else if a == "none"@ || a == "off"@ || a == "hidden"@ {
        Some(TimestampStyle::Hidden)
    } else if a == "relative"@ || a == "rel"@ || a == "on"@ {
        Some(TimestampStyle::Relative)
    } else if a == "exact"@ || a == "absolute"@ || a == "abs"@ {
        Some(TimestampStyle::Exact)
    } else {
        None
    }
}

/// What `/timestamps` asks for.
pub open spec fn timestamps(current: TimestampStyle, arg: Seq<char>) -> Seq<Effect<Seq<char>>> {
    match next_timestamps(current, arg) {
        Some(style) => seq![
            Effect::SetTimestamps(style),
            Effect::Persist { key: "timestamps"@, value: Setting::Text(style.name()) },
            Effect::Info(
                match style {
                    TimestampStyle::Hidden => "timestamps: off"@,
                    TimestampStyle::Relative => "timestamps: relative"@,
                    TimestampStyle::Exact => "timestamps: exact (HH:MM)"@,
                },
            ),
        ],
        None => effects::said("usage: /timestamps [none | relative | exact]"@),
    }
}

fn chosen_timestamps(current: TimestampStyle, arg: &str) -> (r: Option<TimestampStyle>)
    ensures
        r == next_timestamps(current, arg@),
{
    let a = str_lower(arg);
    let a = a.as_str();
    if a.is_empty() {
        if current == TimestampStyle::Hidden {
            Some(TimestampStyle::Relative)
        } else {
            Some(TimestampStyle::Hidden)
        }
    } else if str_eq(a, "none") || str_eq(a, "off") || str_eq(a, "hidden") {
        Some(TimestampStyle::Hidden)
    } else if str_eq(a, "relative") || str_eq(a, "rel") || str_eq(a, "on") {
        Some(TimestampStyle::Relative)
    } else if str_eq(a, "exact") || str_eq(a, "absolute") || str_eq(a, "abs") {
        Some(TimestampStyle::Exact)
    } else {
        None
    }
}

fn timestamp_effects(current: TimestampStyle, arg: &str) -> (r: Vec<Effect>)
    ensures
        effects::effects(r@) == timestamps(current, arg@),
{
    match chosen_timestamps(current, arg) {
        Some(style) => three(
            Effect::SetTimestamps(style),
            Effect::Persist {
                key: "timestamps".to_string(),
                value: Setting::Text(style.as_config_str().to_string()),
            },
            Effect::Info(
                match style {
                    TimestampStyle::Hidden => "timestamps: off".to_string(),
                    TimestampStyle::Relative => "timestamps: relative".to_string(),
                    TimestampStyle::Exact => "timestamps: exact (HH:MM)".to_string(),
                },
            ),
        ),
        None => say("usage: /timestamps [none | relative | exact]"),
    }
}

/// A number as it is stored: in two's complement, where it is too large to be positive.
pub open spec fn wrapped(n: nat) -> i64 {
    if n <= i64::MAX {
        n as i64
    } else {
        (n - 0x1_0000_0000_0000_0000) as i64
    }
}

fn todo_ttl_effects(current: u64, arg: &str) -> (r: Vec<Effect>)
    ensures
        effects::effects(r@) == dispatch::todo_ttl(current, arg@, |n: nat| wrapped(n)),
{
    if arg.is_empty() {
        return say(cat("todo-ttl: ", dispatch::turns_string(current).as_str()).as_str());
    }
    match parse_up_to(arg, u64::MAX) {
        Some(n) => {
            let stored: i64 = if n <= i64::MAX as u64 {
                n as i64
            } else {
                -((u64::MAX - n) as i64) - 1
            };
            three(
                Effect::SetTodoTtl(n),
                Effect::Persist { key: "todo_ttl".to_string(), value: Setting::Int(stored) },
                Effect::Info(cat("todo-ttl → ", dispatch::turns_string(n).as_str())),
            )
        },
        None => say("usage: /todo-ttl <turns> (a whole number, e.g. 5)"),
    }
}

/// What `/theme` asks for.
pub open spec fn theme(arg: Seq<char>) -> Seq<Effect<Seq<char>>> {
    if arg.len() == 0 {
        seq![
            Effect::SetTheme(None),
            Effect::Unpersist("theme"@),
            Effect::Info("theme reset to default"@),
        ]
    } else {
        seq![
            Effect::SetTheme(Some(arg)),
            Effect::Persist { key: "theme"@, value: Setting::Text(arg) },
            Effect::Info("theme → "@ + arg),
        ]
    }
}

fn theme_effects(arg: &str) -> (r: Vec<Effect>)
    ensures
        effects::effects(r@) == theme(arg@),
{
    if arg.is_empty() {
        three(
            Effect::SetTheme(None),
            Effect::Unpersist("theme".to_string()),
            Effect::Info("theme reset to default".to_string()),
        )
    } else {
        three(
            Effect::SetTheme(Some(arg.to_string())),
            Effect::Persist {
                key: "theme".to_string(),
                value: Setting::Text(arg.to_string()),
            },
            Effect::Info(cat("theme → ", arg)),
        )
    }
}

// ---------------------------------------------------------------------------
// The line
// ---------------------------------------------------------------------------

/// What `/init` sends the model. An instruction file of the vendor's is improved, not
/// thrown away.
pub open spec fn init_text(vendor: Seq<char>) -> Seq<char> {
    INIT_PROMPT@ + text::upper(vendor) + INIT_PROMPT_REST@
}

/// What `/init` sends the model.
pub fn init_prompt(vendor: &str) -> (r: String)
    ensures
        r@ == init_text(vendor@),
{
    cat3(INIT_PROMPT, str_upper(vendor).as_str(), INIT_PROMPT_REST)
}

/// What `/init` asks for, where no turn is running.
pub open spec fn init(vendor: Seq<char>) -> Seq<Effect<Seq<char>>> {
    seq![
        Effect::Info(INIT_MSG@),
        Effect::MarkInitTurn,
        Effect::SendPrompt { prompt: init_text(vendor), show_as_user: false },
    ]
}

/// What a command asks for, by its own name; `None` where there is no such command.
pub open spec fn asked(h: GuiHostView, cmd: Seq<char>, arg: Seq<char>) -> Option<
    Seq<Effect<Seq<char>>>,
> {
    let busy = h.host.busy;
    if cmd == "help"@ {
        Some(effects::said(dispatch::help(h.host.lacks, h.host.tips)))
    } else if cmd == "clear"@ {
        Some(seq![Effect::ClearConversation, Effect::Info("conversation cleared"@)])
    } else if cmd == "model"@ {
        Some(model(h.host.status.model, arg))
    } else if cmd == "models"@ {
        Some(seq![Effect::Info("fetching models…"@), Effect::Report(Report::Models)])
    } else if cmd == "tools"@ {
        Some(seq![Effect::Report(Report::Tools)])
    } else if cmd == "info"@ {
        Some(seq![Effect::Report(Report::Status)])
    } else if cmd == "copy"@ {
        Some(copy(text::words(text::lower(arg))))
    } else if cmd == "export"@ {
        Some(seq![Effect::Export(arg)])
    } else if cmd == "rename"@ {
        Some(dispatch::rename(arg))
    } else if cmd == "diff"@ {
        Some(seq![Effect::Report(Report::Diff)])
    } else if cmd == "thinking"@ || cmd == "reasoning"@ || cmd == "think"@ {
        Some(
            if arg.len() == 0 {
                thinking_shown(!h.show_thinking)
            } else {
                seq![Effect::ParseSwitch(arg)]
            },
        )
    } else if cmd == "temp"@ || cmd == "temperature"@ {
        Some(temperature(arg))
    } else if cmd == "effort"@ {
        Some(effort(h.host.status.effort, arg))
    } else if cmd == "cwd"@ {
        Some(dispatch::change_dir(busy, h.host.cwd, arg))
    } else if cmd == "expand"@ {
        Some(expand(arg))
    } else if cmd == "add"@ {
        Some(with_file(arg, "usage: /add <file>"@, Effect::ReadFile(arg)))
    } else if cmd == "paste"@ {
        Some(seq![Effect::ReadClipboard])
    } else {
        asked_more(h, cmd, arg)
    }
}

/// What the other commands ask for.
pub open spec fn asked_more(h: GuiHostView, cmd: Seq<char>, arg: Seq<char>) -> Option<
    Seq<Effect<Seq<char>>>,
> {
    let busy = h.host.busy;
    if cmd == "revert"@ {
        Some(
            unless_busy(
                busy,
                "revert"@,
                seq![Effect::FilesChanged, Effect::Report(Report::Revert)],
            ),
        )
    } else if cmd == "checkpoints"@ {
        Some(seq![Effect::Report(Report::Checkpoints)])
    } else if cmd == "retry"@ {
        Some(retry(busy, arg))
    } else if cmd == "undo"@ {
        Some(unless_busy(busy, "undo"@, seq![Effect::Rewind(RewindFor::Undo)]))
    } else if cmd == "compact"@ {
        Some(
            unless_busy(
                busy,
                "compact"@,
                seq![Effect::StartCompaction(dispatch::unless_empty(arg))],
            ),
        )
    } else if cmd == "init"@ {
        Some(unless_busy(busy, "/init"@, init(h.host.vendor)))
    } else if cmd == "timestamps"@ || cmd == "ts"@ {
        Some(timestamps(h.timestamps, arg))
    } else if cmd == "todo-ttl"@ || cmd == "todottl"@ || cmd == "todos"@ {
        Some(dispatch::todo_ttl(h.host.todo_ttl, arg, |n: nat| wrapped(n)))
    } else if cmd == "theme"@ {
        Some(theme(arg))
    } else if cmd == "edit"@ {
        Some(with_file(arg, "usage: /edit <file>"@, Effect::FindFile(arg)))
    } else if cmd == "statusbar"@ {
        Some(dispatch::statusbar(h.host.statusbar, arg))
    } else if cmd == "reload"@ {
        Some(seq![Effect::ReloadConfig])
    } else if cmd == "provider"@ {
        Some(with_file(arg, "usage: /provider <name>"@, Effect::FindProvider(arg)))
    } else if cmd == "sessions"@ {
        Some(seq![Effect::ListSessions(arg)])
    } else if cmd == "resume"@ || cmd == "load"@ {
        Some(resume(arg))
    } else {
        None
    }
}

/// What a command asks for, by its own name; `None` where there is no such command.
pub fn run(h: &GuiHost, cmd: &str, arg: &str) -> (r: Option<Vec<Effect>>)
    ensures
        dispatch::asked_view(r) == asked(h@, cmd@, arg@),
{
    if str_eq(cmd, "help") {
        Some(one(Effect::Info(help_line(&h.host.lacks, &h.host.tips))))
    } else if str_eq(cmd, "clear") {
        Some(two(Effect::ClearConversation, Effect::Info("conversation cleared".to_string())))
    } else if str_eq(cmd, "model") {
        Some(model_effects(h.host.status.model.as_str(), arg))
    } else if str_eq(cmd, "models") {
        Some(
            two(Effect::Info("fetching models…".to_string()), Effect::Report(Report::Models)),
        )
    } else if str_eq(cmd, "tools") {
        Some(one(Effect::Report(Report::Tools)))
    } else if str_eq(cmd, "info") {
        Some(one(Effect::Report(Report::Status)))
    } else if str_eq(cmd, "copy") {
        Some(copy_effects(arg))
    } else if str_eq(cmd, "export") {
        Some(one(Effect::Export(arg.to_string())))
    } else if str_eq(cmd, "rename") {
        Some(rename_effects(arg))
    } else if str_eq(cmd, "diff") {
        Some(one(Effect::Report(Report::Diff)))
    } else if str_eq(cmd, "thinking") || str_eq(cmd, "reasoning") || str_eq(cmd, "think") {
        if arg.is_empty() {
            Some(show_thinking(!h.show_thinking))
        } else {
            Some(one(Effect::ParseSwitch(arg.to_string())))
        }
    } else if str_eq(cmd, "temp") || str_eq(cmd, "temperature") {
        Some(temperature_effects(arg))
    } else if str_eq(cmd, "effort") {
        Some(effort_effects(&h.host.status.effort, arg))
    } else if str_eq(cmd, "cwd") {
        Some(cwd_effects(h.host.busy, h.host.cwd.as_str(), arg))
    } else if str_eq(cmd, "expand") {
        Some(expand_effects(arg))
    } else if str_eq(cmd, "add") {
        Some(file_or_usage(arg, "usage: /add <file>", Effect::ReadFile(arg.to_string())))
    } else if str_eq(cmd, "paste") {
        Some(one(Effect::ReadClipboard))
    } else {
        run_more(h, cmd, arg)
    }
}

fn run_more(h: &GuiHost, cmd: &str, arg: &str) -> (r: Option<Vec<Effect>>)
    ensures
        dispatch::asked_view(r) == asked_more(h@, cmd@, arg@),
{
    let busy = h.host.busy;
    if str_eq(cmd, "revert") {
        Some(
            idle_or(
                busy,
                "revert",
                two(Effect::FilesChanged, Effect::Report(Report::Revert)),
            ),
        )
    } else if str_eq(cmd, "checkpoints") {
        Some(one(Effect::Report(Report::Checkpoints)))
    } else if str_eq(cmd, "retry") {
        Some(retry_effects(busy, arg))
    } else if str_eq(cmd, "undo") {
        Some(idle_or(busy, "undo", one(Effect::Rewind(RewindFor::Undo))))
    } else if str_eq(cmd, "compact") {
        Some(
            idle_or(
                busy,
                "compact",
                one(Effect::StartCompaction(dispatch::some_text(arg))),
            ),
        )
    } else if str_eq(cmd, "init") {
        Some(
            idle_or(
                busy,
                "/init",
                three(
                    Effect::Info(INIT_MSG.to_string()),
                    Effect::MarkInitTurn,
                    Effect::SendPrompt {
                        prompt: init_prompt(h.host.vendor.as_str()),
                        show_as_user: false,
                    },
                ),
            ),
        )
    } else if str_eq(cmd, "timestamps") || str_eq(cmd, "ts") {
        Some(timestamp_effects(h.timestamps, arg))
    } else if str_eq(cmd, "todo-ttl") || str_eq(cmd, "todottl") || str_eq(cmd, "todos") {
        Some(todo_ttl_effects(h.host.todo_ttl, arg))
    } else if str_eq(cmd, "theme") {
        Some(theme_effects(arg))
    } else if str_eq(cmd, "edit") {
        Some(file_or_usage(arg, "usage: /edit <file>", Effect::FindFile(arg.to_string())))
    } else if str_eq(cmd, "statusbar") {
        Some(statusbar_effects(h.host.statusbar, arg))
    } else if str_eq(cmd, "reload") {
        Some(one(Effect::ReloadConfig))
    } else if str_eq(cmd, "provider") {
        Some(
            file_or_usage(
                arg,
                "usage: /provider <name>",
                Effect::FindProvider(arg.to_string()),
            ),
        )
    } else if str_eq(cmd, "sessions") {
        Some(one(Effect::ListSessions(arg.to_string())))
    } else if str_eq(cmd, "resume") || str_eq(cmd, "load") {
        Some(resume_effects(arg))
    } else {
        None
    }
}

/// What a line asks for; `None` where it is no command.
pub open spec fn dispatched(h: GuiHostView, line: Seq<char>) -> Option<Seq<Effect<Seq<char>>>> {
    match dispatch::command_line(line) {
        Some((cmd, arg)) => asked(h, registry::canonical(cmd), arg),
        None => None,
    }
}

/// What a line asks for, under the name of the command or an alias of it; `None` where it
/// is no command.
pub fn dispatch(h: &GuiHost, line: &str) -> (r: Option<Vec<Effect>>)
    ensures
        dispatch::asked_view(r) == dispatched(h@, line@),
{
    match split_command(line) {
        Some((cmd, arg)) => run(h, resolve_alias(cmd.as_str()), arg.as_str()),
        None => None,
    }
}

/// While a turn is running, no command begins another turn or a compaction, takes the
/// last turn back or goes to another directory.
pub proof fn law_a_turn_is_left_alone(h: GuiHostView, line: Seq<char>, i: int)
    requires
        h.host.busy,
        dispatched(h, line) is Some,
        0 <= i < dispatched(h, line)->0.len(),
    ensures
        !(dispatched(h, line)->0[i] is SendPrompt),
        !(dispatched(h, line)->0[i] is StartCompaction),
        !(dispatched(h, line)->0[i] is Rewind),
        !(dispatched(h, line)->0[i] is Enter),
{
}

// ---------------------------------------------------------------------------
// What the commands are for
// ---------------------------------------------------------------------------

/// The names, letter by letter.
proof fn lemma_names()
    ensures
        "help"@.len() == 4,
        "help"@ == seq!['h', 'e', 'l', 'p'],
        "clear"@.len() == 5,
        "clear"@ == seq!['c', 'l', 'e', 'a', 'r'],
        "model"@.len() == 5,
        "model"@ == seq!['m', 'o', 'd', 'e', 'l'],
        "models"@.len() == 6,
        "models"@ == seq!['m', 'o', 'd', 'e', 'l', 's'],
        "tools"@.len() == 5,
        "tools"@ == seq!['t', 'o', 'o', 'l', 's'],
        "info"@.len() == 4,
        "info"@ == seq!['i', 'n', 'f', 'o'],
        "copy"@.len() == 4,
        "copy"@ == seq!['c', 'o', 'p', 'y'],
        "export"@.len() == 6,
        "export"@ == seq!['e', 'x', 'p', 'o', 'r', 't'],
        "rename"@.len() == 6,
        "rename"@ == seq!['r', 'e', 'n', 'a', 'm', 'e'],
        "diff"@.len() == 4,
        "diff"@ == seq!['d', 'i', 'f', 'f'],
        "thinking"@.len() == 8,
        "thinking"@ == seq!['t', 'h', 'i', 'n', 'k', 'i', 'n', 'g'],
        "reasoning"@.len() == 9,
        "reasoning"@ == seq!['r', 'e', 'a', 's', 'o', 'n', 'i', 'n', 'g'],
        "think"@.len() == 5,
        "think"@ == seq!['t', 'h', 'i', 'n', 'k'],
        "temp"@.len() == 4,
        "temp"@ == seq!['t', 'e', 'm', 'p'],
        "temperature"@.len() == 11,
        "temperature"@ == seq!['t', 'e', 'm', 'p', 'e', 'r', 'a', 't', 'u', 'r', 'e'],
        "effort"@.len() == 6,
        "effort"@ == seq!['e', 'f', 'f', 'o', 'r', 't'],
        "cwd"@.len() == 3,
        "cwd"@ == seq!['c', 'w', 'd'],
        "expand"@.len() == 6,
        "expand"@ == seq!['e', 'x', 'p', 'a', 'n', 'd'],
        "add"@.len() == 3,
        "add"@ == seq!['a', 'd', 'd'],
        "paste"@.len() == 5,
        "paste"@ == seq!['p', 'a', 's', 't', 'e'],
        "revert"@.len() == 6,
        "revert"@ == seq!['r', 'e', 'v', 'e', 'r', 't'],
        "checkpoints"@.len() == 11,
        "checkpoints"@ == seq!['c', 'h', 'e', 'c', 'k', 'p', 'o', 'i', 'n', 't', 's'],
        "retry"@.len() == 5,
        "retry"@ == seq!['r', 'e', 't', 'r', 'y'],
        "undo"@.len() == 4,
        "undo"@ == seq!['u', 'n', 'd', 'o'],
        "compact"@.len() == 7,
        "compact"@ == seq!['c', 'o', 'm', 'p', 'a', 'c', 't'],
        "init"@.len() == 4,
        "init"@ == seq!['i', 'n', 'i', 't'],
        "timestamps"@.len() == 10,
        "timestamps"@ == seq!['t', 'i', 'm', 'e', 's', 't', 'a', 'm', 'p', 's'],
        "ts"@.len() == 2,
        "ts"@ == seq!['t', 's'],
        "todo-ttl"@.len() == 8,
        "todo-ttl"@ == seq!['t', 'o', 'd', 'o', '-', 't', 't', 'l'],
        "todottl"@.len() == 7,
        "todottl"@ == seq!['t', 'o', 'd', 'o', 't', 't', 'l'],
        "todos"@.len() == 5,
        "todos"@ == seq!['t', 'o', 'd', 'o', 's'],
        "theme"@.len() == 5,
        "theme"@ == seq!['t', 'h', 'e', 'm', 'e'],
        "edit"@.len() == 4,
        "edit"@ == seq!['e', 'd', 'i', 't'],
        "statusbar"@.len() == 9,
        "statusbar"@ == seq!['s', 't', 'a', 't', 'u', 's', 'b', 'a', 'r'],
        "reload"@.len() == 6,
        "reload"@ == seq!['r', 'e', 'l', 'o', 'a', 'd'],
        "provider"@.len() == 8,
        "provider"@ == seq!['p', 'r', 'o', 'v', 'i', 'd', 'e', 'r'],
        "sessions"@.len() == 8,
        "sessions"@ == seq!['s', 'e', 's', 's', 'i', 'o', 'n', 's'],
        "resume"@.len() == 6,
        "resume"@ == seq!['r', 'e', 's', 'u', 'm', 'e'],
        "load"@.len() == 4,
        "load"@ == seq!['l', 'o', 'a', 'd'],
        "none"@.len() == 4,
        "none"@ == seq!['n', 'o', 'n', 'e'],
        "off"@.len() == 3,
        "off"@ == seq!['o', 'f', 'f'],
        "hidden"@.len() == 6,
        "hidden"@ == seq!['h', 'i', 'd', 'd', 'e', 'n'],
        "relative"@.len() == 8,
        "relative"@ == seq!['r', 'e', 'l', 'a', 't', 'i', 'v', 'e'],
        "rel"@.len() == 3,
        "rel"@ == seq!['r', 'e', 'l'],
        "on"@.len() == 2,
        "on"@ == seq!['o', 'n'],
        "exact"@.len() == 5,
        "exact"@ == seq!['e', 'x', 'a', 'c', 't'],
        "absolute"@.len() == 8,
        "absolute"@ == seq!['a', 'b', 's', 'o', 'l', 'u', 't', 'e'],
        "abs"@.len() == 3,
        "abs"@ == seq!['a', 'b', 's'],
        "all"@.len() == 3,
        "all"@ == seq!['a', 'l', 'l'],
        "collapse"@.len() == 8,
        "collapse"@ == seq!['c', 'o', 'l', 'l', 'a', 'p', 's', 'e'],
        "truncate"@.len() == 8,
        "truncate"@ == seq!['t', 'r', 'u', 'n', 'c', 'a', 't', 'e'],
        "trunc"@.len() == 5,
        "trunc"@ == seq!['t', 'r', 'u', 'n', 'c'],
        "wrap"@.len() == 4,
        "wrap"@ == seq!['w', 'r', 'a', 'p'],
        "reply"@.len() == 5,
        "reply"@ == seq!['r', 'e', 'p', 'l', 'y'],
        "last"@.len() == 4,
        "last"@ == seq!['l', 'a', 's', 't'],
        "code"@.len() == 4,
        "code"@ == seq!['c', 'o', 'd', 'e'],
        "transcript"@.len() == 10,
        "transcript"@ == seq!['t', 'r', 'a', 'n', 's', 'c', 'r', 'i', 'p', 't'],
        "msg"@.len() == 3,
        "msg"@ == seq!['m', 's', 'g'],
        "message"@.len() == 7,
        "message"@ == seq!['m', 'e', 's', 's', 'a', 'g', 'e'],
        "m"@.len() == 1,
        "m"@ == seq!['m'],
{
    reveal_strlit("help");
    reveal_strlit("clear");
    reveal_strlit("model");
    reveal_strlit("models");
    reveal_strlit("tools");
    reveal_strlit("info");
    reveal_strlit("copy");
    reveal_strlit("export");
    reveal_strlit("rename");
    reveal_strlit("diff");
    reveal_strlit("thinking");
    reveal_strlit("reasoning");
    reveal_strlit("think");
    reveal_strlit("temp");
    reveal_strlit("temperature");
    reveal_strlit("effort");
    reveal_strlit("cwd");
    reveal_strlit("expand");
    reveal_strlit("add");
    reveal_strlit("paste");
    reveal_strlit("revert");
    reveal_strlit("checkpoints");
    reveal_strlit("retry");
    reveal_strlit("undo");
    reveal_strlit("compact");
    reveal_strlit("init");
    reveal_strlit("timestamps");
    reveal_strlit("ts");
    reveal_strlit("todo-ttl");
    reveal_strlit("todottl");
    reveal_strlit("todos");
    reveal_strlit("theme");
    reveal_strlit("edit");
    reveal_strlit("statusbar");
    reveal_strlit("reload");
    reveal_strlit("provider");
    reveal_strlit("sessions");
    reveal_strlit("resume");
    reveal_strlit("load");
    reveal_strlit("none");
    reveal_strlit("off");
    reveal_strlit("hidden");
    reveal_strlit("relative");
    reveal_strlit("rel");
    reveal_strlit("on");
    reveal_strlit("exact");
    reveal_strlit("absolute");
    reveal_strlit("abs");
    reveal_strlit("all");
    reveal_strlit("collapse");
    reveal_strlit("truncate");
    reveal_strlit("trunc");
    reveal_strlit("wrap");
    reveal_strlit("reply");
    reveal_strlit("last");
    reveal_strlit("code");
    reveal_strlit("transcript");
    reveal_strlit("msg");
    reveal_strlit("message");
    reveal_strlit("m");
    assert("help"@ =~= seq!['h', 'e', 'l', 'p']);
    assert("clear"@ =~= seq!['c', 'l', 'e', 'a', 'r']);
    assert("model"@ =~= seq!['m', 'o', 'd', 'e', 'l']);
    assert("models"@ =~= seq!['m', 'o', 'd', 'e', 'l', 's']);
    assert("tools"@ =~= seq!['t', 'o', 'o', 'l', 's']);
    assert("info"@ =~= seq!['i', 'n', 'f', 'o']);
    assert("copy"@ =~= seq!['c', 'o', 'p', 'y']);
    assert("export"@ =~= seq!['e', 'x', 'p', 'o', 'r', 't']);
    assert("rename"@ =~= seq!['r', 'e', 'n', 'a', 'm', 'e']);
    assert("diff"@ =~= seq!['d', 'i', 'f', 'f']);
    assert("thinking"@ =~= seq!['t', 'h', 'i', 'n', 'k', 'i', 'n', 'g']);
    assert("reasoning"@ =~= seq!['r', 'e', 'a', 's', 'o', 'n', 'i', 'n', 'g']);
    assert("think"@ =~= seq!['t', 'h', 'i', 'n', 'k']);
    assert("temp"@ =~= seq!['t', 'e', 'm', 'p']);
    assert("temperature"@ =~= seq!['t', 'e', 'm', 'p', 'e', 'r', 'a', 't', 'u', 'r', 'e']);
    assert("effort"@ =~= seq!['e', 'f', 'f', 'o', 'r', 't']);
    assert("cwd"@ =~= seq!['c', 'w', 'd']);
    assert("expand"@ =~= seq!['e', 'x', 'p', 'a', 'n', 'd']);
    assert("add"@ =~= seq!['a', 'd', 'd']);
    assert("paste"@ =~= seq!['p', 'a', 's', 't', 'e']);
    assert("revert"@ =~= seq!['r', 'e', 'v', 'e', 'r', 't']);
    assert("checkpoints"@ =~= seq!['c', 'h', 'e', 'c', 'k', 'p', 'o', 'i', 'n', 't', 's']);
    assert("retry"@ =~= seq!['r', 'e', 't', 'r', 'y']);
    assert("undo"@ =~= seq!['u', 'n', 'd', 'o']);
    assert("compact"@ =~= seq!['c', 'o', 'm', 'p', 'a', 'c', 't']);
    assert("init"@ =~= seq!['i', 'n', 'i', 't']);
    assert("timestamps"@ =~= seq!['t', 'i', 'm', 'e', 's', 't', 'a', 'm', 'p', 's']);
    assert("ts"@ =~= seq!['t', 's']);
    assert("todo-ttl"@ =~= seq!['t', 'o', 'd', 'o', '-', 't', 't', 'l']);
    assert("todottl"@ =~= seq!['t', 'o', 'd', 'o', 't', 't', 'l']);
    assert("todos"@ =~= seq!['t', 'o', 'd', 'o', 's']);
    assert("theme"@ =~= seq!['t', 'h', 'e', 'm', 'e']);
    assert("edit"@ =~= seq!['e', 'd', 'i', 't']);
    assert("statusbar"@ =~= seq!['s', 't', 'a', 't', 'u', 's', 'b', 'a', 'r']);
    assert("reload"@ =~= seq!['r', 'e', 'l', 'o', 'a', 'd']);
    assert("provider"@ =~= seq!['p', 'r', 'o', 'v', 'i', 'd', 'e', 'r']);
    assert("sessions"@ =~= seq!['s', 'e', 's', 's', 'i', 'o', 'n', 's']);
    assert("resume"@ =~= seq!['r', 'e', 's', 'u', 'm', 'e']);
    assert("load"@ =~= seq!['l', 'o', 'a', 'd']);
    assert("none"@ =~= seq!['n', 'o', 'n', 'e']);
    assert("off"@ =~= seq!['o', 'f', 'f']);
    assert("hidden"@ =~= seq!['h', 'i', 'd', 'd', 'e', 'n']);
    assert("relative"@ =~= seq!['r', 'e', 'l', 'a', 't', 'i', 'v', 'e']);
    assert("rel"@ =~= seq!['r', 'e', 'l']);
    assert("on"@ =~= seq!['o', 'n']);
    assert("exact"@ =~= seq!['e', 'x', 'a', 'c', 't']);
    assert("absolute"@ =~= seq!['a', 'b', 's', 'o', 'l', 'u', 't', 'e']);
    assert("abs"@ =~= seq!['a', 'b', 's']);
    assert("all"@ =~= seq!['a', 'l', 'l']);
    assert("collapse"@ =~= seq!['c', 'o', 'l', 'l', 'a', 'p', 's', 'e']);
    assert("truncate"@ =~= seq!['t', 'r', 'u', 'n', 'c', 'a', 't', 'e']);
    assert("trunc"@ =~= seq!['t', 'r', 'u', 'n', 'c']);
    assert("wrap"@ =~= seq!['w', 'r', 'a', 'p']);
    assert("reply"@ =~= seq!['r', 'e', 'p', 'l', 'y']);
    assert("last"@ =~= seq!['l', 'a', 's', 't']);
    assert("code"@ =~= seq!['c', 'o', 'd', 'e']);
    assert("transcript"@ =~= seq!['t', 'r', 'a', 'n', 's', 'c', 'r', 'i', 'p', 't']);
    assert("msg"@ =~= seq!['m', 's', 'g']);
    assert("message"@ =~= seq!['m', 'e', 's', 's', 'a', 'g', 'e']);
    assert("m"@ =~= seq!['m']);
}

/// A style of times that is named as the configuration stores it, whatever the case of the
/// letters, is the style that is set and stored, whatever the present one is; so is a mode
/// of the status bar.
pub proof fn law_a_named_style_is_set(
    h: GuiHostView,
    style: TimestampStyle,
    mode: config::StatusBarMode,
    arg: Seq<char>,
)
    ensures
        text::lower(arg) == style.name() ==> {
            &&& next_timestamps(h.timestamps, arg) == Some(style)
            &&& asked(h, "timestamps"@, arg) matches Some(e) && {
                &&& e.len() == 3
                &&& e[0] == Effect::<Seq<char>>::SetTimestamps(style)
                &&& e[1] == (Effect::Persist {
                    key: "timestamps"@,
                    value: Setting::Text(style.name()),
                })
                &&& e[2] is Info
            }
        },
        text::lower(arg) == mode.name() ==> (asked(h, "statusbar"@, arg) matches Some(e) && {
            &&& e.len() == 3
            &&& e[0] == Effect::<Seq<char>>::SetStatusBar(mode)
            &&& e[1] == (Effect::Persist { key: "statusbar"@, value: Setting::Text(mode.name()) })
            &&& e[2] is Info
        }),
        asked(h, "ts"@, arg) == asked(h, "timestamps"@, arg),
{
    lemma_names();
    assert(asked(h, "timestamps"@, arg) == Some(timestamps(h.timestamps, arg)));
    assert(asked(h, "ts"@, arg) == Some(timestamps(h.timestamps, arg)));
    assert(asked(h, "statusbar"@, arg) == Some(dispatch::statusbar(h.host.statusbar, arg)));
    if text::lower(arg) == mode.name() {
        dispatch::law_a_named_mode_is_set(h.host, mode, arg);
    }
}

/// Whatever sets the style of times, the style that is set is the one that is stored, under
/// a name by which it is read again. Without an argument times are hidden where they were
/// shown, and shown where they were hidden.
pub proof fn law_the_style_that_is_set_is_stored(current: TimestampStyle, arg: Seq<char>)
    ensures
        next_timestamps(current, arg) matches Some(style) ==> {
            let e = timestamps(current, arg);
            &&& e[0] == Effect::<Seq<char>>::SetTimestamps(style)
            &&& e[1] matches Effect::Persist { value, .. } && (value matches Setting::Text(t)
                && config::timestamp_style(Some(t)) == style)
        },
        next_timestamps(current, arg) is None ==> timestamps(current, arg).len() == 1 && timestamps(
            current,
            arg,
        )[0] is Info,
        arg.len() == 0 ==> (next_timestamps(current, arg) matches Some(style) && ((style
            == TimestampStyle::Hidden) == (current != TimestampStyle::Hidden))),
{
    if let Some(style) = next_timestamps(current, arg) {
        config::law_config_strings_round_trip(style, config::StatusBarMode::Wrap);
    }
}

/// What a command does to the conversation: `/clear` clears it, `/rename` names the
/// session, `/resume` looks for the session that it names, `/retry` takes the last turn
/// back to send it again, with another model where it names one, `/undo` takes it back for
/// good, and `/compact` shortens it. None of those that take a turn back or begin one does
/// so while a turn is running.
pub proof fn law_what_commands_do_to_the_conversation(h: GuiHostView, arg: Seq<char>)
    requires
        arg.len() > 0,
    ensures
        asked(h, "clear"@, arg) matches Some(e) && e.len() == 2 && e[0] is ClearConversation
            && e[1] is Info,
        asked(h, "rename"@, arg) matches Some(e) && e.len() == 3 && e[0] == Effect::SetSessionLabel(
            arg,
        ) && e[1] is Autosave && e[2] is Info,
        asked(h, "resume"@, arg) == Some(seq![Effect::FindSession(arg)]),
        asked(h, "load"@, arg) == asked(h, "resume"@, arg),
        asked(h, "resume"@, Seq::empty()) matches Some(e) && e.len() == 1 && e[0] is Info,
        asked(h, "sessions"@, arg) == Some(seq![Effect::ListSessions(arg)]),
        asked(h, "retry"@, Seq::empty()) matches Some(e) && e.len() == 1 && (if h.host.busy {
            e[0] is Info
        } else {
            e[0] == Effect::<Seq<char>>::Rewind(RewindFor::Retry)
        }),
        asked(h, "retry"@, arg) matches Some(e) && (if h.host.busy {
            e.len() == 1 && e[0] is Info
        } else {
            e.len() == 3 && e[0] == Effect::SetModel(arg) && e[1] is Info && e[2] == Effect::<
                Seq<char>,
            >::Rewind(RewindFor::Retry)
        }),
        asked(h, "undo"@, arg) matches Some(e) && e.len() == 1 && (if h.host.busy {
            e[0] is Info
        } else {
            e[0] == Effect::<Seq<char>>::Rewind(RewindFor::Undo)
        }),
        asked(h, "compact"@, arg) matches Some(e) && e.len() == 1 && (if h.host.busy {
            e[0] is Info
        } else {
            e[0] == Effect::StartCompaction(Some(arg))
        }),
        asked(h, "compact"@, Seq::empty()) matches Some(e) && e.len() == 1 && (if h.host.busy {
            e[0] is Info
        } else {
            e[0] == Effect::StartCompaction(None::<Seq<char>>)
        }),
        asked(h, "init"@, arg) matches Some(e) && (if h.host.busy {
            e.len() == 1 && e[0] is Info
        } else {
            e.len() == 3 && e[0] is Info && e[1] is MarkInitTurn && (
            e[2] matches Effect::SendPrompt { show_as_user, .. } && !show_as_user)
        }),
        asked(h, "export"@, arg) == Some(seq![Effect::Export(arg)]),
{
    lemma_names();
}

/// What a command does to a setting: it sets and stores what it names, and without an
/// argument says what is set.
pub proof fn law_what_commands_do_to_a_setting(h: GuiHostView, arg: Seq<char>)
    requires
        arg.len() > 0,
    ensures
        asked(h, "model"@, Seq::empty()) == Some(
            seq![Effect::Info("model: "@ + h.host.status.model)],
        ),
        asked(h, "model"@, arg) matches Some(e) && e.len() == 2 && e[0] == Effect::SetModel(arg)
            && e[1] is Info,
        asked(h, "effort"@, Seq::empty()) matches Some(e) && e.len() == 1 && (
        e[0] matches Effect::Info(t) && (h.host.status.effort matches Some(v) ==> t == "effort: "@
            + v)),
        asked(h, "effort"@, arg) matches Some(e) && e.len() == 3 && e[0] == Effect::SetEffort(
            Some(arg),
        ) && e[1] == (Effect::Persist { key: "effort"@, value: Setting::Text(arg) })
            && e[2] is Info,
        asked(h, "temp"@, Seq::empty()) == Some(
            seq![Effect::<Seq<char>>::Report(Report::Temperature)],
        ),
        asked(h, "temp"@, arg) == Some(seq![Effect::ParseTemperature(arg)]),
        asked(h, "temperature"@, arg) == asked(h, "temp"@, arg),
        asked(h, "theme"@, Seq::empty()) matches Some(e) && e.len() == 3 && e[0]
            == Effect::SetTheme(None::<Seq<char>>) && e[1] == Effect::Unpersist("theme"@)
            && e[2] is Info,
        asked(h, "theme"@, arg) matches Some(e) && e.len() == 3 && e[0] == Effect::SetTheme(
            Some(arg),
        ) && e[1] == (Effect::Persist { key: "theme"@, value: Setting::Text(arg) })
            && e[2] is Info,
        asked(h, "cwd"@, Seq::empty()) == Some(effects::said("cwd: "@ + h.host.cwd)),
        asked(h, "cwd"@, arg) matches Some(e) && e.len() == 1 && (if h.host.busy {
            e[0] is Info
        } else {
            e[0] == Effect::Enter(arg)
        }),
        asked(h, "provider"@, arg) == Some(seq![Effect::FindProvider(arg)]),
        asked(h, "provider"@, Seq::empty()) matches Some(e) && e.len() == 1 && e[0] is Info,
        asked(h, "reload"@, arg) == Some(seq![Effect::<Seq<char>>::ReloadConfig]),
        asked(h, "thinking"@, arg) == Some(seq![Effect::ParseSwitch(arg)]),
        asked(h, "thinking"@, Seq::empty()) matches Some(e) && e.len() == 2 && e[0] == Effect::<
            Seq<char>,
        >::ShowThinking(!h.show_thinking) && e[1] is Info,
        asked(h, "reasoning"@, arg) == asked(h, "thinking"@, arg),
        asked(h, "think"@, arg) == asked(h, "thinking"@, arg),
        asked(h, "reasoning"@, Seq::empty()) == asked(h, "thinking"@, Seq::empty()),
        asked(h, "think"@, Seq::empty()) == asked(h, "thinking"@, Seq::empty()),
{
    lemma_names();
}

/// What a command shows, and what it takes from a file or the clipboard: that which it is
/// named for, and nothing is changed.
pub proof fn law_what_commands_show(h: GuiHostView, arg: Seq<char>)
    ensures
        asked(h, "tools"@, arg) == Some(seq![Effect::<Seq<char>>::Report(Report::Tools)]),
        asked(h, "info"@, arg) == Some(seq![Effect::<Seq<char>>::Report(Report::Status)]),
        asked(h, "models"@, arg) matches Some(e) && e.len() == 2 && e[0] is Info && e[1] == Effect::<
            Seq<char>,
        >::Report(Report::Models),
        asked(h, "diff"@, arg) == Some(seq![Effect::<Seq<char>>::Report(Report::Diff)]),
        asked(h, "checkpoints"@, arg) == Some(
            seq![Effect::<Seq<char>>::Report(Report::Checkpoints)],
        ),
        asked(h, "revert"@, arg) matches Some(e) && (if h.host.busy {
            e.len() == 1 && e[0] is Info
        } else {
            e.len() == 2 && e[0] is FilesChanged && e[1] == Effect::<Seq<char>>::Report(
                Report::Revert,
            )
        }),
        asked(h, "paste"@, arg) == Some(seq![Effect::<Seq<char>>::ReadClipboard]),
        arg.len() > 0 ==> asked(h, "add"@, arg) == Some(seq![Effect::ReadFile(arg)]),
        arg.len() > 0 ==> asked(h, "edit"@, arg) == Some(seq![Effect::FindFile(arg)]),
        arg.len() == 0 ==> (asked(h, "add"@, arg) matches Some(e) && e.len() == 1 && e[0] is Info),
        arg.len() == 0 ==> (asked(h, "edit"@, arg) matches Some(e) && e.len() == 1 && e[0] is Info),
{
    lemma_names();
}

/// What is copied is what the argument names, whatever the case of its letters: the last
/// reply where it names nothing, the last block of code, everything, or the messages whose
/// numbers it gives.
pub proof fn law_what_is_copied(h: GuiHostView, arg: Seq<char>)
    ensures
        ({
            let words = text::words(text::lower(arg));
            asked(h, "copy"@, arg) matches Some(e) && e.len() == 1 && {
                &&& words.len() == 0 ==> e[0] == Effect::<Seq<char>>::Copy(CopySource::Reply)
                &&& words == seq!["reply"@] || words == seq!["last"@] ==> e[0] == Effect::<
                    Seq<char>,
                >::Copy(CopySource::Reply)
                &&& words == seq!["code"@] ==> e[0] == Effect::<Seq<char>>::Copy(CopySource::Code)
                &&& words == seq!["all"@] || words == seq!["transcript"@] ==> e[0] == Effect::<
                    Seq<char>,
                >::Copy(CopySource::Transcript)
                &&& words.len() == 2 && (words[0] == "msg"@ || words[0] == "message"@ || words[0]
                    == "m"@) ==> e[0] == Effect::ParseRange(words[1])
                &&& words.len() > 2 ==> e[0] is Info
            }
        }),
{
    lemma_names();
    assert(asked(h, "copy"@, arg) == Some(copy(text::words(text::lower(arg)))));
}

/// The output of tools is expanded or collapsed as the argument says, whatever the case of
/// its letters; without an argument the last is turned over.
pub proof fn law_what_is_expanded(h: GuiHostView, arg: Seq<char>)
    ensures
        asked(h, "expand"@, arg) matches Some(e) && e.len() == 1 && {
            &&& arg.len() == 0 ==> e[0] == Effect::<Seq<char>>::SetExpansion(ExpandMode::ToggleLast)
            &&& text::lower(arg) == "all"@ || text::lower(arg) == "on"@ ==> e[0] == Effect::<
                Seq<char>,
            >::SetExpansion(ExpandMode::All)
            &&& text::lower(arg) == "off"@ || text::lower(arg) == "none"@ || text::lower(arg)
                == "collapse"@ ==> e[0] == Effect::<Seq<char>>::SetExpansion(ExpandMode::Off)
        },
{
    lemma_names();
    assert(asked(h, "expand"@, arg) == Some(expand(arg)));
}

/// A number of turns that is given in decimal is the number that is set, and what is stored
/// is the same number in the same sixty-four bits.
pub proof fn law_a_number_of_turns_is_set(h: GuiHostView, n: u64)
    ensures
        asked(h, "todo-ttl"@, text::decimal(n as nat)) matches Some(e) && {
            &&& e.len() == 3
            &&& e[0] == Effect::<Seq<char>>::SetTodoTtl(n)
            &&& e[1] matches Effect::Persist { key, value: Setting::Int(k) } && key == "todo_ttl"@
                && (if k >= 0 {
                k == n
            } else {
                k + 0x1_0000_0000_0000_0000 == n
            })
            &&& e[2] is Info
        },
{
    lemma_names();
    text::law_decimal_reads_back(n as nat, u64::MAX as nat);
    text::lemma_decimal_digits(n as nat);
}

/// A provider that was found is used as it was found: its endpoint, its model and its
/// context window where it declares them; one that was not found, and any during a turn,
/// changes nothing.
pub proof fn law_a_found_provider_is_used(
    arg: Seq<char>,
    p: FoundProvider<Seq<char>>,
    busy: bool,
    i: int,
)
    ensures
        provider(arg, None, busy).len() == 1,
        provider(arg, None, busy)[0] is Info,
        provider(arg, Some(p), true).len() == 1,
        provider(arg, Some(p), true)[0] is Info,
        provider(arg, Some(p), false)[0] == Effect::SetEndpoint(p.base_url),
        0 <= i < provider(arg, Some(p), false).len() ==> (match provider(arg, Some(p), false)[i] {
            Effect::SetEndpoint(u) => u == p.base_url,
            Effect::SetBaseUrl(u) => u == p.base_url,
            Effect::SetModel(m) => p.model == Some(m),
            Effect::SetContextWindow(w) => p.context_window == Some(w),
            Effect::Info(_) => true,
            _ => false,
        }),
        p.model matches Some(m) ==> provider(arg, Some(p), false)[1] == Effect::SetModel(m),
        p.context_window matches Some(w) ==> provider(arg, Some(p), false)[if p.model is Some {
            2int
        } else {
            1int
        }] == Effect::<Seq<char>>::SetContextWindow(w),
        exists|k: int|
            0 <= k < provider(arg, Some(p), false).len() && #[trigger] provider(
                arg,
                Some(p),
                false,
            )[k] == Effect::SetBaseUrl(p.base_url),
{
    let e = provider(arg, Some(p), false);
    let k = 1 + (if p.model is Some {
        1int
    } else {
        0int
    }) + (if p.context_window is Some {
        1int
    } else {
        0int
    });
    assert(e[k] == Effect::SetBaseUrl(p.base_url));
}

/// A turn that was taken back to be tried again is sent as it was said; one that was taken
/// back for good goes into the input as it was said.
pub proof fn law_a_turn_taken_back_is_not_lost(said: Seq<char>)
    ensures
        rewound(RewindFor::Retry, Some(said)) == seq![
            Effect::SendPrompt { prompt: said, show_as_user: true },
        ],
        rewound(RewindFor::Undo, Some(said)).len() == 3,
        rewound(RewindFor::Undo, Some(said))[0] == Effect::SetInput(said),
        rewound(RewindFor::Undo, Some(said))[1] is Autosave,
        forall|purpose: RewindFor|
            (#[trigger] rewound(purpose, None)).len() == 1 && rewound(purpose, None)[0] is Info,
{
}

/// The words after `/export`: whether JSON is asked for is whether one of them says so, and
/// the file is the first that says anything else.
pub proof fn law_the_first_other_word_is_the_file(words: Seq<Seq<char>>)
    ensures
        export_words(words).0 <==> exists|i: int|
            0 <= i < words.len() && #[trigger] words[i] == "--json"@,
        match export_words(words).1 {
            Some(f) => exists|i: int|
                0 <= i < words.len() && #[trigger] words[i] == f && f != "--json"@ && forall|j: int|
                    0 <= j < i ==> #[trigger] words[j] == "--json"@,
            None => forall|i: int| 0 <= i < words.len() ==> #[trigger] words[i] == "--json"@,
        },
    decreases words.len(),
{
    reveal(Seq::filter);
    let keep = |w: Seq<char>| w != "--json"@;
    if words.len() > 0 {
        let rest = words.drop_last();
        law_the_first_other_word_is_the_file(rest);
        assert forall|i: int| 0 <= i < rest.len() implies rest[i] == #[trigger] words[i] by {}
        assert(words[words.len() - 1] == words.last());
        match export_words(rest).1 {
            Some(f) => {
                let i = choose|i: int|
                    0 <= i < rest.len() && #[trigger] rest[i] == f && f != "--json"@
                        && forall|j: int| 0 <= j < i ==> #[trigger] rest[j] == "--json"@;
                assert(words[i] == f);
                assert forall|j: int| 0 <= j < i implies #[trigger] words[j] == "--json"@ by {
                    assert(rest[j] == "--json"@);
                }
                assert(words.filter(keep)[0] == f);
            },
            None => {
                assert forall|j: int| 0 <= j < rest.len() implies #[trigger] words[j]
                    == "--json"@ by {
                    assert(rest[j] == "--json"@);
                }
            },
        }
    }
}

/// A file that was read goes before the input whole, under its name; one that could not be
/// read changes nothing.
pub proof fn law_a_file_that_was_read_is_put_in_whole(
    arg: Seq<char>,
    content: Seq<char>,
    error: Seq<char>,
)
    ensures
        added(arg, Ok(content)).len() == 2,
        added(arg, Ok(content))[0] matches Effect::PrependInput(t) && text::contains(t, content)
            && text::contains(t, arg),
        added(arg, Ok(content))[1] is Info,
        added(arg, Err(error)).len() == 1,
        added(arg, Err(error))[0] is Info,
{
    let head = "`"@ + arg + "`:\n```\n"@;
    let t = head + content + "\n```\n\n"@;
    assert(t.subrange(head.len() as int, (head.len() + content.len()) as int) =~= content);
    assert(text::occurs_at(t, content, head.len() as int));
    reveal_strlit("`");
    assert(t.subrange(1, (1 + arg.len()) as int) =~= arg);
    assert(text::occurs_at(t, arg, 1));
}

/// Every checkpoint that is listed is listed with its turn and every file in it, the first
/// of them first.
pub proof fn law_a_checkpoint_names_its_files(rows: Seq<CheckpointRow>, n: int, i: int, f: int)
    requires
        0 <= i < n <= rows.len(),
        0 <= f < rows[i].files@.len(),
    ensures
        text::contains(checkpoint_lines(rows, n), "turn "@ + text::decimal(rows[i].turn as nat)),
        text::contains(checkpoint_lines(rows, n), rows[i].files@[f]@),
        n == rows.len() && n <= LISTED_CHECKPOINTS ==> text::contains(
            checkpoints_listed(rows),
            rows[i].files@[f]@,
        ),
    decreases n,
{
    let m = n - 1;
    if i < m {
        law_a_checkpoint_names_its_files(rows, m, i, f);
    }
    let count = text::decimal(rows[m].files@.len());
    let names = text::join(text::views(rows[m].files@), ", "@);
    let turn = text::decimal(rows[m].turn as nat);
    let row = "\n  turn "@ + turn + " · "@ + count + " file(s): "@ + names;
    lemma_checkpoint_row(turn, count, names);
    if i == m {
        text::law_join_holds_every_part(text::views(rows[m].files@), ", "@, f);
        lemma_row_holds(turn, count, names, rows[i].files@[f]@);
    }
    let what = "turn "@ + text::decimal(rows[i].turn as nat);
    text::lemma_sum_holds(checkpoint_lines(rows, m), row, what);
    text::lemma_sum_holds(checkpoint_lines(rows, m), row, rows[i].files@[f]@);
    if n == rows.len() && n <= LISTED_CHECKPOINTS {
        text::lemma_sum_holds(
            "file checkpoints (newest first; /revert undoes the latest):"@,
            checkpoint_lines(rows, n),
            rows[i].files@[f]@,
        );
    }
}

#[verifier::rlimit(40)]
proof fn lemma_checkpoint_row(turn: Seq<char>, count: Seq<char>, names: Seq<char>)
    ensures
        text::contains("\n  turn "@ + turn + " · "@ + count + " file(s): "@ + names, "turn "@ + turn),
{
    let what = "turn "@ + turn;
    reveal_strlit("\n  turn ");
    reveal_strlit("\n  ");
    reveal_strlit("turn ");
    assert("\n  turn "@ + turn =~= "\n  "@ + what);
    text::lemma_holds_itself(what);
    text::lemma_sum_holds("\n  "@, what, what);
    text::lemma_sum_holds("\n  turn "@ + turn, " · "@, what);
    text::lemma_sum_holds("\n  turn "@ + turn + " · "@, count, what);
    text::lemma_sum_holds("\n  turn "@ + turn + " · "@ + count, " file(s): "@, what);
    text::lemma_sum_holds("\n  turn "@ + turn + " · "@ + count + " file(s): "@, names, what);
}

proof fn lemma_row_holds(turn: Seq<char>, count: Seq<char>, names: Seq<char>, p: Seq<char>)
    requires
        text::contains(names, p),
    ensures
        text::contains("\n  turn "@ + turn + " · "@ + count + " file(s): "@ + names, p),
{
    text::lemma_sum_holds("\n  turn "@ + turn + " · "@ + count + " file(s): "@, names, p);
}

/// What was copied is named: by its number or its numbers where it is messages.
pub proof fn law_what_was_copied_is_named(first: usize, last: usize)
    ensures
        ({
            let range = CopySource::Messages { first, last };
            &&& text::contains(copy_label(range), text::decimal(first as nat))
            &&& first != last ==> text::contains(
                copy_label(range),
                text::decimal(first as nat) + "-"@ + text::decimal(last as nat),
            )
        }),
{
    let a = text::decimal(first as nat);
    let b = text::decimal(last as nat);
    text::lemma_holds_itself(a);
    text::lemma_sum_holds("message #"@, a, a);
    text::lemma_sum_holds("messages #"@, a, a);
    text::lemma_sum_holds("messages #"@ + a, "-"@, a);
    text::lemma_sum_holds("messages #"@ + a + "-"@, b, a);
    text::lemma_row_of_three("messages #"@, a, "-"@, b);
}

/// The messages that there are come in their order, and no other do.
pub proof fn law_only_messages_that_are_there_are_copied(found: Seq<Option<String>>, n: int, i: int)
    requires
        0 <= i < n <= found.len(),
    ensures
        found[i] matches Some(m) ==> present(found, n).contains(m@),
        present(found, n).len() <= n,
        (forall|k: int| 0 <= k < n ==> #[trigger] found[k] is Some) ==> present(found, n).len() == n
            && present(found, n)[i] == found[i]->0@,
    decreases n,
{
    let all = present(found, n);
    if i < n - 1 {
        law_only_messages_that_are_there_are_copied(found, n - 1, i);
        let before = present(found, n - 1);
        if let Some(m) = found[i] {
            let k = choose|k: int| 0 <= k < before.len() && before[k] == m@;
            assert(all[k] == m@);
        }
    } else {
        if n > 1 {
            law_only_messages_that_are_there_are_copied(found, n - 1, 0);
        }
        if let Some(m) = found[i] {
            assert(all.last() == m@);
        }
    }
}

/// What is said of an endpoint: that it cannot be reached and why, or that it has not the
/// model, by its name; nothing where it has it, where it does not say what it has, or
/// where no model was named.
pub proof fn law_an_endpoint_is_warned_of(
    list: Seq<Seq<char>>,
    e: Seq<char>,
    model: Seq<char>,
    base_url: Seq<char>,
)
    ensures
        warning(Err(e), model, base_url) matches Some(t) && text::contains(t, base_url)
            && text::contains(t, e),
        list.contains(model) ==> warning(Ok(list), model, base_url) is None,
        warning(Ok(Seq::empty()), model, base_url) is None,
        warning(Ok(list), PLACEHOLDER_MODEL@, base_url) is None,
        model != PLACEHOLDER_MODEL@ && list.len() > 0 && !list.contains(model) ==> (warning(
            Ok(list),
            model,
            base_url,
        ) matches Some(t) && text::contains(t, model) && text::contains(t, base_url)),
{
    text::lemma_holds_itself(model);
    text::lemma_holds_itself(base_url);
    text::lemma_holds_itself(e);
    text::lemma_sum_holds("⚠ endpoint "@, base_url, base_url);
    text::lemma_sum_holds("⚠ endpoint "@ + base_url, " looks unreachable: "@, base_url);
    text::lemma_sum_holds("⚠ endpoint "@ + base_url + " looks unreachable: "@, e, base_url);
    text::lemma_sum_holds("⚠ endpoint "@ + base_url + " looks unreachable: "@, e, e);
    let some = text::join(
        if list.len() > SAMPLE {
            list.take(SAMPLE as int)
        } else {
            list
        },
        ", "@,
    );
    let a = "⚠ model '"@ + model;
    let b = a + "' not found at "@;
    let c = b + base_url;
    let d = c + "; available: "@;
    text::lemma_sum_holds("⚠ model '"@, model, model);
    text::lemma_sum_holds(a, "' not found at "@, model);
    text::lemma_sum_holds(b, base_url, model);
    text::lemma_sum_holds(c, "; available: "@, model);
    text::lemma_sum_holds(d, some, model);
    text::lemma_sum_holds(b, base_url, base_url);
    text::lemma_sum_holds(c, "; available: "@, base_url);
    text::lemma_sum_holds(d, some, base_url);
}

/// What was set is told by its name.
pub proof fn law_what_was_set_is_told(arg: Seq<char>, now: Seq<char>)
    requires
        arg.len() > 0,
    ensures
        model(now, arg).last() matches Effect::Info(t) && text::contains(t, arg),
        model(now, Seq::empty()).last() matches Effect::Info(t) && text::contains(t, now),
        effort(None, arg).last() matches Effect::Info(t) && text::contains(t, arg),
        theme(arg).last() matches Effect::Info(t) && text::contains(t, arg),
        retry(false, arg)[1] matches Effect::Info(t) && text::contains(t, arg),
{
    text::lemma_holds_itself(arg);
    text::lemma_holds_itself(now);
    text::lemma_sum_holds("model → "@, arg, arg);
    text::lemma_sum_holds("model: "@, now, now);
    text::lemma_sum_holds("effort → "@, arg, arg);
    text::lemma_sum_holds("theme → "@, arg, arg);
}

/// A file that could not be read is told by its name, and why it could not.
pub proof fn law_an_unread_file_is_told_by_its_name(arg: Seq<char>, e: Seq<char>)
    ensures
        added(arg, Err(e)).len() == 1,
        added(arg, Err(e))[0] matches Effect::Info(t) && text::contains(t, arg) && text::contains(
            t,
            e,
        ),
{
    lemma_named_then(arg, ": "@, e, "can't read "@);
    let t = "can't read "@ + arg + ": "@ + e;
    assert(added(arg, Err(e))[0] == Effect::Info(t));
}

/// A provider that is switched to is told by its name and where it is, and one that there
/// is not by its name.
pub proof fn law_a_provider_is_told_by_its_name(arg: Seq<char>, p: FoundProvider<Seq<char>>)
    ensures
        provider(arg, None, false).last() matches Effect::Info(t) && text::contains(t, arg),
        p.remote ==> (provider(arg, Some(p), false).last() matches Effect::Info(t) && text::contains(
            t,
            arg,
        ) && text::contains(t, p.base_url)),
{
    text::lemma_holds_itself(arg);
    text::lemma_sum_holds("unknown provider '"@, arg, arg);
    text::lemma_sum_holds("unknown provider '"@ + arg, "'"@, arg);
    lemma_named_and(arg, " ("@, p.base_url, ")"@, "provider → "@);
}

proof fn lemma_named_then(
    name: Seq<char>,
    between: Seq<char>,
    what: Seq<char>,
    before: Seq<char>,
)
    ensures
        text::contains(before + name + between + what, name),
        text::contains(before + name + between + what, what),
{
    text::lemma_holds_itself(name);
    text::lemma_holds_itself(what);
    let a = before + name;
    text::lemma_sum_holds(before, name, name);
    text::lemma_sum_holds(a, between, name);
    text::lemma_sum_holds(a + between, what, name);
    text::lemma_sum_holds(a + between, what, what);
}

proof fn lemma_named_and(
    name: Seq<char>,
    between: Seq<char>,
    what: Seq<char>,
    after: Seq<char>,
    before: Seq<char>,
)
    ensures
        text::contains(before + name + between + what + after, name),
        text::contains(before + name + between + what + after, what),
{
    lemma_named_then(name, between, what, before);
    text::lemma_sum_holds(before + name + between + what, after, name);
    text::lemma_sum_holds(before + name + between + what, after, what);
}

/// Words that `/copy` and `/expand` do not know are answered with how to use them, and
/// nothing is copied or folded.
pub proof fn law_other_words_change_nothing(words: Seq<Seq<char>>, arg: Seq<char>)
    ensures
        words.len() == 1 && words[0] != "reply"@ && words[0] != "last"@ && words[0] != "code"@
            && words[0] != "all"@ && words[0] != "transcript"@ ==> copy(words).len() == 1
            && copy(words)[0] is Info,
        words.len() == 2 && words[0] != "msg"@ && words[0] != "message"@ && words[0] != "m"@
            ==> copy(words).len() == 1 && copy(words)[0] is Info,
        ({
            let a = text::lower(arg);
            a.len() > 0 && a != "all"@ && a != "on"@ && a != "off"@ && a != "none"@ && a
                != "collapse"@ ==> expand(arg).len() == 1 && expand(arg)[0] is Info
        }),
{
}

} // verus!
