//! The slash commands: what each of them asks for.
use crate::config;
use crate::config::StatusBarMode;
use crate::effects;
use crate::effects::{one, say, three, two, Effect, Picker, Report, Setting};
use crate::effort;
use crate::effort::{pick, EffortChoice};
use crate::frontend::ExpandMode;
use crate::json;
use crate::notices;
use crate::notices::{busy_generic, busy_guard, RESUME_BUSY_MSG};
use crate::registry;
use crate::registry::{help_body_for, resolve_alias, HELP_GROUPS};
use crate::reports;
use crate::reports::{cost_line, doctor_header, SessionStatus};
use crate::text;
use crate::text::{
    cat, cat3, chars_of, decimal_string, end_of_word, has_string, join_strings, parse_up_to,
    str_eq, str_has_char, str_lower, str_trim, str_upper, string_of_range,
};
use vstd::prelude::*;

verus! {

/// The beginning of what `/init` sends the model, up to the instruction files that the
/// project may have already.
pub const INIT_PROMPT: &'static str =
    "Analyze this codebase and create an AGENTS.md file at the repository root to guide AI coding agents working here (the open standard at https://agents.md).\n\nDo this:\n1. Explore the project with your tools — read the README(s), the build/manifest files (Cargo.toml, package.json, pyproject.toml, go.mod, Makefile, etc.), CI config, and skim the source layout with find/ls/grep/read to understand how it's organized.\n2. If an AGENTS.md (or ";

/// The rest of it.
pub const INIT_PROMPT_REST: &'static str =
    ".md / .cursorrules / similar) already exists, read it and improve it instead of discarding useful content.\n3. Write AGENTS.md (use the write tool) with concise, repo-specific sections:\n   - Project overview: what it is and does.\n   - Setup / build / run: the actual commands for THIS repo.\n   - Testing: how to run the test suite and a single test.\n   - Code style & conventions: formatting, linting, naming — inferred from config and existing code.\n   - Architecture / layout: key directories and how they fit together.\n   - Gotchas or rules an agent must follow.\n\nPrefer real commands, paths, and specifics over generic advice. Keep it tight. When finished, give a one-line summary of what you wrote.";

/// What is said when `/init` begins.
pub const INIT_MSG: &'static str = "/init — exploring the project to write AGENTS.md…";

// ---------------------------------------------------------------------------
// What the commands look at
// ---------------------------------------------------------------------------

/// What the commands see of the frontend.
#[derive(Debug, Clone, PartialEq, Eq)]
pub struct Host {
    /// Whether a turn is running.
    pub busy: bool,
    /// The working directory.
    pub cwd: String,
    /// The working directory, as it is shown.
    pub dir: String,
    /// Where the configuration is, if it can be told.
    pub config_path: Option<String>,
    pub status: SessionStatus,
    /// Whether the output of tools is expanded.
    pub verbose: bool,
    /// How many turns a finished TODO item stays on show.
    pub todo_ttl: u64,
    pub statusbar: StatusBarMode,
    /// The commands that the frontend lacks, with their slashes.
    pub lacks: Vec<String>,
    /// What the frontend adds to the help.
    pub tips: Option<String>,
    /// The vendor of the Messages API: its provider's name.
    pub vendor: String,
}

/// The view of a [`Host`].
pub struct HostView {
    pub busy: bool,
    pub cwd: Seq<char>,
    pub dir: Seq<char>,
    pub config_path: Option<Seq<char>>,
    pub status: SessionStatus<Seq<char>>,
    pub verbose: bool,
    pub todo_ttl: u64,
    pub statusbar: StatusBarMode,
    pub lacks: Seq<Seq<char>>,
    pub tips: Option<Seq<char>>,
    pub vendor: Seq<char>,
}

impl View for Host {
    type V = HostView;

    open spec fn view(&self) -> HostView {
        HostView {
            busy: self.busy,
            cwd: self.cwd@,
            dir: self.dir@,
            config_path: json::opt_view(self.config_path),
            status: self.status@,
            verbose: self.verbose,
            todo_ttl: self.todo_ttl,
            statusbar: self.statusbar,
            lacks: text::views(self.lacks@),
            tips: json::opt_view(self.tips),
            vendor: self.vendor@,
        }
    }
}

/// A text, unless it is empty.
pub open spec fn unless_empty(s: Seq<char>) -> Option<Seq<char>> {
    if s.len() == 0 {
        None
    } else {
        Some(s)
    }
}

/// A text, unless it is empty.
pub fn some_text(s: &str) -> (r: Option<String>)
    ensures
        json::opt_view(r) == unless_empty(s@),
{
    if s.is_empty() {
        None
    } else {
        Some(s.to_string())
    }
}

// ---------------------------------------------------------------------------
// Commands that several frontends have
// ---------------------------------------------------------------------------

/// Which lines of the help are shown, where some commands are lacking.
pub open spec fn shown_lines(lacks: Seq<Seq<char>>) -> Seq<bool> {
    Seq::new(HELP_GROUPS@.len(), |i: int| !lacks.contains(HELP_GROUPS@[i].1@))
}

/// The help of a frontend that lacks some commands, and what it adds.
pub open spec fn help(lacks: Seq<Seq<char>>, tips: Option<Seq<char>>) -> Seq<char> {
    registry::help_text(shown_lines(lacks), HELP_GROUPS@.len() as int) + (match tips {
        Some(t) => "\n\n"@ + t,
        None => Seq::empty(),
    })
}

/// The help of a frontend that lacks some commands, and what it adds.
pub fn help_line(lacks: &Vec<String>, tips: &Option<String>) -> (r: String)
    ensures
        r@ == help(text::views(lacks@), json::opt_view(*tips)),
{
    let has = |name: &str| -> (yes: bool)
        ensures
            yes == !text::views(lacks@).contains(name@),
        { !has_string(lacks, name) };
    let mut s = help_body_for(has);
    proof {
        let all = shown_lines(text::views(lacks@));
        let shown = choose|shown: Seq<bool>|
            shown.len() == HELP_GROUPS@.len() && (forall|i: int|
                0 <= i < shown.len() ==> call_ensures(
                    has,
                    (HELP_GROUPS@[i].1,),
                    #[trigger] shown[i],
                )) && s@ == #[trigger] registry::help_text(shown, HELP_GROUPS@.len() as int);
        assert forall|i: int| 0 <= i < shown.len() implies shown[i] == all[i] by {
            assert(call_ensures(has, (HELP_GROUPS@[i].1,), shown[i]));
        }
        assert(shown =~= all);
    }
    match tips {
        Some(t) => {
            s.append(cat("\n\n", t.as_str()).as_str());
        },
        None => {
            assert(s@ + Seq::empty() =~= s@);
        },
    }
    s
}

/// What `/rename` asks for.
pub open spec fn rename(arg: Seq<char>) -> Seq<Effect<Seq<char>>> {
    if arg.len() == 0 {
        effects::said("usage: /rename <name>"@)
    } else {
        seq![
            Effect::SetSessionLabel(arg),
            Effect::Autosave,
            Effect::Info("session renamed → "@ + arg),
        ]
    }
}

/// What `/rename` asks for.
pub fn rename_effects(arg: &str) -> (r: Vec<Effect>)
    ensures
        effects::effects(r@) == rename(arg@),
{
    if arg.is_empty() {
        say("usage: /rename <name>")
    } else {
        three(
            Effect::SetSessionLabel(arg.to_string()),
            Effect::Autosave,
            Effect::Info(cat("session renamed → ", arg)),
        )
    }
}

/// A number of turns, in words.
pub open spec fn turns_text(n: u64) -> Seq<char> {
    text::decimal(n as nat) + " turn"@ + (if n == 1 {
        ""@
    } else {
        "s"@
    })
}

/// A number of turns, in words.
pub fn turns_string(n: u64) -> (r: String)
    ensures
        r@ == turns_text(n),
{
    cat3(
        decimal_string(n).as_str(),
        " turn",
        if n == 1 {
            ""
        } else {
            "s"
        },
    )
}

/// What `/todo-ttl` asks for, where `stored` is what is stored for a number.
pub open spec fn todo_ttl(
    current: u64,
    arg: Seq<char>,
    stored: spec_fn(nat) -> i64,
) -> Seq<Effect<Seq<char>>> {
    if arg.len() == 0 {
        effects::said("todo-ttl: "@ + turns_text(current))
    } else {
        match text::parse_unsigned(arg, u64::MAX as nat) {
            Some(n) => seq![
                Effect::SetTodoTtl(n as u64),
                Effect::Persist { key: "todo_ttl"@, value: Setting::Int(stored(n)) },
                Effect::Info("todo-ttl → "@ + turns_text(n as u64)),
            ],
            None => effects::said("usage: /todo-ttl <turns> (a whole number, e.g. 5)"@),
        }
    }
}

/// A number as it is stored: the largest that can be where it is larger.
pub open spec fn at_most_signed(n: nat) -> i64 {
    if n <= i64::MAX {
        n as i64
    } else {
        i64::MAX
    }
}

/// What `/todo-ttl` asks for. The number that is stored stays positive.
pub fn todo_ttl_effects(current: u64, arg: &str) -> (r: Vec<Effect>)
    ensures
        effects::effects(r@) == todo_ttl(current, arg@, |n: nat| at_most_signed(n)),
{
    if arg.is_empty() {
        return say(cat("todo-ttl: ", turns_string(current).as_str()).as_str());
    }
    match parse_up_to(arg, u64::MAX) {
        Some(n) => {
            let stored: i64 = if n <= i64::MAX as u64 {
                n as i64
            } else {
                i64::MAX
            };
            three(
                Effect::SetTodoTtl(n),
                Effect::Persist { key: "todo_ttl".to_string(), value: Setting::Int(stored) },
                Effect::Info(cat("todo-ttl → ", turns_string(n).as_str())),
            )
        },
        None => say("usage: /todo-ttl <turns> (a whole number, e.g. 5)"),
    }
}

/// The mode that `/statusbar` sets, if its argument names one; the next one where it
/// names nothing.
pub open spec fn next_statusbar(current: StatusBarMode, arg: Seq<char>) -> Option<StatusBarMode> {
    let a = text::lower(arg);
    if a.len() == 0 {
        Some(
            match current {
                StatusBarMode::Truncate => StatusBarMode::Wrap,
                StatusBarMode::Wrap => StatusBarMode::Hidden,
                StatusBarMode::Hidden => StatusBarMode::Truncate,
            },
        )
    } else if a == "none"@ || a == "off"@ || a == "hidden"@ {
        Some(StatusBarMode::Hidden)
    } else if a == "truncate"@ || a == "trunc"@ {
        Some(StatusBarMode::Truncate)
    } else if a == "wrap"@ {
        Some(StatusBarMode::Wrap)
    } else {
        None
    }
}

/// What `/statusbar` asks for.
pub open spec fn statusbar(current: StatusBarMode, arg: Seq<char>) -> Seq<Effect<Seq<char>>> {
    match next_statusbar(current, arg) {
        Some(mode) => seq![
            Effect::SetStatusBar(mode),
            Effect::Persist { key: "statusbar"@, value: Setting::Text(mode.name()) },
            Effect::Info(
                match mode {
                    StatusBarMode::Hidden => "status bar: hidden"@,
                    StatusBarMode::Truncate => "status bar: truncate"@,
                    StatusBarMode::Wrap => "status bar: wrap"@,
                },
            ),
        ],
        None => effects::said("usage: /statusbar [none | truncate | wrap]"@),
    }
}

fn chosen_statusbar(current: StatusBarMode, arg: &str) -> (r: Option<StatusBarMode>)
    ensures
        r == next_statusbar(current, arg@),
{
    let a = str_lower(arg);
    if a.as_str().is_empty() {
        Some(
            match current {
                StatusBarMode::Truncate => StatusBarMode::Wrap,
                StatusBarMode::Wrap => StatusBarMode::Hidden,
                StatusBarMode::Hidden => StatusBarMode::Truncate,
            },
        )
    } else if str_eq(a.as_str(), "none") || str_eq(a.as_str(), "off") || str_eq(
        a.as_str(),
        "hidden",
    ) {
        Some(StatusBarMode::Hidden)
    } else if str_eq(a.as_str(), "truncate") || str_eq(a.as_str(), "trunc") {
        Some(StatusBarMode::Truncate)
    } else if str_eq(a.as_str(), "wrap") {
        Some(StatusBarMode::Wrap)
    } else {
        None
    }
}

/// What `/statusbar` asks for.
pub fn statusbar_effects(current: StatusBarMode, arg: &str) -> (r: Vec<Effect>)
    ensures
        effects::effects(r@) == statusbar(current, arg@),
{
    match chosen_statusbar(current, arg) {
        Some(mode) => three(
            Effect::SetStatusBar(mode),
            Effect::Persist {
                key: "statusbar".to_string(),
                value: Setting::Text(mode.as_config_str().to_string()),
            },
            Effect::Info(
                match mode {
                    StatusBarMode::Hidden => "status bar: hidden".to_string(),
                    StatusBarMode::Truncate => "status bar: truncate".to_string(),
                    StatusBarMode::Wrap => "status bar: wrap".to_string(),
                },
            ),
        ),
        None => say("usage: /statusbar [none | truncate | wrap]"),
    }
}

/// Three calls of `/statusbar` without an argument lead back to where it began.
pub proof fn law_the_status_bar_cycles(mode: StatusBarMode)
    ensures
        next_statusbar(mode, Seq::empty()) matches Some(a) && (next_statusbar(
            a,
            Seq::empty(),
        ) matches Some(b) && next_statusbar(b, Seq::empty()) == Some(mode)),
{
    assert(text::lower(Seq::empty()).len() == 0);
}

// ---------------------------------------------------------------------------
// The other commands
// ---------------------------------------------------------------------------

/// What `/new` asks for.
pub open spec fn new_conversation(arg: Seq<char>) -> Seq<Effect<Seq<char>>> {
    if arg.len() == 0 {
        seq![Effect::ClearConversation, Effect::Info("conversation cleared"@)]
    } else {
        seq![
            Effect::ClearConversation,
            Effect::SetSessionLabel(arg),
            Effect::Info("new session '"@ + arg + "'"@),
        ]
    }
}

fn new_effects(arg: &str) -> (r: Vec<Effect>)
    ensures
        effects::effects(r@) == new_conversation(arg@),
{
    if arg.is_empty() {
        two(Effect::ClearConversation, Effect::Info("conversation cleared".to_string()))
    } else {
        three(
            Effect::ClearConversation,
            Effect::SetSessionLabel(arg.to_string()),
            Effect::Info(cat3("new session '", arg, "'")),
        )
    }
}

/// Whether an argument asks for the default.
pub open spec fn resets(arg: Seq<char>) -> bool {
    text::lower(arg) == "default"@ || text::lower(arg) == "reset"@
}

fn is_reset(arg: &str) -> (r: bool)
    ensures
        r == resets(arg@),
{
    let a = str_lower(arg);
    str_eq(a.as_str(), "default") || str_eq(a.as_str(), "reset")
}

/// What `/temp` asks for.
pub open spec fn temperature(arg: Seq<char>) -> Seq<Effect<Seq<char>>> {
    if arg.len() == 0 {
        seq![Effect::Report(Report::Temperature)]
    } else if resets(arg) {
        seq![
            Effect::SetTemperature(None),
            Effect::Unpersist("temperature"@),
            Effect::Info("temperature → default"@),
        ]
    } else {
        seq![Effect::ParseTemperature(arg)]
    }
}

fn temperature_effects(arg: &str) -> (r: Vec<Effect>)
    ensures
        effects::effects(r@) == temperature(arg@),
{
    if arg.is_empty() {
        one(Effect::Report(Report::Temperature))
    } else if is_reset(arg) {
        three(
            Effect::SetTemperature(None),
            Effect::Unpersist("temperature".to_string()),
            Effect::Info("temperature → default".to_string()),
        )
    } else {
        one(Effect::ParseTemperature(arg.to_string()))
    }
}

/// Whether the bits of a single precision number are those of one from zero to two. The
/// bits of positive numbers are in the order of the numbers; those of infinity and of what
/// is no number come after them, those of negative numbers after these.
pub open spec fn is_temperature(bits: u32) -> bool {
    bits <= 0x4000_0000 || bits == 0x8000_0000
}

/// What `/temp` asks for once its argument was read as a number, if it is one: by its
/// bits, and as it is shown.
pub open spec fn temperature_read(number: Option<(u32, Seq<char>)>) -> Seq<Effect<Seq<char>>> {
    match number {
        Some((bits, shown)) if is_temperature(bits) => seq![
            Effect::SetTemperature(Some(bits)),
            Effect::Persist { key: "temperature"@, value: Setting::Float(bits) },
            Effect::Info("temperature → "@ + shown),
        ],
        _ => effects::said("usage: /temp <0-2> | default"@),
    }
}

/// The view of a number that was read.
pub open spec fn number_view(number: Option<(u32, String)>) -> Option<(u32, Seq<char>)> {
    match number {
        Some((bits, shown)) => Some((bits, shown@)),
        None => None,
    }
}

/// What `/temp` asks for once its argument was read as a number, if it is one: by its
/// bits, and as it is shown.
pub fn set_temperature(number: &Option<(u32, String)>) -> (r: Vec<Effect>)
    ensures
        effects::effects(r@) == temperature_read(number_view(*number)),
{
    if let Some((bits, shown)) = number {
        let bits: u32 = *bits;
        if bits <= 0x4000_0000 || bits == 0x8000_0000 {
            return three(
                Effect::SetTemperature(Some(bits)),
                Effect::Persist { key: "temperature".to_string(), value: Setting::Float(bits) },
                Effect::Info(cat("temperature → ", shown.as_str())),
            );
        }
    }
    say("usage: /temp <0-2> | default")
}

/// What `/effort` asks for once the levels are known.
pub open spec fn effort_applied(
    arg: Seq<char>,
    list: Seq<EffortChoice<Seq<char>>>,
) -> Seq<Effect<Seq<char>>> {
    match effort::picked(arg, list, 0) {
        Some(i) => match list[i].value {
            Some(v) => seq![
                Effect::Persist { key: "effort"@, value: Setting::Text(v) },
                Effect::SetEffort(Some(v)),
                Effect::Info("effort → "@ + list[i].label + " ("@ + v + ")"@),
            ],
            None => seq![
                Effect::Unpersist("effort"@),
                Effect::SetEffort(None),
                Effect::Info("effort → default (the model/provider default)"@),
            ],
        },
        None => effects::said(
            "unknown effort '"@ + arg + "' — available: "@ + text::join(labels(list), ", "@),
        ),
    }
}

/// The names of the levels.
pub open spec fn labels(list: Seq<EffortChoice<Seq<char>>>) -> Seq<Seq<char>> {
    Seq::new(list.len(), |i: int| list[i].label)
}

fn label_strings(list: &Vec<EffortChoice>) -> (r: Vec<String>)
    ensures
        text::views(r@) == labels(effort::choices(list@)),
{
    let ghost want = labels(effort::choices(list@));
    let mut out: Vec<String> = Vec::new();
    assert(text::views(out@) =~= want.take(0));
    for i in 0..list.len()
        invariant
            want == labels(effort::choices(list@)),
            text::views(out@) == want.take(i as int),
    {
        let ghost before = text::views(out@);
        out.push(list[i].label.clone());
        assert(text::views(out@) =~= before.push(want[i as int]));
        assert(text::views(out@) =~= want.take(i + 1));
    }
    assert(want.take(list@.len() as int) =~= want);
    out
}

/// What `/effort` asks for once the levels that the model takes are known: the level that
/// the argument names by its value or by its label, or the model's own.
pub fn apply_effort(arg: &str, list: &Vec<EffortChoice>) -> (r: Vec<Effect>)
    ensures
        effects::effects(r@) == effort_applied(arg@, effort::choices(list@)),
{
    match pick(arg, list) {
        Some(c) => match &c.value {
            Some(v) => {
                let mut line = cat3("effort → ", c.label.as_str(), " (");
                line.append(v.as_str());
                line.append(")");
                three(
                    Effect::Persist {
                        key: "effort".to_string(),
                        value: Setting::Text(v.clone()),
                    },
                    Effect::SetEffort(Some(v.clone())),
                    Effect::Info(line),
                )
            },
            None => three(
                Effect::Unpersist("effort".to_string()),
                Effect::SetEffort(None),
                Effect::Info("effort → default (the model/provider default)".to_string()),
            ),
        },
        None => {
            let mut line = cat3("unknown effort '", arg, "' — available: ");
            line.append(join_strings(&label_strings(list), ", ").as_str());
            one(Effect::Info(line))
        },
    }
}

/// What `/cwd` asks for.
pub open spec fn change_dir(busy: bool, cwd: Seq<char>, arg: Seq<char>) -> Seq<Effect<Seq<char>>> {
    if arg.len() == 0 {
        effects::said("cwd: "@ + cwd)
    } else if busy {
        effects::said(notices::BUSY_MSG@)
    } else {
        seq![Effect::Enter(arg)]
    }
}

/// What `/cwd` asks for.
pub fn cwd_effects(busy: bool, cwd: &str, arg: &str) -> (r: Vec<Effect>)
    ensures
        effects::effects(r@) == change_dir(busy, cwd@, arg@),
{
    if arg.is_empty() {
        say(cat("cwd: ", cwd).as_str())
    } else if busy {
        one(Effect::Info(busy_generic()))
    } else {
        one(Effect::Enter(arg.to_string()))
    }
}

/// What going to a directory comes to. `canonical` is its real path, where it is one.
pub open spec fn entered(
    path: Seq<char>,
    canonical: Option<Seq<char>>,
    trusted: bool,
) -> Seq<Effect<Seq<char>>> {
    match canonical {
        None => effects::said("not a directory: "@ + path),
        Some(dir) => if trusted {
            seq![Effect::SetCwd(dir), Effect::Info("cwd → "@ + dir)]
        } else {
            effects::said(
                "not a trusted directory: "@ + dir
                    + " — hrdr asks about a directory when it opens there, and cannot ask mid-session. Start hrdr in it to answer."@,
            )
        },
    }
}

/// What going to a directory comes to: one that the user was never asked about is not
/// entered, because the answer for the first would stand for it. `canonical` is its real
/// path, where it is a directory.
pub fn enter_dir(path: &str, canonical: Option<&str>, trusted: bool) -> (r: Vec<Effect>)
    ensures
        effects::effects(r@) == entered(path@, config::opt_str_view(canonical), trusted),
{
    match canonical {
        None => say(cat("not a directory: ", path).as_str()),
        Some(dir) => if trusted {
            two(Effect::SetCwd(dir.to_string()), Effect::Info(cat("cwd → ", dir)))
        } else {
            say(
                cat3(
                    "not a trusted directory: ",
                    dir,
                    " — hrdr asks about a directory when it opens there, and cannot ask mid-session. Start hrdr in it to answer.",
                ).as_str(),
            )
        },
    }
}

/// A directory that is not trusted is never made the working directory.
pub proof fn law_only_trusted_directories_are_entered(
    path: Seq<char>,
    canonical: Option<Seq<char>>,
    i: int,
)
    requires
        0 <= i < entered(path, canonical, false).len(),
    ensures
        entered(path, canonical, false)[i] is Info,
{
}

/// What `/verbose` asks for.
pub open spec fn verbose(on: bool, arg: Seq<char>) -> Seq<Effect<Seq<char>>> {
    if arg.len() == 0 {
        seq![Effect::SetExpansion(if on {
            ExpandMode::Off
        } else {
            ExpandMode::All
        })]
    } else {
        seq![Effect::ParseSwitch(arg)]
    }
}

fn verbose_effects(on: bool, arg: &str) -> (r: Vec<Effect>)
    ensures
        effects::effects(r@) == verbose(on, arg@),
{
    if arg.is_empty() {
        one(
            Effect::SetExpansion(
                if on {
                    ExpandMode::Off
                } else {
                    ExpandMode::All
                },
            ),
        )
    } else {
        one(Effect::ParseSwitch(arg.to_string()))
    }
}

/// What `/verbose` asks for once its argument was read as a switch, if it is one.
pub fn set_verbose(on: Option<bool>) -> (r: Vec<Effect>)
    ensures
        effects::effects(r@) == (match on {
            Some(true) => seq![Effect::SetExpansion(ExpandMode::All)],
            Some(false) => seq![Effect::SetExpansion(ExpandMode::Off)],
            None => effects::said("usage: /verbose [on | off]"@),
        }),
{
    match on {
        Some(true) => one(Effect::SetExpansion(ExpandMode::All)),
        Some(false) => one(Effect::SetExpansion(ExpandMode::Off)),
        None => say("usage: /verbose [on | off]"),
    }
}

/// Whether a text may be the path of a file: it is one line, and not blank.
pub open spec fn may_be_path(clip: Seq<char>) -> bool {
    text::trim(clip).len() > 0 && !text::trim(clip).contains('\n')
}

/// What `/paste` asks for, going by the text of the clipboard, and by whether the path
/// that it may be is that of a file.
pub open spec fn pasted(clip: Option<Seq<char>>, is_file: bool) -> Seq<Effect<Seq<char>>> {
    match clip {
        Some(t) if t.len() > 0 => if may_be_path(t) && is_file {
            seq![
                Effect::InsertInput("@"@ + text::trim(t) + " "@),
                Effect::Info("attached @"@ + text::trim(t) + " from clipboard"@),
            ]
        } else {
            seq![Effect::InsertInput(t)]
        },
        _ => effects::said("clipboard unavailable or empty"@),
    }
}

/// What `/paste` asks for: the path of a file is attached, other text goes into the input
/// as it is.
pub fn paste_effects(clip: Option<&str>, is_file: bool) -> (r: Vec<Effect>)
    ensures
        effects::effects(r@) == pasted(config::opt_str_view(clip), is_file),
{
    if let Some(t) = clip {
        if !t.is_empty() {
            let path = str_trim(t);
            if !path.as_str().is_empty() && !str_has_char(path.as_str(), '\n') && is_file {
                return two(
                    Effect::InsertInput(cat3("@", path.as_str(), " ")),
                    Effect::Info(cat3("attached @", path.as_str(), " from clipboard")),
                );
            }
            return one(Effect::InsertInput(t.to_string()));
        }
    }
    say("clipboard unavailable or empty")
}

/// What `/theme` asks for.
pub open spec fn theme(arg: Seq<char>) -> Seq<Effect<Seq<char>>> {
    if arg.len() == 0 {
        seq![Effect::Pick(Picker::Theme)]
    } else if arg == "reset"@ || arg == "default"@ {
        seq![
            Effect::SetTheme(None),
            Effect::Unpersist("theme"@),
            Effect::Info("theme reset to default"@),
        ]
    } else {
        seq![
            Effect::SetTheme(Some(arg)),
            Effect::Persist { key: "theme"@, value: Setting::Text(arg) },
            Effect::Info("theme → "@ + arg),
        ]
    }
}

fn theme_effects(arg: &str) -> (r: Vec<Effect>)
    ensures
        effects::effects(r@) == theme(arg@),
{
    if arg.is_empty() {
        one(Effect::Pick(Picker::Theme))
    } else if str_eq(arg, "reset") || str_eq(arg, "default") {
        three(
            Effect::SetTheme(None),
            Effect::Unpersist("theme".to_string()),
            Effect::Info("theme reset to default".to_string()),
        )
    } else {
        three(
            Effect::SetTheme(Some(arg.to_string())),
            Effect::Persist {
                key: "theme".to_string(),
                value: Setting::Text(arg.to_string()),
            },
            Effect::Info(cat("theme → ", arg)),
        )
    }
}

/// What a command that takes no argument asks for: to be told so where there is one, and
/// in any case what it is for.
pub open spec fn without_argument(
    arg: Seq<char>,
    note: Seq<char>,
    e: Effect<Seq<char>>,
) -> Seq<Effect<Seq<char>>> {
    if arg.len() > 0 {
        seq![Effect::Info(note), e]
    } else {
        seq![e]
    }
}

fn noted(arg: &str, note: &str, e: Effect) -> (r: Vec<Effect>)
    ensures
        effects::effects(r@) == without_argument(arg@, note@, e@),
{
    if arg.is_empty() {
        one(e)
    } else {
        two(Effect::Info(note.to_string()), e)
    }
}

/// What `/resume` asks for.
pub open spec fn resume(busy: bool, arg: Seq<char>) -> Seq<Effect<Seq<char>>> {
    if arg.len() == 0 {
        seq![Effect::Pick(Picker::Session)]
    } else if busy {
        effects::said(RESUME_BUSY_MSG@)
    } else {
        seq![Effect::FindSession(arg)]
    }
}

fn resume_effects(busy: bool, arg: &str) -> (r: Vec<Effect>)
    ensures
        effects::effects(r@) == resume(busy, arg@),
{
    if arg.is_empty() {
        one(Effect::Pick(Picker::Session))
    } else if busy {
        say(RESUME_BUSY_MSG)
    } else {
        one(Effect::FindSession(arg.to_string()))
    }
}

/// What `/resume` asks for once the session was looked for.
pub fn session_found(arg: &str, id: Option<&str>) -> (r: Vec<Effect>)
    ensures
        effects::effects(r@) == (match config::opt_str_view(id) {
            Some(i) => seq![Effect::Resume(i)],
            None => effects::said("no session matching '"@ + arg@ + "' (see /resume)"@),
        }),
{
    match id {
        Some(i) => one(Effect::Resume(i.to_string())),
        None => say(cat3("no session matching '", arg, "' (see /resume)").as_str()),
    }
}

/// What `/compact` asks for: a compaction now, or after the turn that is running.
pub open spec fn compact(busy: bool, arg: Seq<char>) -> Seq<Effect<Seq<char>>> {
    if busy {
        seq![Effect::QueueCompaction(unless_empty(arg))]
    } else {
        seq![Effect::StartCompaction(unless_empty(arg))]
    }
}

fn compact_effects(busy: bool, arg: &str) -> (r: Vec<Effect>)
    ensures
        effects::effects(r@) == compact(busy, arg@),
{
    if busy {
        one(Effect::QueueCompaction(some_text(arg)))
    } else {
        one(Effect::StartCompaction(some_text(arg)))
    }
}

/// What `/init` sends the model. An instruction file of the vendor's is improved, not
/// thrown away.
pub open spec fn init_text(vendor: Seq<char>) -> Seq<char> {
    INIT_PROMPT@ + text::upper(vendor) + INIT_PROMPT_REST@
}

/// What `/init` sends the model.
pub fn init_prompt(vendor: &str) -> (r: String)
    ensures
        r@ == init_text(vendor@),
{
    cat3(INIT_PROMPT, str_upper(vendor).as_str(), INIT_PROMPT_REST)
}

/// What `/init` asks for.
pub open spec fn init(busy: bool, vendor: Seq<char>) -> Seq<Effect<Seq<char>>> {
    if busy {
        effects::said(notices::busy_text("/init"@))
    } else {
        seq![
            Effect::Info(INIT_MSG@),
            Effect::SendPrompt { prompt: init_text(vendor), show_as_user: false },
        ]
    }
}

fn init_effects(busy: bool, vendor: &str) -> (r: Vec<Effect>)
    ensures
        effects::effects(r@) == init(busy, vendor@),
{
    if busy {
        one(Effect::Info(busy_guard("/init")))
    } else {
        two(
            Effect::Info(INIT_MSG.to_string()),
            Effect::SendPrompt { prompt: init_prompt(vendor), show_as_user: false },
        )
    }
}

// ---------------------------------------------------------------------------
// The line
// ---------------------------------------------------------------------------

/// What a command asks for, by its own name; `None` where there is no such command.
pub open spec fn asked(h: HostView, cmd: Seq<char>, arg: Seq<char>) -> Option<
    Seq<Effect<Seq<char>>>,
> {
    if cmd == "help"@ {
        Some(effects::said(help(h.lacks, h.tips)))
    } else if cmd == "new"@ {
        Some(new_conversation(arg))
    } else if cmd == "model"@ {
        Some(seq![Effect::Pick(Picker::Model)])
    } else if cmd == "tools"@ {
        Some(seq![Effect::Report(Report::Tools)])
    } else if cmd == "prompt"@ || cmd == "system"@ {
        Some(seq![Effect::Report(Report::Prompt)])
    } else if cmd == "guardrails"@ || cmd == "rails"@ {
        Some(seq![Effect::Report(Report::Guardrails)])
    } else if cmd == "status"@ {
        Some(seq![Effect::Report(Report::Status)])
    } else if cmd == "export"@ {
        Some(seq![Effect::Export(arg)])
    } else if cmd == "rename"@ {
        Some(rename(arg))
    } else if cmd == "temp"@ || cmd == "temperature"@ {
        Some(temperature(arg))
    } else if cmd == "effort"@ {
        Some(
            if arg.len() == 0 {
                seq![Effect::Pick(Picker::Effort)]
            } else {
                seq![Effect::FindEffort(arg)]
            },
        )
    } else if cmd == "cwd"@ {
        Some(change_dir(h.busy, h.cwd, arg))
    } else if cmd == "verbose"@ {
        Some(verbose(h.verbose, arg))
    } else {
        asked_more(h, cmd, arg)
    }
}

/// What the other commands ask for.
pub open spec fn asked_more(h: HostView, cmd: Seq<char>, arg: Seq<char>) -> Option<
    Seq<Effect<Seq<char>>>,
> {
    if cmd == "paste"@ {
        Some(seq![Effect::ReadClipboard])
    } else if cmd == "compact"@ {
        Some(compact(h.busy, arg))
    } else if cmd == "init"@ {
        Some(init(h.busy, h.vendor))
    } else if cmd == "todo-ttl"@ || cmd == "todottl"@ || cmd == "todos"@ {
        Some(todo_ttl(h.todo_ttl, arg, |n: nat| at_most_signed(n)))
    } else if cmd == "theme"@ {
        Some(theme(arg))
    } else if cmd == "statusbar"@ {
        Some(statusbar(h.statusbar, arg))
    } else if cmd == "reload"@ {
        Some(seq![Effect::ReloadConfig])
    } else if cmd == "skills"@ {
        Some(
            without_argument(
                arg,
                "/skills takes no argument — skills run via `:name`"@,
                Effect::Pick(Picker::Skill),
            ),
        )
    } else if cmd == "login"@ {
        Some(without_argument(arg, "/login takes no argument"@, Effect::Login))
    } else if cmd == "resume"@ || cmd == "load"@ {
        Some(resume(h.busy, arg))
    } else if cmd == "cost"@ {
        Some(effects::said(reports::usage_text(h.status.usage)))
    } else if cmd == "doctor"@ {
        Some(
            seq![
                Effect::Info(reports::doctor_head(h.status, h.dir, h.config_path)),
                Effect::Report(Report::Doctor),
            ],
        )
    } else {
        None
    }
}

/// The view of what a command asks for.
pub open spec fn asked_view(r: Option<Vec<Effect>>) -> Option<Seq<Effect<Seq<char>>>> {
    match r {
        Some(v) => Some(effects::effects(v@)),
        None => None,
    }
}

/// What a command asks for, by its own name; `None` where there is no such command.
pub fn run(h: &Host, cmd: &str, arg: &str) -> (r: Option<Vec<Effect>>)
    ensures
        asked_view(r) == asked(h@, cmd@, arg@),
{
    if str_eq(cmd, "help") {
        Some(one(Effect::Info(help_line(&h.lacks, &h.tips))))
    } else if str_eq(cmd, "new") {
        Some(new_effects(arg))
    } else if str_eq(cmd, "model") {
        Some(one(Effect::Pick(Picker::Model)))
    } else if str_eq(cmd, "tools") {
        Some(one(Effect::Report(Report::Tools)))
    } else if str_eq(cmd, "prompt") || str_eq(cmd, "system") {
        Some(one(Effect::Report(Report::Prompt)))
    } else if str_eq(cmd, "guardrails") || str_eq(cmd, "rails") {
        Some(one(Effect::Report(Report::Guardrails)))
    } else if str_eq(cmd, "status") {
        Some(one(Effect::Report(Report::Status)))
    } else if str_eq(cmd, "export") {
        Some(one(Effect::Export(arg.to_string())))
    } else if str_eq(cmd, "rename") {
        Some(rename_effects(arg))
    } else if str_eq(cmd, "temp") || str_eq(cmd, "temperature") {
        Some(temperature_effects(arg))
    } else if str_eq(cmd, "effort") {
        if arg.is_empty() {
            Some(one(Effect::Pick(Picker::Effort)))
        } else {
            Some(one(Effect::FindEffort(arg.to_string())))
        }
    } else if str_eq(cmd, "cwd") {
        Some(cwd_effects(h.busy, h.cwd.as_str(), arg))
    } else if str_eq(cmd, "verbose") {
        Some(verbose_effects(h.verbose, arg))
    } else {
        run_more(h, cmd, arg)
    }
}

fn run_more(h: &Host, cmd: &str, arg: &str) -> (r: Option<Vec<Effect>>)
    ensures
        asked_view(r) == asked_more(h@, cmd@, arg@),
{
    if str_eq(cmd, "paste") {
        Some(one(Effect::ReadClipboard))
    } else if str_eq(cmd, "compact") {
        Some(compact_effects(h.busy, arg))
    } else if str_eq(cmd, "init") {
        Some(init_effects(h.busy, h.vendor.as_str()))
    } else if str_eq(cmd, "todo-ttl") || str_eq(cmd, "todottl") || str_eq(cmd, "todos") {
        Some(todo_ttl_effects(h.todo_ttl, arg))
    } else if str_eq(cmd, "theme") {
        Some(theme_effects(arg))
    } else if str_eq(cmd, "statusbar") {
        Some(statusbar_effects(h.statusbar, arg))
    } else if str_eq(cmd, "reload") {
        Some(one(Effect::ReloadConfig))
    } else if str_eq(cmd, "skills") {
        Some(
            noted(
                arg,
                "/skills takes no argument — skills run via `:name`",
                Effect::Pick(Picker::Skill),
            ),
        )
    } else if str_eq(cmd, "login") {
        Some(noted(arg, "/login takes no argument", Effect::Login))
    } else if str_eq(cmd, "resume") || str_eq(cmd, "load") {
        Some(resume_effects(h.busy, arg))
    } else if str_eq(cmd, "cost") {
        Some(one(Effect::Info(cost_line(&h.status.usage))))
    } else if str_eq(cmd, "doctor") {
        Some(
            two(
                Effect::Info(doctor_header(&h.status, h.dir.as_str(), &h.config_path)),
                Effect::Report(Report::Doctor),
            ),
        )
    } else {
        None
    }
}

/// The name and the argument of a command line: what stands between the slash and the
/// first blank, and what follows, without the blanks around it.
pub open spec fn command_line(line: Seq<char>) -> Option<(Seq<char>, Seq<char>)> {
    if line.len() > 0 && line[0] == '/' {
        let rest = line.skip(1);
        let n = text::word_len(rest) as int;
        Some((rest.take(n), text::trim(rest.skip(n))))
    } else {
        None
    }
}

/// The name and the argument of a command line, if a line is one.
pub fn split_command(line: &str) -> (r: Option<(String, String)>)
    ensures
        match r {
            Some((cmd, arg)) => command_line(line@) == Some((cmd@, arg@)),
            None => command_line(line@) is None,
        },
{
    let v = chars_of(line);
    if v.len() == 0 || v[0] != '/' {
        return None;
    }
    let ghost rest = line@.skip(1);
    let end = end_of_word(&v, 1);
    let ghost n = text::word_len(rest) as int;
    let cmd = string_of_range(&v, 1, end);
    let tail = string_of_range(&v, end, v.len());
    assert(cmd@ =~= rest.take(n));
    assert(tail@ =~= rest.skip(n));
    Some((cmd, str_trim(tail.as_str())))
}

/// What a line asks for; `None` where it is no command.
pub open spec fn dispatched(h: HostView, line: Seq<char>) -> Option<Seq<Effect<Seq<char>>>> {
    match command_line(line) {
        Some((cmd, arg)) => asked(h, registry::canonical(cmd), arg),
        None => None,
    }
}

/// What a line asks for, under the name of the command or an alias of it. `None` where it
/// is no command: such a line may be a message to the model.
pub fn dispatch(h: &Host, line: &str) -> (r: Option<Vec<Effect>>)
    ensures
        asked_view(r) == dispatched(h@, line@),
{
    match split_command(line) {
        Some((cmd, arg)) => run(h, resolve_alias(cmd.as_str()), arg.as_str()),
        None => None,
    }
}

/// Whether an effect begins a turn or a compaction, goes to a directory or takes up a
/// session.
pub open spec fn begins(e: Effect<Seq<char>>) -> bool {
    e is Enter || e is SetCwd || e is StartCompaction || e is SendPrompt || e is FindSession
        || e is Resume
}

/// While a turn is running, no command begins another turn or a compaction, goes to
/// another directory or takes up another session.
pub proof fn law_nothing_else_begins_during_a_turn(h: HostView, line: Seq<char>, i: int)
    requires
        h.busy,
        dispatched(h, line) is Some,
        0 <= i < dispatched(h, line)->0.len(),
    ensures
        !begins(dispatched(h, line)->0[i]),
{
}

/// A command does the same under each of its names.
pub proof fn law_aliases_act_alike(h: HostView, a: Seq<char>, b: Seq<char>)
    requires
        command_line(a) matches Some((x, p)) && (command_line(b) matches Some((y, q)) && p == q
            && registry::canonical(x) == registry::canonical(y)),
    ensures
        dispatched(h, a) == dispatched(h, b),
{
}

/// A message that does not begin with a slash is never a command.
pub proof fn law_messages_are_no_commands(h: HostView, line: Seq<char>)
    requires
        line.len() == 0 || line[0] != '/',
    ensures
        dispatched(h, line) is None,
{
}

// ---------------------------------------------------------------------------
// What the commands are for
// ---------------------------------------------------------------------------

/// The name of a command and its argument are read off a line as they were written there:
/// after the slash, with a blank between them.
pub proof fn law_a_command_line_reads_back(name: Seq<char>, arg: Seq<char>)
    requires
        !text::has_white(name),
        arg.len() > 0 ==> !text::is_white(arg[0]) && !text::is_white(arg.last()),
    ensures
        command_line(seq!['/'] + name + seq![' '] + arg) == Some((name, arg)),
        command_line(seq!['/'] + name) == Some((name, Seq::<char>::empty())),
{
    let line = seq!['/'] + name + seq![' '] + arg;
    assert(line.skip(1) =~= name + (seq![' '] + arg));
    lemma_word_ends(name, seq![' '] + arg);
    assert((name + (seq![' '] + arg)).take(name.len() as int) =~= name);
    assert((name + (seq![' '] + arg)).skip(name.len() as int) =~= seq![' '] + arg);
    let t = seq![' '] + arg;
    assert(text::is_white(t[0]));
    assert(t.drop_first() =~= arg);
    assert(text::trim_start(t) == text::trim_start(arg));
    assert(text::trim_start(arg) == arg);
    assert(text::trim_end(arg) == arg);
    let bare = seq!['/'] + name;
    assert(bare.skip(1) =~= name + Seq::<char>::empty());
    lemma_word_ends(name, Seq::empty());
    assert((name + Seq::<char>::empty()).take(name.len() as int) =~= name);
    assert((name + Seq::<char>::empty()).skip(name.len() as int) =~= Seq::<char>::empty());
    assert(text::trim(Seq::<char>::empty()) =~= Seq::<char>::empty());
}

proof fn lemma_word_ends(word: Seq<char>, rest: Seq<char>)
    requires
        !text::has_white(word),
        rest.len() > 0 ==> text::is_white(rest[0]),
    ensures
        text::word_len(word + rest) == word.len(),
    decreases word.len(),
{
    let all = word + rest;
    if word.len() == 0 {
        assert(all =~= rest);
    } else {
        assert(!text::is_white(word[0]));
        assert(all[0] == word[0]);
        assert(all.drop_first() =~= word.drop_first() + rest);
        assert(!text::has_white(word.drop_first())) by {
            if text::has_white(word.drop_first()) {
                let i = choose|i: int|
                    0 <= i < word.drop_first().len() && text::is_white(
                        #[trigger] word.drop_first()[i],
                    );
                assert(text::is_white(word[i + 1]));
            }
        }
        lemma_word_ends(word.drop_first(), rest);
    }
}

/// The names, letter by letter.
proof fn lemma_names()
    ensures
        "help"@.len() == 4,
        "help"@ == seq!['h', 'e', 'l', 'p'],
        "new"@.len() == 3,
        "new"@ == seq!['n', 'e', 'w'],
        "model"@.len() == 5,
        "model"@ == seq!['m', 'o', 'd', 'e', 'l'],
        "tools"@.len() == 5,
        "tools"@ == seq!['t', 'o', 'o', 'l', 's'],
        "prompt"@.len() == 6,
        "prompt"@ == seq!['p', 'r', 'o', 'm', 'p', 't'],
        "system"@.len() == 6,
        "system"@ == seq!['s', 'y', 's', 't', 'e', 'm'],
        "guardrails"@.len() == 10,
        "guardrails"@ == seq!['g', 'u', 'a', 'r', 'd', 'r', 'a', 'i', 'l', 's'],
        "rails"@.len() == 5,
        "rails"@ == seq!['r', 'a', 'i', 'l', 's'],
        "status"@.len() == 6,
        "status"@ == seq!['s', 't', 'a', 't', 'u', 's'],
        "export"@.len() == 6,
        "export"@ == seq!['e', 'x', 'p', 'o', 'r', 't'],
        "rename"@.len() == 6,
        "rename"@ == seq!['r', 'e', 'n', 'a', 'm', 'e'],
        "temp"@.len() == 4,
        "temp"@ == seq!['t', 'e', 'm', 'p'],
        "temperature"@.len() == 11,
        "temperature"@ == seq!['t', 'e', 'm', 'p', 'e', 'r', 'a', 't', 'u', 'r', 'e'],
        "effort"@.len() == 6,
        "effort"@ == seq!['e', 'f', 'f', 'o', 'r', 't'],
        "cwd"@.len() == 3,
        "cwd"@ == seq!['c', 'w', 'd'],
        "verbose"@.len() == 7,
        "verbose"@ == seq!['v', 'e', 'r', 'b', 'o', 's', 'e'],
        "paste"@.len() == 5,
        "paste"@ == seq!['p', 'a', 's', 't', 'e'],
        "compact"@.len() == 7,
        "compact"@ == seq!['c', 'o', 'm', 'p', 'a', 'c', 't'],
        "init"@.len() == 4,
        "init"@ == seq!['i', 'n', 'i', 't'],
        "todo-ttl"@.len() == 8,
        "todo-ttl"@ == seq!['t', 'o', 'd', 'o', '-', 't', 't', 'l'],
        "todottl"@.len() == 7,
        "todottl"@ == seq!['t', 'o', 'd', 'o', 't', 't', 'l'],
        "todos"@.len() == 5,
        "todos"@ == seq!['t', 'o', 'd', 'o', 's'],
        "theme"@.len() == 5,
        "theme"@ == seq!['t', 'h', 'e', 'm', 'e'],
        "statusbar"@.len() == 9,
        "statusbar"@ == seq!['s', 't', 'a', 't', 'u', 's', 'b', 'a', 'r'],
        "reload"@.len() == 6,
        "reload"@ == seq!['r', 'e', 'l', 'o', 'a', 'd'],
        "skills"@.len() == 6,
        "skills"@ == seq!['s', 'k', 'i', 'l', 'l', 's'],
        "login"@.len() == 5,
        "login"@ == seq!['l', 'o', 'g', 'i', 'n'],
        "resume"@.len() == 6,
        "resume"@ == seq!['r', 'e', 's', 'u', 'm', 'e'],
        "load"@.len() == 4,
        "load"@ == seq!['l', 'o', 'a', 'd'],
        "cost"@.len() == 4,
        "cost"@ == seq!['c', 'o', 's', 't'],
        "doctor"@.len() == 6,
        "doctor"@ == seq!['d', 'o', 'c', 't', 'o', 'r'],
        "none"@.len() == 4,
        "none"@ == seq!['n', 'o', 'n', 'e'],
        "off"@.len() == 3,
        "off"@ == seq!['o', 'f', 'f'],
        "hidden"@.len() == 6,
        "hidden"@ == seq!['h', 'i', 'd', 'd', 'e', 'n'],
        "truncate"@.len() == 8,
        "truncate"@ == seq!['t', 'r', 'u', 'n', 'c', 'a', 't', 'e'],
        "trunc"@.len() == 5,
        "trunc"@ == seq!['t', 'r', 'u', 'n', 'c'],
        "wrap"@.len() == 4,
        "wrap"@ == seq!['w', 'r', 'a', 'p'],
        "reset"@.len() == 5,
        "reset"@ == seq!['r', 'e', 's', 'e', 't'],
        "default"@.len() == 7,
        "default"@ == seq!['d', 'e', 'f', 'a', 'u', 'l', 't'],
{
    reveal_strlit("help");
    reveal_strlit("new");
    reveal_strlit("model");
    reveal_strlit("tools");
    reveal_strlit("prompt");
    reveal_strlit("system");
    reveal_strlit("guardrails");
    reveal_strlit("rails");
    reveal_strlit("status");
    reveal_strlit("export");
    reveal_strlit("rename");
    reveal_strlit("temp");
    reveal_strlit("temperature");
    reveal_strlit("effort");
    reveal_strlit("cwd");
    reveal_strlit("verbose");
    reveal_strlit("paste");
    reveal_strlit("compact");
    reveal_strlit("init");
    reveal_strlit("todo-ttl");
    reveal_strlit("todottl");
    reveal_strlit("todos");
    reveal_strlit("theme");
    reveal_strlit("statusbar");
    reveal_strlit("reload");
    reveal_strlit("skills");
    reveal_strlit("login");
    reveal_strlit("resume");
    reveal_strlit("load");
    reveal_strlit("cost");
    reveal_strlit("doctor");
    reveal_strlit("none");
    reveal_strlit("off");
    reveal_strlit("hidden");
    reveal_strlit("truncate");
    reveal_strlit("trunc");
    reveal_strlit("wrap");
    reveal_strlit("reset");
    reveal_strlit("default");
    assert("help"@ =~= seq!['h', 'e', 'l', 'p']);
    assert("new"@ =~= seq!['n', 'e', 'w']);
    assert("model"@ =~= seq!['m', 'o', 'd', 'e', 'l']);
    assert("tools"@ =~= seq!['t', 'o', 'o', 'l', 's']);
    assert("prompt"@ =~= seq!['p', 'r', 'o', 'm', 'p', 't']);
    assert("system"@ =~= seq!['s', 'y', 's', 't', 'e', 'm']);
    assert("guardrails"@ =~= seq!['g', 'u', 'a', 'r', 'd', 'r', 'a', 'i', 'l', 's']);
    assert("rails"@ =~= seq!['r', 'a', 'i', 'l', 's']);
    assert("status"@ =~= seq!['s', 't', 'a', 't', 'u', 's']);
    assert("export"@ =~= seq!['e', 'x', 'p', 'o', 'r', 't']);
    assert("rename"@ =~= seq!['r', 'e', 'n', 'a', 'm', 'e']);
    assert("temp"@ =~= seq!['t', 'e', 'm', 'p']);
    assert("temperature"@ =~= seq!['t', 'e', 'm', 'p', 'e', 'r', 'a', 't', 'u', 'r', 'e']);
    assert("effort"@ =~= seq!['e', 'f', 'f', 'o', 'r', 't']);
    assert("cwd"@ =~= seq!['c', 'w', 'd']);
    assert("verbose"@ =~= seq!['v', 'e', 'r', 'b', 'o', 's', 'e']);
    assert("paste"@ =~= seq!['p', 'a', 's', 't', 'e']);
    assert("compact"@ =~= seq!['c', 'o', 'm', 'p', 'a', 'c', 't']);
    assert("init"@ =~= seq!['i', 'n', 'i', 't']);
    assert("todo-ttl"@ =~= seq!['t', 'o', 'd', 'o', '-', 't', 't', 'l']);
    assert("todottl"@ =~= seq!['t', 'o', 'd', 'o', 't', 't', 'l']);
    assert("todos"@ =~= seq!['t', 'o', 'd', 'o', 's']);
    assert("theme"@ =~= seq!['t', 'h', 'e', 'm', 'e']);
    assert("statusbar"@ =~= seq!['s', 't', 'a', 't', 'u', 's', 'b', 'a', 'r']);
    assert("reload"@ =~= seq!['r', 'e', 'l', 'o', 'a', 'd']);
    assert("skills"@ =~= seq!['s', 'k', 'i', 'l', 'l', 's']);
    assert("login"@ =~= seq!['l', 'o', 'g', 'i', 'n']);
    assert("resume"@ =~= seq!['r', 'e', 's', 'u', 'm', 'e']);
    assert("load"@ =~= seq!['l', 'o', 'a', 'd']);
    assert("cost"@ =~= seq!['c', 'o', 's', 't']);
    assert("doctor"@ =~= seq!['d', 'o', 'c', 't', 'o', 'r']);
    assert("none"@ =~= seq!['n', 'o', 'n', 'e']);
    assert("off"@ =~= seq!['o', 'f', 'f']);
    assert("hidden"@ =~= seq!['h', 'i', 'd', 'd', 'e', 'n']);
    assert("truncate"@ =~= seq!['t', 'r', 'u', 'n', 'c', 'a', 't', 'e']);
    assert("trunc"@ =~= seq!['t', 'r', 'u', 'n', 'c']);
    assert("wrap"@ =~= seq!['w', 'r', 'a', 'p']);
    assert("reset"@ =~= seq!['r', 'e', 's', 'e', 't']);
    assert("default"@ =~= seq!['d', 'e', 'f', 'a', 'u', 'l', 't']);
}

/// A mode of the status bar that is named as the configuration stores it, whatever the
/// case of the letters, is the mode that is set and stored, whatever the present one is.
pub proof fn law_a_named_mode_is_set(h: HostView, mode: StatusBarMode, arg: Seq<char>)
    requires
        text::lower(arg) == mode.name(),
    ensures
        next_statusbar(h.statusbar, arg) == Some(mode),
        asked(h, "statusbar"@, arg) matches Some(e) && {
            &&& e.len() == 3
            &&& e[0] == Effect::<Seq<char>>::SetStatusBar(mode)
            &&& e[1] == (Effect::Persist { key: "statusbar"@, value: Setting::Text(mode.name()) })
            &&& e[2] is Info
        },
        forall|other: StatusBarMode| #[trigger] other.name() == mode.name() ==> other == mode,
{
    lemma_names();
    assert(asked(h, "statusbar"@, arg) == asked_more(h, "statusbar"@, arg));
    assert(asked_more(h, "statusbar"@, arg) == Some(statusbar(h.statusbar, arg)));
}

/// Whatever line sets the mode of the status bar, the mode that is set is the one that is
/// stored, under a name by which it is read again.
pub proof fn law_the_mode_that_is_set_is_stored(h: HostView, arg: Seq<char>)
    ensures
        next_statusbar(h.statusbar, arg) matches Some(mode) ==> {
            let e = statusbar(h.statusbar, arg);
            &&& e[0] == Effect::<Seq<char>>::SetStatusBar(mode)
            &&& e[1] matches Effect::Persist { value, .. } && (value matches Setting::Text(t)
                && config::statusbar_mode(Some(t)) == mode)
        },
        next_statusbar(h.statusbar, arg) is None ==> statusbar(h.statusbar, arg).len() == 1
            && statusbar(h.statusbar, arg)[0] is Info,
        arg.len() == 0 ==> (next_statusbar(h.statusbar, arg) matches Some(mode) && mode
            != h.statusbar),
{
    if let Some(mode) = next_statusbar(h.statusbar, arg) {
        config::law_config_strings_round_trip(config::TimestampStyle::Exact, mode);
    }
}

/// A number of turns that is given in decimal is the number that is set; it is stored as
/// the same number, or as the largest that can be where it is larger.
pub proof fn law_a_number_of_turns_is_set(h: HostView, n: u64)
    ensures
        asked(h, "todo-ttl"@, text::decimal(n as nat)) matches Some(e) && {
            &&& e.len() == 3
            &&& e[0] == Effect::<Seq<char>>::SetTodoTtl(n)
            &&& e[1] matches Effect::Persist { key, value: Setting::Int(k) } && key == "todo_ttl"@
                && k >= 0 && (k == n || k == i64::MAX < n)
            &&& e[2] is Info
        },
        asked(h, "todo-ttl"@, Seq::empty()) matches Some(e) && e.len() == 1 && e[0] is Info,
{
    lemma_names();
    text::law_decimal_reads_back(n as nat, u64::MAX as nat);
    text::lemma_decimal_digits(n as nat);
}

/// What a command does to the session: `/new` clears the conversation, and names the new
/// one as it says; `/rename` gives the name that it says and stores the session; `/resume`
/// looks for the session that it names, and for none while a turn is running; `/compact`
/// begins at once or, during a turn, after it, with what it is told to keep in mind;
/// `/export` hands on what it says.
pub proof fn law_what_commands_do_to_the_session(h: HostView, arg: Seq<char>)
    requires
        arg.len() > 0,
    ensures
        asked(h, "new"@, Seq::empty()) matches Some(e) && e.len() == 2 && e[0] is ClearConversation
            && e[1] is Info,
        asked(h, "new"@, arg) matches Some(e) && e.len() == 3 && e[0] is ClearConversation && e[1]
            == Effect::SetSessionLabel(arg) && e[2] is Info,
        asked(h, "rename"@, Seq::empty()) matches Some(e) && e.len() == 1 && e[0] is Info,
        asked(h, "rename"@, arg) matches Some(e) && e.len() == 3 && e[0] == Effect::SetSessionLabel(
            arg,
        ) && e[1] is Autosave && e[2] is Info,
        asked(h, "resume"@, Seq::empty()) == Some(
            seq![Effect::<Seq<char>>::Pick(Picker::Session)],
        ),
        asked(h, "resume"@, arg) matches Some(e) && e.len() == 1 && (if h.busy {
            e[0] is Info
        } else {
            e[0] == Effect::FindSession(arg)
        }),
        asked(h, "load"@, arg) == asked(h, "resume"@, arg),
        asked(h, "compact"@, arg) == Some(
            seq![
                if h.busy {
                    Effect::QueueCompaction(Some(arg))
                } else {
                    Effect::StartCompaction(Some(arg))
                },
            ],
        ),
        asked(h, "compact"@, Seq::empty()) == Some(
            seq![
                if h.busy {
                    Effect::QueueCompaction(None::<Seq<char>>)
                } else {
                    Effect::StartCompaction(None::<Seq<char>>)
                },
            ],
        ),
        asked(h, "export"@, arg) == Some(seq![Effect::Export(arg)]),
        asked(h, "paste"@, arg) == Some(seq![Effect::<Seq<char>>::ReadClipboard]),
        asked(h, "init"@, arg) matches Some(e) && (if h.busy {
            e.len() == 1 && e[0] is Info
        } else {
            e.len() == 2 && e[0] is Info && (e[1] matches Effect::SendPrompt { show_as_user, .. }
                && !show_as_user)
        }),
{
    lemma_names();
}

/// What a command does to a setting: it sets and stores what it names, goes back to the
/// default and forgets what is stored where it says so, and without an argument changes
/// nothing.
pub proof fn law_what_commands_do_to_a_setting(h: HostView, arg: Seq<char>)
    requires
        arg.len() > 0,
    ensures
        asked(h, "theme"@, Seq::empty()) == Some(seq![Effect::<Seq<char>>::Pick(Picker::Theme)]),
        asked(h, "theme"@, arg) matches Some(e) && e.len() == 3 && e[2] is Info && (if arg
            == "reset"@ || arg == "default"@ {
            e[0] == Effect::SetTheme(None::<Seq<char>>) && e[1] == Effect::Unpersist("theme"@)
        } else {
            e[0] == Effect::SetTheme(Some(arg)) && e[1] == (Effect::Persist {
                key: "theme"@,
                value: Setting::Text(arg),
            })
        }),
        asked(h, "temp"@, Seq::empty()) == Some(
            seq![Effect::<Seq<char>>::Report(Report::Temperature)],
        ),
        asked(h, "temp"@, arg) matches Some(e) && (if text::lower(arg) == "reset"@ || text::lower(
            arg,
        ) == "default"@ {
            e.len() == 3 && e[0] == Effect::<Seq<char>>::SetTemperature(None) && e[1]
                == Effect::Unpersist("temperature"@) && e[2] is Info
        } else {
            e == seq![Effect::ParseTemperature(arg)]
        }),
        asked(h, "temperature"@, arg) == asked(h, "temp"@, arg),
        asked(h, "effort"@, Seq::empty()) == Some(seq![Effect::<Seq<char>>::Pick(Picker::Effort)]),
        asked(h, "effort"@, arg) == Some(seq![Effect::FindEffort(arg)]),
        asked(h, "model"@, arg) == Some(seq![Effect::<Seq<char>>::Pick(Picker::Model)]),
        asked(h, "cwd"@, Seq::empty()) == Some(effects::said("cwd: "@ + h.cwd)),
        asked(h, "cwd"@, arg) matches Some(e) && e.len() == 1 && (if h.busy {
            e[0] is Info
        } else {
            e[0] == Effect::Enter(arg)
        }),
        asked(h, "verbose"@, Seq::empty()) == Some(
            seq![
                Effect::<Seq<char>>::SetExpansion(
                    if h.verbose {
                        ExpandMode::Off
                    } else {
                        ExpandMode::All
                    },
                ),
            ],
        ),
        asked(h, "verbose"@, arg) == Some(seq![Effect::ParseSwitch(arg)]),
        asked(h, "reload"@, arg) == Some(seq![Effect::<Seq<char>>::ReloadConfig]),
{
    lemma_names();
}

/// What a command shows: the report that it is named for, and it changes nothing. One that
/// takes no argument says so where it has one and is carried out all the same.
pub proof fn law_what_commands_show(h: HostView, arg: Seq<char>)
    ensures
        asked(h, "tools"@, arg) == Some(seq![Effect::<Seq<char>>::Report(Report::Tools)]),
        asked(h, "prompt"@, arg) == Some(seq![Effect::<Seq<char>>::Report(Report::Prompt)]),
        asked(h, "system"@, arg) == asked(h, "prompt"@, arg),
        asked(h, "guardrails"@, arg) == Some(seq![Effect::<Seq<char>>::Report(Report::Guardrails)]),
        asked(h, "rails"@, arg) == asked(h, "guardrails"@, arg),
        asked(h, "status"@, arg) == Some(seq![Effect::<Seq<char>>::Report(Report::Status)]),
        asked(h, "doctor"@, arg) matches Some(e) && e.len() == 2 && e[0] is Info && e[1]
            == Effect::<Seq<char>>::Report(Report::Doctor),
        asked(h, "cost"@, arg) matches Some(e) && e.len() == 1 && e[0] is Info,
        asked(h, "help"@, arg) matches Some(e) && e.len() == 1 && (e[0] matches Effect::Info(t) && (
        h.tips matches Some(tip) ==> t.len() >= tip.len() && t.skip(t.len() - tip.len()) == tip)),
        asked(h, "skills"@, arg) matches Some(e) && e.len() == (if arg.len() > 0 {
            2int
        } else {
            1int
        }) && e.last() == Effect::<Seq<char>>::Pick(Picker::Skill) && (arg.len() > 0
            ==> e[0] is Info),
        asked(h, "login"@, arg) matches Some(e) && e.len() == (if arg.len() > 0 {
            2int
        } else {
            1int
        }) && e.last() == Effect::<Seq<char>>::Login && (arg.len() > 0 ==> e[0] is Info),
{
    lemma_names();
    if let Some(tip) = h.tips {
        let t = help(h.lacks, h.tips);
        assert(t.skip(t.len() - tip.len()) =~= tip);
    }
}

/// A temperature is set and stored by the number that was read, where that is from zero to
/// two, and by no other.
pub proof fn law_a_temperature_is_set_within_its_bounds(bits: u32, shown: Seq<char>)
    ensures
        ({
            let e = temperature_read(Some((bits, shown)));
            if bits <= 0x4000_0000 || bits == 0x8000_0000 {
                e.len() == 3 && e[0] == Effect::<Seq<char>>::SetTemperature(Some(bits)) && e[1] == (
                Effect::Persist { key: "temperature"@, value: Setting::Float::<Seq<char>>(bits) })
                    && e[2] is Info
            } else {
                e.len() == 1 && e[0] is Info
            }
        }),
        temperature_read(None).len() == 1,
        temperature_read(None)[0] is Info,
{
}

/// The level of effort that is set is one of the levels: the value of the one that was
/// picked is set and stored, the model's own clears what is stored, and what names none
/// changes nothing.
pub proof fn law_the_effort_that_is_set_is_stored(arg: Seq<char>, list: Seq<EffortChoice<Seq<char>>>)
    ensures
        ({
            let e = effort_applied(arg, list);
            match effort::picked(arg, list, 0) {
                Some(i) => e.len() == 3 && e[1] == Effect::SetEffort(list[i].value) && e[2] is Info
                    && (match list[i].value {
                    Some(v) => e[0] == (Effect::Persist {
                        key: "effort"@,
                        value: Setting::Text(v),
                    }),
                    None => e[0] == Effect::Unpersist("effort"@),
                }),
                None => e.len() == 1 && e[0] is Info,
            }
        }),
{
}

/// A directory is made the working directory by its real path, and only one that is
/// trusted; anything else is told.
pub proof fn law_a_trusted_directory_is_entered(path: Seq<char>, dir: Seq<char>)
    ensures
        entered(path, Some(dir), true).len() == 2,
        entered(path, Some(dir), true)[0] == Effect::SetCwd(dir),
        entered(path, Some(dir), true)[1] is Info,
        entered(path, None, true).len() == 1,
        entered(path, None, true)[0] is Info,
{
}

/// What is pasted goes into the input: the path of a file as a mention of it, without the
/// blanks around it, and any other text as it is.
pub proof fn law_what_is_pasted_goes_into_the_input(clip: Seq<char>, is_file: bool)
    requires
        clip.len() > 0,
    ensures
        pasted(Some(clip), false) == seq![Effect::InsertInput(clip)],
        text::trim(clip).contains('\n') || text::trim(clip).len() == 0 ==> pasted(
            Some(clip),
            is_file,
        ) == seq![Effect::InsertInput(clip)],
        text::trim(clip).len() > 0 && !text::trim(clip).contains('\n') ==> pasted(
            Some(clip),
            true,
        )[0] == Effect::InsertInput(seq!['@'] + text::trim(clip) + seq![' ']),
        pasted(None, is_file).len() == 1,
        pasted(None, is_file)[0] is Info,
        pasted(Some(Seq::empty()), is_file) == pasted(None, is_file),
{
    reveal_strlit("@");
    reveal_strlit(" ");
    assert("@"@ =~= seq!['@']);
    assert(" "@ =~= seq![' ']);
}

/// Turns are told by their number, and one alone is told as one.
pub proof fn law_turns_are_told_by_their_number(n: u64)
    ensures
        text::starts_with(turns_text(n), text::decimal(n as nat)),
        turns_text(1) == text::decimal(1) + " turn"@,
        n != 1 ==> turns_text(n) == text::decimal(n as nat) + " turn"@ + "s"@,
{
    let t = turns_text(n);
    let d = text::decimal(n as nat);
    assert(t.take(d.len() as int) =~= d);
    reveal_strlit("");
    assert(""@ =~= Seq::empty());
    assert(turns_text(1) =~= text::decimal(1) + " turn"@);
}

/// What was set, opened or refused is told by its name.
#[verifier::rlimit(40)]
pub proof fn law_what_was_set_is_told(
    arg: Seq<char>,
    dir: Seq<char>,
    bits: u32,
    list: Seq<EffortChoice<Seq<char>>>,
    i: int,
)
    requires
        arg.len() > 0,
    ensures
        new_conversation(arg).last() matches Effect::Info(t) && text::contains(t, arg),
        rename(arg).last() matches Effect::Info(t) && text::contains(t, arg),
        arg != "reset"@ && arg != "default"@ ==> (theme(arg).last() matches Effect::Info(t)
            && text::contains(t, arg)),
        entered(arg, None, true).last() matches Effect::Info(t) && text::contains(t, arg),
        entered(arg, Some(dir), true).last() matches Effect::Info(t) && text::contains(t, dir),
        entered(arg, Some(dir), false).last() matches Effect::Info(t) && text::contains(t, dir),
        is_temperature(bits) ==> (temperature_read(Some((bits, arg))).last() matches Effect::Info(t)
            && text::contains(t, arg)),
        effort::picked(arg, list, 0) is None ==> (effort_applied(arg, list).last() matches Effect::Info(
            t,
        ) && text::contains(t, arg) && (0 <= i < list.len() ==> text::contains(t, list[i].label))),
{
    text::lemma_holds_itself(arg);
    text::lemma_holds_itself(dir);
    text::lemma_sum_holds("new session '"@, arg, arg);
    text::lemma_sum_holds("new session '"@ + arg, "'"@, arg);
    text::lemma_sum_holds("session renamed → "@, arg, arg);
    text::lemma_sum_holds("theme → "@, arg, arg);
    text::lemma_sum_holds("not a directory: "@, arg, arg);
    text::lemma_sum_holds("cwd → "@, dir, dir);
    text::lemma_sum_holds("not a trusted directory: "@, dir, dir);
    text::lemma_sum_holds(
        "not a trusted directory: "@ + dir,
        " — hrdr asks about a directory when it opens there, and cannot ask mid-session. Start hrdr in it to answer."@,
        dir,
    );
    text::lemma_sum_holds("temperature → "@, arg, arg);
    let some = text::join(labels(list), ", "@);
    let a = "unknown effort '"@ + arg;
    let b = a + "' — available: "@;
    text::lemma_sum_holds("unknown effort '"@, arg, arg);
    text::lemma_sum_holds(a, "' — available: "@, arg);
    text::lemma_sum_holds(b, some, arg);
    if 0 <= i < list.len() {
        text::law_join_holds_every_part(labels(list), ", "@, i);
        text::lemma_sum_holds(b, some, list[i].label);
    }
}

/// The help lists every command that the frontend does not lack.
pub proof fn law_the_help_lists_what_there_is(
    lacks: Seq<Seq<char>>,
    tips: Option<Seq<char>>,
    i: int,
)
    requires
        0 <= i < HELP_GROUPS@.len(),
        !lacks.contains(HELP_GROUPS@[i].1@),
    ensures
        text::contains(help(lacks, tips), HELP_GROUPS@[i].1@),
        text::contains(help(lacks, tips), registry::description_from(HELP_GROUPS@[i].1@, 0)),
{
    let shown = shown_lines(lacks);
    let n = HELP_GROUPS@.len() as int;
    registry::law_the_help_shows_every_command(shown, n, i);
    let rest = match tips {
        Some(t) => "\n\n"@ + t,
        None => Seq::empty(),
    };
    text::lemma_sum_holds(registry::help_text(shown, n), rest, HELP_GROUPS@[i].1@);
    text::lemma_sum_holds(
        registry::help_text(shown, n),
        rest,
        registry::description_from(HELP_GROUPS@[i].1@, 0),
    );
}

} // verus!
