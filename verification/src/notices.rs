//! What the user is told: the lines that commands and events show.
use crate::json;
use crate::text;
use crate::text::{cat, cat3, decimal_string, join_strings, str_eq, str_trim};
use vstd::prelude::*;

verus! {

/// Shown when verbose mode goes on.
pub const VERBOSE_ON: &'static str = "verbose mode on";

/// Shown when verbose mode goes off.
pub const VERBOSE_OFF: &'static str = "verbose mode off";

/// Shown after `/reload`.
pub const RELOAD_MANUAL_MSG: &'static str = "reloaded config (theme, effort, toggles)";

/// Shown at the start when the project's instructions were found.
pub const PROJECT_DOCS_LOADED_MSG: &'static str = "loaded project instructions from AGENTS.md";

/// Shown by `/new` when the project's instructions have changed.
pub const PROJECT_DOCS_RELOADED_MSG: &'static str =
    "AGENTS.md changed on disk — reloaded into the system prompt";

/// Shown for `/resume` while a turn is running.
pub const RESUME_BUSY_MSG: &'static str = "a turn is running — interrupt it before /resume";

/// Shown for commands that wait for the turn to be over.
pub const BUSY_MSG: &'static str = "busy — try again after the current turn";

/// How long a turn takes at least for its end to ring the bell, in nanoseconds.
pub const BELL_MIN_NANOS: u64 = 5_000_000_000;

/// What is said of a command that cannot run during a turn.
pub open spec fn busy_text(action: Seq<char>) -> Seq<char> {
    "can't "@ + action + " while a turn is running"@
}

/// What is said of a command that cannot run during a turn.
pub fn busy_guard(action: &str) -> (r: String)
    ensures
        r@ == busy_text(action@),
{
    cat3("can't ", action, " while a turn is running")
}

/// What is said of a command that waits for the turn to be over.
pub fn busy_generic() -> (r: String)
    ensures
        r@ == BUSY_MSG@,
{
    BUSY_MSG.to_string()
}

/// What is said when the configuration file has changed and was read again.
pub fn reload_hot_message(path: Option<&str>) -> (r: String)
    ensures
        r@ == (match path {
            Some(p) => "config reloaded ("@ + p@ + ")"@,
            None => "config reloaded"@,
        }),
{
    match path {
        Some(p) => cat3("config reloaded (", p, ")"),
        None => "config reloaded".to_string(),
    }
}

/// What is said of a configuration file that cannot be used.
pub fn reload_invalid_message(error: &str) -> (r: String)
    ensures
        r@ == "config invalid — keeping current settings: "@ + error@,
{
    cat("config invalid — keeping current settings: ", error)
}

/// What is said at the start of problems in the configuration, if there are any.
pub open spec fn config_warning(
    agent: Seq<Seq<char>>,
    display: Seq<Seq<char>>,
) -> Option<Seq<char>> {
    if agent.len() + display.len() == 0 {
        None
    } else {
        Some("configuration warnings:\n  "@ + text::join(agent + display, "\n  "@))
    }
}

/// What is said at the start of problems in the configuration: those of the agent's
/// settings, then those of the display's, each on its line.
pub fn startup_config_warning(agent: Vec<String>, display: Vec<String>) -> (r: Option<String>)
    ensures
        json::opt_view(r) == config_warning(text::views(agent@), text::views(display@)),
{
    let ghost all = text::views(agent@) + text::views(display@);
    let mut lines = agent;
    let mut more = display;
    lines.append(&mut more);
    assert(text::views(lines@) =~= all);
    if lines.len() == 0 {
        return None;
    }
    Some(cat("configuration warnings:\n  ", join_strings(&lines, "\n  ").as_str()))
}

/// Whether the end of a turn rings the bell: it may, and the turn took long enough.
pub fn should_bell(enabled: bool, elapsed_nanos: Option<u64>) -> (r: bool)
    ensures
        r == (enabled && (elapsed_nanos matches Some(n) && n >= BELL_MIN_NANOS)),
        !enabled || elapsed_nanos is None ==> !r,
        enabled && elapsed_nanos == Some(5_000_000_000u64) ==> r,
        elapsed_nanos == Some(4_999_999_999u64) ==> !r,
{
    enabled && (match elapsed_nanos {
        Some(n) => n >= BELL_MIN_NANOS,
        None => false,
    })
}

/// What is said of a turn that was cancelled, with the messages that were dropped.
pub fn cancel_message(dropped: usize) -> (r: String)
    ensures
        r@ == (if dropped > 0 {
            "[cancelled · "@ + text::decimal(dropped as nat) + " queued message(s) discarded]"@
        } else {
            "[cancelled]"@
        }),
{
    if dropped > 0 {
        cat3(
            "[cancelled · ",
            decimal_string(dropped as u64).as_str(),
            " queued message(s) discarded]",
        )
    } else {
        "[cancelled]".to_string()
    }
}

/// What is said of a turn that was cancelled, with the lines that went back into the
/// input.
pub fn cancel_message_restored(lines: usize) -> (r: String)
    ensures
        r@ == "[cancelled · "@ + text::decimal(lines as nat) + " queued "@ + (if lines == 1 {
            "line"@
        } else {
            "lines"@
        }) + " put back in the input]"@,
{
    let mut s = cat3("[cancelled · ", decimal_string(lines as u64).as_str(), " queued ");
    s.append(
        if lines == 1 {
            "line"
        } else {
            "lines"
        },
    );
    s.append(" put back in the input]");
    s
}

/// What is said when a session is stored for the first time.
pub fn session_saved_notice(id: &str) -> (r: String)
    ensures
        r@ == "session saved as '"@ + id@ + "' — /resume "@ + id@,
{
    let mut s = cat3("session saved as '", id, "' — /resume ");
    s.append(id);
    s
}

// ---------------------------------------------------------------------------
// Taking up a session
// ---------------------------------------------------------------------------

/// What a stored session says of itself.
#[derive(Debug, Clone, PartialEq, Eq)]
pub struct SessionInfo<S = String> {
    pub name: S,
    /// How many messages it has.
    pub messages: usize,
    /// Its working directory; empty where it has none.
    pub cwd: S,
    pub base_url: S,
}

impl View for SessionInfo<String> {
    type V = SessionInfo<Seq<char>>;

    open spec fn view(&self) -> SessionInfo<Seq<char>> {
        SessionInfo {
            name: self.name@,
            messages: self.messages,
            cwd: self.cwd@,
            base_url: self.base_url@,
        }
    }
}

/// What a session's working directory is now.
#[derive(Debug, Clone, Copy, PartialEq, Eq, Structural)]
pub enum SessionDir {
    /// The current one.
    Current,
    /// Another directory.
    Elsewhere,
    /// No directory.
    Missing,
}

/// What taking up a session changes: the directory to move to, and what is said.
#[derive(Debug, Clone, PartialEq, Eq)]
pub struct ResumePlan {
    pub new_cwd: Option<String>,
    pub lines: Vec<String>,
}

/// The directory that a session moves to.
pub open spec fn resumed_cwd(s: SessionInfo<Seq<char>>, dir: SessionDir) -> Option<Seq<char>> {
    if s.cwd.len() > 0 && dir == SessionDir::Elsewhere {
        Some(s.cwd)
    } else {
        None
    }
}

/// What is said of a session that is taken up.
pub open spec fn resumed_lines(
    s: SessionInfo<Seq<char>>,
    dir: SessionDir,
    prev_cwd: Seq<char>,
    base_url: Seq<char>,
) -> Seq<Seq<char>> {
    seq!["resumed '"@ + s.name + "' ("@ + text::decimal(s.messages as nat) + " messages)"@] + (
    if s.cwd.len() == 0 || dir == SessionDir::Current {
        Seq::empty()
    } else if dir == SessionDir::Elsewhere {
        seq!["cwd → "@ + s.cwd]
    } else {
        seq![
            "note: session cwd "@ + s.cwd + " no longer exists; staying in "@ + prev_cwd,
        ]
    }) + (if s.base_url == base_url {
        Seq::empty()
    } else {
        seq![
            "note: session endpoint was "@ + s.base_url + " (current: "@ + base_url + ")"@,
        ]
    })
}

/// What taking up a session changes: it brings its working directory along, where that
/// still is one, and what differs from the current state is told.
pub fn resume_plan(
    s: &SessionInfo,
    dir: SessionDir,
    prev_cwd: &str,
    base_url: &str,
) -> (r: ResumePlan)
    ensures
        json::opt_view(r.new_cwd) == resumed_cwd(s@, dir),
        text::views(r.lines@) == resumed_lines(s@, dir, prev_cwd@, base_url@),
{
    let mut first = cat3("resumed '", s.name.as_str(), "' (");
    first.append(decimal_string(s.messages as u64).as_str());
    first.append(" messages)");
    let mut lines: Vec<String> = Vec::new();
    lines.push(first);
    let ghost head = seq![first@];
    assert(text::views(lines@) =~= head);
    let mut new_cwd: Option<String> = None;
    if !s.cwd.as_str().is_empty() {
        match dir {
            SessionDir::Current => {},
            SessionDir::Elsewhere => {
                lines.push(cat("cwd → ", s.cwd.as_str()));
                new_cwd = Some(s.cwd.clone());
            },
            SessionDir::Missing => {
                let mut note = cat3(
                    "note: session cwd ",
                    s.cwd.as_str(),
                    " no longer exists; staying in ",
                );
                note.append(prev_cwd);
                lines.push(note);
            },
        }
    }
    if !str_eq(s.base_url.as_str(), base_url) {
        let mut note = cat3("note: session endpoint was ", s.base_url.as_str(), " (current: ");
        note.append(base_url);
        note.append(")");
        lines.push(note);
    }
    assert(text::views(lines@) =~= resumed_lines(s@, dir, prev_cwd@, base_url@));
    ResumePlan { new_cwd, lines }
}

/// A session that is taken up where it was left changes nothing and says one line.
pub proof fn law_resuming_in_place_changes_nothing(
    s: SessionInfo<Seq<char>>,
    prev_cwd: Seq<char>,
)
    ensures
        resumed_cwd(s, SessionDir::Current) is None,
        resumed_lines(s, SessionDir::Current, prev_cwd, s.base_url).len() == 1,
        resumed_cwd(s, SessionDir::Missing) is None,
{
}

// ---------------------------------------------------------------------------
// The clipboard and git
// ---------------------------------------------------------------------------

/// How writing to the clipboard went.
#[derive(Debug, Clone, Copy, PartialEq, Eq, Structural)]
pub enum ClipboardWrite {
    Copied,
    Failed,
    /// There is no clipboard.
    Unavailable,
}

/// What is said of a copy.
pub open spec fn copy_status(outcome: ClipboardWrite, label: Seq<char>) -> Seq<char> {
    match outcome {
        ClipboardWrite::Copied => "copied "@ + label + " to clipboard"@,
        ClipboardWrite::Failed => "clipboard write failed"@,
        ClipboardWrite::Unavailable => "clipboard unavailable"@,
    }
}

/// How writing to the clipboard went, given what the clipboard said, if there is one.
pub fn clipboard_copy(written: Option<bool>) -> (r: ClipboardWrite)
    ensures
        r == (match written {
            Some(true) => ClipboardWrite::Copied,
            Some(false) => ClipboardWrite::Failed,
            None => ClipboardWrite::Unavailable,
        }),
{
    match written {
        Some(ok) => if ok {
            ClipboardWrite::Copied
        } else {
            ClipboardWrite::Failed
        },
        None => ClipboardWrite::Unavailable,
    }
}

/// What is said of a copy.
pub fn clipboard_copy_status(outcome: ClipboardWrite, label: &str) -> (r: String)
    ensures
        r@ == copy_status(outcome, label@),
{
    match outcome {
        ClipboardWrite::Copied => cat3("copied ", label, " to clipboard"),
        ClipboardWrite::Failed => "clipboard write failed".to_string(),
        ClipboardWrite::Unavailable => "clipboard unavailable".to_string(),
    }
}

/// The working tree's diff, or what git says is wrong.
pub fn git_working_diff(success: bool, stdout: String, stderr: &str) -> (r: Result<String, String>)
    ensures
        match r {
            Ok(d) => success && d@ == stdout@,
            Err(e) => !success && e@ == text::trim(stderr@),
        },
{
    if success {
        Ok(stdout)
    } else {
        Err(str_trim(stderr))
    }
}

/// The directory that the tools work in: the agent's, where it can be asked, else the
/// process's, else none.
pub fn agent_cwd(agent: Option<String>, process: Option<String>) -> (r: String)
    ensures
        r@ == (match agent {
            Some(a) => a@,
            None => match process {
                Some(p) => p@,
                None => Seq::empty(),
            },
        }),
{
    match agent {
        Some(a) => a,
        None => match process {
            Some(p) => p,
            None => {
                let none = String::new();
                assert(none@ =~= Seq::empty());
                none
            },
        },
    }
}

/// A session that is taken up brings its own directory along where that is another one
/// that is still there, and no other; what was resumed is told by its name first, and a
/// directory or an endpoint that differs is told by both.
#[verifier::rlimit(40)]
pub proof fn law_a_session_brings_its_directory(
    s: SessionInfo<Seq<char>>,
    dir: SessionDir,
    prev_cwd: Seq<char>,
    base_url: Seq<char>,
)
    ensures
        resumed_cwd(s, dir) matches Some(d) ==> d == s.cwd && dir == SessionDir::Elsewhere,
        s.cwd.len() > 0 ==> resumed_cwd(s, SessionDir::Elsewhere) == Some(s.cwd),
        text::contains(resumed_lines(s, dir, prev_cwd, base_url)[0], s.name),
        s.base_url != base_url ==> ({
            let last = resumed_lines(s, dir, prev_cwd, base_url).last();
            text::contains(last, s.base_url) && text::contains(last, base_url)
        }),
        s.cwd.len() > 0 && dir != SessionDir::Current ==> text::contains(
            resumed_lines(s, dir, prev_cwd, base_url)[1],
            s.cwd,
        ),
        s.cwd.len() > 0 && dir == SessionDir::Missing ==> text::contains(
            resumed_lines(s, dir, prev_cwd, base_url)[1],
            prev_cwd,
        ),
{
    let lines = resumed_lines(s, dir, prev_cwd, base_url);
    let one = "resumed '"@;
    text::lemma_holds_itself(s.name);
    text::lemma_part_holds(one, s.name, lines[0].skip((one.len() + s.name.len()) as int), s.name);
    assert(one + s.name + lines[0].skip((one.len() + s.name.len()) as int) =~= lines[0]);
    text::lemma_holds_itself(s.cwd);
    text::lemma_holds_itself(prev_cwd);
    text::lemma_part_holds("cwd → "@, s.cwd, Seq::empty(), s.cwd);
    assert("cwd → "@ + s.cwd + Seq::<char>::empty() =~= "cwd → "@ + s.cwd);
    let gone = "note: session cwd "@ + s.cwd + " no longer exists; staying in "@ + prev_cwd;
    let a = "note: session cwd "@;
    text::lemma_part_holds(a, s.cwd, gone.skip((a.len() + s.cwd.len()) as int), s.cwd);
    assert(a + s.cwd + gone.skip((a.len() + s.cwd.len()) as int) =~= gone);
    let b = a + s.cwd + " no longer exists; staying in "@;
    text::lemma_part_holds(b, prev_cwd, Seq::empty(), prev_cwd);
    assert(b + prev_cwd + Seq::<char>::empty() =~= gone);
    let moved = "note: session endpoint was "@ + s.base_url + " (current: "@ + base_url + ")"@;
    let c = "note: session endpoint was "@;
    text::lemma_holds_itself(s.base_url);
    text::lemma_holds_itself(base_url);
    text::lemma_part_holds(c, s.base_url, moved.skip((c.len() + s.base_url.len()) as int), s.base_url);
    assert(c + s.base_url + moved.skip((c.len() + s.base_url.len()) as int) =~= moved);
    text::lemma_part_holds(c + s.base_url + " (current: "@, base_url, ")"@, base_url);
}

/// Every warning about the configuration is shown, those of the agent and those of the
/// display, and nothing is shown where there is none.
pub proof fn law_every_warning_is_shown(agent: Seq<Seq<char>>, display: Seq<Seq<char>>, i: int)
    ensures
        config_warning(agent, display) is None <==> agent.len() == 0 && display.len() == 0,
        0 <= i < agent.len() ==> (config_warning(agent, display) matches Some(t) && text::contains(
            t,
            agent[i],
        )),
        0 <= i < display.len() ==> (config_warning(agent, display) matches Some(t) && text::contains(
            t,
            display[i],
        )),
{
    broadcast use text::lemma_sum_holds;

    let all = agent + display;
    if 0 <= i < agent.len() {
        text::law_join_holds_every_part(all, "\n  "@, i);
        assert(all[i] == agent[i]);
    }
    if 0 <= i < display.len() {
        text::law_join_holds_every_part(all, "\n  "@, agent.len() + i);
        assert(all[agent.len() + i] == display[i]);
    }
}

/// What was copied is named where it was, and only there; what cannot be done during a turn
/// is named where it is refused.
pub proof fn law_what_was_done_is_named(label: Seq<char>)
    ensures
        text::contains(copy_status(ClipboardWrite::Copied, label), label),
        copy_status(ClipboardWrite::Copied, label)
            != copy_status(ClipboardWrite::Failed, label),
        copy_status(ClipboardWrite::Copied, label)
            != copy_status(ClipboardWrite::Unavailable, label),
        text::contains(busy_text(label), label),
{
    broadcast use text::lemma_sum_holds;

    text::lemma_holds_itself(label);
    reveal_strlit("copied ");
    reveal_strlit("clipboard write failed");
    reveal_strlit("clipboard unavailable");
    assert(copy_status(ClipboardWrite::Copied, label)[1] == 'o');
    assert("clipboard write failed"@[1] == 'l');
    assert("clipboard unavailable"@[1] == 'l');
}

} // verus!
