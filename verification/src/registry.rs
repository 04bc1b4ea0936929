//! The slash commands: their names, aliases and help.
use crate::text;
use crate::text::{
    cat, chars_of, pad_right, str_byte_len, str_eq, str_lower, str_trim, string_of_range,
};
use vstd::prelude::*;

verus! {

/// The slash commands and what each does, in one line.
pub const SLASH_COMMANDS: [(&'static str, &'static str); 46] = [
    ("/new", "start a fresh conversation (optional name)"),
    ("/compact", "summarize the conversation to reclaim context"),
    ("/resume", "resume a session (picker, or id/name)"),
    ("/rename", "rename the current session"),
    ("/model", "browse & switch model/provider (picker)"),
    ("/login", "set up a provider + API key (wizard)"),
    ("/theme", "switch theme (picker, name/path, reset)"),
    ("/cwd", "show or change working directory"),
    ("/tools", "list available tools"),
    ("/skills", "list custom :skills (prompt templates)"),
    ("/prompt", "show the rendered system prompt"),
    ("/guardrails", "list active shell guardrails"),
    ("/expand", "expand tool output (last, or 'all'/'off')"),
    ("/init", "analyze the project and write an AGENTS.md"),
    ("/add", "attach a file (or type @path inline)"),
    ("/diff", "show git diff of the working tree"),
    ("/thinking", "show/hide model reasoning (on|off)"),
    ("/reasoning", "alias of /thinking"),
    ("/timestamps", "set timestamps (none|relative|exact)"),
    ("/statusbar", "set status bar (none|truncate|wrap)"),
    ("/todo-ttl", "turns a finished todo stays shown"),
    ("/reload", "reload AGENTS.md + config"),
    ("/temp", "show or set temperature"),
    ("/effort", "reasoning effort (picker)"),
    ("/status", "session info"),
    ("/cost", "session token usage"),
    ("/doctor", "check health: endpoint, deps, config"),
    ("/goto", "jump to message N or time (5m/1h/top/end)"),
    ("/find", "jump to text (or 'clear' to drop search)"),
    ("/next", "jump to next /find match"),
    ("/prev", "jump to previous /find match"),
    ("/copy", "copy reply (or 'code' / 'all' / 'msg N[-M]')"),
    ("/export", "write transcript to a file ([--json] [file])"),
    ("/paste", "paste clipboard (file path → attach)"),
    ("/edit", "open a file in $EDITOR"),
    ("/help", "list commands"),
    ("/exit", "quit"),
    ("/clear", "alias of /new (optional name)"),
    ("/reset", "alias of /new"),
    ("/cd", "alias of /cwd"),
    ("/info", "alias of /status"),
    ("/continue", "alias of /resume"),
    ("/sessions", "alias of /resume"),
    ("/summarize", "alias of /compact"),
    ("/usage", "alias of /cost"),
    ("/health", "alias of /doctor"),
];

/// The commands that the help lists, each with the section that it stands in. The
/// commands of a section follow one another.
pub const HELP_GROUPS: [(&'static str, &'static str); 34] = [
    ("Session", "/new"),
    ("Session", "/resume"),
    ("Session", "/rename"),
    ("Session", "/compact"),
    ("Session", "/status"),
    ("Session", "/goto"),
    ("Session", "/find"),
    ("Session", "/next"),
    ("Session", "/prev"),
    ("Model & sampling", "/model"),
    ("Model & sampling", "/login"),
    ("Model & sampling", "/temp"),
    ("Model & sampling", "/effort"),
    ("Model & sampling", "/thinking"),
    ("Files & context", "/init"),
    ("Files & context", "/add"),
    ("Files & context", "/edit"),
    ("Files & context", "/diff"),
    ("Files & context", "/cwd"),
    ("Files & context", "/tools"),
    ("Files & context", "/expand"),
    ("Files & context", "/paste"),
    ("Reply", "/copy"),
    ("Reply", "/export"),
    ("Reply", "/cost"),
    ("Appearance", "/theme"),
    ("Appearance", "/timestamps"),
    ("Appearance", "/statusbar"),
    ("Appearance", "/todo-ttl"),
    ("Other", "/skills"),
    ("Other", "/reload"),
    ("Other", "/help"),
    ("Other", "/doctor"),
    ("Other", "/exit"),
];

/// The names that other agents use for the commands, and ours for them.
pub const ALIASES: [(&'static str, &'static str); 12] = [
    ("clear", "new"),
    ("reset", "new"),
    ("cd", "cwd"),
    ("info", "status"),
    ("continue", "resume"),
    ("sessions", "resume"),
    ("summarize", "compact"),
    ("summary", "compact"),
    ("commands", "help"),
    ("?", "help"),
    ("usage", "cost"),
    ("health", "doctor"),
];

/// The lines that end the session, in lower case.
pub const QUIT_LINES: [&'static str; 19] = [
    "exit",
    "quit",
    "q",
    "bye",
    "exit()",
    "quit()",
    "/exit",
    "/quit",
    "/q",
    "/bye",
    "/stop",
    ":q",
    ":q!",
    ":qa",
    ":qa!",
    ":wq",
    ":x",
    ":exit",
    ":quit",
];

// ---------------------------------------------------------------------------
// Names
// ---------------------------------------------------------------------------

/// Where the alias `name`, in lower case, stands in the table, at `from` or later.
pub open spec fn alias_at(name: Seq<char>, from: int) -> Option<int>
    decreases ALIASES@.len() - from,
{
    if from < 0 || from >= ALIASES@.len() {
        None
    } else if ALIASES@[from].0@ == name {
        Some(from)
    } else {
        alias_at(name, from + 1)
    }
}

/// The command that `cmd` names: the one that it is an alias of, whatever the case of
/// its letters, else `cmd` itself.
pub open spec fn canonical(cmd: Seq<char>) -> Seq<char> {
    match alias_at(text::lower(cmd), 0) {
        Some(i) => ALIASES@[i].1@,
        None => cmd,
    }
}

/// The command that `cmd` names: the one that it is an alias of, whatever the case of
/// its letters, else `cmd` itself.
pub fn resolve_alias(cmd: &str) -> (r: &str)
    ensures
        r@ == canonical(cmd@),
{
    let name = str_lower(cmd);
    for i in 0..ALIASES.len()
        invariant
            name@ == text::lower(cmd@),
            alias_at(name@, 0) == alias_at(name@, i as int),
    {
        if str_eq(ALIASES[i].0, name.as_str()) {
            return ALIASES[i].1;
        }
    }
    cmd
}

/// `s` without the slashes that it begins with.
pub open spec fn without_slashes(s: Seq<char>) -> Seq<char>
    decreases s.len(),
{
    if s.len() > 0 && s[0] == '/' {
        without_slashes(s.drop_first())
    } else {
        s
    }
}

/// `s` without the slashes that it begins with.
pub fn strip_slashes(s: &str) -> (r: String)
    ensures
        r@ == without_slashes(s@),
{
    let v = chars_of(s);
    let mut i: usize = 0;
    assert(v@.skip(0) =~= v@);
    while i < v.len() && v[i] == '/'
        invariant
            i <= v@.len(),
            without_slashes(v@) == without_slashes(v@.skip(i as int)),
        decreases v@.len() - i,
    {
        assert(v@.skip(i as int).drop_first() =~= v@.skip(i + 1));
        i = i + 1;
    }
    assert(v@.skip(i as int) =~= v@.subrange(i as int, v@.len() as int));
    string_of_range(&v, i, v.len())
}

/// The command that row `i` of the registry names.
pub open spec fn registered(i: int) -> Seq<char> {
    canonical(without_slashes(SLASH_COMMANDS@[i].0@))
}

/// Whether `cmd`, with or without its slash, names a command of the registry.
pub open spec fn known(cmd: Seq<char>) -> bool {
    exists|i: int|
        0 <= i < SLASH_COMMANDS@.len() && #[trigger] registered(i) == canonical(
            without_slashes(text::trim(cmd)),
        )
}

/// Whether `cmd`, with or without its slash and under any alias, names a command of the
/// registry: what tells a command that a frontend lacks from a message to the model.
pub fn is_known_command(cmd: &str) -> (r: bool)
    ensures
        r == known(cmd@),
{
    let bare = strip_slashes(str_trim(cmd).as_str());
    let name = resolve_alias(bare.as_str());
    for i in 0..SLASH_COMMANDS.len()
        invariant
            name@ == canonical(without_slashes(text::trim(cmd@))),
            forall|j: int| 0 <= j < i ==> #[trigger] registered(j) != name@,
    {
        let row = strip_slashes(SLASH_COMMANDS[i].0);
        if str_eq(resolve_alias(row.as_str()), name) {
            assert(registered(i as int) == name@);
            return true;
        }
        assert(registered(i as int) != name@);
    }
    false
}

/// Whether a line ends the session.
pub open spec fn quits(line: Seq<char>) -> bool {
    exists|i: int|
        0 <= i < QUIT_LINES@.len() && (#[trigger] QUIT_LINES@[i])@ == text::lower(text::trim(line))
}

/// Whether a submitted line is one of the ways to end the session that shells, REPLs and
/// editors have: the bare words, the slash family and the colon family.
pub fn is_quit_command(s: &str) -> (r: bool)
    ensures
        r == quits(s@),
{
    let line = str_lower(str_trim(s).as_str());
    for i in 0..QUIT_LINES.len()
        invariant
            line@ == text::lower(text::trim(s@)),
            forall|j: int| 0 <= j < i ==> (#[trigger] QUIT_LINES@[j])@ != line@,
    {
        if str_eq(QUIT_LINES[i], line.as_str()) {
            assert(QUIT_LINES@[i as int]@ == line@);
            return true;
        }
    }
    false
}

// ---------------------------------------------------------------------------
// Help
// ---------------------------------------------------------------------------

/// What the registry says of `name`, from row `from` on; nothing where it has no such row.
pub open spec fn description_from(name: Seq<char>, from: int) -> Seq<char>
    decreases SLASH_COMMANDS@.len() - from,
{
    if from < 0 || from >= SLASH_COMMANDS@.len() {
        Seq::empty()
    } else if SLASH_COMMANDS@[from].0@ == name {
        SLASH_COMMANDS@[from].1@
    } else {
        description_from(name, from + 1)
    }
}

/// What the registry says of the command `name`.
pub fn description(name: &str) -> (r: &str)
    ensures
        r@ == description_from(name@, 0),
{
    for i in 0..SLASH_COMMANDS.len()
        invariant
            description_from(name@, 0) == description_from(name@, i as int),
    {
        if str_eq(SLASH_COMMANDS[i].0, name) {
            return SLASH_COMMANDS[i].1;
        }
    }
    proof {
        reveal_strlit("");
        assert(""@ =~= Seq::empty());
    }
    ""
}

/// The most bytes that any of the first `n` names of the help takes.
pub open spec fn longest_name(n: int) -> nat
    decreases n,
{
    if n <= 0 {
        0
    } else {
        let len = text::byte_len(HELP_GROUPS@[n - 1].1@);
        if len > longest_name(n - 1) {
            len
        } else {
            longest_name(n - 1)
        }
    }
}

fn longest() -> (r: usize)
    ensures
        r == longest_name(HELP_GROUPS@.len() as int),
{
    let mut most: usize = 0;
    for i in 0..HELP_GROUPS.len()
        invariant
            most == longest_name(i as int),
    {
        let len: usize = str_byte_len(HELP_GROUPS[i].1);
        if len > most {
            most = len;
        }
    }
    most
}

/// Whether row `i` of the help is the first of its section that is shown.
pub open spec fn opens_section(shown: Seq<bool>, i: int) -> bool {
    forall|j: int|
        0 <= j < i && shown[j] ==> (#[trigger] HELP_GROUPS@[j]).0@ != HELP_GROUPS@[i].0@
}

/// The help, down to row `n`: a title, and for each section with a command that is shown
/// its name and those commands, in two columns.
pub open spec fn help_text(shown: Seq<bool>, n: int) -> Seq<char>
    decreases n,
{
    if n <= 0 {
        "Commands"@
    } else {
        let above = help_text(shown, n - 1);
        let name = HELP_GROUPS@[n - 1].1@;
        if !shown[n - 1] {
            above
        } else {
            above + (if opens_section(shown, n - 1) {
                "\n\n"@ + HELP_GROUPS@[n - 1].0@
            } else {
                Seq::empty()
            }) + "\n  "@ + text::padded(
                name,
                longest_name(HELP_GROUPS@.len() as int) + 2,
            ) + description_from(name, 0)
        }
    }
}

/// The help of a frontend that has the commands that `show` accepts. Sections without
/// any are left out.
pub fn help_body_for(show: impl Fn(&str) -> bool) -> (r: String)
    requires
        forall|name: &str| call_requires(show, (name,)),
    ensures
        exists|shown: Seq<bool>|
            shown.len() == HELP_GROUPS@.len() && (forall|i: int|
                0 <= i < shown.len() ==> call_ensures(
                    show,
                    (HELP_GROUPS@[i].1,),
                    #[trigger] shown[i],
                )) && r@ == #[trigger] help_text(shown, HELP_GROUPS@.len() as int),
{
    let width: usize = longest();
    let mut out = "Commands".to_string();
    let mut shown: Vec<bool> = Vec::new();
    for i in 0..HELP_GROUPS.len()
        invariant
            width == longest_name(HELP_GROUPS@.len() as int),
            shown@.len() == i,
            forall|name: &str| call_requires(show, (name,)),
            forall|j: int|
                0 <= j < i ==> call_ensures(show, (HELP_GROUPS@[j].1,), #[trigger] shown@[j]),
            out@ == help_text(shown@, i as int),
    {
        let yes: bool = show(HELP_GROUPS[i].1);
        let ghost before = shown@;
        shown.push(yes);
        proof {
            lemma_help_prefix(before, shown@, i as int);
        }
        if yes {
            if section_opens(&shown, i) {
                out.append(cat("\n\n", HELP_GROUPS[i].0).as_str());
            } else {
                assert(out@ + Seq::empty() =~= out@);
            }
            out.append("\n  ");
            out.append(pad_right(HELP_GROUPS[i].1, width as u128 + 2).as_str());
            out.append(description(HELP_GROUPS[i].1));
        }
    }
    assert(help_text(shown@, HELP_GROUPS@.len() as int) == out@);
    out
}

fn section_opens(shown: &Vec<bool>, i: usize) -> (r: bool)
    requires
        i < HELP_GROUPS@.len(),
        shown@.len() > i,
    ensures
        r == opens_section(shown@, i as int),
{
    for j in 0..i
        invariant
            i < HELP_GROUPS@.len(),
            shown@.len() > i,
            forall|k: int|
                0 <= k < j && shown@[k] ==> (#[trigger] HELP_GROUPS@[k]).0@
                    != HELP_GROUPS@[i as int].0@,
    {
        if shown[j] && str_eq(HELP_GROUPS[j].0, HELP_GROUPS[i].0) {
            assert(HELP_GROUPS@[j as int].0@ == HELP_GROUPS@[i as int].0@);
            return false;
        }
    }
    true
}

/// What is shown of later rows does not change the help above them.
proof fn lemma_help_prefix(a: Seq<bool>, b: Seq<bool>, n: int)
    requires
        0 <= n <= a.len(),
        n <= b.len(),
        forall|i: int| 0 <= i < n ==> a[i] == b[i],
    ensures
        help_text(a, n) == help_text(b, n),
    decreases n,
{
    if n > 0 {
        lemma_help_prefix(a, b, n - 1);
        assert(opens_section(a, n - 1) == opens_section(b, n - 1));
    }
}

/// No name of ours is an alias.
proof fn lemma_targets_are_no_aliases(i: int)
    requires
        0 <= i < ALIASES@.len(),
    ensures
        alias_at(text::lower(ALIASES@[i].1@), 0) is None,
{
    reveal_with_fuel(alias_at, 13);
    reveal_strlit("new");
    reveal_strlit("cwd");
    reveal_strlit("status");
    reveal_strlit("resume");
    reveal_strlit("compact");
    reveal_strlit("help");
    reveal_strlit("cost");
    reveal_strlit("doctor");
    reveal_strlit("clear");
    reveal_strlit("reset");
    reveal_strlit("cd");
    reveal_strlit("info");
    reveal_strlit("continue");
    reveal_strlit("sessions");
    reveal_strlit("summarize");
    reveal_strlit("summary");
    reveal_strlit("commands");
    reveal_strlit("?");
    reveal_strlit("usage");
    reveal_strlit("health");
    assert(text::lower("new"@) =~= "new"@);
    assert(text::lower("cwd"@) =~= "cwd"@);
    assert(text::lower("status"@) =~= "status"@);
    assert("status"@[0] != "health"@[0]);
    assert(text::lower("resume"@) =~= "resume"@);
    assert("resume"@[0] != "health"@[0]);
    assert(text::lower("compact"@) =~= "compact"@);
    assert("compact"@[0] != "summary"@[0]);
    assert(text::lower("help"@) =~= "help"@);
    assert("help"@[0] != "info"@[0]);
    assert(text::lower("cost"@) =~= "cost"@);
    assert("cost"@[0] != "info"@[0]);
    assert(text::lower("doctor"@) =~= "doctor"@);
    assert("doctor"@[0] != "health"@[0]);
}

/// Resolving a name twice gives what resolving it once gives.
pub proof fn law_aliases_resolve_once(cmd: Seq<char>)
    ensures
        canonical(canonical(cmd)) == canonical(cmd),
{
    lemma_alias_range(text::lower(cmd), 0);
    if let Some(i) = alias_at(text::lower(cmd), 0) {
        lemma_targets_are_no_aliases(i);
    }
}

proof fn lemma_alias_range(name: Seq<char>, from: int)
    requires
        0 <= from,
    ensures
        alias_at(name, from) matches Some(i) ==> from <= i < ALIASES@.len() && ALIASES@[i].0@
            == name,
    decreases ALIASES@.len() - from,
{
    if from < ALIASES@.len() && ALIASES@[from].0@ != name {
        lemma_alias_range(name, from + 1);
    }
}

/// Every command that the help lists is in the registry.
pub proof fn law_help_lists_registered_commands(i: int)
    requires
        0 <= i < HELP_GROUPS@.len(),
    ensures
        exists|j: int|
            0 <= j < SLASH_COMMANDS@.len() && (#[trigger] SLASH_COMMANDS@[j]).0@
                == HELP_GROUPS@[i].1@,
{
    assert(SLASH_COMMANDS@[0].0@ == HELP_GROUPS@[0].1@);
    assert(SLASH_COMMANDS@[2].0@ == HELP_GROUPS@[1].1@);
    assert(SLASH_COMMANDS@[3].0@ == HELP_GROUPS@[2].1@);
    assert(SLASH_COMMANDS@[1].0@ == HELP_GROUPS@[3].1@);
    assert(SLASH_COMMANDS@[24].0@ == HELP_GROUPS@[4].1@);
    assert(SLASH_COMMANDS@[27].0@ == HELP_GROUPS@[5].1@);
    assert(SLASH_COMMANDS@[28].0@ == HELP_GROUPS@[6].1@);
    assert(SLASH_COMMANDS@[29].0@ == HELP_GROUPS@[7].1@);
    assert(SLASH_COMMANDS@[30].0@ == HELP_GROUPS@[8].1@);
    assert(SLASH_COMMANDS@[4].0@ == HELP_GROUPS@[9].1@);
    assert(SLASH_COMMANDS@[5].0@ == HELP_GROUPS@[10].1@);
    assert(SLASH_COMMANDS@[22].0@ == HELP_GROUPS@[11].1@);
    assert(SLASH_COMMANDS@[23].0@ == HELP_GROUPS@[12].1@);
    assert(SLASH_COMMANDS@[16].0@ == HELP_GROUPS@[13].1@);
    assert(SLASH_COMMANDS@[13].0@ == HELP_GROUPS@[14].1@);
    assert(SLASH_COMMANDS@[14].0@ == HELP_GROUPS@[15].1@);
    assert(SLASH_COMMANDS@[34].0@ == HELP_GROUPS@[16].1@);
    assert(SLASH_COMMANDS@[15].0@ == HELP_GROUPS@[17].1@);
    assert(SLASH_COMMANDS@[7].0@ == HELP_GROUPS@[18].1@);
    assert(SLASH_COMMANDS@[8].0@ == HELP_GROUPS@[19].1@);
    assert(SLASH_COMMANDS@[12].0@ == HELP_GROUPS@[20].1@);
    assert(SLASH_COMMANDS@[33].0@ == HELP_GROUPS@[21].1@);
    assert(SLASH_COMMANDS@[31].0@ == HELP_GROUPS@[22].1@);
    assert(SLASH_COMMANDS@[32].0@ == HELP_GROUPS@[23].1@);
    assert(SLASH_COMMANDS@[25].0@ == HELP_GROUPS@[24].1@);
    assert(SLASH_COMMANDS@[6].0@ == HELP_GROUPS@[25].1@);
    assert(SLASH_COMMANDS@[18].0@ == HELP_GROUPS@[26].1@);
    assert(SLASH_COMMANDS@[19].0@ == HELP_GROUPS@[27].1@);
    assert(SLASH_COMMANDS@[20].0@ == HELP_GROUPS@[28].1@);
    assert(SLASH_COMMANDS@[9].0@ == HELP_GROUPS@[29].1@);
    assert(SLASH_COMMANDS@[21].0@ == HELP_GROUPS@[30].1@);
    assert(SLASH_COMMANDS@[35].0@ == HELP_GROUPS@[31].1@);
    assert(SLASH_COMMANDS@[26].0@ == HELP_GROUPS@[32].1@);
    assert(SLASH_COMMANDS@[36].0@ == HELP_GROUPS@[33].1@);
}

/// The aliases, letter by letter.
proof fn lemma_alias_names()
    ensures
        "clear"@.len() == 5,
        "clear"@ == seq!['c', 'l', 'e', 'a', 'r'],
        "reset"@.len() == 5,
        "reset"@ == seq!['r', 'e', 's', 'e', 't'],
        "cd"@.len() == 2,
        "cd"@ == seq!['c', 'd'],
        "info"@.len() == 4,
        "info"@ == seq!['i', 'n', 'f', 'o'],
        "continue"@.len() == 8,
        "continue"@ == seq!['c', 'o', 'n', 't', 'i', 'n', 'u', 'e'],
        "sessions"@.len() == 8,
        "sessions"@ == seq!['s', 'e', 's', 's', 'i', 'o', 'n', 's'],
        "summarize"@.len() == 9,
        "summarize"@ == seq!['s', 'u', 'm', 'm', 'a', 'r', 'i', 'z', 'e'],
        "summary"@.len() == 7,
        "summary"@ == seq!['s', 'u', 'm', 'm', 'a', 'r', 'y'],
        "commands"@.len() == 8,
        "commands"@ == seq!['c', 'o', 'm', 'm', 'a', 'n', 'd', 's'],
        "?"@.len() == 1,
        "?"@ == seq!['?'],
        "usage"@.len() == 5,
        "usage"@ == seq!['u', 's', 'a', 'g', 'e'],
        "health"@.len() == 6,
        "health"@ == seq!['h', 'e', 'a', 'l', 't', 'h'],
{
    reveal_strlit("clear");
    reveal_strlit("reset");
    reveal_strlit("cd");
    reveal_strlit("info");
    reveal_strlit("continue");
    reveal_strlit("sessions");
    reveal_strlit("summarize");
    reveal_strlit("summary");
    reveal_strlit("commands");
    reveal_strlit("?");
    reveal_strlit("usage");
    reveal_strlit("health");
    assert("clear"@ =~= seq!['c', 'l', 'e', 'a', 'r']);
    assert("reset"@ =~= seq!['r', 'e', 's', 'e', 't']);
    assert("cd"@ =~= seq!['c', 'd']);
    assert("info"@ =~= seq!['i', 'n', 'f', 'o']);
    assert("continue"@ =~= seq!['c', 'o', 'n', 't', 'i', 'n', 'u', 'e']);
    assert("sessions"@ =~= seq!['s', 'e', 's', 's', 'i', 'o', 'n', 's']);
    assert("summarize"@ =~= seq!['s', 'u', 'm', 'm', 'a', 'r', 'i', 'z', 'e']);
    assert("summary"@ =~= seq!['s', 'u', 'm', 'm', 'a', 'r', 'y']);
    assert("commands"@ =~= seq!['c', 'o', 'm', 'm', 'a', 'n', 'd', 's']);
    assert("?"@ =~= seq!['?']);
    assert("usage"@ =~= seq!['u', 's', 'a', 'g', 'e']);
    assert("health"@ =~= seq!['h', 'e', 'a', 'l', 't', 'h']);
}


/// Where no earlier alias has the name, the table finds this one.
proof fn lemma_alias_found(k: int, from: int)
    requires
        0 <= from <= k < ALIASES@.len(),
    ensures
        alias_at(ALIASES@[k].0@, from) == Some(k),
    decreases k - from,
{
    if from < k {
        lemma_alias_names();
        lemma_alias_found(k, from + 1);
        assert(ALIASES@[from].0@ != ALIASES@[k].0@);
    }
}

/// An alias is read as the command that it stands for, whatever the case of its letters,
/// and any other word as itself.
pub proof fn law_an_alias_is_read_as_its_command(cmd: Seq<char>, k: int)
    ensures
        0 <= k < ALIASES@.len() && text::lower(cmd) == ALIASES@[k].0@ ==> canonical(cmd)
            == ALIASES@[k].1@,
        (forall|i: int| 0 <= i < ALIASES@.len() ==> (#[trigger] ALIASES@[i]).0@ != text::lower(cmd))
            ==> canonical(cmd) == cmd,
{
    if 0 <= k < ALIASES@.len() {
        lemma_alias_found(k, 0);
    }
    lemma_alias_range(text::lower(cmd), 0);
}

/// Slashes before a name are passed over, and nothing else is.
pub proof fn law_only_slashes_are_passed_over(s: Seq<char>)
    ensures
        without_slashes(s).len() <= s.len(),
        without_slashes(s) == s.skip(s.len() - without_slashes(s).len()),
        without_slashes(s).len() > 0 ==> without_slashes(s)[0] != '/',
        forall|i: int| 0 <= i < s.len() - without_slashes(s).len() ==> #[trigger] s[i] == '/',
    decreases s.len(),
{
    if s.len() > 0 && s[0] == '/' {
        let rest = s.drop_first();
        law_only_slashes_are_passed_over(rest);
        let t = without_slashes(s);
        assert(t =~= s.skip(s.len() - t.len()));
        assert forall|i: int| 0 <= i < s.len() - t.len() implies #[trigger] s[i] == '/' by {
            if i > 0 {
                assert(rest[i - 1] == s[i]);
            }
        }
    }
}

/// A command of the registry is known as it stands there and without its slash, and so is
/// every alias of one; white space around it does not matter.
pub proof fn law_a_registered_command_is_known(cmd: Seq<char>, i: int, k: int)
    requires
        0 <= i < SLASH_COMMANDS@.len(),
        0 <= k < ALIASES@.len(),
    ensures
        text::trim(cmd) == SLASH_COMMANDS@[i].0@ ==> known(cmd),
        text::trim(cmd) == without_slashes(SLASH_COMMANDS@[i].0@) ==> known(cmd),
        text::lower(without_slashes(text::trim(cmd))) == ALIASES@[k].0@ && registered(i)
            == ALIASES@[k].1@ ==> known(cmd),
{
    law_only_slashes_are_passed_over(SLASH_COMMANDS@[i].0@);
    let bare = without_slashes(SLASH_COMMANDS@[i].0@);
    assert(without_slashes(bare) == bare);
    assert(registered(i) == canonical(bare));
    law_an_alias_is_read_as_its_command(without_slashes(text::trim(cmd)), k);
}

/// Whether a line ends the session does not hang on the case of its letters or on white
/// space around it.
pub proof fn law_a_line_quits_however_it_is_written(a: Seq<char>, b: Seq<char>)
    requires
        text::lower(text::trim(a)) == text::lower(text::trim(b)),
    ensures
        quits(a) == quits(b),
{
    if quits(a) {
        let i = choose|i: int|
            0 <= i < QUIT_LINES@.len() && (#[trigger] QUIT_LINES@[i])@ == text::lower(text::trim(a));
        assert(QUIT_LINES@[i]@ == text::lower(text::trim(b)));
    }
    if quits(b) {
        let i = choose|i: int|
            0 <= i < QUIT_LINES@.len() && (#[trigger] QUIT_LINES@[i])@ == text::lower(text::trim(b));
        assert(QUIT_LINES@[i]@ == text::lower(text::trim(a)));
    }
}

/// The help shows every command that is to be shown, with what is said of it, under the
/// name of its section, and its column is wide enough for every name.
pub proof fn law_the_help_shows_every_command(shown: Seq<bool>, n: int, i: int)
    requires
        0 <= i < n <= HELP_GROUPS@.len(),
        n <= shown.len(),
    ensures
        shown[i] ==> text::contains(help_text(shown, n), HELP_GROUPS@[i].1@),
        shown[i] ==> text::contains(help_text(shown, n), description_from(HELP_GROUPS@[i].1@, 0)),
        shown[i] && opens_section(shown, i) ==> text::contains(
            help_text(shown, n),
            HELP_GROUPS@[i].0@,
        ),
        longest_name(n) >= text::byte_len(HELP_GROUPS@[i].1@),
    decreases n,
{
    let m = n - 1;
    if i < m {
        law_the_help_shows_every_command(shown, m, i);
    }
    if shown[m] {
        let name = HELP_GROUPS@[m].1@;
        let wide = text::padded(name, longest_name(HELP_GROUPS@.len() as int) + 2);
        let section = if opens_section(shown, m) {
            "\n\n"@ + HELP_GROUPS@[m].0@
        } else {
            Seq::empty()
        };
        let about = description_from(name, 0);
        lemma_help_row(help_text(shown, m), section, wide, about, HELP_GROUPS@[i].1@);
        lemma_help_row(
            help_text(shown, m),
            section,
            wide,
            about,
            description_from(HELP_GROUPS@[i].1@, 0),
        );
        lemma_help_row(help_text(shown, m), section, wide, about, HELP_GROUPS@[i].0@);
        if i == m {
            text::lemma_holds_itself(name);
            text::lemma_holds_itself(about);
            text::lemma_holds_itself(HELP_GROUPS@[m].0@);
            text::lemma_sum_holds("\n\n"@, HELP_GROUPS@[m].0@, HELP_GROUPS@[m].0@);
            let room = longest_name(HELP_GROUPS@.len() as int) + 2;
            if name.len() < room {
                text::lemma_sum_holds(name, text::blanks((room - name.len()) as nat), name);
            }
        }
    }
}

proof fn lemma_help_row(
    above: Seq<char>,
    section: Seq<char>,
    wide: Seq<char>,
    about: Seq<char>,
    p: Seq<char>,
)
    ensures
        text::contains(above, p) || text::contains(section, p) || text::contains(wide, p)
            || text::contains(about, p) ==> text::contains(
            above + section + "\n  "@ + wide + about,
            p,
        ),
{
    broadcast use text::lemma_sum_holds;

}

} // verus!
