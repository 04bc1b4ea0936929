//! What a frontend and the commands have in common: how lines are shown, and what a
//! frontend says that lacks a window for something.
use crate::config;
use crate::effort;
use crate::effort::EffortChoice;
use crate::text;
use crate::text::{cat, cat3, decimal_string, str_starts_with};
use vstd::prelude::*;

verus! {

/// How a line is shown.
#[derive(Debug, Clone, Copy, PartialEq, Eq, Structural)]
pub enum LineKind {
    /// As it is.
    System,
    /// As a unified diff.
    Diff,
}

/// What happens to the output of tools.
#[derive(Debug, Clone, Copy, PartialEq, Eq, Structural)]
pub enum ExpandMode {
    /// All of it is shown.
    All,
    /// None of it is.
    Off,
    /// The latest is shown if it was not, and the other way round.
    ToggleLast,
}

/// A login that goes on in a browser.
#[derive(Debug, Clone, PartialEq, Eq)]
pub struct BrowserLoginStart {
    /// Tells this login from earlier ones.
    pub login_id: u64,
    pub provider: String,
}

/// How a login in a browser ended.
#[derive(Debug, Clone, PartialEq, Eq)]
pub struct BrowserLoginOutcome {
    /// That of the login it belongs to.
    pub login_id: u64,
    pub provider: String,
    /// Whether there is a credential now.
    pub token_saved: bool,
    /// What went wrong, where there is none.
    pub error: Option<String>,
}

/// What a frontend says that cannot read its configuration again.
pub const RELOAD_UNSUPPORTED: &'static str = "reload isn't supported here";

/// What a frontend says that has no login.
pub const LOGIN_UNAVAILABLE: &'static str = "/login isn't available in this frontend";

/// What a frontend says that has no model picker.
pub const MODEL_SELECTOR_UNAVAILABLE: &'static str =
    "model selector isn't available in this frontend";

/// What is said when a compaction begins.
pub const COMPACTING_MSG: &'static str = "compacting conversation…";

/// How the result of a task is shown, if it is.
pub open spec fn shown_as(line: Seq<char>) -> Option<LineKind> {
    if line.len() == 0 {
        None
    } else if text::starts_with(line, "diff "@) {
        Some(LineKind::Diff)
    } else {
        Some(LineKind::System)
    }
}

/// How the result of a task that may be a diff is shown: not at all where it is empty,
/// as a diff where it begins like one.
pub fn diff_line_kind(line: &str) -> (r: Option<LineKind>)
    ensures
        r == shown_as(line@),
{
    if line.is_empty() {
        None
    } else if str_starts_with(line, "diff ") {
        Some(LineKind::Diff)
    } else {
        Some(LineKind::System)
    }
}

/// What is said of a file that was handed to the system's editor.
pub fn open_editor_message(path: &str, outcome: &Result<(), String>) -> (r: String)
    ensures
        r@ == (match *outcome {
            Ok(_) => "opened "@ + path@ + " in the system editor"@,
            Err(e) => "couldn't open "@ + path@ + ": "@ + e@,
        }),
{
    match outcome {
        Ok(_) => cat3("opened ", path, " in the system editor"),
        Err(e) => {
            let mut s = cat3("couldn't open ", path, ": ");
            s.append(e.as_str());
            s
        },
    }
}

// ---------------------------------------------------------------------------
// Lists, for a frontend without pickers
// ---------------------------------------------------------------------------

/// A skill, as it is listed.
#[derive(Debug, Clone, PartialEq, Eq)]
pub struct SkillRow<S = String> {
    pub name: S,
    /// Empty where it has none.
    pub description: S,
    /// Where it was found.
    pub source: S,
}

impl View for SkillRow<String> {
    type V = SkillRow<Seq<char>>;

    open spec fn view(&self) -> SkillRow<Seq<char>> {
        SkillRow { name: self.name@, description: self.description@, source: self.source@ }
    }
}

/// The views of a list of skills.
pub open spec fn skill_rows(v: Seq<SkillRow>) -> Seq<SkillRow<Seq<char>>> {
    Seq::new(v.len(), |i: int| v[i]@)
}

/// The line of a skill.
pub open spec fn skill_line(s: SkillRow<Seq<char>>) -> Seq<char> {
    "\n  :"@ + s.name + (if s.description.len() > 0 {
        " — "@ + s.description
    } else {
        Seq::empty()
    }) + "  ["@ + s.source + "]"@
}

/// The lines of the first `n` skills.
pub open spec fn skill_lines(rows: Seq<SkillRow<Seq<char>>>, n: int) -> Seq<char>
    decreases n,
{
    if n <= 0 {
        Seq::empty()
    } else {
        skill_lines(rows, n - 1) + skill_line(rows[n - 1])
    }
}

/// What is said where there are no skills. Those of the Messages API's vendor are looked
/// for too.
pub open spec fn no_skills(vendor: Seq<char>) -> Seq<char> {
    "no skills yet — put Markdown prompt templates in .hrdr/skills/ (or ."@ + vendor
        + "/commands/, ~/.config/hrdr/skills/), then invoke one with :name [arguments]"@
}

/// The skills, in words.
pub open spec fn skills_listed(rows: Seq<SkillRow<Seq<char>>>, vendor: Seq<char>) -> Seq<char> {
    if rows.len() == 0 {
        no_skills(vendor)
    } else {
        text::decimal(rows.len()) + " skills (invoke with :name [arguments]):"@ + skill_lines(
            rows,
            rows.len() as int,
        )
    }
}

/// The skills, in words. `vendor` is the vendor of the Messages API.
pub fn skills_text(rows: &Vec<SkillRow>, vendor: &str) -> (r: String)
    ensures
        r@ == skills_listed(skill_rows(rows@), vendor@),
{
    let ghost all = skill_rows(rows@);
    assert(all.len() == rows@.len());
    if rows.len() == 0 {
        return cat3(
            "no skills yet — put Markdown prompt templates in .hrdr/skills/ (or .",
            vendor,
            "/commands/, ~/.config/hrdr/skills/), then invoke one with :name [arguments]",
        );
    }
    let head = cat(
        decimal_string(rows.len() as u64).as_str(),
        " skills (invoke with :name [arguments]):",
    );
    let mut lines = String::new();
    assert(lines@ =~= skill_lines(all, 0));
    for i in 0..rows.len()
        invariant
            all == skill_rows(rows@),
            lines@ == skill_lines(all, i as int),
    {
        let ghost above = lines@;
        let mut line = cat("\n  :", rows[i].name.as_str());
        if rows[i].description.as_str().is_empty() {
            assert(line@ + Seq::empty() =~= line@);
        } else {
            line.append(cat(" — ", rows[i].description.as_str()).as_str());
        }
        line.append("  [");
        line.append(rows[i].source.as_str());
        line.append("]");
        assert(line@ == skill_line(all[i as int]));
        lines.append(line.as_str());
        assert(lines@ == skill_lines(all, i + 1));
    }
    cat(head.as_str(), lines.as_str())
}

/// The line of a level of effort.
pub open spec fn effort_line(c: EffortChoice<Seq<char>>) -> Seq<char> {
    "\n  "@ + c.label + (if c.detail.len() > 0 {
        " — "@ + c.detail
    } else {
        Seq::empty()
    })
}

/// The lines of the first `n` levels.
pub open spec fn effort_lines(list: Seq<EffortChoice<Seq<char>>>, n: int) -> Seq<char>
    decreases n,
{
    if n <= 0 {
        Seq::empty()
    } else {
        effort_lines(list, n - 1) + effort_line(list[n - 1])
    }
}

/// The levels of effort that there are, in words, and the one that is set.
pub fn efforts_text(current: Option<&str>, list: &Vec<EffortChoice>) -> (r: String)
    ensures
        r@ == "effort: "@ + (match config::opt_str_view(current) {
            Some(e) => e,
            None => "default"@,
        }) + " — levels for this model:"@ + effort_lines(
            effort::choices(list@),
            list@.len() as int,
        ),
{
    let ghost all = effort::choices(list@);
    let head = cat3(
        "effort: ",
        match current {
            Some(e) => e,
            None => "default",
        },
        " — levels for this model:",
    );
    let mut lines = String::new();
    assert(lines@ =~= effort_lines(all, 0));
    for i in 0..list.len()
        invariant
            all == effort::choices(list@),
            lines@ == effort_lines(all, i as int),
    {
        let mut line = cat("\n  ", list[i].label.as_str());
        if list[i].detail.as_str().is_empty() {
            assert(line@ + Seq::empty() =~= line@);
        } else {
            line.append(cat(" — ", list[i].detail.as_str()).as_str());
        }
        assert(line@ == effort_line(all[i as int]));
        lines.append(line.as_str());
        assert(lines@ == effort_lines(all, i + 1));
    }
    cat(head.as_str(), lines.as_str())
}

/// The lines of the first `n` themes.
pub open spec fn theme_lines(list: Seq<(Seq<char>, Seq<char>)>, n: int) -> Seq<char>
    decreases n,
{
    if n <= 0 {
        Seq::empty()
    } else {
        theme_lines(list, n - 1) + ("\n  "@ + list[n - 1].0 + "  ["@ + list[n - 1].1 + "]"@)
    }
}

/// The themes that there are, in words: the name of each, and where it comes from.
pub fn themes_text(list: &Vec<(String, String)>) -> (r: String)
    ensures
        r@ == "themes (apply with /theme <name or path>):"@ + theme_lines(
            text::pairs(list@),
            list@.len() as int,
        ),
{
    let ghost all = text::pairs(list@);
    let mut lines = String::new();
    assert(lines@ =~= theme_lines(all, 0));
    for i in 0..list.len()
        invariant
            all == text::pairs(list@),
            lines@ == theme_lines(all, i as int),
    {
        let mut line = cat3("\n  ", list[i].0.as_str(), "  [");
        line.append(list[i].1.as_str());
        line.append("]");
        assert(all[i as int].0 == list@[i as int].0@);
        lines.append(line.as_str());
        assert(lines@ == theme_lines(all, i + 1));
    }
    cat("themes (apply with /theme <name or path>):", lines.as_str())
}

// ---------------------------------------------------------------------------
// The Windows command line
// ---------------------------------------------------------------------------

/// A text as `start` is given it: with a caret before each ampersand.
pub open spec fn escaped(s: Seq<char>) -> Seq<char>
    decreases s.len(),
{
    if s.len() == 0 {
        s
    } else if s.last() == '&' {
        escaped(s.drop_last()).push('^').push('&')
    } else {
        escaped(s.drop_last()).push(s.last())
    }
}

/// A text as `start` is given it on Windows, where a bare ampersand ends the command.
pub fn windows_escape_for_cmd_start(s: &str) -> (r: String)
    ensures
        r@ == escaped(s@),
{
    let v = text::chars_of(s);
    let mut out: Vec<char> = Vec::new();
    assert(v@.take(0) =~= Seq::empty());
    for i in 0..v.len()
        invariant
            out@ == escaped(v@.take(i as int)),
    {
        assert(v@.take(i + 1).drop_last() =~= v@.take(i as int));
        if v[i] == '&' {
            out.push('^');
        }
        out.push(v[i]);
    }
    assert(v@.take(v@.len() as int) =~= v@);
    text::string_of(&out)
}

/// No ampersand is left bare.
pub proof fn law_no_ampersand_is_bare(s: Seq<char>, i: int)
    requires
        0 <= i < escaped(s).len(),
        escaped(s)[i] == '&',
    ensures
        i > 0 && escaped(s)[i - 1] == '^',
    decreases s.len(),
{
    let rest = escaped(s.drop_last());
    if i < rest.len() {
        law_no_ampersand_is_bare(s.drop_last(), i);
    }
}

/// A text without ampersands stays as it is.
pub proof fn law_other_text_is_kept(s: Seq<char>)
    requires
        !s.contains('&'),
    ensures
        escaped(s) == s,
    decreases s.len(),
{
    if s.len() > 0 {
        assert(s[s.len() - 1] != '&');
        let rest = s.drop_last();
        assert(!rest.contains('&')) by {
            if rest.contains('&') {
                let i = choose|i: int| 0 <= i < rest.len() && rest[i] == '&';
                assert(s[i] == '&');
            }
        }
        law_other_text_is_kept(rest);
        assert(rest.push(s.last()) =~= s);
    }
}

/// A list shows every row of it: of a skill its name, where it comes from and what is said
/// of it, of a level its name and what is said of it, of a theme its name and what it is.
pub proof fn law_a_list_shows_every_row(
    skills: Seq<SkillRow<Seq<char>>>,
    levels: Seq<EffortChoice<Seq<char>>>,
    themes: Seq<(Seq<char>, Seq<char>)>,
    n: int,
    i: int,
)
    requires
        0 <= i < n,
    ensures
        n <= skills.len() ==> text::contains(skill_lines(skills, n), skill_line(skills[i])),
        n <= levels.len() ==> text::contains(effort_lines(levels, n), effort_line(levels[i])),
        n <= themes.len() ==> text::contains(
            theme_lines(themes, n),
            "\n  "@ + themes[i].0 + "  ["@ + themes[i].1 + "]"@,
        ),
    decreases n,
{
    let m = n - 1;
    if i < m {
        law_a_list_shows_every_row(skills, levels, themes, m, i);
    }
    if n <= skills.len() {
        text::lemma_holds_itself(skill_line(skills[i]));
        text::lemma_sum_holds(skill_lines(skills, m), skill_line(skills[m]), skill_line(skills[i]));
    }
    if n <= levels.len() {
        text::lemma_holds_itself(effort_line(levels[i]));
        text::lemma_sum_holds(
            effort_lines(levels, m),
            effort_line(levels[m]),
            effort_line(levels[i]),
        );
    }
    if n <= themes.len() {
        let row = "\n  "@ + themes[i].0 + "  ["@ + themes[i].1 + "]"@;
        text::lemma_holds_itself(row);
        text::lemma_sum_holds(
            theme_lines(themes, m),
            "\n  "@ + themes[m].0 + "  ["@ + themes[m].1 + "]"@,
            row,
        );
    }
}

proof fn lemma_skill_parts(head: Seq<char>, about: Seq<char>, source: Seq<char>, p: Seq<char>)
    requires
        text::contains(head, p) || text::contains(about, p) || text::contains(source, p),
    ensures
        text::contains(head + about + "  ["@ + source + "]"@, p),
{
    broadcast use text::lemma_sum_holds;

}

/// The row of a skill or of a level says all that is known of it.
#[verifier::rlimit(40)]
pub proof fn law_a_row_says_all(s: SkillRow<Seq<char>>, c: EffortChoice<Seq<char>>)
    ensures
        text::contains(skill_line(s), ":"@ + s.name),
        text::contains(skill_line(s), s.source),
        s.description.len() > 0 ==> text::contains(skill_line(s), s.description),
        text::contains(effort_line(c), c.label),
        c.detail.len() > 0 ==> text::contains(effort_line(c), c.detail),
{
    let call = ":"@ + s.name;
    let head = "\n  :"@ + s.name;
    let about = if s.description.len() > 0 {
        " — "@ + s.description
    } else {
        Seq::empty()
    };
    assert(text::contains(head, call)) by {
        reveal_strlit("\n  :");
        reveal_strlit("\n  ");
        reveal_strlit(":");
        assert("\n  "@ + call =~= head);
        text::lemma_holds_itself(call);
        text::lemma_sum_holds("\n  "@, call, call);
    }
    lemma_skill_parts(head, about, s.source, call);
    if s.description.len() > 0 {
        text::lemma_holds_itself(s.description);
        text::lemma_sum_holds(" — "@, s.description, s.description);
        lemma_skill_parts(head, about, s.source, s.description);
    }
    text::lemma_holds_itself(s.source);
    lemma_skill_parts(head, about, s.source, s.source);
    text::lemma_holds_itself(c.label);
    text::lemma_holds_itself(c.detail);
    let detail = if c.detail.len() > 0 {
        " — "@ + c.detail
    } else {
        Seq::empty()
    };
    text::lemma_sum_holds("\n  "@, c.label, c.label);
    text::lemma_sum_holds("\n  "@ + c.label, detail, c.label);
    if c.detail.len() > 0 {
        text::lemma_sum_holds(" — "@, c.detail, c.detail);
        text::lemma_sum_holds("\n  "@ + c.label, detail, c.detail);
    }
}

/// How many skills there are is told before them; where there is none, how to make one is.
#[verifier::rlimit(40)]
pub proof fn law_skills_are_counted(rows: Seq<SkillRow<Seq<char>>>, vendor: Seq<char>, i: int)
    ensures
        rows.len() > 0 ==> text::starts_with(
            skills_listed(rows, vendor),
            text::decimal(rows.len()),
        ),
        0 <= i < rows.len() ==> text::contains(skills_listed(rows, vendor), skill_line(rows[i])),
        rows.len() == 0 ==> text::contains(skills_listed(rows, vendor), vendor),
{
    broadcast use text::lemma_sum_holds;

    let t = skills_listed(rows, vendor);
    if rows.len() > 0 {
        let n = text::decimal(rows.len());
        assert(t.take(n.len() as int) =~= n);
    } else {
        text::lemma_holds_itself(vendor);
    }
    if 0 <= i < rows.len() {
        law_a_list_shows_every_row(rows, Seq::empty(), Seq::empty(), rows.len() as int, i);
    }
}

/// A diff is shown as one, an empty line not at all, and any other line as the system's.
pub proof fn law_a_diff_is_shown_as_one(line: Seq<char>)
    ensures
        shown_as(line) is None <==> line.len() == 0,
        line.len() >= 5 && line.take(5) == seq!['d', 'i', 'f', 'f', ' '] ==> shown_as(line) == Some(
            LineKind::Diff,
        ),
        line.len() > 0 && (line.len() < 5 || line.take(5) != seq!['d', 'i', 'f', 'f', ' '])
            ==> shown_as(line) == Some(LineKind::System),
{
    reveal_strlit("diff ");
    assert("diff "@ =~= seq!['d', 'i', 'f', 'f', ' ']);
    assert("diff "@.len() == 5);
}

} // verus!
