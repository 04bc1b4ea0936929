//! The `:name` namespace as the pickers show it: commands and skills in one list, with
//! what stands in a skill's way told rather than hidden.
use crate::completion;
use crate::fuzzy;
use crate::fuzzy::{fuzzy_filter, lowercase};
use crate::ranking;
use crate::ranking::{order_rows, Key};
use crate::text;
use crate::text::{
    cat, cat3, chars_of, str_contains, str_eq, str_has_white, str_lower, str_starts_with,
    string_of_range,
};
use vstd::prelude::*;

verus! {

/// A command: a prompt template under a name.
#[derive(Debug, Clone, PartialEq, Eq)]
pub struct Command<S = String> {
    pub name: S,
    pub description: S,
    /// Where it comes from.
    pub source: S,
}

/// A skill: a bundle under a name.
#[derive(Debug, Clone, PartialEq, Eq)]
pub struct Skill<S = String> {
    pub name: S,
    pub description: S,
    /// Where it comes from.
    pub source: S,
}

/// A skill that cannot be used.
#[derive(Debug, Clone, PartialEq, Eq)]
pub struct InvalidSkill<S = String> {
    pub name: S,
    pub path: S,
    pub reason: S,
}

/// The skills that were found.
#[derive(Debug, Clone, PartialEq, Eq)]
pub struct DiscoveredSkills {
    pub skills: Vec<Skill>,
    /// Those whose name a skill of a higher place has.
    pub shadowed: Vec<Skill>,
    pub invalid: Vec<InvalidSkill>,
}

/// What a row of the namespace is.
#[derive(Debug, Clone, PartialEq, Eq)]
pub enum PromptEntryKind<S = String> {
    /// A command, which always has its name.
    Command,
    /// A skill.
    Skill,
    /// A skill whose name something else has: what.
    ShadowedSkill(S),
    /// A skill that cannot be used: why.
    InvalidSkill(S),
}

/// A row of the namespace.
#[derive(Debug, Clone, PartialEq, Eq)]
pub struct PromptEntry<S = String> {
    pub name: S,
    pub description: S,
    /// Where it comes from.
    pub source: S,
    pub kind: PromptEntryKind<S>,
}

impl View for Command<String> {
    type V = Command<Seq<char>>;

    open spec fn view(&self) -> Command<Seq<char>> {
        Command { name: self.name@, description: self.description@, source: self.source@ }
    }
}

impl View for Skill<String> {
    type V = Skill<Seq<char>>;

    open spec fn view(&self) -> Skill<Seq<char>> {
        Skill { name: self.name@, description: self.description@, source: self.source@ }
    }
}

impl View for InvalidSkill<String> {
    type V = InvalidSkill<Seq<char>>;

    open spec fn view(&self) -> InvalidSkill<Seq<char>> {
        InvalidSkill { name: self.name@, path: self.path@, reason: self.reason@ }
    }
}

impl View for PromptEntryKind<String> {
    type V = PromptEntryKind<Seq<char>>;

    open spec fn view(&self) -> PromptEntryKind<Seq<char>> {
        match self {
            PromptEntryKind::Command => PromptEntryKind::Command,
            PromptEntryKind::Skill => PromptEntryKind::Skill,
            PromptEntryKind::ShadowedSkill(by) => PromptEntryKind::ShadowedSkill(by@),
            PromptEntryKind::InvalidSkill(why) => PromptEntryKind::InvalidSkill(why@),
        }
    }
}

impl View for PromptEntry<String> {
    type V = PromptEntry<Seq<char>>;

    open spec fn view(&self) -> PromptEntry<Seq<char>> {
        PromptEntry {
            name: self.name@,
            description: self.description@,
            source: self.source@,
            kind: self.kind@,
        }
    }
}

/// The views of a list of commands.
pub open spec fn commands_view(v: Seq<Command>) -> Seq<Command<Seq<char>>> {
    Seq::new(v.len(), |i: int| v[i]@)
}

/// The views of a list of skills.
pub open spec fn skills_view(v: Seq<Skill>) -> Seq<Skill<Seq<char>>> {
    Seq::new(v.len(), |i: int| v[i]@)
}

/// The views of a list of skills that cannot be used.
pub open spec fn invalid_view(v: Seq<InvalidSkill>) -> Seq<InvalidSkill<Seq<char>>> {
    Seq::new(v.len(), |i: int| v[i]@)
}

/// The views of a list of rows.
pub open spec fn entries(v: Seq<PromptEntry>) -> Seq<PromptEntry<Seq<char>>> {
    Seq::new(v.len(), |i: int| v[i]@)
}

// ---------------------------------------------------------------------------
// Names
// ---------------------------------------------------------------------------

/// A character of a name as it is compared: in lower case, and the three separators of
/// namespaces alike.
pub open spec fn match_char(c: char) -> char {
    if c == ':' || c == '.' {
        '/'
    } else {
        text::lower_char(c)
    }
}

/// A name as it is compared.
pub open spec fn match_key(name: Seq<char>) -> Seq<char> {
    Seq::new(name.len(), |i: int| match_char(name[i]))
}

/// A name as it is compared: whatever the case of its letters, and whichever of the
/// separators `/`, `:` and `.` its namespace is written with.
pub fn command_match_key(name: &str) -> (r: String)
    ensures
        r@ == match_key(name@),
{
    let v = chars_of(str_lower(name).as_str());
    let mut out = String::new();
    for i in 0..v.len()
        invariant
            v@ == text::lower(name@),
            out@ == match_key(name@).take(i as int),
    {
        let c = v[i];
        let ghost before = out@;
        proof {
            let n = name@[i as int];
            assert(c == text::lower_char(n));
            assert(match_key(name@)[i as int] == match_char(n));
            assert((c == ':' || c == '.') <==> (n == ':' || n == '.'));
        }
        if c == ':' || c == '.' {
            out.push('/');
        } else {
            out.push(c);
        }
        assert(out@ =~= before.push(match_key(name@)[i as int]));
        assert(out@ =~= match_key(name@).take(i + 1));
    }
    assert(match_key(name@).take(name@.len() as int) =~= match_key(name@));
    out
}

/// Whether one of the commands has this name.
pub open spec fn command_has(commands: Seq<Command<Seq<char>>>, name: Seq<char>) -> bool {
    exists|i: int|
        0 <= i < commands.len() && match_key((#[trigger] commands[i]).name) == match_key(name)
}

fn is_commands(commands: &Vec<Command>, name: &str) -> (r: bool)
    ensures
        r == command_has(commands_view(commands@), name@),
{
    let key = command_match_key(name);
    let ghost all = commands_view(commands@);
    for i in 0..commands.len()
        invariant
            all == commands_view(commands@),
            key@ == match_key(name@),
            forall|j: int| 0 <= j < i ==> match_key((#[trigger] all[j]).name) != key@,
    {
        assert(all[i as int] == commands@[i as int]@);
        if str_eq(command_match_key(commands[i].name.as_str()).as_str(), key.as_str()) {
            assert(match_key(all[i as int].name) == match_key(name@));
            return true;
        }
    }
    false
}

// ---------------------------------------------------------------------------
// Rows
// ---------------------------------------------------------------------------

/// A label and a description, or what there is of them.
pub open spec fn labelled(
    label: Seq<char>,
    description: Seq<char>,
    source: Seq<char>,
) -> Seq<char> {
    if label.len() == 0 && description.len() == 0 {
        source
    } else if label.len() == 0 {
        description
    } else if description.len() == 0 {
        label
    } else {
        label + " · "@ + description
    }
}

/// What is said of a row.
pub open spec fn detail_text(e: PromptEntry<Seq<char>>) -> Seq<char> {
    match e.kind {
        PromptEntryKind::Command => labelled(Seq::empty(), e.description, e.source),
        PromptEntryKind::Skill => labelled("skill"@, e.description, e.source),
        PromptEntryKind::ShadowedSkill(by) => labelled(
            "skill, shadowed by "@ + by,
            e.description,
            e.source,
        ),
        PromptEntryKind::InvalidSkill(why) => "invalid skill: "@ + why,
    }
}

fn label_with(label: &str, description: &str, source: &str) -> (r: String)
    ensures
        r@ == labelled(label@, description@, source@),
{
    if label.is_empty() {
        if description.is_empty() {
            source.to_string()
        } else {
            description.to_string()
        }
    } else if description.is_empty() {
        label.to_string()
    } else {
        cat3(label, " · ", description)
    }
}

impl PromptEntry {
    /// What is said of the row: what it is, why it cannot be used if it cannot, and its
    /// description.
    pub fn detail(&self) -> (r: String)
        ensures
            r@ == detail_text(self@),
    {
        match &self.kind {
            PromptEntryKind::Command => {
                let none = String::new();
                assert(none@ =~= Seq::empty());
                label_with(none.as_str(), self.description.as_str(), self.source.as_str())
            },
            PromptEntryKind::Skill => label_with(
                "skill",
                self.description.as_str(),
                self.source.as_str(),
            ),
            PromptEntryKind::ShadowedSkill(by) => label_with(
                cat("skill, shadowed by ", by.as_str()).as_str(),
                self.description.as_str(),
                self.source.as_str(),
            ),
            PromptEntryKind::InvalidSkill(why) => cat("invalid skill: ", why.as_str()),
        }
    }
}

/// The row of a command.
pub open spec fn command_entry(c: Command<Seq<char>>) -> PromptEntry<Seq<char>> {
    PromptEntry {
        name: c.name,
        description: c.description,
        source: c.source,
        kind: PromptEntryKind::Command,
    }
}

/// The row of a skill.
pub open spec fn skill_entry(
    s: Skill<Seq<char>>,
    kind: PromptEntryKind<Seq<char>>,
) -> PromptEntry<Seq<char>> {
    PromptEntry { name: s.name, description: s.description, source: s.source, kind }
}

/// What a skill is beside the commands: one of them may have its name.
pub open spec fn skill_kind(
    commands: Seq<Command<Seq<char>>>,
    s: Skill<Seq<char>>,
) -> PromptEntryKind<Seq<char>> {
    if command_has(commands, s.name) {
        PromptEntryKind::ShadowedSkill("a command"@)
    } else {
        PromptEntryKind::Skill
    }
}

/// The row of a skill that cannot be used.
pub open spec fn invalid_entry(s: InvalidSkill<Seq<char>>) -> PromptEntry<Seq<char>> {
    PromptEntry {
        name: s.name,
        description: Seq::empty(),
        source: s.path,
        kind: PromptEntryKind::InvalidSkill(s.reason),
    }
}

/// The whole namespace: the commands, the skills, those that another skill shadows, and
/// those that cannot be used.
pub open spec fn namespace(
    commands: Seq<Command<Seq<char>>>,
    skills: Seq<Skill<Seq<char>>>,
    shadowed: Seq<Skill<Seq<char>>>,
    invalid: Seq<InvalidSkill<Seq<char>>>,
) -> Seq<PromptEntry<Seq<char>>> {
    Seq::new(commands.len(), |i: int| command_entry(commands[i])) + Seq::new(
        skills.len(),
        |i: int| skill_entry(skills[i], skill_kind(commands, skills[i])),
    ) + Seq::new(
        shadowed.len(),
        |i: int|
            skill_entry(
                shadowed[i],
                PromptEntryKind::ShadowedSkill("a higher-precedence skill"@),
            ),
    ) + Seq::new(invalid.len(), |i: int| invalid_entry(invalid[i]))
}

/// The whole namespace as one list. Skills that are shadowed or cannot be used are in it,
/// and say so.
pub fn prompt_entries(commands: &Vec<Command>, found: &DiscoveredSkills) -> (r: Vec<PromptEntry>)
    ensures
        entries(r@) == namespace(
            commands_view(commands@),
            skills_view(found.skills@),
            skills_view(found.shadowed@),
            invalid_view(found.invalid@),
        ),
{
    let ghost cs = commands_view(commands@);
    let ghost ss = skills_view(found.skills@);
    let ghost hs = skills_view(found.shadowed@);
    let ghost is = invalid_view(found.invalid@);
    let ghost a = Seq::new(cs.len(), |i: int| command_entry(cs[i]));
    let ghost b = Seq::new(ss.len(), |i: int| skill_entry(ss[i], skill_kind(cs, ss[i])));
    let ghost c = Seq::new(
        hs.len(),
        |i: int|
            skill_entry(hs[i], PromptEntryKind::ShadowedSkill("a higher-precedence skill"@)),
    );
    let ghost d = Seq::new(is.len(), |i: int| invalid_entry(is[i]));
    let mut out: Vec<PromptEntry> = Vec::new();
    for i in 0..commands.len()
        invariant
            cs == commands_view(commands@),
            a == Seq::new(cs.len(), |i: int| command_entry(cs[i])),
            entries(out@) == a.take(i as int),
    {
        let ghost before = entries(out@);
        let e = PromptEntry {
            name: commands[i].name.clone(),
            description: commands[i].description.clone(),
            source: commands[i].source.clone(),
            kind: PromptEntryKind::Command,
        };
        out.push(e);
        assert(entries(out@) =~= before.push(e@));
        assert(entries(out@) =~= a.take(i + 1));
    }
    assert(a.take(cs.len() as int) =~= a);
    assert(entries(out@) =~= a + b.take(0));
    for i in 0..found.skills.len()
        invariant
            cs == commands_view(commands@),
            ss == skills_view(found.skills@),
            b == Seq::new(ss.len(), |i: int| skill_entry(ss[i], skill_kind(cs, ss[i]))),
            entries(out@) == a + b.take(i as int),
    {
        let ghost before = entries(out@);
        let s = &found.skills[i];
        let e = PromptEntry {
            name: s.name.clone(),
            description: s.description.clone(),
            source: s.source.clone(),
            kind: if is_commands(commands, s.name.as_str()) {
                PromptEntryKind::ShadowedSkill("a command".to_string())
            } else {
                PromptEntryKind::Skill
            },
        };
        out.push(e);
        assert(ss[i as int] == s@);
        assert(e@ == b[i as int]);
        assert(entries(out@) =~= before.push(e@));
        assert(entries(out@) =~= a + b.take(i + 1));
    }
    assert(b.take(ss.len() as int) =~= b);
    assert(entries(out@) =~= a + b + c.take(0));
    for i in 0..found.shadowed.len()
        invariant
            hs == skills_view(found.shadowed@),
            c == Seq::new(
                hs.len(),
                |i: int|
                    skill_entry(
                        hs[i],
                        PromptEntryKind::ShadowedSkill("a higher-precedence skill"@),
                    ),
            ),
            entries(out@) == a + b + c.take(i as int),
    {
        let ghost before = entries(out@);
        let s = &found.shadowed[i];
        let e = PromptEntry {
            name: s.name.clone(),
            description: s.description.clone(),
            source: s.source.clone(),
            kind: PromptEntryKind::ShadowedSkill("a higher-precedence skill".to_string()),
        };
        out.push(e);
        assert(hs[i as int] == s@);
        assert(e@ == c[i as int]);
        assert(entries(out@) =~= before.push(e@));
        assert(entries(out@) =~= a + b + c.take(i + 1));
    }
    assert(c.take(hs.len() as int) =~= c);
    assert(entries(out@) =~= a + b + c + d.take(0));
    for i in 0..found.invalid.len()
        invariant
            is == invalid_view(found.invalid@),
            d == Seq::new(is.len(), |i: int| invalid_entry(is[i])),
            entries(out@) == a + b + c + d.take(i as int),
    {
        let ghost before = entries(out@);
        let s = &found.invalid[i];
        let e = PromptEntry {
            name: s.name.clone(),
            description: String::new(),
            source: s.path.clone(),
            kind: PromptEntryKind::InvalidSkill(s.reason.clone()),
        };
        out.push(e);
        assert(is[i as int] == s@);
        assert(e@.description =~= Seq::empty());
        assert(e@ == d[i as int]);
        assert(entries(out@) =~= before.push(e@));
        assert(entries(out@) =~= a + b + c + d.take(i + 1));
    }
    assert(d.take(is.len() as int) =~= d);
    out
}

/// What a query is compared with, before it is brought to lower case.
pub open spec fn searched(e: PromptEntry<Seq<char>>) -> Seq<char> {
    e.name + " "@ + detail_text(e) + " "@ + e.source
}

/// What a query is compared with, before it is brought to lower case.
pub fn search_text(e: &PromptEntry) -> (r: String)
    ensures
        r@ == searched(e@),
{
    let mut s = cat3(e.name.as_str(), " ", e.detail().as_str());
    s.append(" ");
    s.append(e.source.as_str());
    s
}

/// What a query is compared with: the name, what is said of the row, and where it comes
/// from.
pub fn prompt_entry_haystack(e: &PromptEntry) -> (r: String)
    ensures
        r@ == fuzzy::unicode_lower(searched(e@)),
{
    lowercase(search_text(e).as_str())
}

/// The numbers of the rows that match a query.
pub fn filter_prompt_entries(haystacks: &Vec<String>, query: &str) -> (r: Vec<usize>)
    ensures
        r@ == (if text::trim(query@).len() == 0 {
            fuzzy::matching(text::views(haystacks@), Seq::empty())
        } else {
            fuzzy::matching(
                text::views(haystacks@),
                fuzzy::unicode_lower(text::trim(query@)),
            )
        }),
{
    fuzzy_filter(haystacks, query)
}

// ---------------------------------------------------------------------------
// Completion
// ---------------------------------------------------------------------------

/// How a row is ordered for what was typed: by the beginning of its name, within it,
/// within its description; then by name.
pub open spec fn entry_key(
    name: Seq<char>,
    description: Seq<char>,
    q: Seq<char>,
) -> Option<Key<Seq<char>>> {
    if text::starts_with(match_key(name), q) {
        Some(Key { rank: 0, len: 0, name })
    } else if text::contains(match_key(name), q) {
        Some(Key { rank: 1, len: 0, name })
    } else if text::contains(text::lower(description), q) {
        Some(Key { rank: 2, len: 0, name })
    } else {
        None
    }
}

/// The rows that can be offered: each with its name and description.
pub open spec fn offers(
    commands: Seq<Command<Seq<char>>>,
    skills: Seq<Skill<Seq<char>>>,
) -> Seq<(Seq<char>, Seq<char>)> {
    Seq::new(commands.len(), |i: int| (commands[i].name, commands[i].description)) + Seq::new(
        skills.len(),
        |i: int| (skills[i].name, skills[i].description),
    )
}

/// The keys of the rows that can be offered. A skill whose name a command has is not
/// offered: its name would run the command.
pub open spec fn offer_keys(
    commands: Seq<Command<Seq<char>>>,
    skills: Seq<Skill<Seq<char>>>,
    q: Seq<char>,
) -> Seq<Option<Key<Seq<char>>>> {
    Seq::new(commands.len(), |i: int| entry_key(commands[i].name, commands[i].description, q))
        + Seq::new(
        skills.len(),
        |i: int|
            if command_has(commands, skills[i].name) {
                None
            } else {
                entry_key(skills[i].name, skills[i].description, q)
            },
    )
}

/// What is offered for an input: the rows that match what follows its colon, the best
/// first.
pub open spec fn completions(
    input: Seq<char>,
    commands: Seq<Command<Seq<char>>>,
    skills: Seq<Skill<Seq<char>>>,
) -> Seq<(Seq<char>, Seq<char>)> {
    if input.len() == 0 || input[0] != ':' || text::has_white(input.skip(1)) {
        Seq::empty()
    } else {
        let rows = ranking::order(offer_keys(commands, skills, match_key(input.skip(1))));
        Seq::new(
            rows.len(),
            |p: int|
                (":"@ + offers(commands, skills)[rows[p]].0, offers(commands, skills)[rows[p]].1),
        )
    }
}

fn key_of_entry(name: &str, description: &str, q: &str) -> (r: Option<Key>)
    ensures
        (match r {
            Some(k) => Some(k@),
            None => None,
        }) == entry_key(name@, description@, q@),
{
    let key = command_match_key(name);
    if str_starts_with(key.as_str(), q) {
        Some(Key { rank: 0, len: 0, name: name.to_string() })
    } else if str_contains(key.as_str(), q) {
        Some(Key { rank: 1, len: 0, name: name.to_string() })
    } else if str_contains(str_lower(description).as_str(), q) {
        Some(Key { rank: 2, len: 0, name: name.to_string() })
    } else {
        None
    }
}

/// The commands and skills that are offered for an input that begins with a colon, with
/// their descriptions.
pub fn prompt_completions(input: &str, commands: &Vec<Command>, skills: &Vec<Skill>) -> (r: Vec<
    (String, String),
>)
    ensures
        text::pairs(r@) == completions(
            input@,
            commands_view(commands@),
            skills_view(skills@),
        ),
{
    let ghost cs = commands_view(commands@);
    let ghost ss = skills_view(skills@);
    let mut out: Vec<(String, String)> = Vec::new();
    assert(text::pairs(out@) =~= Seq::empty());
    let v = chars_of(input);
    if v.len() == 0 || v[0] != ':' {
        return out;
    }
    assert(input@.skip(1) =~= v@.subrange(1, v@.len() as int));
    let query = string_of_range(&v, 1, v.len());
    if str_has_white(query.as_str()) {
        return out;
    }
    let q = command_match_key(query.as_str());
    let ghost want = offer_keys(cs, ss, q@);
    let mut ks: Vec<Option<Key>> = Vec::new();
    for i in 0..commands.len()
        invariant
            cs == commands_view(commands@),
            want == offer_keys(cs, ss, q@),
            ranking::keys(ks@) == want.take(i as int),
    {
        let ghost before = ranking::keys(ks@);
        let c = &commands[i];
        assert(cs[i as int] == c@);
        ks.push(key_of_entry(c.name.as_str(), c.description.as_str(), q.as_str()));
        assert(ranking::keys(ks@) =~= before.push(want[i as int]));
        assert(ranking::keys(ks@) =~= want.take(i + 1));
    }
    for i in 0..skills.len()
        invariant
            cs == commands_view(commands@),
            ss == skills_view(skills@),
            want == offer_keys(cs, ss, q@),
            ranking::keys(ks@) == want.take(cs.len() + i),
    {
        let ghost before = ranking::keys(ks@);
        let s = &skills[i];
        assert(ss[i as int] == s@);
        if is_commands(commands, s.name.as_str()) {
            ks.push(None);
        } else {
            ks.push(key_of_entry(s.name.as_str(), s.description.as_str(), q.as_str()));
        }
        assert(ranking::keys(ks@) =~= before.push(want[cs.len() + i]));
        assert(ranking::keys(ks@) =~= want.take(cs.len() + i + 1));
    }
    assert(want.take(want.len() as int) =~= want);
    assert(ks@.len() == want.len()) by {
        assert(ranking::keys(ks@).len() == ks@.len());
    }
    let rows = order_rows(&ks);
    let ghost numbers = ranking::rows(rows@);
    let ghost all = completions(input@, cs, ss);
    for p in 0..rows.len()
        invariant
            cs == commands_view(commands@),
            ss == skills_view(skills@),
            numbers == ranking::rows(rows@),
            all == Seq::new(
                numbers.len(),
                |p: int| (":"@ + offers(cs, ss)[numbers[p]].0, offers(cs, ss)[numbers[p]].1),
            ),
            forall|k: int|
                0 <= k < rows@.len() ==> (#[trigger] rows@[k]) < commands@.len() + skills@.len(),
            text::pairs(out@) == all.take(p as int),
    {
        let ghost before = text::pairs(out@);
        let i: usize = rows[p];
        assert(numbers[p as int] == i);
        if i < commands.len() {
            assert(offers(cs, ss)[i as int] == (cs[i as int].name, cs[i as int].description));
            out.push((cat(":", commands[i].name.as_str()), commands[i].description.clone()));
        } else {
            let k: usize = i - commands.len();
            assert(offers(cs, ss)[i as int] == (ss[k as int].name, ss[k as int].description));
            out.push((cat(":", skills[k].name.as_str()), skills[k].description.clone()));
        }
        assert(text::pairs(out@) =~= before.push(all[p as int]));
        assert(text::pairs(out@) =~= all.take(p + 1));
    }
    assert(all.take(all.len() as int) =~= all);
    out
}

/// A namespace is found whichever separator it is typed with, and whatever the case of
/// the letters.
pub proof fn law_separators_are_alike(
    a: Seq<char>,
    b: Seq<char>,
    commands: Seq<Command<Seq<char>>>,
    skills: Seq<Skill<Seq<char>>>,
)
    requires
        match_key(a) == match_key(b),
    ensures
        completions(seq![':'] + a, commands, skills) == completions(
            seq![':'] + b,
            commands,
            skills,
        ),
{
    assert((seq![':'] + a).skip(1) =~= a);
    assert((seq![':'] + b).skip(1) =~= b);
    assert(a.len() == match_key(a).len() && b.len() == match_key(b).len());
    if text::has_white(a) {
        let i = choose|i: int| 0 <= i < a.len() && text::is_white(#[trigger] a[i]);
        lemma_white_kept(a, b, i);
    }
    if text::has_white(b) {
        let i = choose|i: int| 0 <= i < b.len() && text::is_white(#[trigger] b[i]);
        lemma_white_kept(b, a, i);
    }
}

proof fn lemma_white_kept(a: Seq<char>, b: Seq<char>, i: int)
    requires
        match_key(a) == match_key(b),
        0 <= i < a.len(),
        text::is_white(a[i]),
    ensures
        text::has_white(b),
{
    assert(b.len() == match_key(b).len() && a.len() == match_key(a).len());
    assert(match_key(a)[i] == match_key(b)[i]);
    assert(match_char(a[i]) == a[i]);
    assert(match_key(a)[i] == match_char(a[i]));
    assert(match_key(b)[i] == match_char(b[i]));
    assert(b[i] == a[i]);
}

/// No skill is offered under a name that a command has.
pub proof fn law_commands_win_their_names(
    commands: Seq<Command<Seq<char>>>,
    skills: Seq<Skill<Seq<char>>>,
    q: Seq<char>,
    i: int,
)
    requires
        0 <= i < skills.len(),
        command_has(commands, skills[i].name),
    ensures
        !ranking::order(offer_keys(commands, skills, q)).contains(commands.len() + i),
        skill_kind(commands, skills[i]) is ShadowedSkill,
{
    ranking::law_matches_are_listed_in_order(offer_keys(commands, skills, q));
    assert(offer_keys(commands, skills, q)[commands.len() + i] is None);
}

/// Two names are the same to the matcher exactly where they differ in nothing but the case
/// of their letters and in which separators their namespaces are written with.
pub proof fn law_names_are_matched_by_letters_and_separators(a: Seq<char>, b: Seq<char>)
    ensures
        match_key(a) == match_key(b) <==> a.len() == b.len() && forall|i: int|
            0 <= i < a.len() ==> completion::same_letter(#[trigger] a[i], b[i]) || (separates(a[i])
                && separates(b[i])),
{
    let x = match_key(a);
    let y = match_key(b);
    assert(x.len() == a.len() && y.len() == b.len());
    if a.len() == b.len() {
        assert forall|i: int| 0 <= i < a.len() implies (x[i] == y[i] <==> (completion::same_letter(
            #[trigger] a[i],
            b[i],
        ) || (separates(a[i]) && separates(b[i])))) by {
            completion::lemma_same_letter(a[i], b[i]);
            completion::lemma_same_letter(b[i], a[i]);
        }
        if x == y {
            assert forall|i: int| 0 <= i < a.len() implies completion::same_letter(
                #[trigger] a[i],
                b[i],
            ) || (separates(a[i]) && separates(b[i])) by {
                assert(x[i] == y[i]);
            }
        } else {
            if forall|i: int|
                0 <= i < a.len() ==> completion::same_letter(#[trigger] a[i], b[i]) || (separates(
                    a[i],
                ) && separates(b[i])) {
                assert forall|i: int| 0 <= i < x.len() implies x[i] == y[i] by {
                    assert(completion::same_letter(a[i], b[i]) || (separates(a[i]) && separates(
                        b[i],
                    )));
                }
                assert(x =~= y);
            }
        }
    }
}

/// Whether a character separates the parts of a name.
pub open spec fn separates(c: char) -> bool {
    c == '/' || c == ':' || c == '.'
}

/// The list of the namespace holds every command and every skill by its own name,
/// description and source, those that cannot be used among them; a skill whose name a
/// command has is said to be shadowed, and no other of the skills in use is.
pub proof fn law_the_namespace_lists_everything(
    commands: Seq<Command<Seq<char>>>,
    skills: Seq<Skill<Seq<char>>>,
    shadowed: Seq<Skill<Seq<char>>>,
    invalid: Seq<InvalidSkill<Seq<char>>>,
    i: int,
)
    ensures
        ({
            let all = namespace(commands, skills, shadowed, invalid);
            &&& all.len() == commands.len() + skills.len() + shadowed.len() + invalid.len()
            &&& 0 <= i < commands.len() ==> all[i].name == commands[i].name && all[i].description
                == commands[i].description && all[i].source == commands[i].source
                && all[i].kind is Command
            &&& 0 <= i < skills.len() ==> ({
                let e = all[commands.len() + i];
                &&& e.name == skills[i].name && e.description == skills[i].description && e.source
                    == skills[i].source
                &&& e.kind is Skill || e.kind is ShadowedSkill
                &&& e.kind is ShadowedSkill <==> exists|k: int|
                    0 <= k < commands.len() && match_key((#[trigger] commands[k]).name)
                        == match_key(skills[i].name)
            })
            &&& 0 <= i < shadowed.len() ==> ({
                let e = all[commands.len() + skills.len() + i];
                e.name == shadowed[i].name && e.description == shadowed[i].description && e.source
                    == shadowed[i].source && e.kind is ShadowedSkill
            })
            &&& 0 <= i < invalid.len() ==> ({
                let e = all[commands.len() + skills.len() + shadowed.len() + i];
                e.name == invalid[i].name && e.source == invalid[i].path && e.kind
                    == PromptEntryKind::InvalidSkill(invalid[i].reason)
            })
        }),
{
}

/// What is said of a row holds why it cannot be used, where it cannot, and else its
/// description.
pub proof fn law_a_row_says_what_it_is(e: PromptEntry<Seq<char>>)
    ensures
        e.kind matches PromptEntryKind::InvalidSkill(why) ==> text::contains(detail_text(e), why),
        e.kind is Command && e.description.len() > 0 ==> detail_text(e) == e.description,
        e.kind is Skill || e.kind is ShadowedSkill ==> text::contains(
            detail_text(e),
            e.description,
        ) || e.description.len() == 0,
        e.kind is Command && e.description.len() == 0 ==> detail_text(e) == e.source,
{
    match e.kind {
        PromptEntryKind::InvalidSkill(why) => {
            text::lemma_holds_itself(why);
            text::lemma_part_holds("invalid skill: "@, why, Seq::empty(), why);
            assert("invalid skill: "@ + why + Seq::<char>::empty() =~= detail_text(e));
        },
        PromptEntryKind::Skill => {
            reveal_strlit("skill");
            let d = e.description;
            text::lemma_holds_itself(d);
            text::lemma_part_holds("skill"@ + " · "@, d, Seq::empty(), d);
            assert("skill"@ + " · "@ + d + Seq::<char>::empty() =~= "skill"@ + " · "@ + d);
        },
        PromptEntryKind::ShadowedSkill(by) => {
            reveal_strlit("skill, shadowed by ");
            let label = "skill, shadowed by "@ + by;
            let d = e.description;
            text::lemma_holds_itself(d);
            text::lemma_part_holds(label + " · "@, d, Seq::empty(), d);
            assert(label + " · "@ + d + Seq::<char>::empty() =~= label + " · "@ + d);
        },
        _ => {},
    }
}

/// What is offered after a colon is the commands, and the skills whose name no command
/// has, whose name or description holds what was typed; a name that begins with it comes
/// before one that only holds it.
pub proof fn law_what_is_offered_holds_what_was_typed(
    input: Seq<char>,
    commands: Seq<Command<Seq<char>>>,
    skills: Seq<Skill<Seq<char>>>,
    i: int,
)
    requires
        input.len() > 0,
        input[0] == ':',
        !text::has_white(input.skip(1)),
    ensures
        ({
            let q = match_key(input.skip(1));
            let r = completions(input, commands, skills);
            &&& 0 <= i < commands.len() && (text::contains(match_key(commands[i].name), q)
                || text::contains(text::lower(commands[i].description), q)) ==> r.contains(
                (seq![':'] + commands[i].name, commands[i].description),
            )
            &&& 0 <= i < skills.len() && !command_has(commands, skills[i].name) && (text::contains(
                match_key(skills[i].name),
                q,
            ) || text::contains(text::lower(skills[i].description), q)) ==> r.contains(
                (seq![':'] + skills[i].name, skills[i].description),
            )
            &&& 0 <= i < r.len() ==> r[i].0.len() > 0 && r[i].0[0] == ':' && (text::contains(
                match_key(r[i].0.skip(1)),
                q,
            ) || text::contains(text::lower(r[i].1), q))
            &&& forall|a: int, b: int|
                0 <= a < b < r.len() && text::starts_with(match_key((#[trigger] r[b]).0.skip(1)), q)
                    ==> text::starts_with(match_key((#[trigger] r[a]).0.skip(1)), q)
        }),
        input.len() == 1 && 0 <= i < commands.len() ==> completions(
            input,
            commands,
            skills,
        ).contains((seq![':'] + commands[i].name, commands[i].description)),
{
    reveal_strlit(":");
    assert(":"@ =~= seq![':']);
    let q = match_key(input.skip(1));
    let ks = offer_keys(commands, skills, q);
    let rows = ranking::order(ks);
    let all = offers(commands, skills);
    let r = completions(input, commands, skills);
    ranking::law_matches_are_listed_in_order(ks);
    assert forall|x: int| 0 <= x < all.len() implies ({
        let (name, description) = #[trigger] all[x];
        &&& text::starts_with(match_key(name), q) ==> text::contains(match_key(name), q)
        &&& (seq![':'] + name).skip(1) == name
        &&& ks[x] is Some ==> text::contains(match_key(name), q) || text::contains(
            text::lower(description),
            q,
        )
        &&& ks[x] is Some ==> (ks[x]->0.rank == 0 <==> text::starts_with(match_key(name), q))
    }) by {
        let name = all[x].0;
        assert((seq![':'] + name).skip(1) =~= name);
        if text::starts_with(match_key(name), q) {
            assert(match_key(name).take(q.len() as int) =~= match_key(name).subrange(
                0,
                q.len() as int,
            ));
            assert(text::occurs_at(match_key(name), q, 0));
        }
    }
    let offered = |x: int|
        0 <= x < all.len() && ks[x] is Some ==> r.contains((seq![':'] + all[x].0, all[x].1));
    assert forall|x: int| #[trigger] offered(x) by {
        if 0 <= x < all.len() && ks[x] is Some {
            assert(rows.contains(x));
            let p = choose|p: int| 0 <= p < rows.len() && rows[p] == x;
            assert(r[p] == (seq![':'] + all[x].0, all[x].1));
        }
    }
    if 0 <= i < commands.len() {
        assert(all[i] == (commands[i].name, commands[i].description));
        assert(ks[i] == entry_key(commands[i].name, commands[i].description, q));
        assert(offered(i));
        if input.len() == 1 {
            assert(match_key(commands[i].name).take(0) =~= q);
        }
    }
    if 0 <= i < skills.len() {
        let x = commands.len() + i;
        assert(all[x] == (skills[i].name, skills[i].description));
        assert(offered(x));
    }
    if 0 <= i < r.len() {
        assert(rows.contains(rows[i]));
        assert(r[i] == (seq![':'] + all[rows[i]].0, all[rows[i]].1));
    }
    assert forall|a: int, b: int|
        0 <= a < b < r.len() && text::starts_with(
            match_key((#[trigger] r[b]).0.skip(1)),
            q,
        ) implies text::starts_with(match_key((#[trigger] r[a]).0.skip(1)), q) by {
        assert(rows.contains(rows[a]) && rows.contains(rows[b]));
        assert(r[a] == (seq![':'] + all[rows[a]].0, all[rows[a]].1));
        assert(r[b] == (seq![':'] + all[rows[b]].0, all[rows[b]].1));
        assert(ranking::less(ranking::key_of(ks, rows[b]), ranking::key_of(ks, rows[a])) ==> false);
    }
}

/// A skill is not offered under a name that a command has, since that name runs the
/// command; a command is offered whatever skills there are.
pub proof fn law_a_command_hides_the_skill_of_its_name(
    commands: Seq<Command<Seq<char>>>,
    skills: Seq<Skill<Seq<char>>>,
    q: Seq<char>,
    i: int,
)
    ensures
        0 <= i < skills.len() && command_has(commands, skills[i].name) ==> offer_keys(
            commands,
            skills,
            q,
        )[commands.len() + i] is None,
        0 <= i < skills.len() && !command_has(commands, skills[i].name) ==> offer_keys(
            commands,
            skills,
            q,
        )[commands.len() + i] == entry_key(skills[i].name, skills[i].description, q),
        0 <= i < commands.len() ==> offer_keys(commands, skills, q)[i] == entry_key(
            commands[i].name,
            commands[i].description,
            q,
        ),
        offer_keys(commands, skills, q).len() == commands.len() + skills.len(),
{
}

/// What is shown of an entry is what there is: its label and what is said of it, either
/// alone, or else where it comes from.
#[verifier::rlimit(40)]
pub proof fn law_what_there_is_is_shown(
    label: Seq<char>,
    description: Seq<char>,
    source: Seq<char>,
)
    ensures
        text::contains(labelled(label, description, source), label),
        text::contains(labelled(label, description, source), description),
        label.len() == 0 && description.len() == 0 ==> labelled(label, description, source)
            == source,
        label.len() > 0 && description.len() == 0 ==> labelled(label, description, source) == label,
        label.len() == 0 && description.len() > 0 ==> labelled(label, description, source)
            == description,
{
    text::lemma_holds_itself(label);
    text::lemma_holds_itself(description);
    text::lemma_sum_holds(label, " · "@, label);
    text::lemma_sum_holds(label + " · "@, description, label);
    text::lemma_sum_holds(label + " · "@, description, description);
    let shown = labelled(label, description, source);
    if label.len() == 0 {
        assert(shown.subrange(0, 0) =~= label);
        assert(text::occurs_at(shown, label, 0));
    }
    if description.len() == 0 {
        assert(shown.subrange(0, 0) =~= description);
        assert(text::occurs_at(shown, description, 0));
    }
}

/// An entry is found by its name, by what is shown of it and by where it comes from.
pub proof fn law_an_entry_is_searched_by_all_of_it(e: PromptEntry<Seq<char>>)
    ensures
        text::contains(searched(e), e.name),
        text::contains(searched(e), detail_text(e)),
        text::contains(searched(e), e.source),
{
    let d = detail_text(e);
    text::lemma_holds_itself(e.name);
    text::lemma_holds_itself(d);
    text::lemma_holds_itself(e.source);
    let a = e.name + " "@;
    let b = a + d;
    text::lemma_sum_holds(e.name, " "@, e.name);
    text::lemma_sum_holds(a, d, e.name);
    text::lemma_sum_holds(a, d, d);
    text::lemma_sum_holds(b, " "@, e.name);
    text::lemma_sum_holds(b, " "@, d);
    text::lemma_sum_holds(b + " "@, e.source, e.name);
    text::lemma_sum_holds(b + " "@, e.source, d);
    text::lemma_sum_holds(b + " "@, e.source, e.source);
}

/// What holds the query in its name comes before what only holds it in what is said of it,
/// and what begins with it before both.
pub proof fn law_names_come_before_descriptions(
    a: Seq<char>,
    about_a: Seq<char>,
    b: Seq<char>,
    about_b: Seq<char>,
    q: Seq<char>,
)
    requires
        entry_key(a, about_a, q) is Some,
        entry_key(b, about_b, q) is Some,
    ensures
        text::contains(match_key(a), q) && !text::contains(match_key(b), q) ==> entry_key(
            a,
            about_a,
            q,
        )->0.rank < entry_key(b, about_b, q)->0.rank,
        text::starts_with(match_key(a), q) && !text::starts_with(match_key(b), q) ==> entry_key(
            a,
            about_a,
            q,
        )->0.rank < entry_key(b, about_b, q)->0.rank,
{
    let k = match_key(b);
    if text::starts_with(k, q) {
        assert(k.take(q.len() as int) =~= k.subrange(0, q.len() as int));
        assert(text::occurs_at(k, q, 0));
    }
}

} // verus!
