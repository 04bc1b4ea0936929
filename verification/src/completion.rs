//! What is offered while the user types: slash commands, their arguments, and the files
//! and agents that a message mentions.
use crate::ranking;
use crate::ranking::{order_rows, Key};
use crate::registry;
use crate::registry::{resolve_alias, strip_slashes, SLASH_COMMANDS};
use crate::text;
use crate::text::{
    chars_of, find_last, str_byte_len, str_contains, str_eq, str_eq_ignore_case, str_has_white,
    str_lower, str_starts_with, string_of_range,
};
use vstd::prelude::*;

verus! {

// ---------------------------------------------------------------------------
// Slash commands
// ---------------------------------------------------------------------------

/// The name of row `i` of the registry, without its slash.
pub open spec fn row_name(i: int) -> Seq<char> {
    registry::without_slashes(SLASH_COMMANDS@[i].0@)
}

/// Whether row `i` of the registry is an alias of another command.
pub open spec fn alias_row(i: int) -> bool {
    registry::canonical(row_name(i)) != row_name(i)
}

/// Whether row `j` of the registry is an alias of the command of row `i`.
pub open spec fn alias_of(j: int, i: int) -> bool {
    alias_row(j) && registry::canonical(row_name(j)) == text::lower(row_name(i))
}

/// Whether a name of row `j`, in lower case, begins with `q`.
pub open spec fn name_starts(j: int, q: Seq<char>) -> bool {
    text::starts_with(text::lower(row_name(j)), q)
}

/// Whether a name of row `j`, in lower case, holds `q`.
pub open spec fn name_holds(j: int, q: Seq<char>) -> bool {
    text::contains(text::lower(row_name(j)), q)
}

/// How well the command of row `i` matches `q`: by the beginning of its name, of an
/// alias, within its name, within an alias, within its description. Aliases are not
/// offered themselves.
pub open spec fn slash_rank(q: Seq<char>, i: int) -> Option<u8> {
    if alias_row(i) {
        None
    } else if name_starts(i, q) {
        Some(0)
    } else if exists|j: int|
        0 <= j < SLASH_COMMANDS@.len() && #[trigger] alias_of(j, i) && name_starts(j, q) {
        Some(1)
    } else if name_holds(i, q) {
        Some(2)
    } else if exists|j: int|
        0 <= j < SLASH_COMMANDS@.len() && #[trigger] alias_of(j, i) && name_holds(j, q) {
        Some(3)
    } else if text::contains(text::lower(SLASH_COMMANDS@[i].1@), q) {
        Some(4)
    } else {
        None
    }
}

/// A key with nothing but a rank.
pub open spec fn rank_key(rank: Option<u8>) -> Option<Key<Seq<char>>> {
    match rank {
        Some(r) => Some(Key { rank: r, len: 0, name: Seq::empty() }),
        None => None,
    }
}

/// The keys of the registry's rows.
pub open spec fn slash_keys(q: Seq<char>) -> Seq<Option<Key<Seq<char>>>> {
    Seq::new(SLASH_COMMANDS@.len(), |i: int| rank_key(slash_rank(q, i)))
}

/// The rows of the registry that are offered for an input: those that match what follows
/// its slash, the best first. None for input that is no command, or whose command is
/// complete.
pub open spec fn slash_rows(input: Seq<char>) -> Seq<int> {
    if input.len() == 0 || input[0] != '/' || text::has_white(input.skip(1)) {
        Seq::empty()
    } else {
        ranking::order(slash_keys(text::lower(input.skip(1))))
    }
}

/// Whether a name of the registry is an alias of another command.
pub fn is_alias(name: &str) -> (r: bool)
    ensures
        r == (registry::canonical(registry::without_slashes(name@)) != registry::without_slashes(
            name@,
        )),
{
    let n = strip_slashes(name);
    !str_eq(resolve_alias(n.as_str()), n.as_str())
}

/// How well the best alias of row `i` matches: `1` from its beginning, `3` within.
fn best_alias(q: &str, i: usize, own: &str) -> (r: Option<u8>)
    requires
        i < SLASH_COMMANDS@.len(),
        own@ == text::lower(row_name(i as int)),
    ensures
        r == (if exists|j: int|
            0 <= j < SLASH_COMMANDS@.len() && #[trigger] alias_of(j, i as int) && name_starts(
                j,
                q@,
            ) {
            Some(1u8)
        } else if exists|j: int|
            0 <= j < SLASH_COMMANDS@.len() && #[trigger] alias_of(j, i as int) && name_holds(
                j,
                q@,
            ) {
            Some(3u8)
        } else {
            None
        }),
{
    let mut held: bool = false;
    for j in 0..SLASH_COMMANDS.len()
        invariant
            i < SLASH_COMMANDS@.len(),
            own@ == text::lower(row_name(i as int)),
            forall|k: int|
                0 <= k < j && #[trigger] alias_of(k, i as int) ==> !name_starts(k, q@),
            held == (exists|k: int|
                0 <= k < j && #[trigger] alias_of(k, i as int) && name_holds(k, q@)),
    {
        let bare = strip_slashes(SLASH_COMMANDS[j].0);
        let ghost here = alias_of(j as int, i as int);
        if is_alias(SLASH_COMMANDS[j].0) && str_eq(resolve_alias(bare.as_str()), own) {
            assert(here);
            let low = str_lower(bare.as_str());
            if str_starts_with(low.as_str(), q) {
                return Some(1);
            }
            if str_contains(low.as_str(), q) {
                held = true;
            }
        } else {
            assert(!here);
        }
    }
    if held {
        Some(3)
    } else {
        None
    }
}

fn rank_command(q: &str, i: usize) -> (r: Option<u8>)
    requires
        i < SLASH_COMMANDS@.len(),
    ensures
        r == slash_rank(q@, i as int),
{
    if is_alias(SLASH_COMMANDS[i].0) {
        return None;
    }
    let own = str_lower(strip_slashes(SLASH_COMMANDS[i].0).as_str());
    if str_starts_with(own.as_str(), q) {
        return Some(0);
    }
    let alias = best_alias(q, i, own.as_str());
    if let Some(1) = alias {
        return Some(1);
    }
    if str_contains(own.as_str(), q) {
        return Some(2);
    }
    if alias.is_some() {
        return Some(3);
    }
    if str_contains(str_lower(SLASH_COMMANDS[i].1).as_str(), q) {
        return Some(4);
    }
    None
}

fn key_with(rank: Option<u8>) -> (r: Option<Key>)
    ensures
        (match r {
            Some(k) => Some(k@),
            None => None,
        }) == rank_key(rank),
{
    match rank {
        Some(r) => Some(Key { rank: r, len: 0, name: String::new() }),
        None => None,
    }
}

/// What follows the first character of `s`, where that is `c`.
fn after_sigil(s: &str, c: char) -> (r: Option<String>)
    ensures
        match r {
            Some(t) => s@.len() > 0 && s@[0] == c && t@ == s@.skip(1),
            None => s@.len() == 0 || s@[0] != c,
        },
{
    let v = chars_of(s);
    if v.len() > 0 && v[0] == c {
        assert(s@.skip(1) =~= v@.subrange(1, v@.len() as int));
        Some(string_of_range(&v, 1, v.len()))
    } else {
        None
    }
}

/// The commands that are offered for an input, with their descriptions.
pub fn slash_completions(input: &str) -> (r: Vec<(&'static str, &'static str)>)
    ensures
        r@.len() == slash_rows(input@).len(),
        forall|p: int|
            0 <= p < r@.len() ==> (#[trigger] r@[p]) == SLASH_COMMANDS@[slash_rows(input@)[p]],
{
    let mut out: Vec<(&'static str, &'static str)> = Vec::new();
    let query = match after_sigil(input, '/') {
        Some(q) => q,
        None => {
            return out;
        },
    };
    if str_has_white(query.as_str()) {
        return out;
    }
    let q = str_lower(query.as_str());
    let mut ks: Vec<Option<Key>> = Vec::new();
    for i in 0..SLASH_COMMANDS.len()
        invariant
            ranking::keys(ks@) == slash_keys(q@).take(i as int),
    {
        let ghost before = ranking::keys(ks@);
        ks.push(key_with(rank_command(q.as_str(), i)));
        assert(ranking::keys(ks@) =~= before.push(slash_keys(q@)[i as int]));
        assert(ranking::keys(ks@) =~= slash_keys(q@).take(i + 1));
    }
    assert(slash_keys(q@).take(SLASH_COMMANDS@.len() as int) =~= slash_keys(q@));
    let rows = order_rows(&ks);
    let ghost all = slash_rows(input@);
    assert(ranking::rows(rows@) == all);
    assert(ks@.len() == SLASH_COMMANDS@.len()) by {
        assert(ranking::keys(ks@).len() == ks@.len());
    }
    for p in 0..rows.len()
        invariant
            all == ranking::rows(rows@),
            forall|k: int| 0 <= k < rows@.len() ==> (#[trigger] rows@[k]) < SLASH_COMMANDS@.len(),
            out@.len() == p,
            forall|k: int| 0 <= k < p ==> (#[trigger] out@[k]) == SLASH_COMMANDS@[all[k]],
    {
        assert(all[p as int] == rows@[p as int]);
        out.push(SLASH_COMMANDS[rows[p]]);
    }
    out
}

/// No alias is ever offered, and every other command is offered for a bare slash.
pub proof fn law_aliases_are_never_offered(input: Seq<char>, p: int, i: int)
    requires
        0 <= i < SLASH_COMMANDS@.len(),
    ensures
        0 <= p < slash_rows(input).len() ==> 0 <= slash_rows(input)[p] < SLASH_COMMANDS@.len()
            && !alias_row(slash_rows(input)[p]),
        input == "/"@ && !alias_row(i) ==> slash_rows(input).contains(i),
{
    if input.len() > 0 {
        let q = text::lower(input.skip(1));
        ranking::law_matches_are_listed_in_order(slash_keys(q));
        if 0 <= p < slash_rows(input).len() {
            assert(slash_rows(input).contains(slash_rows(input)[p]));
        }
        if input == "/"@ && !alias_row(i) {
            reveal_strlit("/");
            assert(!text::has_white(input.skip(1)));
            assert(text::lower(row_name(i)).take(0) =~= q);
            assert(slash_keys(q)[i] is Some);
        }
    } else {
        reveal_strlit("/");
    }
}

// ---------------------------------------------------------------------------
// Mentions
// ---------------------------------------------------------------------------

/// The file mention at the end of an input: where its `@` stands, in bytes, and what
/// follows it. The `@` begins a word, and that word is the last.
pub open spec fn file_token(input: Seq<char>) -> Option<(nat, Seq<char>)> {
    match text::last_index(input, '@') {
        Some(at) => if at > 0 && !text::is_white(input[at - 1]) {
            None
        } else if text::has_white(input.skip(at + 1)) {
            None
        } else {
            Some((text::byte_len(input.take(at)), input.skip(at + 1)))
        },
        None => None,
    }
}

/// The file mention that is being typed at the end of an input.
pub fn active_file_token(input: &str) -> (r: Option<(usize, String)>)
    ensures
        match r {
            Some((at, query)) => file_token(input@) == Some((at as nat, query@)),
            None => file_token(input@) is None,
        },
{
    let v = chars_of(input);
    let at: usize = match find_last(&v, '@') {
        Some(i) => i,
        None => {
            return None;
        },
    };
    if at > 0 && !text::char_is_white(v[at - 1]) {
        return None;
    }
    assert(input@.skip(at + 1) =~= v@.subrange(at + 1, v@.len() as int));
    let query = string_of_range(&v, at + 1, v.len());
    if str_has_white(query.as_str()) {
        return None;
    }
    assert(input@.take(at as int) =~= v@.subrange(0, at as int));
    let before = string_of_range(&v, 0, at);
    Some((str_byte_len(before.as_str()), query))
}

/// The last part of a path.
pub open spec fn base_name(path: Seq<char>) -> Seq<char> {
    match text::last_index(path, '/') {
        Some(i) => path.skip(i + 1),
        None => path,
    }
}

/// How a path is ordered against a query in lower case: by its last part's beginning,
/// then by what it holds, then the shorter and the alphabetically first. Without a query
/// the shorter comes first.
pub open spec fn file_key(path: Seq<char>, q: Seq<char>) -> Option<Key<Seq<char>>> {
    let len = text::byte_len(path) as usize;
    if q.len() == 0 {
        Some(Key { rank: 1, len, name: Seq::empty() })
    } else if text::starts_with(base_name(text::lower(path)), q) {
        Some(Key { rank: 0, len, name: path })
    } else if text::contains(text::lower(path), q) {
        Some(Key { rank: 1, len, name: path })
    } else {
        None
    }
}

/// The keys of a list of paths.
pub open spec fn file_keys(files: Seq<Seq<char>>, q: Seq<char>) -> Seq<Option<Key<Seq<char>>>> {
    Seq::new(files.len(), |i: int| file_key(files[i], q))
}

/// The most files that are offered.
pub const MAX_FILE_MATCHES: usize = 8;

/// The first `n` of a sequence, or all of it where it is shorter.
pub open spec fn at_most<T>(s: Seq<T>, n: nat) -> Seq<T> {
    if s.len() > n {
        s.take(n as int)
    } else {
        s
    }
}

/// Rows of a list.
pub open spec fn picked(list: Seq<Seq<char>>, rows: Seq<int>) -> Seq<Seq<char>> {
    Seq::new(rows.len(), |p: int| list[rows[p]])
}

/// The paths that are offered for a query.
pub open spec fn file_matches(files: Seq<Seq<char>>, query: Seq<char>) -> Seq<Seq<char>> {
    picked(
        files,
        at_most(ranking::order(file_keys(files, text::lower(query))), MAX_FILE_MATCHES as nat),
    )
}

fn base_of(path: &str) -> (r: String)
    ensures
        r@ == base_name(path@),
{
    let v = chars_of(path);
    match find_last(&v, '/') {
        Some(i) => {
            assert(path@.skip(i + 1) =~= v@.subrange(i + 1, v@.len() as int));
            string_of_range(&v, i + 1, v.len())
        },
        None => path.to_string(),
    }
}

fn key_of_file(path: &str, q: &str) -> (r: Option<Key>)
    ensures
        (match r {
            Some(k) => Some(k@),
            None => None,
        }) == file_key(path@, q@),
{
    let len: usize = str_byte_len(path);
    if q.is_empty() {
        return Some(Key { rank: 1, len, name: String::new() });
    }
    let low = str_lower(path);
    if str_starts_with(base_of(low.as_str()).as_str(), q) {
        Some(Key { rank: 0, len, name: path.to_string() })
    } else if str_contains(low.as_str(), q) {
        Some(Key { rank: 1, len, name: path.to_string() })
    } else {
        None
    }
}

/// The first `limit` rows of a list.
fn pick_rows(list: &Vec<String>, rows: &Vec<usize>, limit: usize) -> (r: Vec<String>)
    requires
        forall|p: int| 0 <= p < rows@.len() ==> (#[trigger] rows@[p]) < list@.len(),
    ensures
        text::views(r@) == picked(
            text::views(list@),
            at_most(ranking::rows(rows@), limit as nat),
        ),
{
    let ghost all = at_most(ranking::rows(rows@), limit as nat);
    let n: usize = if rows.len() > limit {
        limit
    } else {
        rows.len()
    };
    let mut out: Vec<String> = Vec::new();
    for p in 0..n
        invariant
            all == at_most(ranking::rows(rows@), limit as nat),
            n == all.len(),
            n <= rows@.len(),
            forall|k: int| 0 <= k < rows@.len() ==> (#[trigger] rows@[k]) < list@.len(),
            text::views(out@) == picked(text::views(list@), all).take(p as int),
    {
        let ghost before = text::views(out@);
        let ghost row = text::views(list@)[all[p as int]];
        assert(all[p as int] == rows@[p as int]);
        out.push(list[rows[p]].clone());
        assert(text::views(out@) =~= before.push(row));
        assert(text::views(out@) =~= picked(text::views(list@), all).take(p + 1));
    }
    assert(picked(text::views(list@), all).take(n as int) =~= picked(text::views(list@), all));
    out
}

/// The paths that are offered for a query, the best first.
pub fn rank_file_matches(files: &Vec<String>, query: &str) -> (r: Vec<String>)
    ensures
        text::views(r@) == file_matches(text::views(files@), query@),
{
    let q = str_lower(query);
    let ghost all = text::views(files@);
    let mut ks: Vec<Option<Key>> = Vec::new();
    for i in 0..files.len()
        invariant
            all == text::views(files@),
            ranking::keys(ks@) == file_keys(all, q@).take(i as int),
    {
        let ghost before = ranking::keys(ks@);
        ks.push(key_of_file(files[i].as_str(), q.as_str()));
        assert(ranking::keys(ks@) =~= before.push(file_keys(all, q@)[i as int]));
        assert(ranking::keys(ks@) =~= file_keys(all, q@).take(i + 1));
    }
    assert(file_keys(all, q@).take(all.len() as int) =~= file_keys(all, q@));
    assert(ks@.len() == files@.len()) by {
        assert(ranking::keys(ks@).len() == ks@.len());
    }
    let rows = order_rows(&ks);
    pick_rows(files, &rows, MAX_FILE_MATCHES)
}

/// How an agent's name is ordered against a query in lower case: by its beginning, then
/// by what it holds, then alphabetically. Without a query the order is kept.
pub open spec fn agent_key(name: Seq<char>, q: Seq<char>) -> Option<Key<Seq<char>>> {
    if q.len() == 0 {
        Some(Key { rank: 1, len: 0, name: Seq::empty() })
    } else if text::starts_with(text::lower(name), q) {
        Some(Key { rank: 0, len: 0, name })
    } else if text::contains(text::lower(name), q) {
        Some(Key { rank: 1, len: 0, name })
    } else {
        None
    }
}

/// The keys of a list of agents.
pub open spec fn agent_keys(names: Seq<Seq<char>>, q: Seq<char>) -> Seq<Option<Key<Seq<char>>>> {
    Seq::new(names.len(), |i: int| agent_key(names[i], q))
}

/// The agents that are offered for a query.
pub open spec fn agent_matches(names: Seq<Seq<char>>, query: Seq<char>) -> Seq<Seq<char>> {
    picked(names, ranking::order(agent_keys(names, text::lower(query))))
}

fn key_of_agent(name: &str, q: &str) -> (r: Option<Key>)
    ensures
        (match r {
            Some(k) => Some(k@),
            None => None,
        }) == agent_key(name@, q@),
{
    if q.is_empty() {
        return Some(Key { rank: 1, len: 0, name: String::new() });
    }
    let low = str_lower(name);
    if str_starts_with(low.as_str(), q) {
        Some(Key { rank: 0, len: 0, name: name.to_string() })
    } else if str_contains(low.as_str(), q) {
        Some(Key { rank: 1, len: 0, name: name.to_string() })
    } else {
        None
    }
}

/// The agents that are offered for a query, the best first.
pub fn rank_agent_matches(names: &Vec<String>, query: &str) -> (r: Vec<String>)
    ensures
        text::views(r@) == agent_matches(text::views(names@), query@),
{
    let q = str_lower(query);
    let ghost all = text::views(names@);
    let mut ks: Vec<Option<Key>> = Vec::new();
    for i in 0..names.len()
        invariant
            all == text::views(names@),
            ranking::keys(ks@) == agent_keys(all, q@).take(i as int),
    {
        let ghost before = ranking::keys(ks@);
        ks.push(key_of_agent(names[i].as_str(), q.as_str()));
        assert(ranking::keys(ks@) =~= before.push(agent_keys(all, q@)[i as int]));
        assert(ranking::keys(ks@) =~= agent_keys(all, q@).take(i + 1));
    }
    assert(agent_keys(all, q@).take(all.len() as int) =~= agent_keys(all, q@));
    assert(ks@.len() == names@.len()) by {
        assert(ranking::keys(ks@).len() == ks@.len());
    }
    let rows = order_rows(&ks);
    let n: usize = rows.len();
    pick_rows(names, &rows, n)
}

/// Without a query every agent is offered, in the order given.
pub proof fn law_an_empty_query_keeps_the_order(names: Seq<Seq<char>>)
    ensures
        agent_matches(names, Seq::empty()) == names,
{
    assert(text::lower(Seq::empty()) =~= Seq::empty());
    lemma_equal_keys_keep_order(agent_keys(names, Seq::empty()), names.len() as int);
    assert(agent_matches(names, Seq::empty()) =~= names);
}

proof fn lemma_equal_keys_keep_order(ks: Seq<Option<Key<Seq<char>>>>, n: int)
    requires
        0 <= n <= ks.len(),
        forall|i: int|
            0 <= i < ks.len() ==> #[trigger] ks[i] == Some(
                Key { rank: 1, len: 0, name: Seq::<char>::empty() },
            ),
    ensures
        ranking::ordered(ks, n) == Seq::new(n as nat, |i: int| i),
    decreases n,
{
    if n > 0 {
        lemma_equal_keys_keep_order(ks, n - 1);
        let s = ranking::ordered(ks, n - 1);
        if s.len() > 0 {
            assert(s.last() == n - 2);
            assert(ks[n - 2] == ks[n - 1]);
        }
        assert(ranking::ordered(ks, n) =~= Seq::new(n as nat, |i: int| i));
    } else {
        assert(ranking::ordered(ks, n) =~= Seq::new(n as nat, |i: int| i));
    }
}

// ---------------------------------------------------------------------------
// Arguments
// ---------------------------------------------------------------------------

/// A `:name` template, as far as completion needs it: its name and the values that its
/// argument may have.
#[derive(Debug, Clone, PartialEq, Eq)]
pub struct Template {
    pub name: String,
    pub args: Vec<String>,
}

/// What a [`Template`] holds.
pub struct TemplateView {
    pub name: Seq<char>,
    pub args: Seq<Seq<char>>,
}

impl View for Template {
    type V = TemplateView;

    open spec fn view(&self) -> TemplateView {
        TemplateView { name: self.name@, args: text::views(self.args@) }
    }
}

/// The views of a list of templates.
pub open spec fn templates(v: Seq<Template>) -> Seq<TemplateView> {
    Seq::new(v.len(), |i: int| v[i]@)
}

/// The commands whose argument is one of a few values: the command, a value, and what it
/// means.
pub const ARGUMENT_VALUES: [(&'static str, &'static str, &'static str); 17] = [
    ("thinking", "on", "show model reasoning"),
    ("thinking", "off", "hide it"),
    ("timestamps", "none", "no timestamps"),
    ("timestamps", "relative", "5m ago"),
    ("timestamps", "exact", "HH:MM"),
    ("statusbar", "none", "hide the status bar"),
    ("statusbar", "truncate", "one line"),
    ("statusbar", "wrap", "as many lines as needed"),
    ("expand", "all", "expand every tool block"),
    ("expand", "off", "collapse them"),
    ("goto", "top", "first message"),
    ("goto", "end", "follow the newest"),
    ("find", "clear", "drop the search"),
    ("copy", "reply", "the last reply"),
    ("copy", "code", "the last code block"),
    ("copy", "all", "the whole transcript"),
    ("copy", "msg", "msg N or N-M"),
];

/// The command that takes the arguments of `cmd`, which may be another name for it.
pub open spec fn argument_command(cmd: Seq<char>) -> Seq<char> {
    let c = registry::canonical(cmd);
    if c == "reasoning"@ || c == "think"@ {
        "thinking"@
    } else if c == "ts"@ {
        "timestamps"@
    } else {
        c
    }
}

/// The values of the argument of `cmd`, among the first `n` rows of the table.
pub open spec fn fixed_values(cmd: Seq<char>, n: int) -> Seq<(Seq<char>, Seq<char>)>
    decreases n,
{
    if n <= 0 {
        Seq::empty()
    } else if ARGUMENT_VALUES@[n - 1].0@ == cmd {
        fixed_values(cmd, n - 1).push((ARGUMENT_VALUES@[n - 1].1@, ARGUMENT_VALUES@[n - 1].2@))
    } else {
        fixed_values(cmd, n - 1)
    }
}

/// The values of the argument of the first template called `name`, whatever the case of
/// the letters, from `from` on.
pub open spec fn template_values(
    list: Seq<TemplateView>,
    name: Seq<char>,
    from: int,
) -> Option<Seq<(Seq<char>, Seq<char>)>>
    decreases list.len() - from,
{
    if from < 0 || from >= list.len() {
        None
    } else if text::lower(list[from].name) == text::lower(name) {
        Some(
            Seq::new(
                list[from].args.len(),
                |i: int| (list[from].args[i], Seq::<char>::empty()),
            ),
        )
    } else {
        template_values(list, name, from + 1)
    }
}

/// What an argument may be: each value with what is said of it. `None` where the command
/// has no argument that can be completed.
pub open spec fn candidates(
    sigil: char,
    cmd: Seq<char>,
    list: Seq<TemplateView>,
    themes: Seq<(Seq<char>, Seq<char>)>,
    sessions: Seq<(Seq<char>, Seq<char>)>,
) -> Option<Seq<(Seq<char>, Seq<char>)>> {
    if sigil == ':' {
        template_values(list, cmd, 0)
    } else {
        let c = argument_command(cmd);
        if c == "theme"@ {
            Some(themes.push(("reset"@, "back to the default"@)))
        } else if c == "resume"@ {
            Some(sessions)
        } else {
            let fixed = fixed_values(c, ARGUMENT_VALUES@.len() as int);
            if fixed.len() == 0 {
                None
            } else {
                Some(fixed)
            }
        }
    }
}

/// How well a value matches `q`: by its beginning, within it, within what is said of it.
pub open spec fn value_rank(row: (Seq<char>, Seq<char>), q: Seq<char>) -> Option<u8> {
    if text::starts_with(text::lower(row.0), q) {
        Some(0)
    } else if text::contains(text::lower(row.0), q) {
        Some(1)
    } else if text::contains(text::lower(row.1), q) {
        Some(2)
    } else {
        None
    }
}

/// The keys of a list of values.
pub open spec fn value_keys(
    rows: Seq<(Seq<char>, Seq<char>)>,
    q: Seq<char>,
) -> Seq<Option<Key<Seq<char>>>> {
    Seq::new(rows.len(), |i: int| rank_key(value_rank(rows[i], q)))
}

/// The values that match `q`, the best first.
pub open spec fn matching_values(
    rows: Seq<(Seq<char>, Seq<char>)>,
    q: Seq<char>,
) -> Seq<(Seq<char>, Seq<char>)> {
    let order = ranking::order(value_keys(rows, q));
    Seq::new(order.len(), |p: int| rows[order[p]])
}

/// The part of a command line that is its argument: what follows the command and the
/// white space behind it.
pub open spec fn argument_of(input: Seq<char>) -> Seq<char> {
    text::trim_start(input.skip(1).skip(text::word_len(input.skip(1)) as int))
}

/// The completions of the argument that is being typed: where it begins, in bytes, and
/// the values that match it.
pub open spec fn argument_rows(
    input: Seq<char>,
    list: Seq<TemplateView>,
    themes: Seq<(Seq<char>, Seq<char>)>,
    sessions: Seq<(Seq<char>, Seq<char>)>,
) -> Option<(nat, Seq<(Seq<char>, Seq<char>)>)> {
    if input.len() == 0 || !(input[0] == '/' || input[0] == ':') {
        None
    } else if text::word_len(input.skip(1)) == input.skip(1).len() {
        None
    } else {
        let cmd = input.skip(1).take(text::word_len(input.skip(1)) as int);
        let partial = argument_of(input);
        match candidates(input[0], cmd, list, themes, sessions) {
            Some(rows) => {
                let found = matching_values(rows, text::lower(partial));
                if found.len() == 0 {
                    None
                } else {
                    Some((text::byte_len(input.take(input.len() - partial.len())), found))
                }
            },
            None => None,
        }
    }
}

/// The view of optional rows.
pub open spec fn rows_view(r: Option<Vec<(String, String)>>) -> Option<
    Seq<(Seq<char>, Seq<char>)>,
> {
    match r {
        Some(v) => Some(text::pairs(v@)),
        None => None,
    }
}

fn argument_name(cmd: &str) -> (r: &str)
    ensures
        r@ == argument_command(cmd@),
{
    let c = resolve_alias(cmd);
    if str_eq(c, "reasoning") || str_eq(c, "think") {
        "thinking"
    } else if str_eq(c, "ts") {
        "timestamps"
    } else {
        c
    }
}

fn fixed_rows(cmd: &str) -> (r: Vec<(String, String)>)
    ensures
        text::pairs(r@) == fixed_values(cmd@, ARGUMENT_VALUES@.len() as int),
{
    let mut out: Vec<(String, String)> = Vec::new();
    assert(text::pairs(out@) =~= Seq::empty());
    for i in 0..ARGUMENT_VALUES.len()
        invariant
            text::pairs(out@) == fixed_values(cmd@, i as int),
    {
        if str_eq(ARGUMENT_VALUES[i].0, cmd) {
            let ghost before = text::pairs(out@);
            out.push((ARGUMENT_VALUES[i].1.to_string(), ARGUMENT_VALUES[i].2.to_string()));
            assert(text::pairs(out@) =~= before.push(
                (ARGUMENT_VALUES@[i as int].1@, ARGUMENT_VALUES@[i as int].2@),
            ));
        }
    }
    out
}

fn template_rows(list: &Vec<Template>, name: &str) -> (r: Option<Vec<(String, String)>>)
    ensures
        rows_view(r) == template_values(templates(list@), name@, 0),
{
    let ghost all = templates(list@);
    for i in 0..list.len()
        invariant
            all == templates(list@),
            template_values(all, name@, 0) == template_values(all, name@, i as int),
    {
        assert(all[i as int] == list@[i as int]@);
        if str_eq_ignore_case(list[i].name.as_str(), name) {
            let args = &list[i].args;
            let mut out: Vec<(String, String)> = Vec::new();
            let ghost want = Seq::new(
                all[i as int].args.len(),
                |k: int| (all[i as int].args[k], Seq::<char>::empty()),
            );
            for k in 0..args.len()
                invariant
                    all[i as int].args == text::views(args@),
                    want == Seq::new(
                        all[i as int].args.len(),
                        |k: int| (all[i as int].args[k], Seq::<char>::empty()),
                    ),
                    text::pairs(out@) == want.take(k as int),
            {
                let ghost before = text::pairs(out@);
                out.push((args[k].clone(), String::new()));
                assert(text::pairs(out@) =~= before.push(want[k as int]));
                assert(text::pairs(out@) =~= want.take(k + 1));
            }
            assert(want.take(want.len() as int) =~= want);
            return Some(out);
        }
    }
    None
}

fn copied(rows: &Vec<(String, String)>) -> (r: Vec<(String, String)>)
    ensures
        text::pairs(r@) == text::pairs(rows@),
{
    let mut out: Vec<(String, String)> = Vec::new();
    for i in 0..rows.len()
        invariant
            text::pairs(out@) == text::pairs(rows@).take(i as int),
    {
        let ghost before = text::pairs(out@);
        out.push((rows[i].0.clone(), rows[i].1.clone()));
        assert(text::pairs(out@) =~= before.push(text::pairs(rows@)[i as int]));
        assert(text::pairs(out@) =~= text::pairs(rows@).take(i + 1));
    }
    assert(text::pairs(rows@).take(rows@.len() as int) =~= text::pairs(rows@));
    out
}

fn candidate_rows(
    sigil: char,
    cmd: &str,
    list: &Vec<Template>,
    themes: &Vec<(String, String)>,
    sessions: &Vec<(String, String)>,
) -> (r: Option<Vec<(String, String)>>)
    ensures
        rows_view(r) == candidates(
            sigil,
            cmd@,
            templates(list@),
            text::pairs(themes@),
            text::pairs(sessions@),
        ),
{
    if sigil == ':' {
        return template_rows(list, cmd);
    }
    let c = argument_name(cmd);
    if str_eq(c, "theme") {
        let mut rows = copied(themes);
        let ghost before = text::pairs(rows@);
        rows.push(("reset".to_string(), "back to the default".to_string()));
        assert(text::pairs(rows@) =~= before.push(("reset"@, "back to the default"@)));
        Some(rows)
    } else if str_eq(c, "resume") {
        Some(copied(sessions))
    } else {
        let rows = fixed_rows(c);
        assert(text::pairs(rows@).len() == rows@.len());
        if rows.len() == 0 {
            None
        } else {
            Some(rows)
        }
    }
}

fn rank_value(row: &(String, String), q: &str) -> (r: Option<u8>)
    ensures
        r == value_rank((row.0@, row.1@), q@),
{
    let low = str_lower(row.0.as_str());
    if str_starts_with(low.as_str(), q) {
        Some(0)
    } else if str_contains(low.as_str(), q) {
        Some(1)
    } else if str_contains(str_lower(row.1.as_str()).as_str(), q) {
        Some(2)
    } else {
        None
    }
}

fn match_values(rows: &Vec<(String, String)>, q: &str) -> (r: Vec<(String, String)>)
    ensures
        text::pairs(r@) == matching_values(text::pairs(rows@), q@),
{
    let ghost all = text::pairs(rows@);
    let mut ks: Vec<Option<Key>> = Vec::new();
    for i in 0..rows.len()
        invariant
            all == text::pairs(rows@),
            ranking::keys(ks@) == value_keys(all, q@).take(i as int),
    {
        let ghost before = ranking::keys(ks@);
        ks.push(key_with(rank_value(&rows[i], q)));
        assert(ranking::keys(ks@) =~= before.push(value_keys(all, q@)[i as int]));
        assert(ranking::keys(ks@) =~= value_keys(all, q@).take(i + 1));
    }
    assert(value_keys(all, q@).take(all.len() as int) =~= value_keys(all, q@));
    assert(ks@.len() == rows@.len()) by {
        assert(ranking::keys(ks@).len() == ks@.len());
    }
    let order = order_rows(&ks);
    let ghost want = matching_values(all, q@);
    let ghost numbers = ranking::rows(order@);
    let mut out: Vec<(String, String)> = Vec::new();
    for p in 0..order.len()
        invariant
            all == text::pairs(rows@),
            numbers == ranking::rows(order@),
            want == Seq::new(numbers.len(), |p: int| all[numbers[p]]),
            forall|k: int| 0 <= k < order@.len() ==> (#[trigger] order@[k]) < rows@.len(),
            text::pairs(out@) == want.take(p as int),
    {
        let ghost before = text::pairs(out@);
        assert(numbers[p as int] == order@[p as int]);
        let row = &rows[order[p]];
        out.push((row.0.clone(), row.1.clone()));
        assert(text::pairs(out@) =~= before.push(want[p as int]));
        assert(text::pairs(out@) =~= want.take(p + 1));
    }
    assert(want.take(order@.len() as int) =~= want);
    out
}

/// The completions of the argument that is being typed, for a slash command or a
/// template: where the argument begins, in bytes, and the values that match it, the best
/// first. `None` where there is no argument yet, none that can be completed, or no match.
pub fn arg_completions(
    input: &str,
    list: &Vec<Template>,
    themes: &Vec<(String, String)>,
    sessions: &Vec<(String, String)>,
) -> (r: Option<(usize, Vec<(String, String)>)>)
    ensures
        match r {
            Some((at, rows)) => argument_rows(
                input@,
                templates(list@),
                text::pairs(themes@),
                text::pairs(sessions@),
            ) == Some((at as nat, text::pairs(rows@))),
            None => argument_rows(
                input@,
                templates(list@),
                text::pairs(themes@),
                text::pairs(sessions@),
            ) is None,
        },
{
    let v = chars_of(input);
    let n: usize = v.len();
    if n == 0 || !(v[0] == '/' || v[0] == ':') {
        return None;
    }
    let ghost rest = input@.skip(1);
    let end: usize = text::end_of_word(&v, 1);
    if end == n {
        return None;
    }
    let start: usize = text::skip_white(&v, end);
    proof {
        assert(rest.take(word_len_of(input@)) =~= v@.subrange(1, end as int));
        assert(rest.skip(word_len_of(input@)) =~= v@.skip(end as int));
        text::lemma_trim_start(v@.skip(end as int));
        assert(v@.skip(start as int) =~= v@.subrange(start as int, n as int));
    }
    let cmd = string_of_range(&v, 1, end);
    let partial = string_of_range(&v, start, n);
    assert(partial@ == argument_of(input@));
    let rows = match candidate_rows(v[0], cmd.as_str(), list, themes, sessions) {
        Some(rows) => rows,
        None => {
            return None;
        },
    };
    let found = match_values(&rows, str_lower(partial.as_str()).as_str());
    assert(text::pairs(found@).len() == found@.len());
    if found.len() == 0 {
        return None;
    }
    let before = string_of_range(&v, 0, start);
    assert(before@ =~= input@.take(input@.len() - partial@.len()));
    Some((str_byte_len(before.as_str()), found))
}

spec fn word_len_of(input: Seq<char>) -> int {
    text::word_len(input.skip(1)) as int
}

// ---------------------------------------------------------------------------
// What a match is
// ---------------------------------------------------------------------------

/// Whether two characters are the same but for the case of a letter from `A` to `Z`.
pub open spec fn same_letter(a: char, b: char) -> bool {
    ||| a == b
    ||| 0x41 <= a as int <= 0x5A && b as int == a as int + 32
    ||| 0x41 <= b as int <= 0x5A && a as int == b as int + 32
}

/// Whether `q` stands in `s` from position `k` on, whatever the case of the letters.
pub open spec fn found_at(s: Seq<char>, q: Seq<char>, k: int) -> bool {
    &&& 0 <= k
    &&& k + q.len() <= s.len()
    &&& forall|j: int| 0 <= j < q.len() ==> same_letter(#[trigger] s[k + j], q[j])
}

/// Whether `q` stands anywhere in `s`, whatever the case of the letters.
pub open spec fn found(s: Seq<char>, q: Seq<char>) -> bool {
    exists|k: int| found_at(s, q, k)
}

/// Whether the last part of a path, what follows its last slash, begins at `k`.
pub open spec fn last_part_at(path: Seq<char>, k: int) -> bool {
    &&& 0 <= k <= path.len()
    &&& k == 0 || path[k - 1] == '/'
    &&& forall|j: int| k <= j < path.len() ==> #[trigger] path[j] != '/'
}

/// Whether the last part of a path begins with `q`, whatever the case of the letters.
pub open spec fn last_part_begins(path: Seq<char>, q: Seq<char>) -> bool {
    exists|k: int| #[trigger] last_part_at(path, k) && found_at(path, q, k)
}

pub proof fn lemma_same_letter(a: char, b: char)
    ensures
        text::lower_char(a) == text::lower_char(b) <==> same_letter(a, b),
        (text::lower_char(a) == '/') == (a == '/'),
{
}

proof fn lemma_occurs(s: Seq<char>, q: Seq<char>, k: int)
    ensures
        text::occurs_at(text::lower(s), text::lower(q), k) <==> found_at(s, q, k),
{
    let l = text::lower(s);
    let m = text::lower(q);
    if 0 <= k && k + q.len() <= s.len() {
        assert forall|j: int| 0 <= j < q.len() implies (#[trigger] l[k + j] == m[j]
            <==> same_letter(s[k + j], q[j])) by {
            lemma_same_letter(s[k + j], q[j]);
        }
        if text::occurs_at(l, m, k) {
            assert forall|j: int| 0 <= j < q.len() implies same_letter(#[trigger] s[k + j], q[j]) by {
                assert(l.subrange(k, k + m.len())[j] == l[k + j]);
            }
        }
        if found_at(s, q, k) {
            assert forall|j: int| 0 <= j < q.len() implies l[k + j] == m[j] by {
                assert(same_letter(s[k + j], q[j]));
            }
            assert(l.subrange(k, k + m.len()) =~= m);
        }
    }
}

pub proof fn lemma_found(s: Seq<char>, q: Seq<char>)
    ensures
        text::contains(text::lower(s), text::lower(q)) <==> found(s, q),
        text::starts_with(text::lower(s), text::lower(q)) <==> found_at(s, q, 0),
{
    assert forall|k: int|
        #![auto]
        text::occurs_at(text::lower(s), text::lower(q), k) <==> found_at(s, q, k) by {
        lemma_occurs(s, q, k);
    }
    if text::contains(text::lower(s), text::lower(q)) {
        let k = choose|k: int| text::occurs_at(text::lower(s), text::lower(q), k);
        assert(found_at(s, q, k));
    }
    if found(s, q) {
        let k = choose|k: int| found_at(s, q, k);
        assert(text::occurs_at(text::lower(s), text::lower(q), k));
    }
    let l = text::lower(s);
    if q.len() <= s.len() {
        assert(l.take(q.len() as int) =~= l.subrange(0, q.len() as int));
    }
}

proof fn lemma_last_index(s: Seq<char>, c: char)
    ensures
        match text::last_index(s, c) {
            Some(i) => 0 <= i < s.len() && s[i] == c && forall|j: int|
                i < j < s.len() ==> #[trigger] s[j] != c,
            None => forall|j: int| 0 <= j < s.len() ==> #[trigger] s[j] != c,
        },
    decreases s.len(),
{
    if s.len() > 0 && s.last() != c {
        lemma_last_index(s.drop_last(), c);
        assert forall|j: int|
            0 <= j < s.len() && (match text::last_index(s, c) {
                Some(i) => i < j,
                None => true,
            }) implies #[trigger] s[j] != c by {
            if j < s.len() - 1 {
                assert(s.drop_last()[j] == s[j]);
            }
        }
    }
}

proof fn lemma_last_part(path: Seq<char>, q: Seq<char>)
    ensures
        text::starts_with(base_name(text::lower(path)), text::lower(q)) <==> last_part_begins(
            path,
            q,
        ),
{
    let l = text::lower(path);
    lemma_last_index(l, '/');
    let k = match text::last_index(l, '/') {
        Some(i) => i + 1,
        None => 0,
    };
    assert forall|j: int| 0 <= j < path.len() implies (#[trigger] l[j] == '/' <==> path[j] == '/') by {
        lemma_same_letter(path[j], path[j]);
    }
    assert(base_name(l) =~= l.skip(k));
    assert forall|j: int| k <= j < path.len() implies #[trigger] path[j] != '/' by {
        assert(l[j] != '/');
    }
    if k > 0 {
        assert(l[k - 1] == '/');
    }
    assert(last_part_at(path, k));
    lemma_occurs(path, q, k);
    if q.len() <= l.skip(k).len() {
        assert(l.skip(k).take(q.len() as int) =~= l.subrange(k, k + q.len()));
    }
    if last_part_begins(path, q) {
        let m = choose|m: int| #[trigger] last_part_at(path, m) && found_at(path, q, m);
        if m < k {
            assert(path[k - 1] == '/');
        }
        if m > k {
            assert(path[m - 1] == '/');
        }
    }
}

/// A path is offered exactly where it holds the query, whatever the case of the letters:
/// all of them where there are fewer than eight, and eight at most. No row of the list is
/// offered twice. Paths whose last part begins with the query come first; among equals
/// the shorter comes first, and then, unless the query is empty, the one that comes first
/// in the order of code points.
pub proof fn law_a_path_is_found_by_what_it_holds(files: Seq<Seq<char>>, query: Seq<char>)
    ensures
        ({
            let r = file_matches(files, query);
            &&& r.len() <= 8
            &&& forall|p: int|
                0 <= p < r.len() ==> files.contains(#[trigger] r[p]) && found(r[p], query)
            &&& r.len() < 8 ==> forall|i: int|
                0 <= i < files.len() && found(#[trigger] files[i], query) ==> r.contains(files[i])
            &&& exists|rows: Seq<int>|
                #![trigger picked(files, rows)]
                r == picked(files, rows) && rows.no_duplicates()
            &&& forall|a: int, b: int|
                0 <= a < b < r.len() ==> {
                    ||| last_part_begins(#[trigger] r[a], query) && !last_part_begins(
                        #[trigger] r[b],
                        query,
                    )
                    ||| last_part_begins(r[a], query) == last_part_begins(r[b], query) && (
                    text::byte_len(r[a]) as usize) < (text::byte_len(r[b]) as usize)
                    ||| last_part_begins(r[a], query) == last_part_begins(r[b], query) && (
                    text::byte_len(r[a]) as usize) == (text::byte_len(r[b]) as usize) && (
                    query.len() == 0 || !ranking::text_less(r[b], r[a]))
                }
        }),
{
    let q = text::lower(query);
    let ks = file_keys(files, q);
    let all = ranking::order(ks);
    let rows = at_most(all, MAX_FILE_MATCHES as nat);
    let r = file_matches(files, query);
    ranking::law_matches_are_listed_in_order(ks);
    assert forall|i: int| 0 <= i < files.len() implies (ks[i] is Some <==> found(
        #[trigger] files[i],
        query,
    )) && (last_part_begins(files[i], query) ==> found(files[i], query)) && (ks[i] is Some && q.len()
        > 0 ==> (ks[i]->0.rank == 0 <==> last_part_begins(files[i], query))) && (q.len() == 0
        ==> last_part_begins(files[i], query)) by {
        lemma_found(files[i], query);
        lemma_last_part(files[i], query);
        if q.len() == 0 {
            assert(found_at(files[i], query, 0));
            assert(text::starts_with(base_name(text::lower(files[i])), q)) by {
                assert(base_name(text::lower(files[i])).take(0) =~= q);
            }
        }
        if last_part_begins(files[i], query) {
            let k = choose|k: int| #[trigger] last_part_at(files[i], k) && found_at(
                files[i],
                query,
                k,
            );
            assert(found_at(files[i], query, k));
        }
    }
    assert forall|p: int| 0 <= p < r.len() implies files.contains(#[trigger] r[p]) && found(
        r[p],
        query,
    ) by {
        assert(all.contains(rows[p]));
        assert(r[p] == files[rows[p]]);
    }
    assert forall|i: int|
        0 <= i < files.len() && found(#[trigger] files[i], query) && r.len() < 8 implies r.contains(
        files[i],
    ) by {
        assert(all.contains(i));
        let p = choose|p: int| 0 <= p < all.len() && all[p] == i;
        assert(rows == all);
        assert(r[p] == files[i]);
    }
    assert(r == picked(files, rows));
    assert(rows.no_duplicates()) by {
        ranking::lemma_in_order_distinct(ks, all);
    }
    assert forall|a: int, b: int| 0 <= a < b < r.len() implies {
        ||| last_part_begins(#[trigger] r[a], query) && !last_part_begins(#[trigger] r[b], query)
        ||| last_part_begins(r[a], query) == last_part_begins(r[b], query) && (text::byte_len(r[a])
            as usize) < (text::byte_len(r[b]) as usize)
        ||| last_part_begins(r[a], query) == last_part_begins(r[b], query) && (text::byte_len(r[a])
            as usize) == (text::byte_len(r[b]) as usize) && (query.len() == 0
            || !ranking::text_less(r[b], r[a]))
    } by {
        assert(all.contains(rows[a]) && all.contains(rows[b]));
        assert(all[a] == rows[a] && all[b] == rows[b]);
        assert(r[a] == files[rows[a]] && r[b] == files[rows[b]]);
        assert(ranking::less(ranking::key_of(ks, rows[b]), ranking::key_of(ks, rows[a])) ==> false);
    }
}

/// Neither the case of the letters in a path nor that in the query matters to whether the
/// path is found, and every path is found by its own text.
pub proof fn law_case_does_not_matter(s: Seq<char>, t: Seq<char>, q: Seq<char>)
    requires
        s.len() == t.len(),
        forall|i: int| 0 <= i < s.len() ==> same_letter(#[trigger] s[i], t[i]),
    ensures
        found(s, q) == found(t, q),
        found(q, s) == found(q, t),
        found(s, t),
        file_key(s, text::lower(q)) is Some == file_key(t, text::lower(q)) is Some,
        agent_key(s, text::lower(q)) is Some == agent_key(t, text::lower(q)) is Some,
{
    assert forall|k: int| found_at(s, q, k) == #[trigger] found_at(t, q, k) by {
        lemma_found_alike(s, t, q, k);
        assert forall|i: int| 0 <= i < t.len() implies same_letter(#[trigger] t[i], s[i]) by {
            assert(same_letter(s[i], t[i]));
        }
        lemma_found_alike(t, s, q, k);
    }
    assert forall|k: int| found_at(q, s, k) == #[trigger] found_at(q, t, k) by {
        if 0 <= k && k + s.len() <= q.len() {
            assert forall|j: int| 0 <= j < s.len() implies same_letter(#[trigger] q[k + j], s[j])
                == same_letter(q[k + j], t[j]) by {
                assert(same_letter(s[j], t[j]));
                lemma_same_letter(q[k + j], s[j]);
                lemma_same_letter(q[k + j], t[j]);
                lemma_same_letter(s[j], t[j]);
            }
        }
    }
    if found(s, q) {
        let k = choose|k: int| found_at(s, q, k);
        assert(found_at(t, q, k));
    }
    if found(t, q) {
        let k = choose|k: int| found_at(t, q, k);
        assert(found_at(s, q, k));
    }
    if found(q, s) {
        let k = choose|k: int| found_at(q, s, k);
        assert(found_at(q, t, k));
    }
    if found(q, t) {
        let k = choose|k: int| found_at(q, t, k);
        assert(found_at(q, s, k));
    }
    assert(found_at(s, t, 0));
    law_a_path_is_found_by_what_it_holds(seq![s], q);
    lemma_found(s, q);
    lemma_found(t, q);
    lemma_last_part(s, q);
    lemma_last_part(t, q);
    lemma_part_is_found(s, q);
    lemma_part_is_found(t, q);
}

proof fn lemma_found_alike(s: Seq<char>, t: Seq<char>, q: Seq<char>, k: int)
    requires
        s.len() == t.len(),
        forall|i: int| 0 <= i < s.len() ==> same_letter(#[trigger] s[i], t[i]),
    ensures
        found_at(s, q, k) ==> found_at(t, q, k),
{
    if found_at(s, q, k) {
        assert forall|j: int| 0 <= j < q.len() implies same_letter(#[trigger] t[k + j], q[j]) by {
            assert(same_letter(s[k + j], q[j]));
            assert(same_letter(s[k + j], t[k + j]));
            lemma_same_letter(s[k + j], q[j]);
            lemma_same_letter(t[k + j], q[j]);
            lemma_same_letter(s[k + j], t[k + j]);
        }
    }
}

proof fn lemma_part_is_found(s: Seq<char>, q: Seq<char>)
    ensures
        last_part_begins(s, q) ==> found(s, q),
        found_at(s, q, 0) ==> found(s, q),
{
    if last_part_begins(s, q) {
        let k = choose|k: int| #[trigger] last_part_at(s, k) && found_at(s, q, k);
        assert(found_at(s, q, k));
    }
}

/// An agent is offered exactly where its name holds the query, whatever the case of the
/// letters, and each once. Those whose name begins with the query come first.
pub proof fn law_an_agent_is_found_by_what_its_name_holds(names: Seq<Seq<char>>, query: Seq<char>)
    ensures
        ({
            let r = agent_matches(names, query);
            &&& forall|p: int|
                0 <= p < r.len() ==> names.contains(#[trigger] r[p]) && found(r[p], query)
            &&& forall|i: int|
                0 <= i < names.len() && found(#[trigger] names[i], query) ==> r.contains(names[i])
            &&& exists|rows: Seq<int>|
                #![trigger picked(names, rows)]
                r == picked(names, rows) && rows.no_duplicates()
            &&& forall|a: int, b: int|
                0 <= a < b < r.len() && found_at(#[trigger] r[b], query, 0) ==> found_at(
                    #[trigger] r[a],
                    query,
                    0,
                )
        }),
{
    let q = text::lower(query);
    let ks = agent_keys(names, q);
    let rows = ranking::order(ks);
    let r = agent_matches(names, query);
    ranking::law_matches_are_listed_in_order(ks);
    assert forall|i: int| 0 <= i < names.len() implies (ks[i] is Some <==> found(
        #[trigger] names[i],
        query,
    )) && (ks[i] is Some && q.len() > 0 ==> (ks[i]->0.rank == 0 <==> found_at(names[i], query, 0)))
        && (q.len() == 0 ==> found_at(names[i], query, 0)) by {
        lemma_found(names[i], query);
        lemma_part_is_found(names[i], query);
        if q.len() == 0 {
            assert(found_at(names[i], query, 0));
        }
    }
    assert forall|p: int| 0 <= p < r.len() implies names.contains(#[trigger] r[p]) && found(
        r[p],
        query,
    ) by {
        assert(rows.contains(rows[p]));
        assert(r[p] == names[rows[p]]);
    }
    assert forall|i: int| 0 <= i < names.len() && found(#[trigger] names[i], query) implies r.contains(
        names[i],
    ) by {
        assert(rows.contains(i));
        let p = choose|p: int| 0 <= p < rows.len() && rows[p] == i;
        assert(r[p] == names[i]);
    }
    assert(r == picked(names, rows));
    ranking::lemma_in_order_distinct(ks, rows);
    assert forall|a: int, b: int|
        0 <= a < b < r.len() && found_at(#[trigger] r[b], query, 0) implies found_at(
        #[trigger] r[a],
        query,
        0,
    ) by {
        assert(rows.contains(rows[a]) && rows.contains(rows[b]));
        assert(r[a] == names[rows[a]] && r[b] == names[rows[b]]);
        assert(ranking::less(ranking::key_of(ks, rows[b]), ranking::key_of(ks, rows[a])) ==> false);
    }
}

/// A value is offered for an argument exactly where it, or what is said of it, holds what
/// was typed, whatever the case of the letters. Values that begin with it come before
/// those that only hold it, and both before those that are only said to.
pub proof fn law_a_value_is_found_by_what_it_holds(
    rows: Seq<(Seq<char>, Seq<char>)>,
    typed: Seq<char>,
)
    ensures
        ({
            let r = matching_values(rows, text::lower(typed));
            &&& forall|p: int|
                0 <= p < r.len() ==> rows.contains(#[trigger] r[p]) && (found(r[p].0, typed)
                    || found(r[p].1, typed))
            &&& forall|i: int|
                0 <= i < rows.len() && (found((#[trigger] rows[i]).0, typed) || found(
                    rows[i].1,
                    typed,
                )) ==> r.contains(rows[i])
            &&& forall|a: int, b: int|
                0 <= a < b < r.len() ==> (found_at((#[trigger] r[b]).0, typed, 0) ==> found_at(
                    (#[trigger] r[a]).0,
                    typed,
                    0,
                )) && (found(r[b].0, typed) ==> found(r[a].0, typed))
        }),
{
    let q = text::lower(typed);
    let ks = value_keys(rows, q);
    let order = ranking::order(ks);
    let r = matching_values(rows, q);
    ranking::law_matches_are_listed_in_order(ks);
    assert forall|i: int| 0 <= i < rows.len() implies ({
        let row = #[trigger] rows[i];
        &&& ks[i] is Some <==> found(row.0, typed) || found(row.1, typed)
        &&& found_at(row.0, typed, 0) ==> found(row.0, typed)
        &&& ks[i] is Some ==> (ks[i]->0.rank == 0 <==> found_at(row.0, typed, 0)) && (ks[i]->0.rank
            <= 1 <==> found(row.0, typed))
    }) by {
        lemma_found(rows[i].0, typed);
        lemma_found(rows[i].1, typed);
        lemma_part_is_found(rows[i].0, typed);
    }
    assert forall|p: int| 0 <= p < r.len() implies rows.contains(#[trigger] r[p]) && (found(
        r[p].0,
        typed,
    ) || found(r[p].1, typed)) by {
        assert(order.contains(order[p]));
        assert(r[p] == rows[order[p]]);
    }
    assert forall|i: int|
        0 <= i < rows.len() && (found((#[trigger] rows[i]).0, typed) || found(
            rows[i].1,
            typed,
        )) implies r.contains(rows[i]) by {
        assert(order.contains(i));
        let p = choose|p: int| 0 <= p < order.len() && order[p] == i;
        assert(r[p] == rows[i]);
    }
    assert forall|a: int, b: int| 0 <= a < b < r.len() implies (found_at(
        (#[trigger] r[b]).0,
        typed,
        0,
    ) ==> found_at((#[trigger] r[a]).0, typed, 0)) && (found(r[b].0, typed) ==> found(
        r[a].0,
        typed,
    )) by {
        assert(order.contains(order[a]) && order.contains(order[b]));
        assert(r[a] == rows[order[a]] && r[b] == rows[order[b]]);
        assert(ranking::less(ranking::key_of(ks, order[b]), ranking::key_of(ks, order[a]))
            ==> false);
    }
}

/// A file mention is what follows an `@` to the end of the input, where that `@` begins a
/// word, no white space follows it, and no other `@` does; its place is counted in bytes.
pub proof fn law_a_mention_is_the_last_word(input: Seq<char>, k: int)
    requires
        0 <= k < input.len(),
        input[k] == '@',
        forall|j: int| k < j < input.len() ==> #[trigger] input[j] != '@',
    ensures
        file_token(input) matches Some((at, query)) ==> at == text::byte_len(input.take(k)) && query
            == input.skip(k + 1),
        file_token(input) is Some <==> (k == 0 || text::is_white(input[k - 1])) && forall|j: int|
            k < j < input.len() ==> !text::is_white(#[trigger] input[j]),
{
    lemma_last_index(input, '@');
    let tail = input.skip(k + 1);
    if text::has_white(tail) {
        let i = choose|i: int| 0 <= i < tail.len() && text::is_white(#[trigger] tail[i]);
        assert(text::is_white(input[k + 1 + i]));
    }
    if exists|j: int| k < j < input.len() && text::is_white(#[trigger] input[j]) {
        let j = choose|j: int| k < j < input.len() && text::is_white(#[trigger] input[j]);
        assert(text::is_white(tail[j - k - 1]));
    }
}

/// Input without an `@` mentions no file.
pub proof fn law_no_sign_no_mention(input: Seq<char>)
    requires
        forall|j: int| 0 <= j < input.len() ==> #[trigger] input[j] != '@',
    ensures
        file_token(input) is None,
{
    lemma_last_index(input, '@');
}

/// A command is offered for what was typed behind the slash exactly where its own name, a
/// name that it also goes by, or what is said of it holds that, whatever the case of the
/// letters; and one whose own name begins with it comes before one that does not.
pub proof fn law_a_command_is_found_by_what_it_holds(input: Seq<char>, i: int)
    requires
        input.len() > 0,
        input[0] == '/',
        forall|k: int| 1 <= k < input.len() ==> !text::is_white(#[trigger] input[k]),
        0 <= i < SLASH_COMMANDS@.len(),
        !alias_row(i),
    ensures
        slash_rows(input).contains(i) <==> ({
            let typed = input.skip(1);
            ||| found(row_name(i), typed)
            ||| found(SLASH_COMMANDS@[i].1@, typed)
            ||| exists|j: int|
                0 <= j < SLASH_COMMANDS@.len() && #[trigger] alias_of(j, i) && found(
                    row_name(j),
                    typed,
                )
        }),
        forall|a: int, b: int|
            0 <= a < b < slash_rows(input).len() && found_at(
                row_name(#[trigger] slash_rows(input)[b]),
                input.skip(1),
                0,
            ) ==> found_at(row_name(#[trigger] slash_rows(input)[a]), input.skip(1), 0),
{
    let typed = input.skip(1);
    let q = text::lower(typed);
    let ks = slash_keys(q);
    let rows = slash_rows(input);
    assert(!text::has_white(typed));
    assert(rows == ranking::order(ks));
    ranking::law_matches_are_listed_in_order(ks);
    assert forall|j: int| 0 <= j < SLASH_COMMANDS@.len() implies (#[trigger] name_starts(j, q)
        <==> found_at(row_name(j), typed, 0)) by {
        lemma_found(row_name(j), typed);
    }
    assert forall|j: int| 0 <= j < SLASH_COMMANDS@.len() implies (#[trigger] name_holds(j, q)
        <==> found(row_name(j), typed)) && (name_starts(j, q) ==> name_holds(j, q)) by {
        lemma_found(row_name(j), typed);
        lemma_part_is_found(row_name(j), typed);
    }
    lemma_found(SLASH_COMMANDS@[i].1@, typed);
    assert(ks[i] == rank_key(slash_rank(q, i)));
    assert(name_holds(i, q) || !name_holds(i, q));
    assert forall|j: int| 0 <= j < SLASH_COMMANDS@.len() && #[trigger] alias_of(j, i) && (name_starts(
        j,
        q,
    ) || name_holds(j, q)) implies found(row_name(j), typed) by {
        assert(name_holds(j, q) || !name_holds(j, q));
    }
    if exists|j: int|
        0 <= j < SLASH_COMMANDS@.len() && #[trigger] alias_of(j, i) && found(row_name(j), typed) {
        let j = choose|j: int|
            0 <= j < SLASH_COMMANDS@.len() && #[trigger] alias_of(j, i) && found(
                row_name(j),
                typed,
            );
        assert(alias_of(j, i) && name_holds(j, q));
    }
    assert forall|a: int, b: int|
        0 <= a < b < rows.len() && found_at(row_name(#[trigger] rows[b]), typed, 0) implies found_at(
        row_name(#[trigger] rows[a]),
        typed,
        0,
    ) by {
        assert(rows.contains(rows[a]) && rows.contains(rows[b]));
        assert(name_starts(rows[b], q));
        assert(ks[rows[b]]->0.rank == 0);
        assert(ranking::less(ranking::key_of(ks, rows[b]), ranking::key_of(ks, rows[a])) ==> false);
    }
}

/// What is offered for an argument takes the place of what was typed of it: of the rest of
/// the input behind the command and the white space after it, at its place in bytes.
pub proof fn law_an_argument_is_the_rest_of_the_input(
    input: Seq<char>,
    list: Seq<TemplateView>,
    themes: Seq<(Seq<char>, Seq<char>)>,
    sessions: Seq<(Seq<char>, Seq<char>)>,
    k: int,
    m: int,
)
    requires
        1 <= k < m <= input.len(),
        forall|j: int| 1 <= j < k ==> !text::is_white(#[trigger] input[j]),
        forall|j: int| k <= j < m ==> text::is_white(#[trigger] input[j]),
        m == input.len() || !text::is_white(input[m]),
    ensures
        argument_of(input) == input.skip(m),
        argument_rows(input, list, themes, sessions) matches Some((at, rows)) ==> at
            == text::byte_len(input.take(m)) && rows.len() > 0 && (input[0] == '/' || input[0] == ':'),
{
    let rest = input.skip(1);
    text::lemma_word_len(rest);
    let w = text::word_len(rest) as int;
    assert(rest[k - 1] == input[k]);
    if w < k - 1 {
        assert(rest[w] == input[w + 1]);
    }
    if w > k - 1 {
        assert(!text::is_white(rest[k - 1]));
    }
    assert(w == k - 1);
    let tail = rest.skip(w);
    assert(tail =~= input.skip(k));
    text::lemma_trim_start(tail);
    let t = text::trim_start(tail);
    let gone = tail.len() - t.len();
    if gone < m - k {
        assert(tail[gone] == input[k + gone]);
        assert(t[0] == tail[gone]);
    }
    if gone > m - k {
        assert(tail[m - k] == input[m]);
    }
    assert(t =~= input.skip(m));
}

/// The sessions are offered for `/resume`, the themes and the way back for `/theme`, under
/// any name that these go by.
pub proof fn law_what_is_offered_for_a_command(
    cmd: Seq<char>,
    list: Seq<TemplateView>,
    themes: Seq<(Seq<char>, Seq<char>)>,
    sessions: Seq<(Seq<char>, Seq<char>)>,
    i: int,
)
    ensures
        registry::canonical(cmd) == "resume"@ ==> candidates('/', cmd, list, themes, sessions) == Some(
            sessions,
        ),
        registry::canonical(cmd) == "theme"@ && 0 <= i < themes.len() ==> (candidates(
            '/',
            cmd,
            list,
            themes,
            sessions,
        ) matches Some(rows) && rows.contains(themes[i]) && rows.len() == themes.len() + 1),
        registry::canonical(cmd) == "theme"@ ==> (candidates('/', cmd, list, themes, sessions) matches Some(
            rows,
        ) && rows.len() > 0 && rows.last().0 == "reset"@),
        0 <= i < list.len() && text::lower(list[i].name) == text::lower(cmd) && (forall|j: int|
            0 <= j < i ==> text::lower((#[trigger] list[j]).name) != text::lower(cmd)) ==> (candidates(
            ':',
            cmd,
            list,
            themes,
            sessions,
        ) matches Some(rows) && rows.len() == list[i].args.len() && forall|k: int|
            0 <= k < rows.len() ==> (#[trigger] rows[k]).0 == list[i].args[k]),
        (forall|j: int| 0 <= j < list.len() ==> text::lower((#[trigger] list[j]).name) != text::lower(cmd))
            ==> candidates(':', cmd, list, themes, sessions) is None,
{
    lemma_commands_apart();
    if registry::canonical(cmd) == "theme"@ && 0 <= i < themes.len() {
        let rows = themes.push(("reset"@, "back to the default"@));
        assert(rows[i] == themes[i]);
    }
    if 0 <= i < list.len() && text::lower(list[i].name) == text::lower(cmd) && (forall|j: int|
        0 <= j < i ==> text::lower((#[trigger] list[j]).name) != text::lower(cmd)) {
        lemma_template_found(list, cmd, 0, i);
    }
    if forall|j: int| 0 <= j < list.len() ==> text::lower((#[trigger] list[j]).name) != text::lower(cmd) {
        lemma_no_template(list, cmd, 0);
    }
}

proof fn lemma_commands_apart()
    ensures
        "resume"@ != "theme"@,
        "resume"@ != "reasoning"@ && "resume"@ != "think"@ && "resume"@ != "ts"@,
        "theme"@ != "reasoning"@ && "theme"@ != "think"@ && "theme"@ != "ts"@,
{
    reveal_strlit("resume");
    reveal_strlit("theme");
    reveal_strlit("reasoning");
    reveal_strlit("think");
    reveal_strlit("ts");
    assert("resume"@.len() == 6 && "theme"@.len() == 5 && "reasoning"@.len() == 9);
    assert("think"@.len() == 5 && "ts"@.len() == 2);
    assert("theme"@[2] == 'e');
    assert("think"@[2] == 'i');
}

proof fn lemma_template_found(list: Seq<TemplateView>, name: Seq<char>, from: int, i: int)
    requires
        0 <= from <= i < list.len(),
        text::lower(list[i].name) == text::lower(name),
        forall|j: int|
            from <= j < i ==> text::lower((#[trigger] list[j]).name) != text::lower(name),
    ensures
        template_values(list, name, from) == template_values(list, name, i),
    decreases i - from,
{
    if from < i {
        lemma_template_found(list, name, from + 1, i);
    }
}

proof fn lemma_no_template(list: Seq<TemplateView>, name: Seq<char>, from: int)
    requires
        0 <= from <= list.len(),
        forall|j: int|
            from <= j < list.len() ==> text::lower((#[trigger] list[j]).name) != text::lower(name),
    ensures
        template_values(list, name, from) is None,
    decreases list.len() - from,
{
    if from < list.len() {
        lemma_no_template(list, name, from + 1);
    }
}

} // verus!
