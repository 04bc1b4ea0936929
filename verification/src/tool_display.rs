//! How a tool call is shown: what stands on its header line, and what its detail area
//! holds.
use crate::json;
use crate::json::{parse_args, ArgValue, ArgView, ArgsView, ToolArgs};
use crate::text;
use crate::text::{
    chars_of, decimal_string, find_last, join_strings, split_chars, str_eq, str_words,
    string_of_range,
};
use vstd::prelude::*;

verus! {

/// How a tool call's detail area is painted.
#[derive(Debug, Clone, PartialEq, Eq)]
pub enum ToolBody {
    /// A shell call: the command, on a line of its own above the output.
    Shell { command: String },
    /// A file that is written: its contents, highlighted by the path's extension.
    Code { lang: String, content: String },
    /// The result is a unified diff.
    Diff,
    /// The result's tail is the interesting part.
    Read,
    /// The arguments of any other call, as `key: value` rows of one line each.
    Details(Vec<(String, String)>),
    Text,
}

/// The header line and the detail body of one tool call.
#[derive(Debug, Clone, PartialEq, Eq)]
pub struct ToolDisplay {
    /// Shown after the tool's name. Empty where the body already says it.
    pub headline: String,
    pub body: ToolBody,
}

/// What a [`ToolBody`] holds.
pub enum ToolBodyView {
    Shell { command: Seq<char> },
    Code { lang: Seq<char>, content: Seq<char> },
    Diff,
    Read,
    Details(Seq<(Seq<char>, Seq<char>)>),
    Text,
}

/// What a [`ToolDisplay`] holds.
pub struct ToolDisplayView {
    pub headline: Seq<char>,
    pub body: ToolBodyView,
}

impl View for ToolBody {
    type V = ToolBodyView;

    open spec fn view(&self) -> ToolBodyView {
        match self {
            ToolBody::Shell { command } => ToolBodyView::Shell { command: command@ },
            ToolBody::Code { lang, content } => ToolBodyView::Code {
                lang: lang@,
                content: content@,
            },
            ToolBody::Diff => ToolBodyView::Diff,
            ToolBody::Read => ToolBodyView::Read,
            ToolBody::Details(rows) => ToolBodyView::Details(text::pairs(rows@)),
            ToolBody::Text => ToolBodyView::Text,
        }
    }
}

impl View for ToolDisplay {
    type V = ToolDisplayView;

    open spec fn view(&self) -> ToolDisplayView {
        ToolDisplayView { headline: self.headline@, body: self.body@ }
    }
}

/// `s`, or `default` where there is none.
pub open spec fn text_or(s: Option<Seq<char>>, default: Seq<char>) -> Seq<char> {
    match s {
        Some(t) => t,
        None => default,
    }
}

fn string_or(s: Option<String>, default: &str) -> (r: String)
    ensures
        r@ == text_or(json::opt_view(s), default@),
{
    match s {
        Some(t) => t,
        None => default.to_string(),
    }
}

// ---------------------------------------------------------------------------
// The extension of a path
// ---------------------------------------------------------------------------

/// The last part of a path that names something: neither empty nor `.`.
pub open spec fn last_named(parts: Seq<Seq<char>>) -> Option<Seq<char>>
    decreases parts.len(),
{
    if parts.len() == 0 {
        None
    } else if parts.last().len() > 0 && parts.last() != "."@ {
        Some(parts.last())
    } else {
        last_named(parts.drop_last())
    }
}

/// The name of the file that a path with `/` between its parts leads to.
pub open spec fn file_name(path: Seq<char>) -> Option<Seq<char>> {
    match last_named(text::split_on(path, '/')) {
        Some(n) => if n == ".."@ {
            None
        } else {
            Some(n)
        },
        None => None,
    }
}

/// What follows the last dot of a file name, where a dot stands in it past the start.
pub open spec fn name_extension(name: Seq<char>) -> Option<Seq<char>> {
    match text::last_index(name, '.') {
        Some(i) => if i > 0 {
            Some(name.skip(i + 1))
        } else {
            None
        },
        None => None,
    }
}

/// The extension of the file that `path` leads to; empty where it has none.
pub open spec fn extension(path: Seq<char>) -> Seq<char> {
    match file_name(path) {
        Some(n) => text_or(name_extension(n), Seq::empty()),
        None => Seq::empty(),
    }
}

fn is_named(part: &Vec<char>) -> (r: bool)
    ensures
        r == (part@.len() > 0 && part@ != "."@),
{
    proof {
        reveal_strlit(".");
        assert(part@.len() == 1 && part@[0] == '.' ==> part@ =~= "."@);
    }
    part.len() > 0 && !(part.len() == 1 && part[0] == '.')
}

fn path_extension(path: &str) -> (r: String)
    ensures
        r@ == extension(path@),
{
    let parts = split_chars(&chars_of(path), '/');
    let ghost all = text::split_on(path@, '/');
    let mut k: usize = parts.len();
    assert(all.take(k as int) =~= all);
    while k > 0 && !is_named(&parts[k - 1])
        invariant
            k <= parts@.len(),
            all == text::char_views(parts@),
            last_named(all) == last_named(all.take(k as int)),
        decreases k,
    {
        assert(all.take(k as int).drop_last() =~= all.take(k - 1));
        k = k - 1;
    }
    if k == 0 {
        return String::new();
    }
    let name = &parts[k - 1];
    proof {
        reveal_strlit("..");
        assert(name@.len() == 2 && name@[0] == '.' && name@[1] == '.' ==> name@ =~= ".."@);
    }
    if name.len() == 2 && name[0] == '.' && name[1] == '.' {
        return String::new();
    }
    match find_last(name, '.') {
        Some(i) => if i > 0 {
            assert(name@.skip(i + 1) =~= name@.subrange(i + 1, name@.len() as int));
            string_of_range(name, i + 1, name.len())
        } else {
            String::new()
        },
        None => String::new(),
    }
}

// ---------------------------------------------------------------------------
// Rows and summaries
// ---------------------------------------------------------------------------

/// A value as one line: a string bare, anything else as compact JSON, and each run of
/// white space as one space.
pub open spec fn detail_line(v: ArgView) -> Seq<char> {
    text::join(text::words(text_or(v.text, v.compact)), " "@)
}

fn detail_value(v: &ArgValue) -> (r: String)
    ensures
        r@ == detail_line(v@),
{
    let raw: &str = match &v.text {
        Some(t) => t.as_str(),
        None => v.compact.as_str(),
    };
    join_strings(&str_words(raw), " ")
}

/// The arguments of a call as rows. A bare value is one row without a label.
pub open spec fn detail_rows(a: ArgsView) -> Seq<(Seq<char>, Seq<char>)> {
    match a {
        ArgsView::Object(m) => Seq::new(m.len(), |i: int| (m[i].0, detail_line(m[i].1))),
        ArgsView::Null => Seq::empty(),
        ArgsView::Bare(v) => seq![(Seq::empty(), detail_line(v))],
    }
}

fn arg_details(a: &ToolArgs) -> (r: Vec<(String, String)>)
    ensures
        text::pairs(r@) == detail_rows(a@),
{
    let mut out: Vec<(String, String)> = Vec::new();
    match a {
        ToolArgs::Object(m) => {
            for i in 0..m.len()
                invariant
                    out@.len() == i,
                    forall|j: int|
                        0 <= j < i ==> (#[trigger] out@[j]).0@ == m@[j].0@ && out@[j].1@
                            == detail_line(m@[j].1@),
            {
                out.push((m[i].0.clone(), detail_value(&m[i].1)));
            }
        },
        ToolArgs::Null => {},
        ToolArgs::Bare(v) => {
            out.push((String::new(), detail_value(v)));
        },
    }
    assert(text::pairs(out@) =~= detail_rows(a@));
    out
}

/// The parts of a `read` call's summary that stand in brackets.
pub open spec fn read_parts(a: ArgsView) -> Seq<Seq<char>> {
    let offset = match a.unsigned("offset"@) {
        Some(o) => if o > 1 {
            seq!["offset: "@ + text::decimal(o as nat)]
        } else {
            Seq::empty()
        },
        None => Seq::empty(),
    };
    let limit = match a.unsigned("limit"@) {
        Some(l) => seq!["limit: "@ + text::decimal(l as nat)],
        None => Seq::empty(),
    };
    offset + limit
}

/// The summary of a `read` call: the path, and in brackets an offset past the first
/// line and a limit.
pub open spec fn read_summary(a: ArgsView) -> Seq<char> {
    let path = text_or(a.string("path"@), "?"@);
    if read_parts(a).len() > 0 {
        path + "  ("@ + text::join(read_parts(a), ", "@) + ")"@
    } else {
        path
    }
}

fn labelled(label: &str, n: u64) -> (r: String)
    ensures
        r@ == label@ + text::decimal(n as nat),
{
    let mut s = label.to_string();
    s.append(decimal_string(n).as_str());
    s
}

fn read_args_summary(a: &ToolArgs) -> (r: String)
    ensures
        r@ == read_summary(a@),
{
    let mut s = string_or(a.string("path"), "?");
    let mut parts: Vec<String> = Vec::new();
    if let Some(o) = a.unsigned("offset") {
        if o > 1 {
            parts.push(labelled("offset: ", o));
        }
    }
    if let Some(l) = a.unsigned("limit") {
        parts.push(labelled("limit: ", l));
    }
    assert(text::views(parts@) =~= read_parts(a@));
    if parts.len() > 0 {
        s.append("  (");
        s.append(join_strings(&parts, ", ").as_str());
        s.append(")");
    }
    s
}

/// The texts among the elements of an array.
pub open spec fn item_texts(items: Seq<Option<Seq<char>>>) -> Seq<Seq<char>>
    decreases items.len(),
{
    if items.len() == 0 {
        Seq::empty()
    } else {
        match items.last() {
            Some(t) => item_texts(items.drop_last()).push(t),
            None => item_texts(items.drop_last()),
        }
    }
}

/// A `git` call on one line: the subcommand and its arguments.
pub open spec fn git_line(a: ArgsView) -> Seq<char> {
    let sub = text_or(a.string("subcommand"@), Seq::empty());
    let rest = match a.get("args"@) {
        Some(v) => match v.items {
            Some(items) => text::join(item_texts(items), " "@),
            None => Seq::empty(),
        },
        None => Seq::empty(),
    };
    if rest.len() > 0 {
        sub + " "@ + rest
    } else {
        sub
    }
}

fn join_item_texts(items: &Vec<Option<String>>) -> (r: String)
    ensures
        r@ == text::join(
            item_texts(Seq::new(items@.len(), |i: int| json::opt_view(items@[i]))),
            " "@,
        ),
{
    let ghost all = Seq::new(items@.len(), |i: int| json::opt_view(items@[i]));
    let mut texts: Vec<String> = Vec::new();
    assert(all.take(0) =~= Seq::empty());
    for i in 0..items.len()
        invariant
            all == Seq::new(items@.len(), |i: int| json::opt_view(items@[i])),
            text::views(texts@) =~= item_texts(all.take(i as int)),
    {
        assert(all.take(i + 1).drop_last() =~= all.take(i as int));
        if let Some(t) = &items[i] {
            texts.push(t.clone());
        }
    }
    assert(all.take(items@.len() as int) =~= all);
    join_strings(&texts, " ")
}

fn git_summary(a: &ToolArgs) -> (r: String)
    ensures
        r@ == git_line(a@),
{
    let mut s = string_or(a.string("subcommand"), "");
    proof {
        reveal_strlit("");
        assert(""@ =~= Seq::empty());
    }
    if let Some(v) = a.get("args") {
        if let Some(items) = &v.items {
            let rest = join_item_texts(items);
            if !rest.as_str().is_empty() {
                s.append(" ");
                s.append(rest.as_str());
            }
        }
    }
    s
}

/// What a search looks for, where, and in which files.
pub open spec fn search_line(a: ArgsView) -> Seq<char> {
    let pattern = text_or(a.string("pattern"@), Seq::empty());
    let scope = match a.string("path"@) {
        Some(p) => "  in "@ + p,
        None => Seq::empty(),
    };
    let glob = match a.string("glob"@) {
        Some(g) => "  ("@ + g + ")"@,
        None => Seq::empty(),
    };
    pattern + scope + glob
}

fn search_summary(a: &ToolArgs) -> (r: String)
    ensures
        r@ == search_line(a@),
{
    let mut s = string_or(a.string("pattern"), "");
    proof {
        reveal_strlit("");
        assert(""@ =~= Seq::empty());
    }
    if let Some(p) = a.string("path") {
        s.append("  in ");
        s.append(p.as_str());
    }
    if let Some(g) = a.string("glob") {
        s.append("  (");
        s.append(g.as_str());
        s.append(")");
    }
    assert(s@ =~= search_line(a@));
    s
}

// ---------------------------------------------------------------------------
// The display
// ---------------------------------------------------------------------------

/// How a call of the tool `name` with the arguments `a` is shown.
pub open spec fn display(name: Seq<char>, a: ArgsView) -> ToolDisplayView {
    if name == "shell"@ {
        ToolDisplayView {
            headline: Seq::empty(),
            body: ToolBodyView::Shell { command: text_or(a.string("command"@), Seq::empty()) },
        }
    } else if name == "write"@ {
        let path = text_or(a.string("path"@), "?"@);
        ToolDisplayView {
            headline: path,
            body: ToolBodyView::Code {
                lang: extension(path),
                content: text_or(a.string("content"@), Seq::empty()),
            },
        }
    } else if name == "edit"@ {
        ToolDisplayView {
            headline: text_or(a.string("path"@), "?"@),
            body: ToolBodyView::Diff,
        }
    } else if name == "read"@ {
        ToolDisplayView { headline: read_summary(a), body: ToolBodyView::Read }
    } else if name == "grep"@ || name == "find"@ {
        ToolDisplayView { headline: search_line(a), body: ToolBodyView::Text }
    } else if name == "ls"@ || name == "tree"@ {
        ToolDisplayView {
            headline: text_or(a.string("path"@), "."@),
            body: ToolBodyView::Text,
        }
    } else if name == "todo"@ {
        ToolDisplayView { headline: Seq::empty(), body: ToolBodyView::Text }
    } else if name == "git"@ {
        ToolDisplayView { headline: git_line(a), body: ToolBodyView::Text }
    } else {
        ToolDisplayView {
            headline: Seq::empty(),
            body: ToolBodyView::Details(detail_rows(a)),
        }
    }
}

/// Classify a call of the tool `name` with the parsed arguments `a` for display.
pub fn display_args(name: &str, a: &ToolArgs) -> (r: ToolDisplay)
    ensures
        r@ == display(name@, a@),
{
    proof {
        reveal_strlit("");
        assert(""@ =~= Seq::empty());
    }
    if str_eq(name, "shell") {
        ToolDisplay {
            headline: String::new(),
            body: ToolBody::Shell { command: string_or(a.string("command"), "") },
        }
    } else if str_eq(name, "write") {
        let path = string_or(a.string("path"), "?");
        let lang = path_extension(path.as_str());
        ToolDisplay {
            headline: path,
            body: ToolBody::Code { lang, content: string_or(a.string("content"), "") },
        }
    } else if str_eq(name, "edit") {
        ToolDisplay { headline: string_or(a.string("path"), "?"), body: ToolBody::Diff }
    } else if str_eq(name, "read") {
        ToolDisplay { headline: read_args_summary(a), body: ToolBody::Read }
    } else if str_eq(name, "grep") || str_eq(name, "find") {
        ToolDisplay { headline: search_summary(a), body: ToolBody::Text }
    } else if str_eq(name, "ls") || str_eq(name, "tree") {
        ToolDisplay { headline: string_or(a.string("path"), "."), body: ToolBody::Text }
    } else if str_eq(name, "todo") {
        ToolDisplay { headline: String::new(), body: ToolBody::Text }
    } else if str_eq(name, "git") {
        ToolDisplay { headline: git_summary(a), body: ToolBody::Text }
    } else {
        ToolDisplay { headline: String::new(), body: ToolBody::Details(arg_details(a)) }
    }
}

/// Classify a tool call for display, from its name and its raw JSON arguments. Text that
/// is not a JSON document counts as `null`.
pub fn tool_display(name: &str, args: &str) -> (r: ToolDisplay)
    ensures
        r@ == display(name@, json::document_or_null(args@)),
{
    display_args(name, &parse_args(args))
}

/// The command of a shell call with the arguments `a`.
pub open spec fn shell_command(name: Seq<char>, a: ArgsView) -> Option<Seq<char>> {
    if name == "shell"@ {
        a.string("command"@)
    } else {
        None
    }
}

/// The command of a shell call with the parsed arguments `a`.
pub fn shell_command_of(name: &str, a: &ToolArgs) -> (r: Option<String>)
    ensures
        json::opt_view(r) == shell_command(name@, a@),
{
    if str_eq(name, "shell") {
        a.string("command")
    } else {
        None
    }
}

/// The command of a shell call, from its raw JSON arguments. `None` for any other tool,
/// and for arguments without one.
pub fn extract_shell_command(name: &str, args: &str) -> (r: Option<String>)
    ensures
        json::opt_view(r) == shell_command(name@, json::document_or_null(args@)),
{
    shell_command_of(name, &parse_args(args))
}

// ---------------------------------------------------------------------------
// What a call shows
// ---------------------------------------------------------------------------

/// The names of the tools, letter by letter.
proof fn lemma_names()
    ensures
        "shell"@.len() == 5,
        "shell"@ == seq!['s', 'h', 'e', 'l', 'l'],
        "write"@.len() == 5,
        "write"@ == seq!['w', 'r', 'i', 't', 'e'],
        "edit"@.len() == 4,
        "edit"@ == seq!['e', 'd', 'i', 't'],
        "read"@.len() == 4,
        "read"@ == seq!['r', 'e', 'a', 'd'],
        "grep"@.len() == 4,
        "grep"@ == seq!['g', 'r', 'e', 'p'],
        "find"@.len() == 4,
        "find"@ == seq!['f', 'i', 'n', 'd'],
        "ls"@.len() == 2,
        "ls"@ == seq!['l', 's'],
        "tree"@.len() == 4,
        "tree"@ == seq!['t', 'r', 'e', 'e'],
        "todo"@.len() == 4,
        "todo"@ == seq!['t', 'o', 'd', 'o'],
        "git"@.len() == 3,
        "git"@ == seq!['g', 'i', 't'],
{
    reveal_strlit("shell");
    reveal_strlit("write");
    reveal_strlit("edit");
    reveal_strlit("read");
    reveal_strlit("grep");
    reveal_strlit("find");
    reveal_strlit("ls");
    reveal_strlit("tree");
    reveal_strlit("todo");
    reveal_strlit("git");
    assert("shell"@ =~= seq!['s', 'h', 'e', 'l', 'l']);
    assert("write"@ =~= seq!['w', 'r', 'i', 't', 'e']);
    assert("edit"@ =~= seq!['e', 'd', 'i', 't']);
    assert("read"@ =~= seq!['r', 'e', 'a', 'd']);
    assert("grep"@ =~= seq!['g', 'r', 'e', 'p']);
    assert("find"@ =~= seq!['f', 'i', 'n', 'd']);
    assert("ls"@ =~= seq!['l', 's']);
    assert("tree"@ =~= seq!['t', 'r', 'e', 'e']);
    assert("todo"@ =~= seq!['t', 'o', 'd', 'o']);
    assert("git"@ =~= seq!['g', 'i', 't']);
}

/// Whether the member at `i` of an object is the one that `key` stands for.
pub open spec fn stands_for(m: Seq<(Seq<char>, ArgView)>, key: Seq<char>, i: int) -> bool {
    &&& 0 <= i < m.len()
    &&& m[i].0 == key
    &&& forall|j: int| 0 <= j < i ==> (#[trigger] m[j]).0 != key
}

/// Whether an object has no member under `key`.
pub open spec fn lacks(m: Seq<(Seq<char>, ArgView)>, key: Seq<char>) -> bool {
    forall|j: int| 0 <= j < m.len() ==> (#[trigger] m[j]).0 != key
}

/// The member of an object under a key is the one that has the key, and there is none
/// where none has it.
pub proof fn law_a_member_is_found_by_its_key(m: Seq<(Seq<char>, ArgView)>, key: Seq<char>, i: int)
    ensures
        stands_for(m, key, i) ==> ArgsView::Object(m).get(key) == Some(m[i].1),
        lacks(m, key) <==> ArgsView::Object(m).get(key) is None,
        ArgsView::Null.get(key) is None,
    decreases m.len(),
{
    if m.len() > 0 && m[0].0 != key {
        let rest = m.drop_first();
        law_a_member_is_found_by_its_key(rest, key, i - 1);
        if stands_for(m, key, i) {
            assert forall|j: int| 0 <= j < i - 1 implies (#[trigger] rest[j]).0 != key by {
                assert(m[j + 1].0 != key);
            }
            assert(rest[i - 1] == m[i]);
        }
        if lacks(m, key) {
            assert forall|j: int| 0 <= j < rest.len() implies (#[trigger] rest[j]).0 != key by {
                assert(m[j + 1].0 != key);
            }
        }
        if lacks(rest, key) {
            assert forall|j: int| 0 <= j < m.len() implies (#[trigger] m[j]).0 != key by {
                if j > 0 {
                    assert(rest[j - 1].0 != key);
                }
            }
        }
    }
}

/// A listing is shown by the directory that is listed: what its arguments say under
/// `path`, and the working directory where they say nothing there.
pub proof fn law_a_listing_shows_its_directory(
    name: Seq<char>,
    m: Seq<(Seq<char>, ArgView)>,
    i: int,
)
    requires
        name == "ls"@ || name == "tree"@,
    ensures
        display(name, ArgsView::Object(m)).body is Text,
        stands_for(m, "path"@, i) ==> (m[i].1.text matches Some(p) ==> display(
            name,
            ArgsView::Object(m),
        ).headline == p),
        lacks(m, "path"@) ==> display(name, ArgsView::Object(m)).headline == seq!['.'],
        stands_for(m, "path"@, i) && m[i].1.text is None ==> display(
            name,
            ArgsView::Object(m),
        ).headline == seq!['.'],
        display(name, ArgsView::Null).headline == seq!['.'],
{
    lemma_names();
    law_a_member_is_found_by_its_key(m, "path"@, i);
    reveal_strlit(".");
    assert("."@ =~= seq!['.']);
}

/// A file that is written, edited or read is shown by its path, which is what the
/// arguments say under `path`; where they say nothing there, by a question mark. What is
/// written is shown as code of the path's extension, an edit as its diff, and what is read
/// by its end.
pub proof fn law_a_file_is_shown_by_its_path(m: Seq<(Seq<char>, ArgView)>, i: int, j: int)
    requires
        stands_for(m, "path"@, i),
    ensures
        m[i].1.text matches Some(p) ==> {
            let w = display("write"@, ArgsView::Object(m));
            let e = display("edit"@, ArgsView::Object(m));
            let r = display("read"@, ArgsView::Object(m));
            &&& w.headline == p
            &&& e.headline == p
            &&& text::starts_with(r.headline, p)
            &&& w.body matches ToolBodyView::Code { lang, content } && lang == extension(p) && (
            stands_for(m, "content"@, j) ==> (m[j].1.text matches Some(c) ==> content == c)) && (
            lacks(m, "content"@) ==> content.len() == 0)
            &&& e.body is Diff
            &&& r.body is Read
        },
        m[i].1.text is None ==> display("write"@, ArgsView::Object(m)).headline == seq!['?']
            && display("edit"@, ArgsView::Object(m)).headline == seq!['?'] && text::starts_with(
            display("read"@, ArgsView::Object(m)).headline,
            seq!['?'],
        ),
{
    lemma_names();
    law_a_member_is_found_by_its_key(m, "path"@, i);
    law_a_member_is_found_by_its_key(m, "content"@, j);
    reveal_strlit("?");
    assert("?"@ =~= seq!['?']);
    let a = ArgsView::Object(m);
    let p = text_or(a.string("path"@), "?"@);
    let r = read_summary(a);
    assert(r.take(p.len() as int) =~= p);
}

/// What is read of a file is shown behind its path: from which line on, where that is not
/// the first, and how many lines, where that is said; and nothing where neither is.
pub proof fn law_a_read_shows_its_range(m: Seq<(Seq<char>, ArgView)>, i: int, j: int)
    ensures
        ({
            let h = display("read"@, ArgsView::Object(m)).headline;
            let p = text_or(ArgsView::Object(m).string("path"@), seq!['?']);
            &&& stands_for(m, "offset"@, i) ==> (m[i].1.number matches Some(n) ==> (n > 1
                ==> text::contains(h, "offset: "@ + text::decimal(n as nat))))
            &&& stands_for(m, "limit"@, j) ==> (m[j].1.number matches Some(n) ==> text::contains(
                h,
                "limit: "@ + text::decimal(n as nat),
            ))
            &&& lacks(m, "limit"@) && (lacks(m, "offset"@) || stands_for(m, "offset"@, i) && (
            m[i].1.number matches Some(n) ==> n <= 1)) ==> h == p
        }),
{
    lemma_names();
    law_a_member_is_found_by_its_key(m, "offset"@, i);
    law_a_member_is_found_by_its_key(m, "limit"@, j);
    reveal_strlit("?");
    assert("?"@ =~= seq!['?']);
    let a = ArgsView::Object(m);
    let p = text_or(a.string("path"@), "?"@);
    let parts = read_parts(a);
    if parts.len() > 0 {
        let all = text::join(parts, ", "@);
        let h = read_summary(a);
        assert(h =~= p + "  ("@ + all + ")"@);
        if stands_for(m, "offset"@, i) && m[i].1.number is Some && m[i].1.number->0 > 1 {
            let part = "offset: "@ + text::decimal(m[i].1.number->0 as nat);
            assert(parts[0] == part);
            text::law_join_holds_every_part(parts, ", "@, 0);
            text::lemma_part_holds(p + "  ("@, all, ")"@, part);
        }
        if stands_for(m, "limit"@, j) && m[j].1.number is Some {
            let part = "limit: "@ + text::decimal(m[j].1.number->0 as nat);
            assert(parts[parts.len() - 1] == part);
            text::law_join_holds_every_part(parts, ", "@, parts.len() - 1);
            text::lemma_part_holds(p + "  ("@, all, ")"@, part);
        }
    }
}

/// A search is shown by what it looks for, which comes first, by where, and by which files,
/// each as the arguments say it.
pub proof fn law_a_search_shows_what_it_looks_for(
    name: Seq<char>,
    m: Seq<(Seq<char>, ArgView)>,
    i: int,
    j: int,
    k: int,
)
    requires
        name == "grep"@ || name == "find"@,
    ensures
        ({
            let d = display(name, ArgsView::Object(m));
            &&& d.body is Text
            &&& stands_for(m, "pattern"@, i) ==> (m[i].1.text matches Some(p) ==> text::starts_with(
                d.headline,
                p,
            ) && (lacks(m, "path"@) && lacks(m, "glob"@) ==> d.headline == p))
            &&& stands_for(m, "path"@, j) ==> (m[j].1.text matches Some(p) ==> text::contains(
                d.headline,
                "  in "@ + p,
            ))
            &&& stands_for(m, "glob"@, k) ==> (m[k].1.text matches Some(g) ==> text::contains(
                d.headline,
                "  ("@ + g + ")"@,
            ))
        }),
{
    lemma_names();
    law_a_member_is_found_by_its_key(m, "pattern"@, i);
    law_a_member_is_found_by_its_key(m, "path"@, j);
    law_a_member_is_found_by_its_key(m, "glob"@, k);
    let a = ArgsView::Object(m);
    let p = text_or(a.string("pattern"@), Seq::empty());
    let scope = match a.string("path"@) {
        Some(x) => "  in "@ + x,
        None => Seq::empty(),
    };
    let glob = match a.string("glob"@) {
        Some(g) => "  ("@ + g + ")"@,
        None => Seq::empty(),
    };
    let h = search_line(a);
    assert(h =~= p + scope + glob);
    assert(h.take(p.len() as int) =~= p);
    text::lemma_holds_itself(scope);
    text::lemma_part_holds(p, scope, glob, scope);
    text::lemma_holds_itself(glob);
    text::lemma_part_holds(p + scope, glob, Seq::empty(), glob);
    assert(p + scope + glob + Seq::<char>::empty() =~= h);
    if lacks(m, "path"@) && lacks(m, "glob"@) {
        assert(h =~= p);
    }
}

/// A shell call shows its command, whole, in place of a headline, and it is the command
/// that is found in it; no other tool has one.
pub proof fn law_a_shell_call_shows_its_command(
    name: Seq<char>,
    m: Seq<(Seq<char>, ArgView)>,
    i: int,
)
    ensures
        stands_for(m, "command"@, i) ==> (m[i].1.text matches Some(c) ==> {
            let d = display("shell"@, ArgsView::Object(m));
            &&& d.headline.len() == 0
            &&& d.body matches ToolBodyView::Shell { command } && command == c
            &&& shell_command("shell"@, ArgsView::Object(m)) == Some(c)
        }),
        lacks(m, "command"@) ==> shell_command("shell"@, ArgsView::Object(m)) is None && (display(
            "shell"@,
            ArgsView::Object(m),
        ).body matches ToolBodyView::Shell { command } && command.len() == 0),
        name != "shell"@ ==> shell_command(name, ArgsView::Object(m)) is None && !(display(
            name,
            ArgsView::Object(m),
        ).body is Shell),
{
    lemma_names();
    law_a_member_is_found_by_its_key(m, "command"@, i);
}

/// A git call is shown on one line: its subcommand first, and behind it each of its
/// arguments that is a text.
pub proof fn law_a_git_call_shows_its_words(
    m: Seq<(Seq<char>, ArgView)>,
    i: int,
    j: int,
    k: int,
)
    ensures
        ({
            let d = display("git"@, ArgsView::Object(m));
            &&& d.body is Text
            &&& stands_for(m, "subcommand"@, i) ==> (m[i].1.text matches Some(s)
                ==> text::starts_with(d.headline, s) && (lacks(m, "args"@) ==> d.headline == s))
            &&& stands_for(m, "args"@, j) ==> (m[j].1.items matches Some(items) ==> (0 <= k
                < items.len() ==> (items[k] matches Some(w) ==> (w.len() > 0 ==> text::contains(
                d.headline,
                w,
            )))))
        }),
{
    lemma_names();
    law_a_member_is_found_by_its_key(m, "subcommand"@, i);
    law_a_member_is_found_by_its_key(m, "args"@, j);
    let a = ArgsView::Object(m);
    let sub = text_or(a.string("subcommand"@), Seq::empty());
    let h = git_line(a);
    assert(h.take(sub.len() as int) =~= sub);
    if stands_for(m, "args"@, j) && m[j].1.items is Some {
        let items = m[j].1.items->0;
        if 0 <= k < items.len() && items[k] is Some && items[k]->0.len() > 0 {
            let w = items[k]->0;
            lemma_item_text(items, k);
            let texts = item_texts(items);
            let x = choose|x: int| 0 <= x < texts.len() && texts[x] == w;
            text::law_join_holds_every_part(texts, " "@, x);
            let rest = text::join(texts, " "@);
            assert(rest.len() > 0) by {
                let o = choose|o: int| text::occurs_at(rest, w, o);
                assert(text::occurs_at(rest, w, o));
            }
            text::lemma_part_holds(sub + " "@, rest, Seq::empty(), w);
            assert(sub + " "@ + rest + Seq::<char>::empty() =~= h);
        }
    }
}

proof fn lemma_item_text(items: Seq<Option<Seq<char>>>, k: int)
    requires
        0 <= k < items.len(),
        items[k] is Some,
    ensures
        item_texts(items).contains(items[k]->0),
    decreases items.len(),
{
    let rest = items.drop_last();
    if k == items.len() - 1 {
        let all = item_texts(items);
        assert(all[all.len() - 1] == items[k]->0);
    } else {
        lemma_item_text(rest, k);
        let x = choose|x: int| 0 <= x < item_texts(rest).len() && item_texts(rest)[x] == items[k]->0;
        assert(rest[k] == items[k]);
        assert(item_texts(items)[x] == items[k]->0);
    }
}

/// A call of any other tool shows each of its arguments, in order, under its own name and
/// with every letter of its value: a text bare, anything else as compact JSON.
pub proof fn law_any_other_call_shows_its_arguments(
    name: Seq<char>,
    m: Seq<(Seq<char>, ArgView)>,
    i: int,
)
    requires
        name != "shell"@ && name != "write"@ && name != "edit"@ && name != "read"@,
        name != "grep"@ && name != "find"@ && name != "ls"@ && name != "tree"@,
        name != "todo"@ && name != "git"@,
        0 <= i < m.len(),
    ensures
        ({
            let d = display(name, ArgsView::Object(m));
            &&& d.headline.len() == 0
            &&& d.body matches ToolBodyView::Details(rows) && rows.len() == m.len() && rows[i].0
                == m[i].0 && ({
                let value = match m[i].1.text {
                    Some(t) => t,
                    None => m[i].1.compact,
                };
                &&& rows[i].1 == text::join(text::words(value), seq![' '])
                &&& value.len() > 0 && !text::has_white(value) ==> rows[i].1 == value
            })
        }),
{
    reveal_strlit(" ");
    assert(" "@ =~= seq![' ']);
    let value = match m[i].1.text {
        Some(t) => t,
        None => m[i].1.compact,
    };
    if value.len() > 0 && !text::has_white(value) {
        lemma_one_word(value);
    }
}

proof fn lemma_one_word(s: Seq<char>)
    requires
        s.len() > 0,
        !text::has_white(s),
    ensures
        text::words(s) == seq![s],
{
    assert(!text::is_white(s[0]));
    text::lemma_word_len(s);
    if text::word_len(s) < s.len() {
        assert(text::is_white(s[text::word_len(s) as int]));
    }
    assert(s.take(s.len() as int) =~= s);
    let rest = s.skip(s.len() as int);
    assert(rest.len() == 0);
    assert(text::words(rest) =~= Seq::empty());
    assert(text::words(s) =~= seq![s]);
}

/// The TODO tool shows neither a headline nor a body of its own, and what is not a JSON
/// document shows no arguments.
pub proof fn law_what_says_nothing_shows_nothing(name: Seq<char>)
    ensures
        display("todo"@, ArgsView::Null).headline.len() == 0,
        display("todo"@, ArgsView::Null).body is Text,
        display(name, ArgsView::Null).body matches ToolBodyView::Details(rows) ==> rows.len() == 0,
{
    lemma_names();
}

/// The extension of a file is what follows the last dot of its name, whatever directory it
/// is in.
pub proof fn law_an_extension_follows_the_last_dot(
    dir: Seq<char>,
    stem: Seq<char>,
    ext: Seq<char>,
)
    requires
        dir.len() == 0 || dir.last() == '/',
        stem.len() > 0,
        ext.len() > 0,
        !stem.contains('/'),
        !ext.contains('/'),
        !ext.contains('.'),
    ensures
        extension(dir + stem + seq!['.'] + ext) == ext,
{
    let name = stem + seq!['.'] + ext;
    let path = dir + stem + seq!['.'] + ext;
    assert(path =~= dir + name);
    assert(!name.contains('/')) by {
        if name.contains('/') {
            let i = choose|i: int| 0 <= i < name.len() && name[i] == '/';
            if i < stem.len() {
                assert(stem[i] == '/');
            } else if i > stem.len() {
                assert(ext[i - stem.len() - 1] == '/');
            }
        }
    }
    lemma_last_part(dir, name);
    reveal_strlit(".");
    reveal_strlit("..");
    assert(name.len() >= 3);
    lemma_last_dot(stem, ext);
    assert(name.skip(stem.len() as int + 1) =~= ext);
}

proof fn lemma_last_part(dir: Seq<char>, name: Seq<char>)
    requires
        dir.len() == 0 || dir.last() == '/',
        !name.contains('/'),
    ensures
        text::split_on(dir + name, '/').last() == name,
    decreases name.len(),
{
    let all = dir + name;
    text::lemma_split_on_nonempty(all, '/');
    if name.len() == 0 {
        assert(all =~= dir);
        if dir.len() == 0 {
            assert(text::split_on(all, '/').last() =~= name);
        } else {
            text::lemma_split_on_nonempty(all.drop_last(), '/');
            assert(text::split_on(all, '/').last() =~= name);
        }
    } else {
        assert(all.drop_last() =~= dir + name.drop_last());
        assert(!name.drop_last().contains('/')) by {
            if name.drop_last().contains('/') {
                let i = choose|i: int| 0 <= i < name.len() - 1 && name.drop_last()[i] == '/';
                assert(name[i] == '/');
            }
        }
        lemma_last_part(dir, name.drop_last());
        assert(name[name.len() - 1] == name.last());
        assert(all.last() == name.last());
        assert(name.drop_last().push(name.last()) =~= name);
    }
}

proof fn lemma_last_dot(stem: Seq<char>, ext: Seq<char>)
    requires
        !ext.contains('.'),
    ensures
        text::last_index(stem + seq!['.'] + ext, '.') == Some(stem.len() as int),
    decreases ext.len(),
{
    let s = stem + seq!['.'] + ext;
    if ext.len() > 0 {
        assert(ext[ext.len() - 1] == ext.last());
        assert(s.last() == ext.last());
        assert(s.drop_last() =~= stem + seq!['.'] + ext.drop_last());
        assert(!ext.drop_last().contains('.')) by {
            if ext.drop_last().contains('.') {
                let i = choose|i: int| 0 <= i < ext.len() - 1 && ext.drop_last()[i] == '.';
                assert(ext[i] == '.');
            }
        }
        lemma_last_dot(stem, ext.drop_last());
    } else {
        assert(s.last() == '.');
    }
}

} // verus!
