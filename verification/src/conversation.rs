//! A conversation written out, for the user to keep.
use crate::chat;
use crate::chat::{ChatMessage, MessageView, Role};
use crate::json;
use crate::text;
use crate::text::{cat, cat3, decimal_string, str_eq, str_lines, str_trim_end, str_words};
use vstd::prelude::*;

verus! {

// ---------------------------------------------------------------------------
// Markdown
// ---------------------------------------------------------------------------

/// What a message says in the conversation between the user and the assistant: who
/// speaks, and what.
pub open spec fn section(m: MessageView) -> Seq<char> {
    match (m.role, m.content) {
        (Role::User, Some(c)) => "## User\n"@ + c + "\n\n"@,
        (Role::Assistant, Some(c)) => if c.len() > 0 {
            "## Assistant\n"@ + c + "\n\n"@
        } else {
            Seq::empty()
        },
        _ => Seq::empty(),
    }
}

/// The first `n` messages as Markdown.
pub open spec fn sections(msgs: Seq<MessageView>, n: int) -> Seq<char>
    decreases n,
{
    if n <= 0 {
        Seq::empty()
    } else {
        sections(msgs, n - 1) + section(msgs[n - 1])
    }
}

/// The conversation as Markdown.
pub open spec fn markdown(msgs: Seq<MessageView>) -> Seq<char> {
    text::trim_end(sections(msgs, msgs.len() as int))
}

fn section_text(m: &ChatMessage) -> (r: String)
    ensures
        r@ == section(m@),
{
    let none = String::new();
    assert(none@ =~= Seq::empty());
    match &m.content {
        Some(c) => match m.role {
            Role::User => cat3("## User\n", c.as_str(), "\n\n"),
            Role::Assistant => if !c.as_str().is_empty() {
                cat3("## Assistant\n", c.as_str(), "\n\n")
            } else {
                none
            },
            _ => none,
        },
        None => none,
    }
}

/// The conversation between the user and the assistant, as Markdown.
pub fn conversation_to_markdown(msgs: &Vec<ChatMessage>) -> (r: String)
    ensures
        r@ == markdown(chat::messages(msgs@)),
{
    let ghost all = chat::messages(msgs@);
    let mut out = String::new();
    assert(out@ =~= Seq::empty());
    for i in 0..msgs.len()
        invariant
            all == chat::messages(msgs@),
            out@ == sections(all, i as int),
    {
        assert(all[i as int] == msgs@[i as int]@);
        out.append(section_text(&msgs[i]).as_str());
    }
    str_trim_end(out.as_str())
}

// ---------------------------------------------------------------------------
// JSON
// ---------------------------------------------------------------------------

/// A member of a JSON object.
#[derive(Debug, Clone, PartialEq, Eq)]
pub enum JsonScalar<S = String> {
    Number(u64),
    Text(S),
}

impl View for JsonScalar<String> {
    type V = JsonScalar<Seq<char>>;

    open spec fn view(&self) -> JsonScalar<Seq<char>> {
        match self {
            JsonScalar::Number(n) => JsonScalar::Number(*n),
            JsonScalar::Text(t) => JsonScalar::Text(t@),
        }
    }
}

/// The view of an object.
pub open spec fn object_view(o: Seq<(String, JsonScalar)>) -> Seq<
    (Seq<char>, JsonScalar<Seq<char>>),
> {
    Seq::new(o.len(), |i: int| (o[i].0@, o[i].1@))
}

/// The view of an array of objects.
pub open spec fn array_view(a: Seq<Vec<(String, JsonScalar)>>) -> Seq<
    Seq<(Seq<char>, JsonScalar<Seq<char>>)>,
> {
    Seq::new(a.len(), |i: int| object_view(a[i]@))
}

/// What `serde_json::to_string_pretty` writes for an array of objects, or what it says is
/// wrong with it.
pub uninterp spec fn pretty_json(
    rows: Seq<Seq<(Seq<char>, JsonScalar<Seq<char>>)>>,
) -> Result<Seq<char>, Seq<char>>;

/// The view of a written text or an error's text.
pub open spec fn written_view(r: Result<String, String>) -> Result<Seq<char>, Seq<char>> {
    match r {
        Ok(s) => Ok(s@),
        Err(e) => Err(e@),
    }
}

/// `serde_json::to_string_pretty` of an array of objects with these members: the text, or
/// its error as text. The result depends on the members alone.
#[verifier::external_body]
fn write_array(rows: &Vec<Vec<(String, JsonScalar)>>) -> (r: Result<String, String>)
    ensures
        written_view(r) == pretty_json(array_view(rows@)),
{
    let value = |v: &JsonScalar| match v {
        JsonScalar::Number(n) => serde_json::Value::from(*n),
        JsonScalar::Text(t) => serde_json::Value::from(t.as_str()),
    };
    let object = |o: &Vec<(String, JsonScalar)>| {
        o.iter().map(|(k, v)| (k.clone(), value(v))).collect::<serde_json::Map<_, _>>()
    };
    let all: Vec<_> = rows.iter().map(object).collect();
    serde_json::to_string_pretty(&all).map_err(|e| e.to_string())
}

/// Who speaks in a message, where it is part of the conversation, and what they say.
pub open spec fn spoken(m: MessageView) -> Option<(Seq<char>, Seq<char>)> {
    match (m.role, m.content) {
        (Role::User, Some(c)) => if c.len() > 0 {
            Some(("user"@, c))
        } else {
            None
        },
        (Role::Assistant, Some(c)) => if c.len() > 0 {
            Some(("assistant"@, c))
        } else {
            None
        },
        _ => None,
    }
}

/// The object of one message.
pub open spec fn message_row(n: nat, role: Seq<char>, content: Seq<char>) -> Seq<
    (Seq<char>, JsonScalar<Seq<char>>),
> {
    seq![
        ("n"@, JsonScalar::Number(n as u64)),
        ("role"@, JsonScalar::Text(role)),
        ("content"@, JsonScalar::Text(content)),
    ]
}

/// The objects of the first `n` messages, numbered from one.
pub open spec fn message_rows(msgs: Seq<MessageView>, n: int) -> Seq<
    Seq<(Seq<char>, JsonScalar<Seq<char>>)>,
>
    decreases n,
{
    if n <= 0 {
        Seq::empty()
    } else {
        let before = message_rows(msgs, n - 1);
        match spoken(msgs[n - 1]) {
            Some((role, content)) => before.push(message_row(before.len() + 1, role, content)),
            None => before,
        }
    }
}

/// What is written where the conversation cannot be.
pub open spec fn or_empty_array(r: Result<Seq<char>, Seq<char>>) -> Seq<char> {
    match r {
        Ok(s) => s,
        Err(_) => "[]"@,
    }
}

fn said(m: &ChatMessage) -> (r: Option<(&'static str, String)>)
    ensures
        match r {
            Some((role, content)) => spoken(m@) == Some((role@, content@)),
            None => spoken(m@) is None,
        },
{
    match &m.content {
        Some(c) => if c.as_str().is_empty() {
            None
        } else {
            match m.role {
                Role::User => Some(("user", c.clone())),
                Role::Assistant => Some(("assistant", c.clone())),
                _ => None,
            }
        },
        None => None,
    }
}

/// The conversation as an array of objects: each message's number, who speaks, and what
/// they say.
pub fn conversation_rows(msgs: &Vec<ChatMessage>) -> (r: Vec<Vec<(String, JsonScalar)>>)
    ensures
        array_view(r@) == message_rows(chat::messages(msgs@), msgs@.len() as int),
{
    let ghost all = chat::messages(msgs@);
    let mut out: Vec<Vec<(String, JsonScalar)>> = Vec::new();
    assert(array_view(out@) =~= Seq::empty());
    for i in 0..msgs.len()
        invariant
            all == chat::messages(msgs@),
            out@.len() <= i,
            array_view(out@) == message_rows(all, i as int),
    {
        assert(all[i as int] == msgs@[i as int]@);
        if let Some((role, content)) = said(&msgs[i]) {
            let ghost before = array_view(out@);
            let n: u64 = out.len() as u64 + 1;
            let mut row: Vec<(String, JsonScalar)> = Vec::new();
            row.push(("n".to_string(), JsonScalar::Number(n)));
            row.push(("role".to_string(), JsonScalar::Text(role.to_string())));
            row.push(("content".to_string(), JsonScalar::Text(content)));
            assert(object_view(row@) =~= message_row(before.len() + 1, role@, content@));
            out.push(row);
            assert(array_view(out@) =~= before.push(object_view(row@)));
        }
    }
    out
}

/// The conversation as JSON.
pub fn conversation_to_json(msgs: &Vec<ChatMessage>) -> (r: String)
    ensures
        r@ == or_empty_array(
            pretty_json(message_rows(chat::messages(msgs@), msgs@.len() as int)),
        ),
{
    let rows = conversation_rows(msgs);
    match write_array(&rows) {
        Ok(s) => s,
        Err(_) => "[]".to_string(),
    }
}

/// Only what the user and the assistant said is written, in order and under running
/// numbers.
pub proof fn law_only_the_conversation_is_written(msgs: Seq<MessageView>, n: int)
    requires
        0 <= n <= msgs.len(),
    ensures
        message_rows(msgs, n).len() <= n,
        forall|i: int|
            0 <= i < message_rows(msgs, n).len() ==> (#[trigger] message_rows(msgs, n)[i])[0]
                == ("n"@, JsonScalar::<Seq<char>>::Number((i + 1) as u64)),
        (forall|i: int| 0 <= i < n ==> spoken(#[trigger] msgs[i]) is None) ==> message_rows(
            msgs,
            n,
        ).len() == 0,
    decreases n,
{
    if n > 0 {
        law_only_the_conversation_is_written(msgs, n - 1);
    }
}

// ---------------------------------------------------------------------------
// Where it is written
// ---------------------------------------------------------------------------

/// What is said of an export with too many arguments.
pub const EXPORT_USAGE: &'static str = "usage: /export [--json] <file>";

/// Where and how a conversation is to be written.
#[derive(Debug, Clone, PartialEq, Eq)]
pub struct ExportTarget {
    pub json: bool,
    /// The file; `None` for one named after the time.
    pub file: Option<String>,
}

/// The names among the words of an export's argument.
pub open spec fn file_words(words: Seq<Seq<char>>) -> Seq<Seq<char>> {
    words.filter(|w: Seq<char>| w != "--json"@)
}

/// Whether a name ends in `.json`.
pub open spec fn named_json(name: Seq<char>) -> bool {
    name.len() >= ".json"@.len() && name.skip(name.len() - ".json"@.len()) == ".json"@
}

/// Where and how an argument of `/export` has the conversation written. Too many names
/// are refused; a name that ends in `.json` asks for JSON as the flag does.
pub open spec fn target_of(arg: Seq<char>) -> Option<(bool, Option<Seq<char>>)> {
    let words = text::words(arg);
    let files = file_words(words);
    if files.len() > 1 {
        None
    } else if files.len() == 1 {
        Some((words.contains("--json"@) || named_json(files[0]), Some(files[0])))
    } else {
        Some((words.contains("--json"@), None))
    }
}

fn ends_json(name: &str) -> (r: bool)
    ensures
        r == named_json(name@),
{
    let v = text::chars_of(name);
    let end = text::chars_of(".json");
    if v.len() < end.len() {
        return false;
    }
    let at: usize = v.len() - end.len();
    assert(v@.subrange(at as int, at + end@.len()) =~= v@.skip(at as int));
    text::occurs_at_index(&v, &end, at)
}

/// Where and how an argument of `/export` has the conversation written.
pub fn export_target(arg: &str) -> (r: Result<ExportTarget, String>)
    ensures
        match r {
            Ok(t) => target_of(arg@) == Some((t.json, json::opt_view(t.file))),
            Err(e) => target_of(arg@) is None && e@ == EXPORT_USAGE@,
        },
{
    let words = str_words(arg);
    let ghost all = text::words(arg@);
    let ghost keep = |w: Seq<char>| w != "--json"@;
    let mut flag: bool = false;
    let mut files: Vec<String> = Vec::new();
    assert(all.take(0).filter(keep) =~= Seq::empty()) by {
        reveal(Seq::filter);
    }
    assert(text::views(files@) =~= Seq::empty());
    for i in 0..words.len()
        invariant
            all == text::views(words@),
            keep == (|w: Seq<char>| w != "--json"@),
            flag == all.take(i as int).contains("--json"@),
            text::views(files@) == all.take(i as int).filter(keep),
    {
        let ghost before = text::views(files@);
        let ghost word = all[i as int];
        proof {
            reveal(Seq::filter);
            assert(word == words@[i as int]@);
            assert(all.take(i + 1).drop_last() =~= all.take(i as int));
            assert(all.take(i + 1).last() == word);
            assert(all.take(i + 1) =~= all.take(i as int).push(word));
        }
        proof {
            text::lemma_contains_push(all.take(i as int), word, "--json"@);
        }
        if str_eq(words[i].as_str(), "--json") {
            flag = true;
        } else {
            files.push(words[i].clone());
            assert(text::views(files@) =~= before.push(word));
        }
    }
    assert(all.take(all.len() as int) =~= all);
    assert(files@.len() == file_words(all).len()) by {
        assert(text::views(files@).len() == files@.len());
    }
    if files.len() > 1 {
        return Err(EXPORT_USAGE.to_string());
    }
    if files.len() == 1 {
        assert(file_words(all)[0] == files@[0]@);
        Ok(
            ExportTarget {
                json: flag || ends_json(files[0].as_str()),
                file: Some(files[0].clone()),
            },
        )
    } else {
        Ok(ExportTarget { json: flag, file: None })
    }
}

/// The name of a file for the conversation, after the time `stamp`.
pub fn default_export_name(stamp: &str, json: bool) -> (r: String)
    ensures
        r@ == "hrdr-transcript-"@ + stamp@ + (if json {
            ".json"@
        } else {
            ".md"@
        }),
{
    cat3(
        "hrdr-transcript-",
        stamp,
        if json {
            ".json"
        } else {
            ".md"
        },
    )
}

/// What is written.
pub fn export_content(msgs: &Vec<ChatMessage>, json: bool) -> (r: String)
    ensures
        r@ == (if json {
            or_empty_array(pretty_json(message_rows(chat::messages(msgs@), msgs@.len() as int)))
        } else {
            markdown(chat::messages(msgs@))
        }),
{
    if json {
        conversation_to_json(msgs)
    } else {
        conversation_to_markdown(msgs)
    }
}

/// What came of writing a file.
#[derive(Debug, Clone, PartialEq, Eq)]
pub enum WriteOutcome<S = String> {
    Written,
    /// There was a file of that name already.
    Exists,
    /// What went wrong.
    Failed(S),
}

impl View for WriteOutcome<String> {
    type V = WriteOutcome<Seq<char>>;

    open spec fn view(&self) -> WriteOutcome<Seq<char>> {
        match self {
            WriteOutcome::Written => WriteOutcome::Written,
            WriteOutcome::Exists => WriteOutcome::Exists,
            WriteOutcome::Failed(e) => WriteOutcome::Failed(e@),
        }
    }
}

/// What an export came to: the file and its lines, or why there is none. A file that is
/// there already is never written over.
pub fn export_conversation(path: &str, content: &str, outcome: &WriteOutcome) -> (r: Result<
    (String, usize),
    String,
>)
    ensures
        match outcome@ {
            WriteOutcome::Written => r matches Ok((p, n)) && p@ == path@ && n == text::lines(
                content@,
            ).len(),
            WriteOutcome::Exists => r matches Err(e) && e@
                == "refusing to overwrite existing file "@ + path@,
            WriteOutcome::Failed(why) => r matches Err(e) && e@ == why,
        },
{
    match outcome {
        WriteOutcome::Written => {
            let lines = str_lines(content);
            assert(text::views(lines@).len() == lines@.len());
            Ok((path.to_string(), lines.len()))
        },
        WriteOutcome::Exists => Err(cat("refusing to overwrite existing file ", path)),
        WriteOutcome::Failed(e) => Err(e.clone()),
    }
}

/// What is said of an export.
pub fn export_message(outcome: &Result<(String, usize), String>) -> (r: String)
    ensures
        r@ == (match *outcome {
            Ok((path, lines)) => "exported transcript to "@ + path@ + " ("@ + text::decimal(
                lines as nat,
            ) + " lines)"@,
            Err(e) => "export failed: "@ + e@,
        }),
{
    match outcome {
        Ok((path, lines)) => {
            let mut s = cat3("exported transcript to ", path.as_str(), " (");
            s.append(decimal_string(*lines as u64).as_str());
            s.append(" lines)");
            s
        },
        Err(e) => cat("export failed: ", e.as_str()),
    }
}

/// What the user and the assistant said is all in the Markdown, under the heading of who
/// said it, and nothing else is.
#[verifier::rlimit(40)]
pub proof fn law_markdown_holds_what_was_said(msgs: Seq<MessageView>, n: int, i: int)
    requires
        0 <= i < n <= msgs.len(),
    ensures
        msgs[i].content matches Some(c) ==> {
            &&& msgs[i].role == Role::User ==> text::contains(sections(msgs, n), "## User\n"@ + c)
            &&& msgs[i].role == Role::Assistant && c.len() > 0 ==> text::contains(
                sections(msgs, n),
                "## Assistant\n"@ + c,
            )
        },
        msgs[i].role == Role::System || msgs[i].role == Role::Tool || msgs[i].content is None
            ==> section(msgs[i]).len() == 0,
    decreases n,
{
    let e = Seq::<char>::empty();
    let before = sections(msgs, n - 1);
    let last = section(msgs[n - 1]);
    let said = (if msgs[i].role == Role::User {
        "## User\n"@
    } else {
        "## Assistant\n"@
    }) + (match msgs[i].content {
        Some(c) => c,
        None => e,
    });
    if i == n - 1 {
        text::lemma_holds_itself(said);
        text::lemma_part_holds(before, said, "\n\n"@, said);
        if last.len() > 0 {
            assert(before + said + "\n\n"@ =~= sections(msgs, n));
        }
        if msgs[i].role == Role::User && msgs[i].content is Some {
            assert(before + said + "\n\n"@ =~= sections(msgs, n));
        }
        if msgs[i].role == Role::Assistant && (msgs[i].content matches Some(c) && c.len() > 0) {
            assert(before + said + "\n\n"@ =~= sections(msgs, n));
        }
    } else {
        law_markdown_holds_what_was_said(msgs, n - 1, i);
        if text::contains(before, said) {
            text::lemma_part_holds(e, before, last, said);
            assert(e + before + last =~= sections(msgs, n));
        }
    }
}

/// Who speaks is told as who they are, and what they say as they said it.
pub proof fn law_speakers_are_told_apart(m: MessageView, c: Seq<char>)
    requires
        m.content == Some(c),
        c.len() > 0,
    ensures
        m.role == Role::User ==> spoken(m) == Some((seq!['u', 's', 'e', 'r'], c)),
        m.role == Role::Assistant ==> spoken(m) == Some(
            (seq!['a', 's', 's', 'i', 's', 't', 'a', 'n', 't'], c),
        ),
        m.role == Role::System || m.role == Role::Tool ==> spoken(m) is None,
{
    reveal_strlit("user");
    reveal_strlit("assistant");
    assert("user"@ =~= seq!['u', 's', 'e', 'r']);
    assert("assistant"@ =~= seq!['a', 's', 's', 'i', 's', 't', 'a', 'n', 't']);
}

/// An export is JSON where the flag or the ending of the file's name asks for it, goes to
/// the one file that is named, and is refused where several are.
pub proof fn law_where_an_export_goes(arg: Seq<char>, i: int, j: int)
    ensures
        ({
            let words = text::words(arg);
            &&& 0 <= i < j < words.len() && words[i] != "--json"@ && words[j] != "--json"@
                ==> target_of(arg) is None
            &&& target_of(arg) matches Some((as_json, file)) ==> {
                &&& 0 <= i < words.len() && words[i] == "--json"@ ==> as_json
                &&& 0 <= i < words.len() && words[i] != "--json"@ ==> file == Some(words[i])
                &&& file matches Some(f) ==> words.contains(f) && f != "--json"@ && (f.len() >= 5
                    && f.skip(f.len() - 5) == seq!['.', 'j', 's', 'o', 'n'] ==> as_json)
                &&& as_json ==> words.contains("--json"@) || (file matches Some(f) && f.len() >= 5
                    && f.skip(f.len() - 5) == seq!['.', 'j', 's', 'o', 'n'])
            }
        }),
{
    let words = text::words(arg);
    let files = file_words(words);
    let p = |w: Seq<char>| w != "--json"@;
    reveal_strlit(".json");
    assert(".json"@ =~= seq!['.', 'j', 's', 'o', 'n']);
    assert(".json"@.len() == 5);
    if 0 <= i < words.len() && words[i] != "--json"@ {
        words.lemma_filter_contains(p, i);
    }
    if files.len() > 0 {
        words.lemma_filter_pred(p, 0);
        assert(files.contains(files[0]));
        words.lemma_filter_contains_rev(p, files[0]);
    }
    if 0 <= i < words.len() && words[i] == "--json"@ {
        assert(words.contains("--json"@));
    }
    if 0 <= i < j < words.len() && words[i] != "--json"@ && words[j] != "--json"@ {
        lemma_two_kept(words, p, i, j);
    }
}

proof fn lemma_two_kept(s: Seq<Seq<char>>, p: spec_fn(Seq<char>) -> bool, i: int, j: int)
    requires
        0 <= i < j < s.len(),
        p(s[i]),
        p(s[j]),
    ensures
        s.filter(p).len() >= 2,
    decreases s.len(),
{
    reveal(Seq::filter);
    let rest = s.drop_last();
    if j < s.len() - 1 {
        lemma_two_kept(rest, p, i, j);
    } else {
        rest.lemma_filter_contains(p, i);
    }
}

/// Every message of the user and of the assistant that says something has an object, in
/// their order, numbered from one, with who speaks and what; no other message has one.
pub proof fn law_messages_are_numbered_from_one(msgs: Seq<MessageView>, n: int, i: int)
    requires
        0 <= i < n <= msgs.len() <= u64::MAX,
    ensures
        message_rows(msgs, n).len() <= n,
        forall|k: int|
            0 <= k < message_rows(msgs, n).len() ==> (#[trigger] message_rows(msgs, n)[k])[0].1
                == JsonScalar::<Seq<char>>::Number((k + 1) as u64),
        spoken(msgs[i]) matches Some((role, content)) ==> exists|k: int|
            0 <= k < message_rows(msgs, n).len() && (#[trigger] message_rows(msgs, n)[k])[1].1
                == JsonScalar::Text(role) && message_rows(msgs, n)[k][2].1 == JsonScalar::Text(
                content,
            ),
        (forall|k: int| 0 <= k < n ==> spoken(#[trigger] msgs[k]) is None) ==> message_rows(
            msgs,
            n,
        ).len() == 0,
    decreases n,
{
    let before = message_rows(msgs, n - 1);
    let all = message_rows(msgs, n);
    if n > 1 {
        law_messages_are_numbered_from_one(
            msgs,
            n - 1,
            if i < n - 1 {
                i
            } else {
                0
            },
        );
    }
    assert forall|k: int| 0 <= k < all.len() implies (#[trigger] all[k])[0].1 == JsonScalar::<
        Seq<char>,
    >::Number((k + 1) as u64) by {
        if k < before.len() {
            assert(all[k] == before[k]);
        }
    }
    if let Some((role, content)) = spoken(msgs[i]) {
        if i < n - 1 {
            let k = choose|k: int|
                0 <= k < before.len() && (#[trigger] before[k])[1].1 == JsonScalar::Text(role)
                    && before[k][2].1 == JsonScalar::Text(content);
            assert(all[k] == before[k]);
        } else {
            assert(all.last() == message_row(before.len() + 1, role, content));
            assert(all[all.len() - 1][1].1 == JsonScalar::Text(role));
        }
    }
}

} // verus!
