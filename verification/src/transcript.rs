//! The transcript: what a conversation shows, entry by entry, and how the events of
//! an agent's run build it up. What counts as a message, how a search matches and how
//! the transcript reads as text are decided here.
use crate::clock::{local_now, Moment};
use crate::completion;
use crate::event::{AgentEvent, EventView};
use crate::text;
use crate::text::{chars_contain, chars_of, str_eq, str_lower, str_trim_end};
use std::collections::hash_map::DefaultHasher;
use std::hash::Hasher;
use vstd::prelude::*;
use vstd::std_specs::hash::DefaultHasherAdditionalSpecFns;

verus! {

/// What an [`Entry`] holds. `S` is the text: a `String` in running code, a sequence of
/// characters in contracts.
#[derive(Debug, Clone, PartialEq, Eq)]
pub enum EntryKind<S = String> {
    /// The session banner. It carries no data: its details are read when it is shown.
    Header,
    User(S),
    Assistant(S),
    /// A block of the model's thinking. `took_ms` is set when the block ends; while it
    /// is `None` the block is still streaming.
    Reasoning { text: S, took_ms: Option<u64> },
    Tool {
        id: S,
        name: S,
        args: S,
        result: S,
        ok: bool,
        done: bool,
        /// Whether the full result is shown. View state only.
        expanded: bool,
    },
    System(S),
    /// Session chrome, never kept with a session.
    Notice(S),
    /// The statistics line of a finished turn.
    Stats(S),
    /// A unified diff.
    Diff(S),
}

/// One item of the transcript, with the time it was added.
#[derive(Debug, Clone)]
pub struct Entry<S = String> {
    pub kind: EntryKind<S>,
    pub time: Moment,
    /// A hash of what affects how the entry is drawn: neither its time, nor how long a
    /// reasoning block took, nor whether a tool's result is expanded.
    pub content_hash: u64,
}

impl View for EntryKind<String> {
    type V = EntryKind<Seq<char>>;

    open spec fn view(&self) -> EntryKind<Seq<char>> {
        match self {
            EntryKind::Header => EntryKind::Header,
            EntryKind::User(s) => EntryKind::User(s@),
            EntryKind::Assistant(s) => EntryKind::Assistant(s@),
            EntryKind::Reasoning { text, took_ms } => EntryKind::Reasoning {
                text: text@,
                took_ms: *took_ms,
            },
            EntryKind::Tool { id, name, args, result, ok, done, expanded } => EntryKind::Tool {
                id: id@,
                name: name@,
                args: args@,
                result: result@,
                ok: *ok,
                done: *done,
                expanded: *expanded,
            },
            EntryKind::System(s) => EntryKind::System(s@),
            EntryKind::Notice(s) => EntryKind::Notice(s@),
            EntryKind::Stats(s) => EntryKind::Stats(s@),
            EntryKind::Diff(s) => EntryKind::Diff(s@),
        }
    }
}

impl View for Entry<String> {
    type V = Entry<Seq<char>>;

    open spec fn view(&self) -> Entry<Seq<char>> {
        Entry { kind: self.kind@, time: self.time, content_hash: self.content_hash }
    }
}

/// The views of a transcript's entries.
pub open spec fn entries(t: Seq<Entry>) -> Seq<Entry<Seq<char>>> {
    Seq::new(t.len(), |i: int| t[i]@)
}

// ---------------------------------------------------------------------------
// Content hashes
// ---------------------------------------------------------------------------

/// What hashing a string writes: its bytes, and a byte that no string holds.
pub open spec fn text_writes(t: Seq<char>) -> Seq<Seq<u8>> {
    seq![vstd::utf8::encode_utf8(t), seq![0xFFu8]]
}

/// What hashing a flag writes.
pub open spec fn flag_writes(b: bool) -> Seq<Seq<u8>> {
    seq![seq![if b { 1u8 } else { 0u8 }]]
}

/// What hashing an entry's content writes.
pub open spec fn kind_writes(kind: EntryKind<Seq<char>>) -> Seq<Seq<u8>> {
    match kind {
        EntryKind::Header => Seq::empty(),
        EntryKind::Reasoning { text, .. } => text_writes(text),
        EntryKind::User(t) => text_writes(t),
        EntryKind::Assistant(t) => text_writes(t),
        EntryKind::System(t) => text_writes(t),
        EntryKind::Notice(t) => text_writes(t),
        EntryKind::Stats(t) => text_writes(t),
        EntryKind::Diff(t) => text_writes(t),
        EntryKind::Tool { name, args, result, ok, done, .. } => text_writes(name) + text_writes(
            args,
        ) + text_writes(result) + flag_writes(ok) + flag_writes(done),
    }
}

/// The hash of an entry's content.
pub open spec fn kind_hash(kind: EntryKind<Seq<char>>) -> u64 {
    DefaultHasher::spec_finish(kind_writes(kind))
}

/// Hash a string into `h`.
pub(crate) fn hash_text(h: &mut DefaultHasher, t: &str)
    ensures
        final(h)@ == old(h)@ + text_writes(t@),
{
    h.write(t.as_bytes());
    let end: [u8; 1] = [0xFF];
    h.write(end.as_slice());
    assert(end@ =~= seq![0xFFu8]);
    assert(h@ =~= old(h)@ + text_writes(t@));
}

fn hash_flag(h: &mut DefaultHasher, b: bool)
    ensures
        final(h)@ == old(h)@ + flag_writes(b),
{
    let byte: [u8; 1] = [if b { 1 } else { 0 }];
    h.write(byte.as_slice());
    assert(byte@ =~= seq![if b { 1u8 } else { 0u8 }]);
    assert(h@ =~= old(h)@ + flag_writes(b));
}

/// An entry of the given content and time.
pub open spec fn entry(kind: EntryKind<Seq<char>>, time: Moment) -> Entry<Seq<char>> {
    Entry { kind, time, content_hash: kind_hash(kind) }
}

impl Entry {
    /// The hash of an entry's content.
    pub fn kind_hash(kind: &EntryKind) -> (r: u64)
        ensures
            r == kind_hash(kind@),
    {
        let mut h = DefaultHasher::new();
        match kind {
            EntryKind::Header => {},
            EntryKind::Reasoning { text, .. } => hash_text(&mut h, text.as_str()),
            EntryKind::User(t) => hash_text(&mut h, t.as_str()),
            EntryKind::Assistant(t) => hash_text(&mut h, t.as_str()),
            EntryKind::System(t) => hash_text(&mut h, t.as_str()),
            EntryKind::Notice(t) => hash_text(&mut h, t.as_str()),
            EntryKind::Stats(t) => hash_text(&mut h, t.as_str()),
            EntryKind::Diff(t) => hash_text(&mut h, t.as_str()),
            EntryKind::Tool { name, args, result, ok, done, .. } => {
                hash_text(&mut h, name.as_str());
                hash_text(&mut h, args.as_str());
                hash_text(&mut h, result.as_str());
                hash_flag(&mut h, *ok);
                hash_flag(&mut h, *done);
            },
        }
        assert(h@ =~= kind_writes(kind@));
        h.finish()
    }

    /// An entry stamped with an explicit time.
    pub fn at(kind: EntryKind, time: Moment) -> (r: Self)
        ensures
            r@ == entry(kind@, time),
    {
        let content_hash: u64 = Self::kind_hash(&kind);
        Entry { kind, time, content_hash }
    }

    /// An entry stamped with the current time.
    pub fn now(kind: EntryKind) -> (r: Self)
        ensures
            r.time.wf(),
            r@ == entry(kind@, r.time),
    {
        Self::at(kind, local_now())
    }

    /// Bring `content_hash` up to date after the content changed in place.
    pub fn refresh_hash(&mut self)
        ensures
            final(self)@ == entry(old(self)@.kind, old(self)@.time),
    {
        self.content_hash = Self::kind_hash(&self.kind);
    }

    /// The banner that opens a new session.
    pub fn header() -> (r: Self)
        ensures
            r.time.wf(),
            r@ == entry(EntryKind::Header, r.time),
    {
        Self::now(EntryKind::Header)
    }

    pub fn user(text: &str) -> (r: Self)
        ensures
            r.time.wf(),
            r@ == entry(EntryKind::User(text@), r.time),
    {
        Self::now(EntryKind::User(text.to_string()))
    }

    pub fn assistant(text: &str) -> (r: Self)
        ensures
            r.time.wf(),
            r@ == entry(EntryKind::Assistant(text@), r.time),
    {
        Self::now(EntryKind::Assistant(text.to_string()))
    }

    /// A reasoning block that is still streaming.
    pub fn reasoning(text: &str) -> (r: Self)
        ensures
            r.time.wf(),
            r@ == entry(EntryKind::Reasoning { text: text@, took_ms: None }, r.time),
    {
        Self::now(EntryKind::Reasoning { text: text.to_string(), took_ms: None })
    }

    pub fn system(text: &str) -> (r: Self)
        ensures
            r.time.wf(),
            r@ == entry(EntryKind::System(text@), r.time),
    {
        Self::now(EntryKind::System(text.to_string()))
    }

    pub fn notice(text: &str) -> (r: Self)
        ensures
            r.time.wf(),
            r@ == entry(EntryKind::Notice(text@), r.time),
    {
        Self::now(EntryKind::Notice(text.to_string()))
    }

    pub fn stats(text: &str) -> (r: Self)
        ensures
            r.time.wf(),
            r@ == entry(EntryKind::Stats(text@), r.time),
    {
        Self::now(EntryKind::Stats(text.to_string()))
    }

    pub fn diff(text: &str) -> (r: Self)
        ensures
            r.time.wf(),
            r@ == entry(EntryKind::Diff(text@), r.time),
    {
        Self::now(EntryKind::Diff(text.to_string()))
    }

    /// A tool call that has not finished yet.
    pub fn tool_running(id: &str, name: &str, args: &str) -> (r: Self)
        ensures
            r.time.wf(),
            r@ == entry(
                EntryKind::Tool {
                    id: id@,
                    name: name@,
                    args: args@,
                    result: Seq::empty(),
                    ok: false,
                    done: false,
                    expanded: false,
                },
                r.time,
            ),
    {
        Self::now(
            EntryKind::Tool {
                id: id.to_string(),
                name: name.to_string(),
                args: args.to_string(),
                result: String::new(),
                ok: false,
                done: false,
                expanded: false,
            },
        )
    }

    /// The text of a user or assistant message, if this entry is one. Only these count
    /// as numbered messages.
    pub fn message_text(&self) -> (r: Option<&str>)
        ensures
            match r {
                Some(s) => message_text(self@) == Some(s@),
                None => message_text(self@) is None,
            },
    {
        match &self.kind {
            EntryKind::User(s) => Some(s.as_str()),
            EntryKind::Assistant(s) => Some(s.as_str()),
            _ => None,
        }
    }
}

// ---------------------------------------------------------------------------
// Restoring
// ---------------------------------------------------------------------------

/// `e` with a tool call that never finished marked as failed.
pub open spec fn settled(e: Entry<Seq<char>>) -> Entry<Seq<char>> {
    match e.kind {
        EntryKind::Tool { id, name, args, result, ok, done, expanded } => Entry {
            kind: EntryKind::Tool {
                id,
                name,
                args,
                result,
                ok: ok && done,
                done: true,
                expanded,
            },
            time: e.time,
            content_hash: e.content_hash,
        },
        _ => e,
    }
}

/// A tool call restored from a file can never finish: settle each unfinished one as
/// failed.
pub fn settle_restored_tools(list: &mut Vec<Entry>)
    ensures
        entries(final(list)@) == entries(old(list)@).map_values(|e: Entry<Seq<char>>| settled(e)),
{
    let n: usize = list.len();
    let ghost before = entries(list@);
    for i in 0..n
        invariant
            n == list@.len() == before.len(),
            forall|j: int| 0 <= j < i ==> (#[trigger] list@[j])@ == settled(before[j]),
            forall|j: int| i <= j < n ==> (#[trigger] list@[j])@ == before[j],
    {
        if let EntryKind::Tool { ok, done, .. } = &mut list[i].kind {
            if !*done {
                *done = true;
                *ok = false;
            }
        }
    }
    assert(entries(list@) =~= before.map_values(|e: Entry<Seq<char>>| settled(e)));
}

/// The first second after the Unix epoch that a `chrono` date can be at.
pub const MIN_UNIX_SECS: i64 = -8_334_601_228_800;

/// The last second after the Unix epoch that a `chrono` date can be at.
pub const MAX_UNIX_SECS: i64 = 8_210_266_876_799;

/// `chrono::DateTime::from_timestamp(secs, 0)`, as the timestamp of the date it gives:
/// the same seconds for every second of the years that `chrono` has, `None` for others.
#[verifier::external_body]
fn date_seconds(secs: i64) -> (r: Option<i64>)
    ensures
        r == (if MIN_UNIX_SECS <= secs <= MAX_UNIX_SECS {
            Some(secs)
        } else {
            None
        }),
{
    chrono::DateTime::from_timestamp(secs, 0).map(|t| t.timestamp())
}

/// A unix-second timestamp as a moment, with `fallback` for a second that no date is at.
pub fn time_from_unix(secs: i64, fallback: Moment) -> (r: Moment)
    ensures
        r == (if MIN_UNIX_SECS <= secs <= MAX_UNIX_SECS {
            (Moment { secs, nanos: 0 })
        } else {
            fallback
        }),
{
    match date_seconds(secs) {
        Some(s) => Moment { secs: s, nanos: 0 },
        None => fallback,
    }
}

// ---------------------------------------------------------------------------
// Messages
// ---------------------------------------------------------------------------

/// The text of a user or assistant message.
pub open spec fn message_text(e: Entry<Seq<char>>) -> Option<Seq<char>> {
    match e.kind {
        EntryKind::User(s) => Some(s),
        EntryKind::Assistant(s) => Some(s),
        _ => None,
    }
}

/// The entries of `t` that are messages, in order.
pub open spec fn messages(t: Seq<Entry<Seq<char>>>) -> Seq<Entry<Seq<char>>> {
    t.filter(|e: Entry<Seq<char>>| message_text(e) is Some)
}

/// The text of the message that `e` is.
pub open spec fn text_of(e: Entry<Seq<char>>) -> Seq<char> {
    message_text(e)->0
}

/// Taking one entry more adds it to the messages if it is one.
proof fn lemma_messages_step(t: Seq<Entry<Seq<char>>>, i: int)
    requires
        0 <= i < t.len(),
    ensures
        messages(t.take(i + 1)) == (if message_text(t[i]) is Some {
            messages(t.take(i)).push(t[i])
        } else {
            messages(t.take(i))
        }),
{
    reveal(Seq::filter);
    assert(t.take(i + 1).drop_last() =~= t.take(i));
}

/// The messages of a part of `t` are the first of the messages of `t`.
proof fn lemma_messages_prefix(t: Seq<Entry<Seq<char>>>, i: int)
    requires
        0 <= i <= t.len(),
    ensures
        messages(t.take(i)).len() <= messages(t).len(),
        messages(t.take(i)) == messages(t).take(messages(t.take(i)).len() as int),
    decreases t.len() - i,
{
    if i < t.len() {
        lemma_messages_prefix(t, i + 1);
        lemma_messages_step(t, i);
        let whole = messages(t);
        let here = messages(t.take(i));
        assert(here =~= whole.take(here.len() as int));
    } else {
        assert(t.take(i) =~= t);
        assert(messages(t) =~= messages(t).take(messages(t).len() as int));
    }
}

/// There are no more messages than entries.
proof fn lemma_messages_len(t: Seq<Entry<Seq<char>>>)
    ensures
        messages(t).len() <= t.len(),
    decreases t.len(),
{
    reveal(Seq::filter);
    if t.len() > 0 {
        lemma_messages_len(t.drop_last());
    }
}

/// Whether the text of a message contains `needle`, whatever the case of ASCII letters.
pub open spec fn is_hit(e: Entry<Seq<char>>, needle: Seq<char>) -> bool {
    text::contains(text::lower(text_of(e)), text::lower(needle))
}

/// The numbers, from one up, of the messages in `m` that contain `needle`.
pub open spec fn hits(m: Seq<Entry<Seq<char>>>, needle: Seq<char>) -> Seq<int>
    decreases m.len(),
{
    if m.len() == 0 {
        Seq::empty()
    } else if is_hit(m.last(), needle) {
        hits(m.drop_last(), needle).push(m.len() as int)
    } else {
        hits(m.drop_last(), needle)
    }
}

/// The numbers of the messages whose text contains `query`. Numbers start at one and
/// count messages only.
pub fn find_hits(list: &Vec<Entry>, query: &str) -> (r: Vec<usize>)
    ensures
        r@.map_values(|n: usize| n as int) == hits(messages(entries(list@)), query@),
{
    let ghost t = entries(list@);
    let lowered = str_lower(query);
    let needle = chars_of(lowered.as_str());
    let mut num: usize = 0;
    let mut out: Vec<usize> = Vec::new();
    assert(t.take(0) =~= Seq::empty());
    proof {
        reveal(Seq::filter);
    }
    for i in 0..list.len()
        invariant
            t == entries(list@),
            needle@ == text::lower(query@),
            num == messages(t.take(i as int)).len() <= i,
            out@.map_values(|n: usize| n as int) =~= hits(messages(t.take(i as int)), query@),
    {
        proof {
            lemma_messages_step(t, i as int);
        }
        if let Some(s) = list[i].message_text() {
            num = num + 1;
            let low = str_lower(s);
            let ghost before = messages(t.take(i as int));
            assert(before.push(t[i as int]).drop_last() =~= before);
            if chars_contain(&chars_of(low.as_str()), &needle) {
                out.push(num);
            }
        }
    }
    assert(t.take(list@.len() as int) =~= t);
    out
}

/// The number of messages in the transcript.
pub fn message_count(list: &Vec<Entry>) -> (r: usize)
    ensures
        r == messages(entries(list@)).len(),
{
    let ghost t = entries(list@);
    let mut num: usize = 0;
    assert(t.take(0) =~= Seq::empty());
    proof {
        reveal(Seq::filter);
    }
    for i in 0..list.len()
        invariant
            t == entries(list@),
            num == messages(t.take(i as int)).len() <= i,
    {
        proof {
            lemma_messages_step(t, i as int);
        }
        if list[i].message_text().is_some() {
            num = num + 1;
        }
    }
    assert(t.take(list@.len() as int) =~= t);
    num
}

/// The text of the message with the number `n`, counted from one.
pub fn nth_message_text(list: &Vec<Entry>, n: usize) -> (r: Option<String>)
    ensures
        ({
            let m = messages(entries(list@));
            match r {
                Some(s) => 1 <= n <= m.len() && s@ == text_of(m[n - 1]),
                None => n == 0 || n > m.len(),
            }
        }),
{
    let ghost t = entries(list@);
    if n == 0 {
        return None;
    }
    let mut num: usize = 0;
    assert(t.take(0) =~= Seq::empty());
    proof {
        reveal(Seq::filter);
    }
    for i in 0..list.len()
        invariant
            t == entries(list@),
            num == messages(t.take(i as int)).len() <= i,
            num < n,
    {
        proof {
            lemma_messages_step(t, i as int);
            lemma_messages_prefix(t, i + 1);
        }
        if let Some(s) = list[i].message_text() {
            num = num + 1;
            if num == n {
                assert(messages(t)[n - 1] == messages(t.take(i + 1))[n - 1]);
                return Some(s.to_string());
            }
        }
    }
    assert(t.take(list@.len() as int) =~= t);
    None
}

/// The number of the first message stamped at `cutoff` or later.
pub fn first_message_since(list: &Vec<Entry>, cutoff: Moment) -> (r: Option<usize>)
    requires
        cutoff.wf(),
        forall|i: int| 0 <= i < list@.len() ==> (#[trigger] list@[i]).time.wf(),
    ensures
        ({
            let m = messages(entries(list@));
            match r {
                Some(n) => {
                    &&& 1 <= n <= m.len()
                    &&& m[n - 1].time.total() >= cutoff.total()
                    &&& forall|k: int|
                        0 <= k < n - 1 ==> (#[trigger] m[k]).time.total() < cutoff.total()
                },
                None => forall|k: int|
                    0 <= k < m.len() ==> (#[trigger] m[k]).time.total() < cutoff.total(),
            }
        }),
{
    let ghost t = entries(list@);
    let ghost m = messages(t);
    let mut num: usize = 0;
    assert(t.take(0) =~= Seq::empty());
    proof {
        reveal(Seq::filter);
    }
    for i in 0..list.len()
        invariant
            t == entries(list@),
            cutoff.wf(),
            forall|i: int| 0 <= i < list@.len() ==> (#[trigger] list@[i]).time.wf(),
            num == messages(t.take(i as int)).len() <= i,
            forall|k: int| 0 <= k < num ==> (#[trigger] m[k]).time.total() < cutoff.total(),
            m == messages(t),
    {
        proof {
            lemma_messages_step(t, i as int);
            lemma_messages_prefix(t, i + 1);
        }
        if list[i].message_text().is_some() {
            num = num + 1;
            assert(m[num - 1] == messages(t.take(i + 1))[num - 1]);
            if list[i].time.at_or_after(cutoff) {
                return Some(num);
            }
        }
    }
    assert(t.take(list@.len() as int) =~= t);
    None
}

/// How one entry reads in the text of a transcript.
pub open spec fn entry_text(e: Entry<Seq<char>>) -> Seq<char> {
    match e.kind {
        EntryKind::User(s) => "## User\n"@ + s + "\n\n"@,
        EntryKind::Assistant(s) => "## Assistant\n"@ + s + "\n\n"@,
        EntryKind::System(s) => "["@ + s + "]\n\n"@,
        EntryKind::Diff(s) => s + "\n\n"@,
        EntryKind::Tool { name, .. } => "[tool: "@ + name + "]\n\n"@,
        EntryKind::Notice(s) => "["@ + s + "]\n\n"@,
        EntryKind::Reasoning { .. } => Seq::empty(),
        EntryKind::Stats(_) => Seq::empty(),
        EntryKind::Header => Seq::empty(),
    }
}

/// The texts of the entries, one after the other.
pub open spec fn entry_texts(t: Seq<Entry<Seq<char>>>) -> Seq<char>
    decreases t.len(),
{
    if t.len() == 0 {
        Seq::empty()
    } else {
        entry_texts(t.drop_last()) + entry_text(t.last())
    }
}

/// Append `open`, `body` and `close` to `out`.
fn append_block(out: &mut String, open: &str, body: &str, close: &str)
    ensures
        final(out)@ == old(out)@ + (open@ + body@ + close@),
{
    out.append(open);
    out.append(body);
    out.append(close);
    assert(out@ =~= old(out)@ + (open@ + body@ + close@));
}

/// The transcript as text: messages, system lines, diffs and tool calls. Reasoning and
/// statistics are left out.
pub fn transcript_to_text(list: &Vec<Entry>) -> (r: String)
    ensures
        r@ == text::trim_end(entry_texts(entries(list@))),
{
    let ghost t = entries(list@);
    let mut out = String::new();
    for i in 0..list.len()
        invariant
            t == entries(list@),
            out@ == entry_texts(t.take(i as int)),
    {
        assert(t.take(i + 1).drop_last() =~= t.take(i as int));
        match &list[i].kind {
            EntryKind::User(s) => append_block(&mut out, "## User\n", s.as_str(), "\n\n"),
            EntryKind::Assistant(s) => append_block(
                &mut out,
                "## Assistant\n",
                s.as_str(),
                "\n\n",
            ),
            EntryKind::System(s) => append_block(&mut out, "[", s.as_str(), "]\n\n"),
            EntryKind::Diff(s) => {
                out.append(s.as_str());
                out.append("\n\n");
                assert(out@ =~= entry_texts(t.take(i as int)) + (s@ + "\n\n"@));
            },
            EntryKind::Tool { name, .. } => append_block(
                &mut out,
                "[tool: ",
                name.as_str(),
                "]\n\n",
            ),
            EntryKind::Notice(s) => append_block(&mut out, "[", s.as_str(), "]\n\n"),
            _ => {
                assert(out@ =~= entry_texts(t.take(i as int)) + Seq::empty());
            },
        }
        assert(out@ == entry_texts(t.take(i as int)) + entry_text(t[i as int]));
    }
    assert(t.take(list@.len() as int) =~= t);
    str_trim_end(out.as_str())
}

// ---------------------------------------------------------------------------
// Folding events
// ---------------------------------------------------------------------------

/// Whether `e` is a reasoning block that is still streaming.
pub open spec fn is_open_reasoning(e: Entry<Seq<char>>) -> bool {
    e.kind matches EntryKind::Reasoning { took_ms, .. } && took_ms is None
}

/// Whether `e` is the unfinished tool call `id`.
pub open spec fn is_open_tool(e: Entry<Seq<char>>, id: Seq<char>) -> bool {
    e.kind matches EntryKind::Tool { id: tid, done, .. } && tid == id && !done
}

/// Where the newest unfinished tool call `id` stands in `t`.
pub open spec fn open_tool(t: Seq<Entry<Seq<char>>>, id: Seq<char>) -> Option<int>
    decreases t.len(),
{
    if t.len() == 0 {
        None
    } else if is_open_tool(t.last(), id) {
        Some(t.len() - 1)
    } else {
        open_tool(t.drop_last(), id)
    }
}

/// `t` with a reasoning block that is still streaming at its end marked as ended.
pub open spec fn reasoning_closed(t: Seq<Entry<Seq<char>>>) -> Seq<Entry<Seq<char>>> {
    if t.len() > 0 && is_open_reasoning(t.last()) {
        t.drop_last().push(
            Entry {
                kind: EntryKind::Reasoning { text: t.last().kind->text, took_ms: Some(0) },
                ..t.last()
            },
        )
    } else {
        t
    }
}

/// `e` with `more` added to a message, a reasoning block or a tool's result.
pub open spec fn extended(e: Entry<Seq<char>>, more: Seq<char>) -> Entry<Seq<char>> {
    entry(
        match e.kind {
            EntryKind::Assistant(s) => EntryKind::Assistant(s + more),
            EntryKind::Reasoning { text, took_ms } => EntryKind::Reasoning {
                text: text + more,
                took_ms,
            },
            EntryKind::Tool { id, name, args, result, ok, done, expanded } => EntryKind::Tool {
                id,
                name,
                args,
                result: result + more,
                ok,
                done,
                expanded,
            },
            other => other,
        },
        e.time,
    )
}

/// `e` as a tool call that has finished.
pub open spec fn finished(e: Entry<Seq<char>>, result: Seq<char>, ok: bool) -> Entry<Seq<char>> {
    entry(
        match e.kind {
            EntryKind::Tool { id, name, args, expanded, .. } => EntryKind::Tool {
                id,
                name,
                args,
                result,
                ok,
                done: true,
                expanded,
            },
            other => other,
        },
        e.time,
    )
}

/// The transcript `t` after the event `ev`, where an entry that the event adds is
/// stamped `now`.
pub open spec fn applied(
    t: Seq<Entry<Seq<char>>>,
    ev: EventView,
    now: Moment,
) -> Seq<Entry<Seq<char>>> {
    let c = reasoning_closed(t);
    match ev {
        AgentEvent::Reasoning(x) => if t.len() > 0 && is_open_reasoning(t.last()) {
            t.drop_last().push(extended(t.last(), x))
        } else if x.len() > 0 {
            t.push(entry(EntryKind::Reasoning { text: x, took_ms: None }, now))
        } else {
            t
        },
        AgentEvent::Text(x) => if c.len() > 0 && c.last().kind is Assistant {
            c.drop_last().push(extended(c.last(), x))
        } else if x.len() > 0 {
            c.push(entry(EntryKind::Assistant(x), now))
        } else {
            c
        },
        AgentEvent::ToolStart { id, name, args } => c.push(
            entry(
                EntryKind::Tool {
                    id,
                    name,
                    args,
                    result: Seq::empty(),
                    ok: true,
                    done: false,
                    expanded: false,
                },
                now,
            ),
        ),
        AgentEvent::ToolOutput { id, chunk } => match open_tool(c, id) {
            Some(i) => c.update(i, extended(c[i], chunk)),
            None => c,
        },
        AgentEvent::ToolEnd { id, result, ok, .. } => match open_tool(c, id) {
            Some(i) => c.update(i, finished(c[i], result, ok)),
            None => c,
        },
        AgentEvent::Notice(x) => c.push(entry(EntryKind::System(x), now)),
        AgentEvent::Steered(x) => c.push(entry(EntryKind::User(x), now)),
        AgentEvent::Usage(_) => c,
        AgentEvent::History(_) => c,
        AgentEvent::TodoUpdated(_) => c,
        AgentEvent::TurnDone => c,
    }
}

/// Mark a reasoning block that is still streaming as ended.
fn finish_reasoning(transcript: &mut Vec<Entry>)
    ensures
        entries(final(transcript)@) == reasoning_closed(entries(old(transcript)@)),
{
    let n: usize = transcript.len();
    if n > 0 {
        if let EntryKind::Reasoning { took_ms, .. } = &mut transcript[n - 1].kind {
            if took_ms.is_none() {
                *took_ms = Some(0);
            }
        }
    }
    assert(entries(transcript@) =~= reasoning_closed(entries(old(transcript)@)));
}

/// Where the newest unfinished tool call `id` stands.
fn find_open_tool(transcript: &Vec<Entry>, id: &str) -> (r: Option<usize>)
    ensures
        match r {
            Some(i) => i < transcript@.len() && open_tool(entries(transcript@), id@) == Some(
                i as int,
            ) && is_open_tool(transcript@[i as int]@, id@),
            None => open_tool(entries(transcript@), id@) is None,
        },
{
    let ghost t = entries(transcript@);
    let mut i: usize = transcript.len();
    assert(t.take(i as int) =~= t);
    while i > 0
        invariant
            i <= transcript@.len(),
            t == entries(transcript@),
            open_tool(t, id@) == open_tool(t.take(i as int), id@),
        decreases i,
    {
        assert(t.take(i as int).drop_last() =~= t.take(i - 1));
        i = i - 1;
        if let EntryKind::Tool { id: tid, done, .. } = &transcript[i].kind {
            if !*done && str_eq(tid.as_str(), id) {
                return Some(i);
            }
        }
    }
    None
}

/// Fold an event into a transcript, stamping an entry that it adds with `now`.
pub fn apply_event_at(transcript: &mut Vec<Entry>, ev: &AgentEvent, now: Moment)
    ensures
        entries(final(transcript)@) == applied(entries(old(transcript)@), ev@, now),
{
    let ghost t = entries(transcript@);
    if !matches!(ev, AgentEvent::Reasoning(_)) {
        finish_reasoning(transcript);
    }
    let ghost c = entries(transcript@);
    let n: usize = transcript.len();
    match ev {
        AgentEvent::Text(x) => {
            let mut merged: bool = false;
            if n > 0 {
                let last = &mut transcript[n - 1];
                if let EntryKind::Assistant(s) = &mut last.kind {
                    s.append(x.as_str());
                    merged = true;
                }
                if merged {
                    last.refresh_hash();
                }
            }
            if !merged && !x.as_str().is_empty() {
                transcript.push(Entry::at(EntryKind::Assistant(x.clone()), now));
            }
        },
        AgentEvent::Reasoning(x) => {
            let mut merged: bool = false;
            if n > 0 {
                let last = &mut transcript[n - 1];
                if let EntryKind::Reasoning { text, took_ms } = &mut last.kind {
                    if took_ms.is_none() {
                        text.append(x.as_str());
                        merged = true;
                    }
                }
                if merged {
                    last.refresh_hash();
                }
            }
            if !merged && !x.as_str().is_empty() {
                transcript.push(
                    Entry::at(EntryKind::Reasoning { text: x.clone(), took_ms: None }, now),
                );
            }
        },
        AgentEvent::ToolStart { id, name, args } => {
            transcript.push(
                Entry::at(
                    EntryKind::Tool {
                        id: id.clone(),
                        name: name.clone(),
                        args: args.clone(),
                        result: String::new(),
                        ok: true,
                        done: false,
                        expanded: false,
                    },
                    now,
                ),
            );
        },
        AgentEvent::ToolOutput { id, chunk } => {
            if let Some(i) = find_open_tool(transcript, id.as_str()) {
                let e = &mut transcript[i];
                if let EntryKind::Tool { result, .. } = &mut e.kind {
                    result.append(chunk.as_str());
                }
                e.refresh_hash();
            }
        },
        AgentEvent::ToolEnd { id, result, ok, .. } => {
            if let Some(i) = find_open_tool(transcript, id.as_str()) {
                let e = &mut transcript[i];
                if let EntryKind::Tool { result: r, ok: o, done, .. } = &mut e.kind {
                    *r = result.clone();
                    *o = *ok;
                    *done = true;
                }
                e.refresh_hash();
            }
        },
        AgentEvent::Notice(x) => {
            transcript.push(Entry::at(EntryKind::System(x.clone()), now));
        },
        AgentEvent::Steered(x) => {
            transcript.push(Entry::at(EntryKind::User(x.clone()), now));
        },
        _ => {},
    }
    assert(entries(transcript@) =~= applied(t, ev@, now));
}

/// Fold an event into a transcript: the reducer behind every view of a run. Only what
/// the transcript shows does anything but end an open reasoning block. An entry that
/// the event adds is stamped with the current time.
pub fn apply_event(transcript: &mut Vec<Entry>, ev: &AgentEvent)
    ensures
        exists|now: Moment|
            now.wf() && entries(final(transcript)@) == #[trigger] applied(
                entries(old(transcript)@),
                ev@,
                now,
            ),
{
    let now = local_now();
    apply_event_at(transcript, ev, now);
}

// ---------------------------------------------------------------------------
// Laws of folding
// ---------------------------------------------------------------------------

/// The transcript `t` after the events `evs`, in order.
pub open spec fn applied_all(
    t: Seq<Entry<Seq<char>>>,
    evs: Seq<EventView>,
    now: Moment,
) -> Seq<Entry<Seq<char>>>
    decreases evs.len(),
{
    if evs.len() == 0 {
        t
    } else {
        applied(applied_all(t, evs.drop_last(), now), evs.last(), now)
    }
}

/// Two pieces of a reply leave the transcript that one piece holding both leaves.
pub proof fn law_text_pieces_join(
    t: Seq<Entry<Seq<char>>>,
    a: Seq<char>,
    b: Seq<char>,
    now: Moment,
)
    ensures
        applied(applied(t, AgentEvent::Text(a), now), AgentEvent::Text(b), now) == applied(
            t,
            AgentEvent::Text(a + b),
            now,
        ),
{
    let c = reasoning_closed(t);
    let one = applied(t, AgentEvent::Text(a), now);
    let two = applied(one, AgentEvent::Text(b), now);
    assert(reasoning_closed(one) =~= one);
    if c.len() > 0 && c.last().kind is Assistant {
        let s = c.last().kind->Assistant_0;
        assert((s + a) + b =~= s + (a + b));
        assert(two =~= applied(t, AgentEvent::Text(a + b), now));
    } else if a.len() > 0 {
        assert(two =~= applied(t, AgentEvent::Text(a + b), now));
    } else {
        assert(a + b =~= b);
        assert(two =~= applied(t, AgentEvent::Text(a + b), now));
    }
}

/// Two pieces of reasoning leave the transcript that one piece holding both leaves.
pub proof fn law_reasoning_pieces_join(
    t: Seq<Entry<Seq<char>>>,
    a: Seq<char>,
    b: Seq<char>,
    now: Moment,
)
    ensures
        applied(applied(t, AgentEvent::Reasoning(a), now), AgentEvent::Reasoning(b), now)
            == applied(t, AgentEvent::Reasoning(a + b), now),
{
    let one = applied(t, AgentEvent::Reasoning(a), now);
    let two = applied(one, AgentEvent::Reasoning(b), now);
    if t.len() > 0 && is_open_reasoning(t.last()) {
        let s = t.last().kind->text;
        assert((s + a) + b =~= s + (a + b));
        assert(two =~= applied(t, AgentEvent::Reasoning(a + b), now));
    } else if a.len() > 0 {
        assert(two =~= applied(t, AgentEvent::Reasoning(a + b), now));
    } else {
        assert(a + b =~= b);
    }
}

/// Ending an open reasoning block leaves none to end.
proof fn lemma_reasoning_closed_twice(t: Seq<Entry<Seq<char>>>)
    ensures
        reasoning_closed(reasoning_closed(t)) == reasoning_closed(t),
{
}

/// The open tool call is one of the transcript's entries.
pub proof fn lemma_open_tool(t: Seq<Entry<Seq<char>>>, id: Seq<char>)
    ensures
        match open_tool(t, id) {
            Some(i) => {
                &&& 0 <= i < t.len()
                &&& is_open_tool(t[i], id)
                &&& forall|j: int| i < j < t.len() ==> !is_open_tool(#[trigger] t[j], id)
            },
            None => forall|j: int| 0 <= j < t.len() ==> !is_open_tool(#[trigger] t[j], id),
        },
    decreases t.len(),
{
    if t.len() > 0 && !is_open_tool(t.last(), id) {
        lemma_open_tool(t.drop_last(), id);
        assert forall|j: int|
            (match open_tool(t, id) {
                Some(i) => i,
                None => -1,
            }) < j < t.len() implies !is_open_tool(#[trigger] t[j], id) by {
            if j < t.len() - 1 {
                assert(t.drop_last()[j] == t[j]);
            }
        }
    }
}

/// An open tool call stays where it is when its own entry changes and stays open.
proof fn lemma_open_tool_update(
    t: Seq<Entry<Seq<char>>>,
    id: Seq<char>,
    i: int,
    e: Entry<Seq<char>>,
)
    requires
        open_tool(t, id) == Some(i),
        is_open_tool(e, id),
    ensures
        open_tool(t.update(i, e), id) == Some(i),
{
    let u = t.update(i, e);
    lemma_open_tool(t, id);
    lemma_open_tool(u, id);
    assert(is_open_tool(u[i], id));
    if let Some(j) = open_tool(u, id) {
        assert(j > i ==> u[j] == t[j]);
    }
}

/// Two pieces of one tool's output leave the transcript that one piece holding both
/// leaves.
pub proof fn law_tool_output_pieces_join(
    t: Seq<Entry<Seq<char>>>,
    id: Seq<char>,
    a: Seq<char>,
    b: Seq<char>,
    now: Moment,
)
    ensures
        applied(
            applied(t, AgentEvent::ToolOutput { id, chunk: a }, now),
            AgentEvent::ToolOutput { id, chunk: b },
            now,
        ) == applied(t, AgentEvent::ToolOutput { id, chunk: a + b }, now),
{
    let c = reasoning_closed(t);
    let one = applied(t, AgentEvent::ToolOutput { id, chunk: a }, now);
    lemma_open_tool(c, id);
    lemma_reasoning_closed_twice(t);
    match open_tool(c, id) {
        Some(i) => {
            lemma_open_tool_update(c, id, i, extended(c[i], a));
            assert(reasoning_closed(one) =~= one);
            let s = c[i].kind->result;
            assert((s + a) + b =~= s + (a + b));
            assert(one.update(i, extended(one[i], b)) =~= c.update(i, extended(c[i], a + b)));
        },
        None => {},
    }
}

/// An event that the transcript does not show changes nothing, unless it ends a
/// reasoning block that is still streaming.
pub proof fn law_unshown_events_change_nothing(
    t: Seq<Entry<Seq<char>>>,
    ev: EventView,
    now: Moment,
)
    requires
        ev is Usage || ev is History || ev is TodoUpdated || ev is TurnDone,
        t.len() == 0 || !is_open_reasoning(t.last()),
    ensures
        applied(t, ev, now) == t,
{
}

/// Whether every entry's hash is that of its content.
pub open spec fn hashes_current(t: Seq<Entry<Seq<char>>>) -> bool {
    forall|i: int| 0 <= i < t.len() ==> (#[trigger] t[i]).content_hash == kind_hash(t[i].kind)
}

/// Every event keeps each entry's hash in step with its content.
pub proof fn law_hashes_stay_current(
    t: Seq<Entry<Seq<char>>>,
    ev: EventView,
    now: Moment,
)
    requires
        hashes_current(t),
    ensures
        hashes_current(applied(t, ev, now)),
{
    lemma_open_tool(reasoning_closed(t), match ev {
        AgentEvent::ToolOutput { id, .. } => id,
        AgentEvent::ToolEnd { id, .. } => id,
        _ => Seq::empty(),
    });
}

/// An event never takes an entry out or changes the time of one.
pub proof fn law_entries_stay(
    t: Seq<Entry<Seq<char>>>,
    ev: EventView,
    now: Moment,
)
    ensures
        t.len() <= applied(t, ev, now).len() <= t.len() + 1,
        forall|i: int|
            0 <= i < t.len() ==> (#[trigger] applied(t, ev, now)[i]).time == t[i].time,
        applied(t, ev, now).len() > t.len() ==> applied(t, ev, now).last().time == now,
{
    lemma_open_tool(reasoning_closed(t), match ev {
        AgentEvent::ToolOutput { id, .. } => id,
        AgentEvent::ToolEnd { id, .. } => id,
        _ => Seq::empty(),
    });
}

/// After restored tools are settled none is left unfinished, and settling again changes
/// nothing.
pub proof fn law_settled_tools_are_done(e: Entry<Seq<char>>)
    ensures
        settled(e).kind matches EntryKind::Tool { done, .. } ==> done,
        settled(settled(e)) == settled(e),
        !(e.kind is Tool) ==> settled(e) == e,
{
}

/// The output and the end of a tool call reach that call and no other: an entry that has
/// other content afterwards is an unfinished call whose own id is the event's, or a
/// reasoning block at the end that stops streaming, whose text stays.
pub proof fn law_a_tool_event_reaches_its_own_call(
    t: Seq<Entry<Seq<char>>>,
    ev: EventView,
    now: Moment,
    i: int,
)
    requires
        ev is ToolOutput || ev is ToolEnd,
        0 <= i < t.len(),
    ensures
        applied(t, ev, now).len() == t.len(),
        applied(t, ev, now)[i].kind != t[i].kind ==> {
            ||| t[i].kind matches EntryKind::Tool { id, done, .. } && !done && id == (match ev {
                AgentEvent::ToolOutput { id: x, .. } => x,
                AgentEvent::ToolEnd { id: x, .. } => x,
                _ => Seq::empty(),
            })
            ||| i == t.len() - 1 && t[i].kind is Reasoning && applied(t, ev, now)[i].kind
                == (EntryKind::Reasoning { text: t[i].kind->text, took_ms: Some(0u64) })
        },
{
    match ev {
        AgentEvent::ToolOutput { id, .. } => lemma_open_tool(reasoning_closed(t), id),
        AgentEvent::ToolEnd { id, .. } => lemma_open_tool(reasoning_closed(t), id),
        _ => {},
    }
}

/// Of several unfinished calls with one id, the newest takes what is printed and how the
/// call ends: its result grows by the piece, and at the end it is done with the event's
/// result and outcome. Its id, name and arguments stay, and so do all other calls.
pub proof fn law_the_newest_call_takes_its_output_and_end(
    t: Seq<Entry<Seq<char>>>,
    i: int,
    x: Seq<char>,
    name: Seq<char>,
    chunk: Seq<char>,
    end: Seq<char>,
    well: bool,
    now: Moment,
)
    requires
        0 <= i < t.len(),
        t[i].kind matches EntryKind::Tool { id, done, .. } && id == x && !done,
        forall|j: int|
            i < j < t.len() ==> !((#[trigger] t[j]).kind matches EntryKind::Tool { id, done, .. }
                && id == x && !done),
    ensures
        ({
            let was = t[i].kind;
            let printed = applied(t, AgentEvent::ToolOutput { id: x, chunk }, now);
            let ended = applied(t, AgentEvent::ToolEnd { id: x, name, result: end, ok: well }, now);
            &&& printed[i].kind matches EntryKind::Tool {
                id,
                name: n,
                args,
                result,
                ok,
                done,
                expanded,
            } && id == x && n == was->name && args == was->args && result == was->result + chunk
                && ok == was->ok && !done && expanded == was->expanded
            &&& ended[i].kind matches EntryKind::Tool {
                id,
                name: n,
                args,
                result,
                ok,
                done,
                expanded,
            } && id == x && n == was->name && args == was->args && result == end && ok == well
                && done && expanded == was->expanded
            &&& forall|j: int|
                0 <= j < t.len() && j != i && (#[trigger] t[j]).kind is Tool ==> printed[j] == t[j]
                    && ended[j] == t[j]
        }),
{
    let c = reasoning_closed(t);
    lemma_open_tool(c, x);
    assert(is_open_tool(c[i], x));
    match open_tool(c, x) {
        Some(k) => {
            assert(k >= i);
            assert(k > i ==> c[k] == t[k]);
        },
        None => {},
    }
}

/// What an event adds to the transcript is what the event says: a notice, a message of
/// the user's, a call that has just begun, or more of the reply or of the reasoning, which
/// goes on in the entry that is being written and else begins one of its own.
pub proof fn law_an_event_shows_what_it_says(
    t: Seq<Entry<Seq<char>>>,
    ev: EventView,
    now: Moment,
)
    ensures
        ({
            let after = applied(t, ev, now);
            let grown = after.len() == t.len() + 1;
            match ev {
                AgentEvent::Notice(x) => grown && after.last().kind == EntryKind::System(x),
                AgentEvent::Steered(x) => grown && after.last().kind == EntryKind::User(x),
                AgentEvent::ToolStart { id: x, name: n, args: a } => grown && (
                after.last().kind matches EntryKind::Tool {
                    id,
                    name,
                    args,
                    result,
                    ok,
                    done,
                    expanded,
                } && id == x && name == n && args == a && result.len() == 0 && ok && !done
                    && !expanded),
                AgentEvent::Text(x) => if t.len() > 0 && t.last().kind is Assistant {
                    !grown && after.last().kind == EntryKind::Assistant(t.last().kind->Assistant_0
                        + x)
                } else {
                    &&& grown == (x.len() > 0)
                    &&& x.len() > 0 ==> after.last().kind == EntryKind::Assistant(x)
                },
                AgentEvent::Reasoning(x) => if t.len() > 0 && (
                t.last().kind matches EntryKind::Reasoning { took_ms, .. } && took_ms is None) {
                    !grown && after.last().kind == (EntryKind::Reasoning {
                        text: t.last().kind->text + x,
                        took_ms: None::<u64>,
                    })
                } else {
                    &&& grown == (x.len() > 0)
                    &&& x.len() > 0 ==> after.last().kind == (EntryKind::Reasoning {
                        text: x,
                        took_ms: None::<u64>,
                    })
                },
                _ => after.len() == t.len(),
            }
        }),
        forall|i: int|
            0 <= i < t.len() - 1 && !(ev is ToolOutput || ev is ToolEnd) ==> applied(t, ev, now)[i]
                == #[trigger] t[i],
        ev is Reasoning || (forall|i: int|
            0 <= i < applied(t, ev, now).len() && t.len() - 1 <= i ==> !(
            (#[trigger] applied(t, ev, now)[i]).kind matches EntryKind::Reasoning { took_ms, .. }
                && took_ms is None)),
{
    match ev {
        AgentEvent::ToolOutput { id, .. } => lemma_open_tool(reasoning_closed(t), id),
        AgentEvent::ToolEnd { id, .. } => lemma_open_tool(reasoning_closed(t), id),
        _ => {},
    }
}

/// A tool call that is restored unfinished has failed; one that had finished keeps its
/// outcome. What it was, and what it printed, stays.
pub proof fn law_a_restored_call_keeps_its_outcome(e: Entry<Seq<char>>)
    ensures
        settled(e).time == e.time,
        e.kind matches EntryKind::Tool { id, name, args, result, ok, done, .. } ==> {
            settled(e).kind matches EntryKind::Tool {
                id: i,
                name: n,
                args: a,
                result: r,
                ok: o,
                done: d,
                ..
            } && i == id && n == name && a == args && r == result && d && (done ==> o == ok) && (
            !done ==> !o)
        },
{
}

/// What counts as a message is what the user and the model said, and nothing else: each
/// such entry is among the messages with its own text, and no other entry is.
pub proof fn law_what_counts_as_a_message(t: Seq<Entry<Seq<char>>>, i: int)
    requires
        0 <= i < t.len(),
    ensures
        t[i].kind matches EntryKind::User(s) ==> messages(t).contains(t[i]) && text_of(t[i]) == s,
        t[i].kind matches EntryKind::Assistant(s) ==> messages(t).contains(t[i]) && text_of(t[i])
            == s,
        forall|k: int|
            0 <= k < messages(t).len() ==> t.contains(#[trigger] messages(t)[k]) && (messages(
                t,
            )[k].kind is User || messages(t)[k].kind is Assistant),
{
    let p = |e: Entry<Seq<char>>| message_text(e) is Some;
    if t[i].kind is User || t[i].kind is Assistant {
        t.lemma_filter_contains(p, i);
    }
    assert forall|k: int| 0 <= k < messages(t).len() implies t.contains(
        #[trigger] messages(t)[k],
    ) && (messages(t)[k].kind is User || messages(t)[k].kind is Assistant) by {
        t.lemma_filter_pred(p, k);
        assert(messages(t).contains(messages(t)[k]));
        t.lemma_filter_contains_rev(p, messages(t)[k]);
    }
}

/// A search finds exactly the messages that hold what is looked for, whatever the case of
/// the letters, by their numbers from one up, and in order.
pub proof fn law_a_search_finds_what_is_held(m: Seq<Entry<Seq<char>>>, needle: Seq<char>)
    ensures
        forall|n: int| #[trigger]
            hits(m, needle).contains(n) <==> 1 <= n <= m.len() && completion::found(
                text_of(m[n - 1]),
                needle,
            ),
        forall|p: int, q: int|
            0 <= p < q < hits(m, needle).len() ==> #[trigger] hits(m, needle)[p]
                < #[trigger] hits(m, needle)[q],
    decreases m.len(),
{
    if m.len() > 0 {
        let rest = m.drop_last();
        law_a_search_finds_what_is_held(rest, needle);
        completion::lemma_found(text_of(m.last()), needle);
        let before = hits(rest, needle);
        assert forall|n: int| #[trigger] hits(m, needle).contains(n) <==> 1 <= n <= m.len()
            && completion::found(text_of(m[n - 1]), needle) by {
            text::lemma_contains_push(before, m.len() as int, n);
            assert(before.contains(n) <==> 1 <= n <= rest.len() && completion::found(
                text_of(rest[n - 1]),
                needle,
            ));
            if 1 <= n <= rest.len() {
                assert(rest[n - 1] == m[n - 1]);
            }
        }
        assert forall|p: int| 0 <= p < before.len() implies #[trigger] before[p] < m.len() by {
            assert(before.contains(before[p]));
        }
    }
}

/// The text of a transcript holds what every message, notice and diff in it says, and the
/// name of every tool that was called; who said a message stands at its head.
pub proof fn law_the_text_holds_what_was_said(t: Seq<Entry<Seq<char>>>, i: int)
    requires
        0 <= i < t.len(),
    ensures
        match t[i].kind {
            EntryKind::User(s) => text::contains(entry_texts(t), "## User\n"@ + s),
            EntryKind::Assistant(s) => text::contains(entry_texts(t), "## Assistant\n"@ + s),
            EntryKind::System(s) => text::contains(entry_texts(t), s),
            EntryKind::Notice(s) => text::contains(entry_texts(t), s),
            EntryKind::Diff(s) => text::contains(entry_texts(t), s),
            EntryKind::Tool { name, .. } => text::contains(entry_texts(t), name),
            EntryKind::Reasoning { .. } => entry_text(t[i]).len() == 0,
            EntryKind::Stats(_) => entry_text(t[i]).len() == 0,
            EntryKind::Header => entry_text(t[i]).len() == 0,
        },
{
    let own = entry_text(t[i]);
    match t[i].kind {
        EntryKind::User(s) => {
            let said = "## User\n"@ + s;
            text::lemma_holds_itself(said);
            text::lemma_part_holds(Seq::empty(), said, "\n\n"@, said);
            assert(Seq::<char>::empty() + said + "\n\n"@ =~= own);
            lemma_held_by_all(t, i, said);
        },
        EntryKind::Assistant(s) => {
            let said = "## Assistant\n"@ + s;
            text::lemma_holds_itself(said);
            text::lemma_part_holds(Seq::empty(), said, "\n\n"@, said);
            assert(Seq::<char>::empty() + said + "\n\n"@ =~= own);
            lemma_held_by_all(t, i, said);
        },
        EntryKind::System(s) => {
            text::lemma_holds_itself(s);
            text::lemma_part_holds("["@, s, "]\n\n"@, s);
            lemma_held_by_all(t, i, s);
        },
        EntryKind::Notice(s) => {
            text::lemma_holds_itself(s);
            text::lemma_part_holds("["@, s, "]\n\n"@, s);
            lemma_held_by_all(t, i, s);
        },
        EntryKind::Diff(s) => {
            text::lemma_holds_itself(s);
            text::lemma_part_holds(Seq::empty(), s, "\n\n"@, s);
            assert(Seq::<char>::empty() + s + "\n\n"@ =~= own);
            lemma_held_by_all(t, i, s);
        },
        EntryKind::Tool { name, .. } => {
            text::lemma_holds_itself(name);
            text::lemma_part_holds("[tool: "@, name, "]\n\n"@, name);
            lemma_held_by_all(t, i, name);
        },
        _ => {},
    }
}

proof fn lemma_held_by_all(t: Seq<Entry<Seq<char>>>, i: int, p: Seq<char>)
    requires
        0 <= i < t.len(),
        text::contains(entry_text(t[i]), p),
    ensures
        text::contains(entry_texts(t), p),
    decreases t.len(),
{
    let e = Seq::<char>::empty();
    let before = entry_texts(t.drop_last());
    let last = entry_text(t.last());
    if i == t.len() - 1 {
        text::lemma_part_holds(before, last, e, p);
        assert(before + last + e =~= entry_texts(t));
    } else {
        lemma_held_by_all(t.drop_last(), i, p);
        text::lemma_part_holds(e, before, last, p);
        assert(e + before + last =~= entry_texts(t));
    }
}

} // verus!
