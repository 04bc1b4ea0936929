//! The input history: what was submitted, walking back and forth through it, and the file
//! that keeps it between sessions.
use crate::text;
use crate::text::{join_strings, str_eq, str_has_char, str_lines, str_trim};
use vstd::prelude::*;

verus! {

/// The most entries that are kept.
pub const MAX_HISTORY: usize = 200;

/// The most bytes that a history file may have to be read at all.
pub const MAX_HISTORY_FILE_BYTES: u64 = 10_485_760;

// ---------------------------------------------------------------------------
// The file
// ---------------------------------------------------------------------------

/// The last `n` of a sequence, or all of it where it is shorter.
pub open spec fn newest<T>(s: Seq<T>, n: nat) -> Seq<T> {
    if s.len() > n {
        s.skip(s.len() - n)
    } else {
        s
    }
}

/// Whether a line holds more than white space.
pub open spec fn says_something(line: Seq<char>) -> bool {
    text::trim(line).len() > 0
}

/// The entries that a history file of this text holds.
pub open spec fn loaded(file: Seq<char>) -> Seq<Seq<char>> {
    newest(
        text::lines(file).filter(|l: Seq<char>| says_something(l)),
        MAX_HISTORY as nat,
    )
}

/// Whether a history file of this many bytes is read at all: one that is larger than any
/// history of ours is not ours.
pub fn is_readable(file_bytes: u64) -> (r: bool)
    ensures
        r == (file_bytes <= MAX_HISTORY_FILE_BYTES),
{
    file_bytes <= MAX_HISTORY_FILE_BYTES
}

/// The entries of a history file, oldest first: its lines but for blank ones, and of
/// those the newest.
pub fn load_history(file: &str) -> (r: Vec<String>)
    ensures
        text::views(r@) == loaded(file@),
{
    let all = str_lines(file);
    let ghost lines = text::lines(file@);
    let ghost keep = |l: Seq<char>| says_something(l);
    let mut kept: Vec<String> = Vec::new();
    assert(lines.take(0).filter(keep) =~= Seq::empty()) by {
        reveal(Seq::filter);
    }
    assert(text::views(kept@) =~= Seq::empty());
    for i in 0..all.len()
        invariant
            lines == text::views(all@),
            keep == (|l: Seq<char>| says_something(l)),
            text::views(kept@) == lines.take(i as int).filter(keep),
    {
        let ghost before = text::views(kept@);
        let ghost line = lines[i as int];
        proof {
            reveal(Seq::filter);
            assert(lines.take(i + 1).drop_last() =~= lines.take(i as int));
            assert(lines.take(i + 1).last() == line);
        }
        if !str_trim(all[i].as_str()).as_str().is_empty() {
            kept.push(all[i].clone());
            assert(text::views(kept@) =~= before.push(line));
        }
    }
    assert(lines.take(lines.len() as int) =~= lines);
    keep_newest(&mut kept);
    kept
}

/// Drop the oldest entries until no more than [`MAX_HISTORY`] are left.
fn keep_newest(entries: &mut Vec<String>)
    ensures
        text::views(final(entries)@) == newest(text::views(old(entries)@), MAX_HISTORY as nat),
{
    let n: usize = entries.len();
    if n > MAX_HISTORY {
        let ghost before = text::views(entries@);
        let tail = entries.split_off(n - MAX_HISTORY);
        assert(text::views(tail@) =~= before.skip(n - MAX_HISTORY));
        *entries = tail;
    }
}

/// The entries that a file can hold: those on one line.
pub open spec fn storable(history: Seq<Seq<char>>) -> Seq<Seq<char>> {
    history.filter(|e: Seq<char>| !e.contains('\n'))
}

/// The text that the history is stored as.
pub open spec fn stored(history: Seq<Seq<char>>) -> Seq<char> {
    text::join(storable(history), seq!['\n'])
}

/// The text that the history is stored as: one entry on each line. Entries of several
/// lines are left out, because the file has no way to tell them from several entries.
pub fn persist_history(history: &Vec<String>) -> (r: String)
    ensures
        r@ == stored(text::views(history@)),
{
    let ghost all = text::views(history@);
    let ghost keep = |e: Seq<char>| !e.contains('\n');
    let mut kept: Vec<String> = Vec::new();
    assert(all.take(0).filter(keep) =~= Seq::empty()) by {
        reveal(Seq::filter);
    }
    assert(text::views(kept@) =~= Seq::empty());
    for i in 0..history.len()
        invariant
            all == text::views(history@),
            keep == (|e: Seq<char>| !e.contains('\n')),
            text::views(kept@) == all.take(i as int).filter(keep),
    {
        let ghost before = text::views(kept@);
        let ghost entry = all[i as int];
        proof {
            reveal(Seq::filter);
            assert(all.take(i + 1).drop_last() =~= all.take(i as int));
            assert(all.take(i + 1).last() == entry);
        }
        if !str_has_char(history[i].as_str(), '\n') {
            kept.push(history[i].clone());
            assert(text::views(kept@) =~= before.push(entry));
        }
    }
    assert(all.take(all.len() as int) =~= all);
    proof {
        reveal_strlit("\n");
        assert("\n"@ =~= seq!['\n']);
    }
    join_strings(&kept, "\n")
}

/// Reading a stored history gives back its newest entries of one line that say
/// something, in order.
pub proof fn law_history_reads_back(history: Seq<Seq<char>>)
    requires
        forall|i: int|
            0 <= i < history.len() && (#[trigger] history[i]).len() > 0 ==> history[i].last()
                != '\r',
    ensures
        loaded(stored(history)) == newest(
            history.filter(|e: Seq<char>| !e.contains('\n') && says_something(e)),
            MAX_HISTORY as nat,
        ),
{
    let one_line = |e: Seq<char>| !e.contains('\n');
    let speaks = |l: Seq<char>| says_something(l);
    let both = |e: Seq<char>| !e.contains('\n') && says_something(e);
    let kept = storable(history);
    lemma_filter_twice(history, one_line, speaks, both);
    if kept.len() == 0 {
        assert(stored(history) =~= Seq::empty());
        assert(text::lines(stored(history)) =~= Seq::empty());
        assert(kept =~= Seq::empty());
    } else {
        assert forall|i: int| 0 <= i < kept.len() implies !(#[trigger] kept[i]).contains(
            '\n',
        ) && (kept[i].len() > 0 ==> kept[i].last() != '\r') by {
            history.lemma_filter_pred(one_line, i);
            history.lemma_filter_contains_rev(one_line, kept[i]);
            let k = choose|k: int| 0 <= k < history.len() && history[k] == kept[i];
            assert(history[k] == kept[i]);
        }
        text::lemma_split_join(kept, '\n');
        let lines = text::lines(stored(history));
        let ended = kept.drop_last();
        assert forall|i: int| 0 <= i < ended.len() implies text::strip_cr(kept[i]) == ended[i] by {
            assert(kept[i] == ended[i]);
        }
        assert(kept =~= ended.push(kept.last()));
        if kept.last().len() == 0 {
            assert(lines =~= ended);
            assert(text::trim(kept.last()).len() == 0) by {
                text::lemma_trim_start(kept.last());
                text::lemma_trim_end(text::trim_start(kept.last()));
            }
            assert(kept.filter(speaks) == ended.filter(speaks)) by {
                reveal(Seq::filter);
                assert(kept.drop_last() == ended);
                assert(!speaks(kept.last()));
            }
        } else {
            assert(lines =~= kept);
        }
    }
}

/// Filtering twice is filtering by both.
proof fn lemma_filter_twice<T>(
    s: Seq<T>,
    p: spec_fn(T) -> bool,
    q: spec_fn(T) -> bool,
    both: spec_fn(T) -> bool,
)
    requires
        forall|x: T| #[trigger] both(x) == (p(x) && q(x)),
    ensures
        s.filter(p).filter(q) == s.filter(both),
    decreases s.len(),
{
    reveal(Seq::filter);
    if s.len() > 0 {
        lemma_filter_twice(s.drop_last(), p, q, both);
        let front = s.drop_last().filter(p);
        if p(s.last()) {
            assert(front.push(s.last()).drop_last() =~= front);
        }
        assert(both(s.last()) == (p(s.last()) && q(s.last())));
    } else {
        assert(s.filter(p) =~= Seq::empty());
    }
}

// ---------------------------------------------------------------------------
// Walking through it
// ---------------------------------------------------------------------------

/// The history and where the user stands in it.
#[derive(Debug, Clone, PartialEq, Eq)]
pub struct HistoryBrowser {
    /// What was submitted, oldest first.
    pub entries: Vec<String>,
    /// The entry on show, while the user walks through the history.
    pub pos: Option<usize>,
    /// What the user was writing, to be given back past the newest entry.
    pub draft: String,
}

/// What a [`HistoryBrowser`] holds.
pub struct BrowserView {
    pub entries: Seq<Seq<char>>,
    pub pos: Option<usize>,
    pub draft: Seq<char>,
}

impl View for HistoryBrowser {
    type V = BrowserView;

    open spec fn view(&self) -> BrowserView {
        BrowserView { entries: text::views(self.entries@), pos: self.pos, draft: self.draft@ }
    }
}

impl BrowserView {
    /// The entry on show, if there is one, is an entry.
    pub open spec fn wf(self) -> bool {
        self.pos matches Some(p) ==> p < self.entries.len()
    }
}

/// The browser after `input` was submitted: it stands last unless it is what was
/// submitted before, and nobody walks through the history any more.
pub open spec fn recorded(b: BrowserView, input: Seq<char>) -> BrowserView {
    BrowserView {
        entries: if b.entries.len() > 0 && b.entries.last() == input {
            b.entries
        } else {
            newest(b.entries.push(input), MAX_HISTORY as nat)
        },
        pos: None,
        draft: Seq::empty(),
    }
}

/// The draft to keep when the user leaves what is on show, `current`: what they were
/// writing, or the entry that they changed.
pub open spec fn kept_draft(b: BrowserView, current: Seq<char>) -> Seq<char> {
    match b.pos {
        Some(p) => if current == b.entries[p as int] {
            b.draft
        } else {
            current
        },
        None => current,
    }
}

/// One step to an older entry, and what it shows.
pub open spec fn back(b: BrowserView, current: Seq<char>) -> (BrowserView, Option<Seq<char>>) {
    if b.entries.len() == 0 {
        (b, None)
    } else {
        let p = match b.pos {
            Some(p) => if p > 0 {
                p - 1
            } else {
                0
            },
            None => b.entries.len() - 1,
        };
        (
            BrowserView { pos: Some(p as usize), draft: kept_draft(b, current), ..b },
            Some(b.entries[p]),
        )
    }
}

/// One step to a newer entry, and what it shows: past the newest, the draft.
pub open spec fn forward(b: BrowserView, current: Seq<char>) -> (BrowserView, Option<Seq<char>>) {
    match b.pos {
        Some(p) => if p + 1 < b.entries.len() {
            (
                BrowserView { pos: Some((p + 1) as usize), draft: kept_draft(b, current), ..b },
                Some(b.entries[p + 1]),
            )
        } else {
            (
                BrowserView { pos: None, draft: Seq::empty(), ..b },
                Some(kept_draft(b, current)),
            )
        },
        None => (b, None),
    }
}

impl Default for HistoryBrowser {
    fn default() -> (r: Self)
        ensures
            r@ == (BrowserView { entries: Seq::empty(), pos: None, draft: Seq::empty() }),
    {
        let r = HistoryBrowser { entries: Vec::new(), pos: None, draft: String::new() };
        assert(text::views(r.entries@) =~= Seq::empty());
        r
    }
}

impl HistoryBrowser {
    /// Start from a history file.
    pub fn load(file: &str) -> (r: Self)
        ensures
            r@ == (BrowserView { entries: loaded(file@), pos: None, draft: Seq::empty() }),
    {
        HistoryBrowser { entries: load_history(file), pos: None, draft: String::new() }
    }

    /// Record a submitted input. Whether the history changed, so that it is to be stored.
    pub fn record(&mut self, input: &str) -> (r: bool)
        ensures
            final(self)@ == recorded(old(self)@, input@),
            r == !(old(self)@.entries.len() > 0 && old(self)@.entries.last() == input@),
    {
        let n: usize = self.entries.len();
        let ghost before = text::views(self.entries@);
        assert(n > 0 ==> before.last() == self.entries@[n - 1]@);
        let same: bool = n > 0 && str_eq(self.entries[n - 1].as_str(), input);
        if !same {
            self.entries.push(input.to_string());
            assert(text::views(self.entries@) =~= before.push(input@));
            keep_newest(&mut self.entries);
        }
        self.pos = None;
        self.draft = String::new();
        !same
    }

    /// Step to the previous entry. What is on show, `current`, is kept as the draft
    /// where it is the user's own: on the first step, and later where they changed the
    /// entry. `None` where there is no history.
    pub fn recall_prev(&mut self, current: &str) -> (r: Option<String>)
        requires
            old(self)@.wf(),
        ensures
            (final(self)@, crate::json::opt_view(r)) == back(old(self)@, current@),
            final(self)@.wf(),
    {
        let n: usize = self.entries.len();
        if n == 0 {
            return None;
        }
        let p: usize = match self.pos {
            None => {
                self.draft = current.to_string();
                n - 1
            },
            Some(p) => {
                assert(text::views(self.entries@)[p as int] == self.entries@[p as int]@);
                if !str_eq(current, self.entries[p].as_str()) {
                    self.draft = current.to_string();
                }
                if p > 0 {
                    p - 1
                } else {
                    0
                }
            },
        };
        self.pos = Some(p);
        assert(text::views(self.entries@)[p as int] == self.entries@[p as int]@);
        Some(self.entries[p].clone())
    }

    /// Step to the next entry; past the newest, the draft comes back. `None` where nobody
    /// walks through the history.
    pub fn recall_next(&mut self, current: &str) -> (r: Option<String>)
        requires
            old(self)@.wf(),
        ensures
            (final(self)@, crate::json::opt_view(r)) == forward(old(self)@, current@),
            final(self)@.wf(),
    {
        match self.pos {
            Some(p) => {
                let n: usize = self.entries.len();
                assert(text::views(self.entries@)[p as int] == self.entries@[p as int]@);
                if !str_eq(current, self.entries[p].as_str()) {
                    self.draft = current.to_string();
                }
                if p < n - 1 {
                    self.pos = Some(p + 1);
                    assert(text::views(self.entries@)[p + 1] == self.entries@[p + 1]@);
                    Some(self.entries[p + 1].clone())
                } else {
                    self.pos = None;
                    let draft = self.draft.clone();
                    self.draft = String::new();
                    Some(draft)
                }
            },
            None => None,
        }
    }

    /// Where the user stands, for an indicator: which entry is on show, counted from the
    /// newest, and how many there are.
    pub fn browsing(&self) -> (r: Option<(usize, usize)>)
        requires
            self@.wf(),
        ensures
            r == (match self@.pos {
                Some(p) => Some(
                    ((self@.entries.len() - p) as usize, self@.entries.len() as usize),
                ),
                None => None,
            }),
            r is Some <==> self@.pos is Some,
            r matches Some((at, of)) ==> 1 <= at <= of && of == self@.entries.len() && (at == 1
                <==> self@.pos->0 + 1 == of),
    {
        match self.pos {
            Some(p) => {
                let total: usize = self.entries.len();
                Some((total - p, total))
            },
            None => None,
        }
    }
}

/// The browser after `n` steps forward, each from an entry left as it is, and what the
/// last of them showed.
pub open spec fn walked(b: BrowserView, n: nat) -> (BrowserView, Option<Seq<char>>)
    decreases n,
{
    if n == 0 {
        (b, None)
    } else {
        let before = walked(b, (n - 1) as nat).0;
        forward(before, before.entries[before.pos->0 as int])
    }
}

/// Walking forward through unchanged entries to past the newest gives the draft back.
pub proof fn law_draft_comes_back(b: BrowserView)
    requires
        b.wf(),
        b.pos is Some,
        b.entries.len() <= usize::MAX,
    ensures
        ({
            let (after, shown) = walked(b, (b.entries.len() - b.pos->0) as nat);
            shown == Some(b.draft) && after.pos is None && after.entries == b.entries
        }),
{
    lemma_walked(b, (b.entries.len() - b.pos->0 - 1) as nat);
}

proof fn lemma_walked(b: BrowserView, n: nat)
    requires
        b.wf(),
        b.pos is Some,
        b.pos->0 + n < b.entries.len() <= usize::MAX,
    ensures
        walked(b, n).0 == (BrowserView { pos: Some((b.pos->0 + n) as usize), ..b }),
    decreases n,
{
    if n > 0 {
        lemma_walked(b, (n - 1) as nat);
    }
}

/// A step back and a step forward past the newest entry give back what was being
/// written, and leave the history as it was.
pub proof fn law_back_and_forward(b: BrowserView, writing: Seq<char>)
    requires
        b.pos is None,
        b.entries.len() > 0,
        b.entries.len() <= usize::MAX,
    ensures
        ({
            let (there, shown) = back(b, writing);
            let (home, given) = forward(there, shown->0);
            shown == Some(b.entries.last()) && given == Some(writing) && home.pos is None
                && home.entries == b.entries
        }),
{
}

/// The history never holds more than it may, nor the same input twice in a row because
/// it was submitted twice.
pub proof fn law_recording_is_bounded(b: BrowserView, input: Seq<char>)
    requires
        b.entries.len() <= MAX_HISTORY,
    ensures
        recorded(b, input).entries.len() <= MAX_HISTORY,
        recorded(b, input).entries.last() == input,
        recorded(recorded(b, input), input) == recorded(b, input),
{
}

// ---------------------------------------------------------------------------
// Writes that wait for the disk
// ---------------------------------------------------------------------------

/// The snapshots that wait to be written, at most one for each file.
#[derive(Debug, Clone, PartialEq, Eq)]
pub struct PendingWrites {
    pub list: Vec<(String, Vec<String>)>,
}

/// The views of waiting snapshots.
pub open spec fn pending(list: Seq<(String, Vec<String>)>) -> Seq<(Seq<char>, Seq<Seq<char>>)> {
    Seq::new(list.len(), |i: int| (list[i].0@, text::views(list[i].1@)))
}

impl View for PendingWrites {
    type V = Seq<(Seq<char>, Seq<Seq<char>>)>;

    open spec fn view(&self) -> Seq<(Seq<char>, Seq<Seq<char>>)> {
        pending(self.list@)
    }
}

/// Where the snapshot for `path` waits, at `from` or later.
pub open spec fn slot(
    list: Seq<(Seq<char>, Seq<Seq<char>>)>,
    path: Seq<char>,
    from: int,
) -> Option<int>
    decreases list.len() - from,
{
    if from < 0 || from >= list.len() {
        None
    } else if list[from].0 == path {
        Some(from)
    } else {
        slot(list, path, from + 1)
    }
}

/// The waiting snapshots with one more, which takes the place of an older one for the
/// same file.
pub open spec fn queued(
    list: Seq<(Seq<char>, Seq<Seq<char>>)>,
    path: Seq<char>,
    entries: Seq<Seq<char>>,
) -> Seq<(Seq<char>, Seq<Seq<char>>)> {
    match slot(list, path, 0) {
        Some(i) => list.update(i, (path, entries)),
        None => list.push((path, entries)),
    }
}

impl PendingWrites {
    /// Nothing waits.
    pub fn new() -> (r: Self)
        ensures
            r@ == Seq::<(Seq<char>, Seq<Seq<char>>)>::empty(),
    {
        let r = PendingWrites { list: Vec::new() };
        assert(r@ =~= Seq::empty());
        r
    }

    /// Queue a snapshot. Every write is of the whole history, so a snapshot that a later
    /// one for the same file overtakes need not be written.
    pub fn queue(&mut self, path: String, entries: Vec<String>)
        ensures
            final(self)@ == queued(old(self)@, path@, text::views(entries@)),
    {
        let ghost before = self@;
        let count: usize = self.list.len();
        for i in 0..count
            invariant
                count == self.list@.len(),
                before == old(self)@,
                self@ == before,
                slot(before, path@, 0) == slot(before, path@, i as int),
        {
            assert(before[i as int].0 == self.list@[i as int].0@);
            if str_eq(self.list[i].0.as_str(), path.as_str()) {
                let ghost whole = text::views(entries@);
                self.list.set(i, (path, entries));
                assert(self@ =~= before.update(i as int, (path@, whole)));
                return;
            }
        }
        let ghost whole = text::views(entries@);
        self.list.push((path, entries));
        assert(self@ =~= before.push((path@, whole)));
    }

    /// Take all that waits.
    pub fn drain(&mut self) -> (r: Vec<(String, Vec<String>)>)
        ensures
            pending(r@) == old(self)@,
            final(self)@ == Seq::<(Seq<char>, Seq<Seq<char>>)>::empty(),
    {
        let mut taken: Vec<(String, Vec<String>)> = Vec::new();
        taken.append(&mut self.list);
        assert(self@ =~= Seq::empty());
        taken
    }
}

/// What waits to be written to `path`.
pub open spec fn waiting(
    list: Seq<(Seq<char>, Seq<Seq<char>>)>,
    path: Seq<char>,
) -> Option<Seq<Seq<char>>> {
    match slot(list, path, 0) {
        Some(i) => Some(list[i].1),
        None => None,
    }
}

proof fn lemma_slot(list: Seq<(Seq<char>, Seq<Seq<char>>)>, path: Seq<char>, from: int)
    requires
        0 <= from,
    ensures
        match slot(list, path, from) {
            Some(i) => from <= i < list.len() && list[i].0 == path && forall|j: int|
                from <= j < i ==> (#[trigger] list[j]).0 != path,
            None => forall|j: int| from <= j < list.len() ==> (#[trigger] list[j]).0 != path,
        },
    decreases list.len() - from,
{
    if from < list.len() && list[from].0 != path {
        lemma_slot(list, path, from + 1);
    }
}

/// The newest snapshot for a file is the one that is written, however many came before
/// it, and no snapshot displaces one for another file.
pub proof fn law_the_newest_snapshot_is_written(
    list: Seq<(Seq<char>, Seq<Seq<char>>)>,
    path: Seq<char>,
    entries: Seq<Seq<char>>,
    other: Seq<char>,
)
    ensures
        waiting(queued(list, path, entries), path) == Some(entries),
        other != path ==> waiting(queued(list, path, entries), other) == waiting(list, other),
        queued(list, path, entries).len() <= list.len() + 1,
        waiting(list, path) is Some ==> queued(list, path, entries).len() == list.len(),
{
    let after = queued(list, path, entries);
    lemma_slot(list, path, 0);
    lemma_slot(after, path, 0);
    lemma_slot(list, other, 0);
    lemma_slot(after, other, 0);
    match slot(list, path, 0) {
        Some(i) => {
            assert(after[i] == (path, entries));
            if slot(after, path, 0)->0 < i {
                assert(list[slot(after, path, 0)->0].0 != path);
            }
        },
        None => {
            assert(after[list.len() as int] == (path, entries));
            if slot(after, path, 0)->0 < list.len() {
                assert(list[slot(after, path, 0)->0].0 != path);
            }
        },
    }
    if other != path {
        if let Some(k) = slot(list, other, 0) {
            assert(after[k].0 == other);
            let m = slot(after, other, 0)->0;
            if m < k {
                assert(list[m].0 != other);
            }
        } else if let Some(m) = slot(after, other, 0) {
            assert(after[m].0 == other);
            if m < list.len() {
                assert(list[m].0 != other);
            }
        }
    }
}

/// A step back shows the entry before the one on show, the newest at first, and stays at
/// the oldest; a step forward shows the one after it. Neither changes an entry.
pub proof fn law_steps_go_one_entry_at_a_time(b: BrowserView, current: Seq<char>)
    requires
        b.wf(),
        0 < b.entries.len() <= usize::MAX,
    ensures
        ({
            let (older, shown) = back(b, current);
            &&& older.entries == b.entries
            &&& older.pos matches Some(p) && p < b.entries.len() && shown == Some(
                b.entries[p as int],
            ) && (match b.pos {
                None => p == b.entries.len() - 1,
                Some(q) => p == (if q > 0 {
                    q - 1
                } else {
                    0
                }),
            })
        }),
        ({
            let (newer, shown) = forward(b, current);
            &&& newer.entries == b.entries
            &&& match b.pos {
                None => shown is None && newer == b,
                Some(q) => if q + 1 < b.entries.len() {
                    newer.pos == Some((q + 1) as usize) && shown == Some(b.entries[q + 1])
                } else {
                    newer.pos is None && shown is Some
                },
            }
        }),
{
}

/// What the user was writing is not lost by a step: text that is not the entry on show is
/// what comes back past the newest entry.
pub proof fn law_what_was_being_written_is_kept(b: BrowserView, current: Seq<char>)
    requires
        b.wf(),
        0 < b.entries.len() <= usize::MAX,
    ensures
        b.pos is None ==> back(b, current).0.draft == current,
        b.pos matches Some(p) ==> (if current == b.entries[p as int] {
            back(b, current).0.draft == b.draft
        } else {
            back(b, current).0.draft == current
        }),
        b.pos matches Some(p) ==> (p + 1 == b.entries.len() ==> forward(b, current).1 == Some(
            if current == b.entries[p as int] {
                b.draft
            } else {
                current
            },
        )),
{
}

/// What is submitted is kept as the newest entry, behind the entries that there were, of
/// which only the oldest are dropped.
pub proof fn law_what_is_submitted_is_kept(b: BrowserView, input: Seq<char>)
    requires
        b.entries.len() <= MAX_HISTORY,
    ensures
        ({
            let r = recorded(b, input);
            &&& r.pos is None
            &&& r.draft.len() == 0
            &&& r.entries.len() > 0 && r.entries.last() == input
            &&& b.entries.len() > 0 && b.entries.last() == input ==> r.entries == b.entries
            &&& b.entries.len() < MAX_HISTORY && (b.entries.len() == 0 || b.entries.last() != input)
                ==> r.entries == b.entries.push(input)
            &&& b.entries.len() == MAX_HISTORY && b.entries.last() != input ==> r.entries
                == b.entries.drop_first().push(input)
        }),
{
    if b.entries.len() == MAX_HISTORY && b.entries.last() != input {
        assert(recorded(b, input).entries =~= b.entries.drop_first().push(input));
    }
}

} // verus!
