use std::collections::HashMap;

use hrdr::history::{
    is_readable, load_history, persist_history, HistoryBrowser, PendingWrites, MAX_HISTORY,
    MAX_HISTORY_FILE_BYTES,
};

fn with(entries: &[&str]) -> HistoryBrowser {
    HistoryBrowser {
        entries: entries.iter().map(|s| s.to_string()).collect(),
        ..Default::default()
    }
}

fn strings(list: &[&str]) -> Vec<String> {
    list.iter().map(|s| s.to_string()).collect()
}

#[test]
fn browse_prev_next_restores_draft() {
    let mut b = with(&["one", "two"]);
    assert_eq!(b.recall_prev("draft").as_deref(), Some("two"));
    // An unmodified recall passes the loaded entry back — the draft stays.
    assert_eq!(b.recall_prev("two").as_deref(), Some("one"));
    // Clamped at the oldest entry.
    assert_eq!(b.recall_prev("one").as_deref(), Some("one"));
    assert_eq!(b.recall_next("one").as_deref(), Some("two"));
    // Past the newest, the stashed draft comes back.
    assert_eq!(b.recall_next("two").as_deref(), Some("draft"));
    // Not browsing anymore.
    assert_eq!(b.recall_next("draft"), None);
    // Empty history: Up does nothing.
    let mut empty = HistoryBrowser::default();
    assert_eq!(empty.recall_prev("draft"), None);
}

/// Editing a recalled entry before stepping on keeps the edit as the draft.
#[test]
fn editing_a_recalled_entry_stashes_the_edit() {
    let mut b = with(&["one", "two"]);
    assert_eq!(b.recall_prev("draft").as_deref(), Some("two"));
    assert_eq!(b.recall_prev("two").as_deref(), Some("one"));
    // Edit "one" to "one-edited", then press Up (clamped at the oldest).
    assert_eq!(b.recall_prev("one-edited").as_deref(), Some("one"));
    // Down through the entries; the edited draft comes back past the newest.
    assert_eq!(b.recall_next("one").as_deref(), Some("two"));
    assert_eq!(b.recall_next("two").as_deref(), Some("one-edited"));
    // Down also stashes an edit made on the newest entry.
    assert_eq!(b.recall_prev("one-edited").as_deref(), Some("two"));
    assert_eq!(b.recall_prev("two-edited").as_deref(), Some("one"));
    assert_eq!(b.recall_next("one").as_deref(), Some("two"));
    assert_eq!(b.recall_next("two").as_deref(), Some("two-edited"));
}

/// Multi-line entries browse exactly like single-line ones.
#[test]
fn multi_line_entries_browse_like_single_line() {
    let mut b = with(&["line one\nline two", "one\n\ntwo\n"]);
    assert_eq!(b.recall_prev("draft").as_deref(), Some("one\n\ntwo\n"));
    assert_eq!(
        b.recall_prev("one\n\ntwo\n").as_deref(),
        Some("line one\nline two")
    );
    // Clamped; then back down and the draft returns.
    assert_eq!(
        b.recall_prev("line one\nline two").as_deref(),
        Some("line one\nline two")
    );
    assert_eq!(
        b.recall_next("line one\nline two").as_deref(),
        Some("one\n\ntwo\n")
    );
    assert_eq!(b.recall_next("one\n\ntwo\n").as_deref(), Some("draft"));
}

/// `browsing` reports where the walk stands, counting from the newest entry.
#[test]
fn browsing_reports_position_then_clears() {
    let mut b = with(&["one", "two", "three"]);
    assert_eq!(b.browsing(), None, "not browsing yet");
    b.recall_prev("draft");
    assert_eq!(b.browsing(), Some((1, 3)), "first Up lands on the newest");
    b.recall_prev("three");
    assert_eq!(b.browsing(), Some((2, 3)));
    b.recall_prev("two");
    assert_eq!(b.browsing(), Some((3, 3)), "clamped at the oldest");
    b.recall_next("one");
    assert_eq!(b.browsing(), Some((2, 3)));
    b.recall_next("two");
    b.recall_next("three");
    assert_eq!(b.browsing(), None, "draft restored — no longer browsing");
    // Empty history never browses.
    let mut empty = HistoryBrowser::default();
    assert_eq!(empty.recall_prev("d"), None);
    assert_eq!(empty.browsing(), None);
}

#[test]
fn recording_skips_a_repeat_and_ends_the_walk() {
    let mut b = with(&["one"]);
    b.recall_prev("draft");
    assert!(b.record("two"));
    assert_eq!(b.entries, strings(&["one", "two"]));
    assert_eq!(b.browsing(), None);
    assert_eq!(b.draft, "");
    assert!(!b.record("two"), "a repeat changes nothing");
    assert_eq!(b.entries, strings(&["one", "two"]));
    assert!(b.record("one"), "only the last entry counts as a repeat");
    assert_eq!(b.entries.len(), 3);
}

#[test]
fn the_history_keeps_its_newest_entries() {
    let mut b = HistoryBrowser::default();
    for i in 0..MAX_HISTORY + 5 {
        b.record(&format!("entry {i}"));
    }
    assert_eq!(b.entries.len(), MAX_HISTORY);
    assert_eq!(b.entries[0], "entry 5");
    assert_eq!(b.entries[MAX_HISTORY - 1], format!("entry {}", MAX_HISTORY + 4));
}

#[test]
fn loading_drops_blank_lines_and_carriage_returns() {
    assert_eq!(
        load_history("one\r\n\n   \ntwo\nthree"),
        strings(&["one", "two", "three"])
    );
    assert!(load_history("").is_empty());
    let many: Vec<String> = (0..MAX_HISTORY + 3).map(|i| format!("l{i}")).collect();
    let loaded = load_history(&many.join("\n"));
    assert_eq!(loaded.len(), MAX_HISTORY);
    assert_eq!(loaded[0], "l3");
    assert_eq!(HistoryBrowser::load("a\nb\n").entries, strings(&["a", "b"]));
}

#[test]
fn the_stored_text_has_one_entry_a_line() {
    assert_eq!(persist_history(&strings(&["one", "two"])), "one\ntwo");
    assert_eq!(persist_history(&strings(&["one", "a\nb", "two"])), "one\ntwo");
    assert_eq!(persist_history(&Vec::new()), "");
}

#[test]
fn a_stored_history_reads_back() {
    let kept = strings(&["first", "  indented", "ünïcode ☂", "x"]);
    let mut all = kept.clone();
    all.insert(1, "two\nlines".to_string());
    all.insert(3, "   ".to_string());
    assert_eq!(load_history(&persist_history(&all)), kept);
}

#[test]
fn a_history_file_that_is_too_large_is_not_read() {
    assert!(is_readable(0));
    assert!(is_readable(MAX_HISTORY_FILE_BYTES));
    assert!(!is_readable(MAX_HISTORY_FILE_BYTES + 1));
}

#[test]
fn a_later_snapshot_replaces_the_one_for_its_file() {
    let mut q = PendingWrites::new();
    for i in 0..50 {
        q.queue("history-a".to_string(), vec![format!("a {i}")]);
        q.queue("history-b".to_string(), vec![format!("b {i}")]);
    }
    q.queue("history-a".to_string(), strings(&["last"]));
    let taken = q.drain();
    assert_eq!(
        taken,
        vec![
            ("history-a".to_string(), strings(&["last"])),
            ("history-b".to_string(), strings(&["b 49"])),
        ]
    );
    assert!(q.drain().is_empty());
}

/// A writer with its queue, and the files that it writes.
struct Writer {
    pending: PendingWrites,
    files: HashMap<String, String>,
}

impl Writer {
    fn new() -> Self {
        Writer { pending: PendingWrites::new(), files: HashMap::new() }
    }

    fn queue(&mut self, path: &str, entries: &[String]) {
        self.pending.queue(path.to_string(), entries.to_vec());
    }

    /// What one wakeup does.
    fn wake(&mut self) {
        for (path, entries) in self.pending.drain() {
            self.files.insert(path, persist_history(&entries));
        }
    }

    fn holds(&self, path: &str, want: &str) {
        assert_eq!(self.files.get(path).map(String::as_str), Some(want));
    }
}

/// The writes land in the order of the submits.
#[test]
fn record_persists_on_a_detached_thread() {
    let mut w = Writer::new();
    w.queue("history", &strings(&["one", "two"]));
    w.queue("history", &strings(&["one", "two", "three"]));
    w.wake();
    w.holds("history", "one\ntwo\nthree");
}

/// The newest snapshot wins, though it is the shortest.
#[test]
fn a_burst_of_persists_converges_on_the_last() {
    let mut w = Writer::new();
    let mut entries: Vec<String> = Vec::new();
    for i in 0..200 {
        entries.push(format!("entry {i}"));
        w.queue("history", &entries);
        if i % 7 == 0 {
            w.wake();
        }
    }
    w.queue("history", &strings(&["last"]));
    w.wake();
    w.holds("history", "last");
}

/// A submit that comes after the queue ran empty is written too.
#[test]
fn the_writer_thread_serves_submits_after_going_idle() {
    let mut w = Writer::new();
    w.queue("history", &strings(&["first"]));
    w.wake();
    w.holds("history", "first");
    w.wake();
    w.queue("history", &strings(&["first", "second"]));
    w.wake();
    w.holds("history", "first\nsecond");
}

/// No file's snapshot displaces another's.
#[test]
fn snapshots_for_different_paths_all_land() {
    let mut w = Writer::new();
    for i in 0..50 {
        w.queue("history-a", &[format!("a {i}")]);
        w.queue("history-b", &[format!("b {i}")]);
    }
    w.wake();
    w.holds("history-a", "a 49");
    w.holds("history-b", "b 49");
}
