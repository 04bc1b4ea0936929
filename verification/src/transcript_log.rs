//! The durable transcript: an append-only log of one agent's run, one record to a line,
//! written while the run goes on. Reading the log back folds its records through the
//! reducer that the live view uses.
//!
//! Streamed pieces are gathered before they reach the file, because a piece of a few
//! bytes costs a line of its own otherwise. Consecutive pieces of one stream fold to the
//! transcript that one record holding all of them folds to.
use crate::clock::{local_now, Moment};
use crate::event::{AgentEvent, EventView};
use crate::text;
use crate::text::{str_byte_len, str_eq, str_trim};
use crate::transcript;
use crate::transcript::{apply_event_at, Entry};
use vstd::prelude::*;

verus! {

/// How an agent's run ended.
#[derive(Debug, Clone, Copy, PartialEq, Eq, Structural)]
pub enum EndStatus {
    Success,
    Failed,
    Panicked,
    Cancelled,
}

/// One line of a log: a projection of the agent's events that keeps the arguments and
/// the result of every tool call, and what frames the run.
#[derive(Debug, Clone, PartialEq, Eq)]
pub enum Record<S = String> {
    Start { model: S, label: S, prompt: S },
    Reasoning { text: S },
    Text { chunk: S },
    ToolStart { id: S, name: S, args: S },
    ToolOutput { id: S, chunk: S },
    ToolEnd { id: S, name: S, result: S, ok: bool },
    Notice { msg: S },
    Steered { text: S },
    Error { msg: S },
    End {
        status: EndStatus,
        /// The length of the run's trimmed output in bytes. A hint only.
        bytes: usize,
    },
}

impl View for Record<String> {
    type V = Record<Seq<char>>;

    open spec fn view(&self) -> Record<Seq<char>> {
        match self {
            Record::Start { model, label, prompt } => Record::Start {
                model: model@,
                label: label@,
                prompt: prompt@,
            },
            Record::Reasoning { text } => Record::Reasoning { text: text@ },
            Record::Text { chunk } => Record::Text { chunk: chunk@ },
            Record::ToolStart { id, name, args } => Record::ToolStart {
                id: id@,
                name: name@,
                args: args@,
            },
            Record::ToolOutput { id, chunk } => Record::ToolOutput { id: id@, chunk: chunk@ },
            Record::ToolEnd { id, name, result, ok } => Record::ToolEnd {
                id: id@,
                name: name@,
                result: result@,
                ok: *ok,
            },
            Record::Notice { msg } => Record::Notice { msg: msg@ },
            Record::Steered { text } => Record::Steered { text: text@ },
            Record::Error { msg } => Record::Error { msg: msg@ },
            Record::End { status, bytes } => Record::End { status: *status, bytes: *bytes },
        }
    }
}

/// The views of a sequence of records.
pub open spec fn records(s: Seq<Record>) -> Seq<Record<Seq<char>>> {
    Seq::new(s.len(), |i: int| s[i]@)
}

/// The view of an optional record.
pub open spec fn opt_record(r: Option<Record>) -> Option<Record<Seq<char>>> {
    match r {
        Some(x) => Some(x@),
        None => None,
    }
}

/// The record that keeps an event. Bookkeeping and signals that no transcript shows are
/// not kept.
pub open spec fn record_of(ev: EventView) -> Option<Record<Seq<char>>> {
    match ev {
        AgentEvent::Reasoning(text) => Some(Record::Reasoning { text }),
        AgentEvent::Text(chunk) => Some(Record::Text { chunk }),
        AgentEvent::ToolStart { id, name, args } => Some(Record::ToolStart { id, name, args }),
        AgentEvent::ToolOutput { id, chunk } => Some(Record::ToolOutput { id, chunk }),
        AgentEvent::ToolEnd { id, name, result, ok } => Some(
            Record::ToolEnd { id, name, result, ok },
        ),
        AgentEvent::Notice(msg) => Some(Record::Notice { msg }),
        AgentEvent::Steered(text) => Some(Record::Steered { text }),
        AgentEvent::Usage(_) => None,
        AgentEvent::History(_) => None,
        AgentEvent::TodoUpdated(_) => None,
        AgentEvent::TurnDone => None,
    }
}

/// The event that a record stands for. A run's task opens the transcript as a user
/// turn, an error shows as a notice, and the end of a run shows nothing.
pub open spec fn event_of(rec: Record<Seq<char>>) -> Option<EventView> {
    match rec {
        Record::Start { prompt, .. } => Some(AgentEvent::Steered(prompt)),
        Record::Reasoning { text } => Some(AgentEvent::Reasoning(text)),
        Record::Text { chunk } => Some(AgentEvent::Text(chunk)),
        Record::ToolStart { id, name, args } => Some(AgentEvent::ToolStart { id, name, args }),
        Record::ToolOutput { id, chunk } => Some(AgentEvent::ToolOutput { id, chunk }),
        Record::ToolEnd { id, name, result, ok } => Some(
            AgentEvent::ToolEnd { id, name, result, ok },
        ),
        Record::Notice { msg } => Some(AgentEvent::Notice(msg)),
        Record::Steered { text } => Some(AgentEvent::Steered(text)),
        Record::Error { msg } => Some(AgentEvent::Notice(msg)),
        Record::End { .. } => None,
    }
}

impl Record {
    /// The record that keeps an event, if the event is kept.
    pub fn from_event(ev: &AgentEvent) -> (r: Option<Record>)
        ensures
            opt_record(r) == record_of(ev@),
    {
        match ev {
            AgentEvent::Reasoning(t) => Some(Record::Reasoning { text: t.clone() }),
            AgentEvent::Text(t) => Some(Record::Text { chunk: t.clone() }),
            AgentEvent::ToolStart { id, name, args } => Some(
                Record::ToolStart { id: id.clone(), name: name.clone(), args: args.clone() },
            ),
            AgentEvent::ToolOutput { id, chunk } => Some(
                Record::ToolOutput { id: id.clone(), chunk: chunk.clone() },
            ),
            AgentEvent::ToolEnd { id, name, result, ok } => Some(
                Record::ToolEnd {
                    id: id.clone(),
                    name: name.clone(),
                    result: result.clone(),
                    ok: *ok,
                },
            ),
            AgentEvent::Notice(n) => Some(Record::Notice { msg: n.clone() }),
            AgentEvent::Steered(s) => Some(Record::Steered { text: s.clone() }),
            _ => None,
        }
    }

    /// The event that this record stands for, if it shows anything.
    pub fn as_event(&self) -> (r: Option<AgentEvent>)
        ensures
            match r {
                Some(ev) => event_of(self@) == Some(ev@),
                None => event_of(self@) is None,
            },
    {
        match self {
            Record::Start { prompt, .. } => Some(AgentEvent::Steered(prompt.clone())),
            Record::Reasoning { text } => Some(AgentEvent::Reasoning(text.clone())),
            Record::Text { chunk } => Some(AgentEvent::Text(chunk.clone())),
            Record::ToolStart { id, name, args } => Some(
                AgentEvent::ToolStart { id: id.clone(), name: name.clone(), args: args.clone() },
            ),
            Record::ToolOutput { id, chunk } => Some(
                AgentEvent::ToolOutput { id: id.clone(), chunk: chunk.clone() },
            ),
            Record::ToolEnd { id, name, result, ok } => Some(
                AgentEvent::ToolEnd {
                    id: id.clone(),
                    name: name.clone(),
                    result: result.clone(),
                    ok: *ok,
                },
            ),
            Record::Notice { msg } => Some(AgentEvent::Notice(msg.clone())),
            Record::Steered { text } => Some(AgentEvent::Steered(text.clone())),
            Record::Error { msg } => Some(AgentEvent::Notice(msg.clone())),
            Record::End { .. } => None,
        }
    }

    /// A copy of this record.
    pub fn copied(&self) -> (r: Record)
        ensures
            r@ == self@,
    {
        match self {
            Record::Start { model, label, prompt } => Record::Start {
                model: model.clone(),
                label: label.clone(),
                prompt: prompt.clone(),
            },
            Record::Reasoning { text } => Record::Reasoning { text: text.clone() },
            Record::Text { chunk } => Record::Text { chunk: chunk.clone() },
            Record::ToolStart { id, name, args } => Record::ToolStart {
                id: id.clone(),
                name: name.clone(),
                args: args.clone(),
            },
            Record::ToolOutput { id, chunk } => Record::ToolOutput {
                id: id.clone(),
                chunk: chunk.clone(),
            },
            Record::ToolEnd { id, name, result, ok } => Record::ToolEnd {
                id: id.clone(),
                name: name.clone(),
                result: result.clone(),
                ok: *ok,
            },
            Record::Notice { msg } => Record::Notice { msg: msg.clone() },
            Record::Steered { text } => Record::Steered { text: text.clone() },
            Record::Error { msg } => Record::Error { msg: msg.clone() },
            Record::End { status, bytes } => Record::End { status: *status, bytes: *bytes },
        }
    }
}

// ---------------------------------------------------------------------------
// Gathering streamed pieces
// ---------------------------------------------------------------------------

/// How many bytes of gathered pieces are worth a line of their own.
pub const COALESCE_BYTES: usize = 512;

/// How many milliseconds a gathered piece may wait for its line.
pub const COALESCE_AGE_MS: u64 = 500;

/// `open` with `next` added to it, where both are pieces of one stream: reasoning,
/// reply, or the output of one tool call.
pub open spec fn merged(
    open: Record<Seq<char>>,
    next: Record<Seq<char>>,
) -> Option<Record<Seq<char>>> {
    match (open, next) {
        (Record::Reasoning { text }, Record::Reasoning { text: more }) => Some(
            Record::Reasoning { text: text + more },
        ),
        (Record::Text { chunk }, Record::Text { chunk: more }) => Some(
            Record::Text { chunk: chunk + more },
        ),
        (
            Record::ToolOutput { id, chunk },
            Record::ToolOutput { id: next_id, chunk: more },
        ) => if id == next_id {
            Some(Record::ToolOutput { id, chunk: chunk + more })
        } else {
            None
        },
        _ => None,
    }
}

/// Add `next` to the open record, if they are pieces of one stream. Anything else is
/// left alone and ends the open record.
pub fn merge(open: &mut Record, next: &Record) -> (r: bool)
    ensures
        match merged(old(open)@, next@) {
            Some(m) => r && final(open)@ == m,
            None => !r && final(open)@ == old(open)@,
        },
{
    match next {
        Record::Reasoning { text: more } => {
            if let Record::Reasoning { text } = open {
                text.append(more.as_str());
                return true;
            }
            false
        },
        Record::Text { chunk: more } => {
            if let Record::Text { chunk } = open {
                chunk.append(more.as_str());
                return true;
            }
            false
        },
        Record::ToolOutput { id: next_id, chunk: more } => {
            if let Record::ToolOutput { id, chunk } = open {
                if str_eq(id.as_str(), next_id.as_str()) {
                    chunk.append(more.as_str());
                    return true;
                }
            }
            false
        },
        _ => false,
    }
}

/// The bytes of streamed text that a record carries; `None` for one that is no piece
/// of a stream.
pub open spec fn payload(rec: Record<Seq<char>>) -> Option<nat> {
    match rec {
        Record::Reasoning { text } => Some(text::byte_len(text)),
        Record::Text { chunk } => Some(text::byte_len(chunk)),
        Record::ToolOutput { chunk, .. } => Some(text::byte_len(chunk)),
        _ => None,
    }
}

/// The bytes of streamed text that a record carries; `None` for one that is no piece
/// of a stream.
pub fn delta_len(rec: &Record) -> (r: Option<usize>)
    ensures
        match r {
            Some(n) => payload(rec@) == Some(n as nat),
            None => payload(rec@) is None,
        },
{
    match rec {
        Record::Reasoning { text } => Some(str_byte_len(text.as_str())),
        Record::Text { chunk } => Some(str_byte_len(chunk.as_str())),
        Record::ToolOutput { chunk, .. } => Some(str_byte_len(chunk.as_str())),
        _ => None,
    }
}

/// The state of an open log. The file itself is the caller's: these methods say what
/// goes into it, and learn how that went.
#[derive(Debug, Clone, PartialEq, Eq)]
pub struct TranscriptLog<S = String> {
    /// The file's length as this log has written it: where a torn append rolls back to.
    pub len: u64,
    /// The file may end in the middle of a record. The next record then opens with a
    /// line break, so that the fragment stays one broken line.
    pub torn: bool,
    /// The streamed record that is still gathering pieces.
    pub pending: Option<Record<S>>,
    /// When the pending record took its first piece, in milliseconds of a monotonic
    /// clock.
    pub opened_at: Option<u64>,
}

impl View for TranscriptLog<String> {
    type V = TranscriptLog<Seq<char>>;

    open spec fn view(&self) -> TranscriptLog<Seq<char>> {
        TranscriptLog {
            len: self.len,
            torn: self.torn,
            pending: opt_record(self.pending),
            opened_at: self.opened_at,
        }
    }
}

/// The pending record, as a sequence of none or one.
pub open spec fn pending_of(log: TranscriptLog<Seq<char>>) -> Seq<Record<Seq<char>>> {
    match log.pending {
        Some(p) => seq![p],
        None => Seq::empty(),
    }
}

/// `log` with nothing pending.
pub open spec fn flushed(log: TranscriptLog<Seq<char>>) -> TranscriptLog<Seq<char>> {
    TranscriptLog { len: log.len, torn: log.torn, pending: None, opened_at: None }
}

/// Whether a record opened at `opened_at` has waited its time at `now`.
pub open spec fn aged(opened_at: Option<u64>, now: u64) -> bool {
    match opened_at {
        Some(t) => now - t >= COALESCE_AGE_MS,
        None => false,
    }
}

/// What the event of recording `rec` at `now` leaves of the log, and the records that
/// go into the file, in order.
///
/// A piece that continues the pending record joins it. The pending record goes out when
/// it has gathered enough or waited long enough, and before anything that does not
/// continue it. A piece that is worth a line of its own is not held back.
pub open spec fn write_step(
    log: TranscriptLog<Seq<char>>,
    rec: Record<Seq<char>>,
    now: u64,
) -> (TranscriptLog<Seq<char>>, Seq<Record<Seq<char>>>) {
    let joined = match log.pending {
        Some(p) => merged(p, rec),
        None => None,
    };
    match joined {
        Some(m) => if payload(m) matches Some(n) && n >= COALESCE_BYTES || aged(
            log.opened_at,
            now,
        ) {
            (flushed(log), seq![m])
        } else {
            (TranscriptLog { pending: Some(m), ..log }, Seq::empty())
        },
        None => if payload(rec) matches Some(n) && n < COALESCE_BYTES {
            (
                TranscriptLog { pending: Some(rec), opened_at: Some(now), ..log },
                pending_of(log),
            )
        } else {
            (flushed(log), pending_of(log).push(rec))
        },
    }
}

/// How an append to the file went.
#[derive(Debug, Clone, Copy, PartialEq, Eq, Structural)]
pub enum AppendOutcome {
    /// The whole line is in the file.
    Whole,
    /// Nothing reached the file.
    Nothing,
    /// A part of the line reached the file; whether cutting the file back to its length
    /// before the append worked.
    Partial { rolled_back: bool },
}

/// The bytes that a record's JSON text goes into the file as.
pub open spec fn line_bytes(torn: bool, json: Seq<u8>) -> Seq<u8> {
    (if torn {
        seq![10u8]
    } else {
        Seq::empty()
    }) + json.push(10u8)
}

/// What an append of `line_len` bytes that went as `outcome` leaves of the log.
pub open spec fn appended_state(
    log: TranscriptLog<Seq<char>>,
    line_len: nat,
    outcome: AppendOutcome,
) -> TranscriptLog<Seq<char>> {
    match outcome {
        AppendOutcome::Whole => TranscriptLog {
            len: (log.len + line_len) as u64,
            torn: false,
            ..log
        },
        AppendOutcome::Nothing => log,
        AppendOutcome::Partial { rolled_back } => TranscriptLog {
            torn: log.torn || !rolled_back,
            ..log
        },
    }
}

impl TranscriptLog {
    /// A log over a file that was just created.
    pub fn create() -> (r: Self)
        ensures
            r@ == (TranscriptLog::<Seq<char>> {
                len: 0,
                torn: false,
                pending: None,
                opened_at: None,
            }),
    {
        TranscriptLog { len: 0, torn: false, pending: None, opened_at: None }
    }

    /// A log over an existing file of `len` bytes that may end in the middle of a line.
    pub fn append(len: u64, ends_mid_line: bool) -> (r: Self)
        ensures
            r@ == (TranscriptLog::<Seq<char>> {
                len,
                torn: ends_mid_line,
                pending: None,
                opened_at: None,
            }),
    {
        TranscriptLog { len, torn: ends_mid_line, pending: None, opened_at: None }
    }

    /// Record one event at `now`: the records that go into the file, in order.
    pub fn write(&mut self, rec: &Record, now: u64) -> (r: Vec<Record>)
        ensures
            (final(self)@, records(r@)) == write_step(old(self)@, rec@, now),
    {
        let ghost start = self@;
        let mut out: Vec<Record> = Vec::new();
        match self.pending.take() {
            Some(mut open) => {
                if merge(&mut open, rec) {
                    let full: bool = match delta_len(&open) {
                        Some(n) => n >= COALESCE_BYTES,
                        None => false,
                    };
                    let aged: bool = match self.opened_at {
                        Some(t) => now >= t && now - t >= COALESCE_AGE_MS,
                        None => false,
                    };
                    if full || aged {
                        self.opened_at = None;
                        out.push(open);
                        assert(records(out@) =~= seq![open@]);
                    } else {
                        self.pending = Some(open);
                        assert(records(out@) =~= Seq::empty());
                    }
                    return out;
                }
                out.push(open);
                assert(records(out@) =~= pending_of(start));
            },
            None => {
                assert(records(out@) =~= pending_of(start));
            },
        }
        self.opened_at = None;
        let small: bool = match delta_len(rec) {
            Some(n) => n < COALESCE_BYTES,
            None => false,
        };
        if small {
            self.pending = Some(rec.copied());
            self.opened_at = Some(now);
        } else {
            let ghost before = records(out@);
            out.push(rec.copied());
            assert(records(out@) =~= before.push(rec@));
        }
        out
    }

    /// The record that is still pending, which now goes into the file.
    pub fn flush(&mut self) -> (r: Option<Record>)
        ensures
            final(self)@ == flushed(old(self)@),
            opt_record(r) == old(self)@.pending,
    {
        self.opened_at = None;
        self.pending.take()
    }

    /// The bytes that a record with the JSON text `json` goes into the file as: one
    /// whole line, after a line break where the file may end in the middle of one.
    pub fn line(&self, json: &str) -> (r: Vec<u8>)
        ensures
            r@ == line_bytes(self.torn, vstd::utf8::encode_utf8(json@)),
    {
        let mut out: Vec<u8> = Vec::new();
        if self.torn {
            out.push(10);
        }
        let bytes = json.as_bytes();
        let ghost prefix = out@;
        for i in 0..bytes.len()
            invariant
                bytes@ == vstd::utf8::encode_utf8(json@),
                out@ == prefix + bytes@.take(i as int),
        {
            out.push(bytes[i]);
            assert(out@ =~= prefix + bytes@.take(i + 1));
        }
        out.push(10);
        assert(out@ =~= line_bytes(self.torn, bytes@));
        out
    }

    /// Learn how the append of a line of `line_len` bytes went.
    pub fn appended(&mut self, line_len: usize, outcome: AppendOutcome)
        requires
            old(self).len + line_len <= u64::MAX,
        ensures
            final(self)@ == appended_state(old(self)@, line_len as nat, outcome),
    {
        match outcome {
            AppendOutcome::Whole => {
                self.torn = false;
                self.len = self.len + line_len as u64;
            },
            AppendOutcome::Nothing => {},
            AppendOutcome::Partial { rolled_back } => {
                if !rolled_back {
                    self.torn = true;
                }
            },
        }
    }
}

// ---------------------------------------------------------------------------
// Appending to the file
// ---------------------------------------------------------------------------

/// What one attempt to write the rest of a buffer gave.
#[derive(Debug, Clone, Copy, PartialEq, Eq, Structural)]
pub enum WriteReply {
    /// So many bytes were taken.
    Wrote(usize),
    /// The attempt was interrupted and may be made again.
    Interrupted,
    /// The attempt failed.
    Failed,
}

/// What comes next in writing a buffer.
#[derive(Debug, Clone, Copy, PartialEq, Eq, Structural)]
pub enum AppendStep {
    /// Write the bytes from here on.
    Write { from: usize },
    /// All of it is written.
    Done,
    /// It cannot be finished; so many bytes were written.
    Stopped { landed: usize },
}

/// What comes next in writing a buffer of `total` bytes, `done` of them written.
pub open spec fn append_next(total: usize, done: usize) -> AppendStep {
    if done < total {
        AppendStep::Write { from: done }
    } else {
        AppendStep::Done
    }
}

/// What comes next after `reply` to writing the bytes from `done` on: an attempt that
/// takes no byte makes no progress and is not repeated.
pub open spec fn append_reply(total: usize, done: usize, reply: WriteReply) -> AppendStep {
    match reply {
        WriteReply::Wrote(n) => if n == 0 {
            AppendStep::Stopped { landed: done }
        } else {
            append_next(total, (done + n) as usize)
        },
        WriteReply::Interrupted => append_next(total, done),
        WriteReply::Failed => AppendStep::Stopped { landed: done },
    }
}

/// Where writing a buffer of `total` bytes begins.
pub fn append_start(total: usize) -> (r: AppendStep)
    ensures
        r == append_next(total, 0),
{
    if total > 0 {
        AppendStep::Write { from: 0 }
    } else {
        AppendStep::Done
    }
}

/// What comes next in writing a buffer of `total` bytes after `reply` to writing those
/// from `done` on. An attempt that takes no byte makes no progress and is not repeated.
pub fn append_all(total: usize, done: usize, reply: WriteReply) -> (r: AppendStep)
    requires
        done < total,
        reply matches WriteReply::Wrote(n) ==> n <= total - done,
    ensures
        r == append_reply(total, done, reply),
{
    match reply {
        WriteReply::Wrote(n) => {
            if n == 0 {
                AppendStep::Stopped { landed: done }
            } else if done + n < total {
                AppendStep::Write { from: done + n }
            } else {
                AppendStep::Done
            }
        },
        WriteReply::Interrupted => AppendStep::Write { from: done },
        WriteReply::Failed => AppendStep::Stopped { landed: done },
    }
}

/// Whether a file ends in the middle of a line: it holds something, and no line break
/// at its end.
pub open spec fn mid_line(file: Seq<u8>) -> bool {
    file.len() > 0 && file.last() != 10u8
}

/// Whether a file of `len` bytes whose last byte is `last` ends in the middle of a
/// line. A file that could not be read counts as one that does not.
pub fn ends_mid_line(len: u64, last: Option<u8>) -> (r: bool)
    ensures
        r == (len > 0 && (last matches Some(b) && b != 10)),
{
    match last {
        Some(b) => len > 0 && b != 10,
        None => false,
    }
}

// ---------------------------------------------------------------------------
// Reading
// ---------------------------------------------------------------------------

/// The lines of a file: what stands between its line breaks, without an empty rest.
pub open spec fn file_lines(bytes: Seq<u8>) -> Seq<Seq<u8>> {
    let parts = text::split_on(bytes, 10u8);
    if parts.last().len() == 0 {
        parts.drop_last()
    } else {
        parts
    }
}

/// The views of a sequence of byte vectors.
pub open spec fn byte_views(v: Seq<Vec<u8>>) -> Seq<Seq<u8>> {
    Seq::new(v.len(), |i: int| v[i]@)
}

/// The lines of a file, as bytes: a line that is not valid UTF-8 does not hide those
/// after it.
pub fn text_lines(bytes: &Vec<u8>) -> (r: Vec<Vec<u8>>)
    ensures
        byte_views(r@) == file_lines(bytes@),
{
    let mut out: Vec<Vec<u8>> = Vec::new();
    let mut part: Vec<u8> = Vec::new();
    assert(bytes@.take(0) =~= Seq::empty());
    assert(text::split_on(bytes@.take(0), 10u8) =~= byte_views(out@).push(part@));
    for i in 0..bytes.len()
        invariant
            text::split_on(bytes@.take(i as int), 10u8) == byte_views(out@).push(part@),
    {
        let b: u8 = bytes[i];
        let ghost before = byte_views(out@).push(part@);
        assert(bytes@.take(i + 1).drop_last() =~= bytes@.take(i as int));
        if b == 10 {
            let ghost done = byte_views(out@);
            out.push(part);
            assert(byte_views(out@) =~= done.push(part@));
            part = Vec::new();
            assert(text::split_on(bytes@.take(i + 1), 10u8) =~= byte_views(out@).push(part@));
        } else {
            part.push(b);
            assert(before.drop_last() =~= byte_views(out@));
        }
    }
    assert(bytes@.take(bytes@.len() as int) =~= bytes@);
    assert(byte_views(out@).push(part@).drop_last() =~= byte_views(out@));
    if part.len() > 0 {
        let ghost done = byte_views(out@);
        out.push(part);
        assert(byte_views(out@) =~= done.push(part@));
    }
    out
}

/// One line of a log that is read back: its text, and the record that it parses to.
#[derive(Debug, Clone, PartialEq, Eq)]
pub struct LogLine {
    pub text: String,
    pub record: Option<Record>,
}

/// Whether a line holds nothing but white space.
pub open spec fn is_blank(line: LogLine) -> bool {
    text::trim(line.text@).len() == 0
}

/// The transcript `t` after a record.
pub open spec fn fold_record(
    t: Seq<Entry<Seq<char>>>,
    rec: Record<Seq<char>>,
    now: Moment,
) -> Seq<Entry<Seq<char>>> {
    match event_of(rec) {
        Some(ev) => transcript::applied(t, ev, now),
        None => t,
    }
}

/// The transcript `t` after the records, in order.
pub open spec fn fold_records(
    t: Seq<Entry<Seq<char>>>,
    recs: Seq<Record<Seq<char>>>,
    now: Moment,
) -> Seq<Entry<Seq<char>>>
    decreases recs.len(),
{
    if recs.len() == 0 {
        t
    } else {
        fold_record(fold_records(t, recs.drop_last(), now), recs.last(), now)
    }
}

/// The records of the lines that are not blank and parse.
pub open spec fn line_records(lines: Seq<LogLine>) -> Seq<Record<Seq<char>>>
    decreases lines.len(),
{
    if lines.len() == 0 {
        Seq::empty()
    } else {
        let rest = line_records(lines.drop_last());
        match lines.last().record {
            Some(rec) => if is_blank(lines.last()) {
                rest
            } else {
                rest.push(rec@)
            },
            None => rest,
        }
    }
}

/// The number of lines that are not blank and do not parse.
pub open spec fn damaged(lines: Seq<LogLine>) -> nat {
    lines.filter(|l: LogLine| !is_blank(l) && l.record is None).len()
}

/// Fold the lines of a log into a transcript, with the number of lines that had to be
/// skipped because they do not parse. Entries are stamped `now`.
pub fn fold_transcript(lines: &Vec<LogLine>, now: Moment) -> (r: (Vec<Entry>, usize))
    ensures
        transcript::entries(r.0@) == fold_records(Seq::empty(), line_records(lines@), now),
        r.1 == damaged(lines@),
{
    let mut list: Vec<Entry> = Vec::new();
    let mut skipped: usize = 0;
    let ghost bad = |l: LogLine| !is_blank(l) && l.record is None;
    assert(lines@.take(0) =~= Seq::empty());
    proof {
        reveal(Seq::filter);
    }
    assert(transcript::entries(list@) =~= Seq::empty());
    for i in 0..lines.len()
        invariant
            bad == (|l: LogLine| !is_blank(l) && l.record is None),
            transcript::entries(list@) == fold_records(
                Seq::empty(),
                line_records(lines@.take(i as int)),
                now,
            ),
            skipped == lines@.take(i as int).filter(bad).len() <= i,
    {
        proof {
            reveal(Seq::filter);
            assert(lines@.take(i + 1).drop_last() =~= lines@.take(i as int));
        }
        let ghost before = line_records(lines@.take(i as int));
        if !str_trim(lines[i].text.as_str()).as_str().is_empty() {
            match &lines[i].record {
                Some(rec) => {
                    assert(before.push(rec@).drop_last() =~= before);
                    if let Some(ev) = rec.as_event() {
                        apply_event_at(&mut list, &ev, now);
                    }
                },
                None => {
                    skipped = skipped + 1;
                },
            }
        }
    }
    assert(lines@.take(lines@.len() as int) =~= lines@);
    (list, skipped)
}

/// Fold the lines of a log into a transcript, stamped with the current time. A line
/// that does not parse is skipped.
pub fn read_transcript(lines: &Vec<LogLine>) -> (r: Vec<Entry>)
    ensures
        exists|now: Moment|
            now.wf() && transcript::entries(r@) == #[trigger] fold_records(
                Seq::empty(),
                line_records(lines@),
                now,
            ),
{
    let now = local_now();
    fold_transcript(lines, now).0
}

// ---------------------------------------------------------------------------
// Laws
// ---------------------------------------------------------------------------

/// What is kept of an event stands for that event.
pub proof fn law_kept_events_come_back(ev: EventView)
    ensures
        record_of(ev) matches Some(rec) ==> event_of(rec) == Some(ev),
        record_of(ev) is None <==> ev is Usage || ev is History || ev is TodoUpdated
            || ev is TurnDone,
{
}

/// Folding records one part after the other is folding them all.
pub proof fn lemma_fold_records_concat(
    t: Seq<Entry<Seq<char>>>,
    a: Seq<Record<Seq<char>>>,
    b: Seq<Record<Seq<char>>>,
    now: Moment,
)
    ensures
        fold_records(t, a + b, now) == fold_records(fold_records(t, a, now), b, now),
    decreases b.len(),
{
    if b.len() == 0 {
        assert(a + b =~= a);
    } else {
        assert((a + b).drop_last() =~= a + b.drop_last());
        lemma_fold_records_concat(t, a, b.drop_last(), now);
    }
}

proof fn lemma_fold_one(t: Seq<Entry<Seq<char>>>, rec: Record<Seq<char>>, now: Moment)
    ensures
        fold_records(t, seq![rec], now) == fold_record(t, rec, now),
{
    assert(seq![rec].drop_last() =~= Seq::empty());
    assert(fold_records(t, Seq::empty(), now) == t);
}

/// Two pieces of one stream fold to the transcript that the merged record folds to.
pub proof fn law_merging_keeps_the_transcript(
    t: Seq<Entry<Seq<char>>>,
    open: Record<Seq<char>>,
    next: Record<Seq<char>>,
    now: Moment,
)
    requires
        merged(open, next) is Some,
    ensures
        fold_record(fold_record(t, open, now), next, now) == fold_record(
            t,
            merged(open, next)->0,
            now,
        ),
{
    match (open, next) {
        (Record::Reasoning { text }, Record::Reasoning { text: more }) => {
            transcript::law_reasoning_pieces_join(t, text, more, now);
        },
        (Record::Text { chunk }, Record::Text { chunk: more }) => {
            transcript::law_text_pieces_join(t, chunk, more, now);
        },
        (Record::ToolOutput { id, chunk }, Record::ToolOutput { chunk: more, .. }) => {
            transcript::law_tool_output_pieces_join(t, id, chunk, more, now);
        },
        _ => {},
    }
}

/// One write keeps the transcript: what went into the file and what is pending fold to
/// what the pending record and the new one fold to.
pub proof fn law_write_keeps_the_transcript(
    t: Seq<Entry<Seq<char>>>,
    log: TranscriptLog<Seq<char>>,
    rec: Record<Seq<char>>,
    at: u64,
    now: Moment,
)
    ensures
        ({
            let (after, out) = write_step(log, rec, at);
            fold_records(t, out + pending_of(after), now) == fold_records(
                t,
                pending_of(log).push(rec),
                now,
            )
        }),
{
    let (after, out) = write_step(log, rec, at);
    let whole = pending_of(log).push(rec);
    let joined = match log.pending {
        Some(p) => merged(p, rec),
        None => None,
    };
    match joined {
        Some(m) => {
            let p = log.pending->0;
            assert(out + pending_of(after) =~= seq![m]);
            assert(whole =~= seq![p, rec]);
            assert(whole.drop_last() =~= seq![p]);
            lemma_fold_one(t, p, now);
            lemma_fold_one(t, m, now);
            law_merging_keeps_the_transcript(t, p, rec, now);
        },
        None => {
            assert(out + pending_of(after) =~= whole);
        },
    }
}

/// The log after recording each of `recs` at the time that goes with it, and all the
/// records that went into the file.
pub open spec fn write_all(
    log: TranscriptLog<Seq<char>>,
    recs: Seq<(Record<Seq<char>>, u64)>,
) -> (TranscriptLog<Seq<char>>, Seq<Record<Seq<char>>>)
    decreases recs.len(),
{
    if recs.len() == 0 {
        (log, Seq::empty())
    } else {
        let (mid, before) = write_all(log, recs.drop_last());
        let (after, out) = write_step(mid, recs.last().0, recs.last().1);
        (after, before + out)
    }
}

/// The records of `recs`, without their times.
pub open spec fn untimed(recs: Seq<(Record<Seq<char>>, u64)>) -> Seq<Record<Seq<char>>> {
    recs.map_values(|r: (Record<Seq<char>>, u64)| r.0)
}

/// Whatever is recorded and whenever, the file and a final flush hold records that fold
/// to exactly the transcript that the recorded ones fold to.
pub proof fn law_gathering_keeps_the_transcript(
    t: Seq<Entry<Seq<char>>>,
    log: TranscriptLog<Seq<char>>,
    recs: Seq<(Record<Seq<char>>, u64)>,
    now: Moment,
)
    requires
        log.pending is None,
    ensures
        ({
            let (after, out) = write_all(log, recs);
            fold_records(t, out + pending_of(after), now) == fold_records(t, untimed(recs), now)
        }),
    decreases recs.len(),
{
    if recs.len() == 0 {
        assert(untimed(recs) =~= Seq::empty());
        assert(Seq::<Record<Seq<char>>>::empty() + pending_of(log) =~= Seq::empty());
    } else {
        law_gathering_keeps_the_transcript(t, log, recs.drop_last(), now);
        let (mid, before) = write_all(log, recs.drop_last());
        let rec = recs.last().0;
        let (after, out) = write_step(mid, rec, recs.last().1);
        let base = fold_records(t, before, now);
        law_write_keeps_the_transcript(base, mid, rec, recs.last().1, now);
        lemma_fold_records_concat(t, before, out + pending_of(after), now);
        assert((before + out) + pending_of(after) =~= before + (out + pending_of(after)));
        lemma_fold_records_concat(t, before, pending_of(mid).push(rec), now);
        assert(before + pending_of(mid).push(rec) =~= (before + pending_of(mid)).push(rec));
        let all = (before + pending_of(mid)).push(rec);
        assert(all.drop_last() =~= before + pending_of(mid));
        assert(untimed(recs).drop_last() =~= untimed(recs.drop_last()));
    }
}

/// The records that keep the events, in order.
pub open spec fn records_of(evs: Seq<EventView>) -> Seq<Record<Seq<char>>>
    decreases evs.len(),
{
    if evs.len() == 0 {
        Seq::empty()
    } else {
        match record_of(evs.last()) {
            Some(rec) => records_of(evs.drop_last()).push(rec),
            None => records_of(evs.drop_last()),
        }
    }
}

/// Whether the events left a reasoning block that an event which is not kept has ended,
/// with nothing kept since but reasoning: the records do not show that it has ended.
pub open spec fn cut_off(t: Seq<Entry<Seq<char>>>, evs: Seq<EventView>, now: Moment) -> bool
    decreases evs.len(),
{
    if evs.len() == 0 {
        false
    } else {
        let rest = evs.drop_last();
        let before = transcript::applied_all(t, rest, now);
        match evs.last() {
            AgentEvent::Reasoning(_) => cut_off(t, rest, now),
            ev => record_of(ev) is None && (cut_off(t, rest, now) || (before.len() > 0
                && transcript::is_open_reasoning(before.last()))),
        }
    }
}

/// Whether reasoning goes on somewhere in the run after an event that is not kept has
/// ended it: the records show one block where there were two.
pub open spec fn resumed(t: Seq<Entry<Seq<char>>>, evs: Seq<EventView>, now: Moment) -> bool {
    exists|i: int|
        0 <= i < evs.len() && (#[trigger] evs[i] matches AgentEvent::Reasoning(x) && x.len() > 0)
            && cut_off(t, evs.take(i), now)
}

/// The records that keep a run's events fold to the transcript that the events built,
/// unless an event that is not kept ended a reasoning block and more reasoning, or
/// nothing that is kept, came after it.
pub proof fn law_log_replays_the_run(
    t: Seq<Entry<Seq<char>>>,
    evs: Seq<EventView>,
    now: Moment,
)
    requires
        transcript::hashes_current(t),
        !cut_off(t, evs, now),
        !resumed(t, evs, now),
    ensures
        fold_records(t, records_of(evs), now) == transcript::applied_all(t, evs, now),
{
    lemma_replay(t, evs, now);
}

/// What the events built is what the records fold to, but that a reasoning block which
/// was cut off is still streaming in the latter.
proof fn lemma_replay(t: Seq<Entry<Seq<char>>>, evs: Seq<EventView>, now: Moment)
    requires
        transcript::hashes_current(t),
        !resumed(t, evs, now),
    ensures
        ({
            let folded = fold_records(t, records_of(evs), now);
            let built = transcript::applied_all(t, evs, now);
            &&& transcript::hashes_current(folded)
            &&& cut_off(t, evs, now) ==> folded.len() > 0 && transcript::is_open_reasoning(
                folded.last(),
            ) && built == transcript::reasoning_closed(folded)
            &&& !cut_off(t, evs, now) ==> built == folded
        }),
    decreases evs.len(),
{
    if evs.len() > 0 {
        let rest = evs.drop_last();
        let last = evs.last();
        if resumed(t, rest, now) {
            let i = choose|i: int|
                0 <= i < rest.len() && (#[trigger] rest[i] matches AgentEvent::Reasoning(x)
                    && x.len() > 0) && cut_off(t, rest.take(i), now);
            assert(rest.take(i) =~= evs.take(i));
            assert(evs[i] == rest[i]);
            assert(resumed(t, evs, now));
        }
        lemma_replay(t, rest, now);
        assert(evs.take(evs.len() - 1) =~= rest);
        assert(evs[evs.len() - 1] == last);
        let folded = fold_records(t, records_of(rest), now);
        let built = transcript::applied_all(t, rest, now);
        law_kept_events_come_back(last);
        match record_of(last) {
            Some(rec) => {
                assert(records_of(rest).push(rec).drop_last() =~= records_of(rest));
                transcript::law_hashes_stay_current(folded, last, now);
                if cut_off(t, rest, now) {
                    match last {
                        AgentEvent::Reasoning(x) => {
                            assert(x.len() == 0);
                            assert(folded.last().kind->text + x =~= folded.last().kind->text);
                            assert(folded.last() == folded[folded.len() - 1]);
                            assert(transcript::extended(folded.last(), x) == folded.last());
                            assert(transcript::applied(folded, last, now) =~= folded);
                        },
                        _ => {
                            lemma_others_end_reasoning(folded, last, now);
                        },
                    }
                }
            },
            None => {},
        }
    }
}

/// To an event that is no reasoning it is the same whether a reasoning block at the end
/// is still streaming.
proof fn lemma_others_end_reasoning(t: Seq<Entry<Seq<char>>>, ev: EventView, now: Moment)
    requires
        !(ev is Reasoning),
    ensures
        transcript::applied(transcript::reasoning_closed(t), ev, now) == transcript::applied(
            t,
            ev,
            now,
        ),
{
    assert(transcript::reasoning_closed(transcript::reasoning_closed(t))
        == transcript::reasoning_closed(t));
}

/// Where writing a buffer of `total` bytes stands after the replies, in order.
pub open spec fn append_after(total: usize, replies: Seq<WriteReply>) -> AppendStep
    decreases replies.len(),
{
    if replies.len() == 0 {
        append_next(total, 0)
    } else {
        match append_after(total, replies.drop_last()) {
            AppendStep::Write { from } => append_reply(total, from, replies.last()),
            over => over,
        }
    }
}

/// Whether each reply answers an attempt to write, and took no more than it was given.
pub open spec fn answers_writes(total: usize, replies: Seq<WriteReply>) -> bool
    decreases replies.len(),
{
    replies.len() > 0 ==> {
        &&& answers_writes(total, replies.drop_last())
        &&& append_after(total, replies.drop_last()) matches AppendStep::Write { from } && (
        replies.last() matches WriteReply::Wrote(n) ==> n <= total - from)
    }
}

/// How many bytes the replies took.
pub open spec fn bytes_taken(replies: Seq<WriteReply>) -> int
    decreases replies.len(),
{
    if replies.len() == 0 {
        0
    } else {
        bytes_taken(replies.drop_last()) + (match replies.last() {
            WriteReply::Wrote(n) => n as int,
            _ => 0,
        })
    }
}

/// Over a whole append, each attempt begins where the bytes end that were taken, so none
/// is written twice or left out. It is done when all were taken, and stops short of that
/// only where an attempt failed or took nothing, saying how many were taken.
pub proof fn law_an_append_loses_no_byte(total: usize, replies: Seq<WriteReply>)
    requires
        answers_writes(total, replies),
    ensures
        match append_after(total, replies) {
            AppendStep::Write { from } => from == bytes_taken(replies) < total,
            AppendStep::Done => bytes_taken(replies) == total,
            AppendStep::Stopped { landed } => landed == bytes_taken(replies) < total
                && replies.len() > 0 && (replies.last() is Failed || replies.last()
                == WriteReply::Wrote(0)),
        },
    decreases replies.len(),
{
    if replies.len() > 0 {
        law_an_append_loses_no_byte(total, replies.drop_last());
    }
}

/// What a file of content `file` holds after an append of `line` that went as `outcome`,
/// where `landed` bytes of a partial one reached it and a roll back cuts the file to
/// `len` bytes.
pub open spec fn file_after(
    file: Seq<u8>,
    line: Seq<u8>,
    outcome: AppendOutcome,
    landed: int,
    len: int,
) -> Seq<u8> {
    match outcome {
        AppendOutcome::Whole => file + line,
        AppendOutcome::Nothing => file,
        AppendOutcome::Partial { rolled_back } => if rolled_back {
            (file + line.take(landed)).take(len)
        } else {
            file + line.take(landed)
        },
    }
}

/// An append puts the whole line into the file or leaves no trace in it, unless a roll
/// back fails.
pub proof fn law_append_is_whole_or_leaves_no_trace(
    file: Seq<u8>,
    log: TranscriptLog<Seq<char>>,
    json: Seq<u8>,
    outcome: AppendOutcome,
    landed: int,
)
    requires
        log.len == file.len(),
        0 < landed < line_bytes(log.torn, json).len(),
        file.len() + line_bytes(log.torn, json).len() <= u64::MAX,
        outcome != (AppendOutcome::Partial { rolled_back: false }),
    ensures
        ({
            let line = line_bytes(log.torn, json);
            let after = appended_state(log, line.len(), outcome);
            let then = file_after(file, line, outcome, landed, log.len as int);
            &&& after.len == then.len()
            &&& outcome == AppendOutcome::Whole ==> then == file + line && !after.torn
            &&& outcome != AppendOutcome::Whole ==> then == file && after == log
        }),
{
    let line = line_bytes(log.torn, json);
    let then = file_after(file, line, outcome, landed, log.len as int);
    if outcome == (AppendOutcome::Partial { rolled_back: true }) {
        assert(then =~= file);
    }
}

/// However an append goes, a log that knows whether its file may end in the middle of a
/// line goes on knowing it.
pub proof fn law_torn_files_are_known(
    file: Seq<u8>,
    log: TranscriptLog<Seq<char>>,
    json: Seq<u8>,
    outcome: AppendOutcome,
    landed: int,
)
    requires
        mid_line(file) ==> log.torn,
        log.len == file.len() || !(outcome matches AppendOutcome::Partial { rolled_back }
            && rolled_back),
        0 < landed < line_bytes(log.torn, json).len(),
    ensures
        ({
            let line = line_bytes(log.torn, json);
            let after = appended_state(log, line.len(), outcome);
            mid_line(file_after(file, line, outcome, landed, log.len as int)) ==> after.torn
        }),
{
    let line = line_bytes(log.torn, json);
    if outcome == (AppendOutcome::Partial { rolled_back: true }) {
        assert(file_after(file, line, outcome, landed, log.len as int) =~= file);
    }
    assert(line.last() == 10u8);
}

proof fn lemma_split_push_plain<T>(s: Seq<T>, more: Seq<T>, sep: T)
    requires
        forall|i: int| 0 <= i < more.len() ==> more[i] != sep,
    ensures
        text::split_on(s + more, sep) == text::split_on(s, sep).drop_last().push(
            text::split_on(s, sep).last() + more,
        ),
    decreases more.len(),
{
    text::lemma_split_on_nonempty(s, sep);
    let parts = text::split_on(s, sep);
    if more.len() == 0 {
        assert(s + more =~= s);
        assert(parts.last() + more =~= parts.last());
        assert(parts =~= parts.drop_last().push(parts.last()));
    } else {
        let less = more.drop_last();
        assert((s + more).drop_last() =~= s + less);
        lemma_split_push_plain(s, less, sep);
        let before = text::split_on(s + less, sep);
        assert(before.drop_last() =~= parts.drop_last());
        assert((parts.last() + less).push(more.last()) =~= parts.last() + more);
    }
}

/// A record that lands is a line of its own, whatever the file ended in, and every line
/// that stood in the file stays as it was. A file that only might have ended in the
/// middle of a line gets an empty line before the record.
pub proof fn law_a_record_lands_on_its_own_line(
    file: Seq<u8>,
    log: TranscriptLog<Seq<char>>,
    json: Seq<u8>,
)
    requires
        mid_line(file) ==> log.torn,
        json.len() > 0,
        forall|i: int| 0 <= i < json.len() ==> json[i] != 10u8,
    ensures
        file_lines(file + line_bytes(log.torn, json)) == file_lines(file) + (if log.torn
            && !mid_line(file) {
            seq![Seq::empty(), json]
        } else {
            seq![json]
        }),
{
    let pre = if log.torn {
        file.push(10u8)
    } else {
        file
    };
    let after = file + line_bytes(log.torn, json);
    assert(after =~= (pre + json).push(10u8));
    assert((pre + json).push(10u8).drop_last() =~= pre + json);
    text::lemma_split_on_nonempty(pre, 10u8);
    assert(text::split_on(pre, 10u8).last() =~= Seq::empty()) by {
        if pre.len() > 0 {
            assert(pre.last() == 10u8);
        }
    }
    lemma_split_push_plain(pre, json, 10u8);
    assert(Seq::<u8>::empty() + json =~= json);
    let parts = text::split_on(pre, 10u8).drop_last().push(json);
    assert(text::split_on(after, 10u8) =~= parts.push(Seq::empty()));
    assert(parts.push(Seq::empty()).drop_last() =~= parts);
    let old_parts = text::split_on(file, 10u8);
    text::lemma_split_on_nonempty(file, 10u8);
    if log.torn {
        assert(pre.drop_last() =~= file);
        assert(text::split_on(pre, 10u8).drop_last() =~= old_parts);
        if mid_line(file) {
            assert(parts =~= old_parts + seq![json]);
        } else {
            assert(old_parts.last() =~= Seq::empty());
            assert(parts =~= old_parts.drop_last() + seq![Seq::empty(), json]);
        }
    } else {
        assert(parts =~= old_parts.drop_last() + seq![json]);
    }
}

/// What is gathered stays small: never as much as is written at once, and none of it older
/// than its age allows once something is added to it.
pub proof fn law_gathering_is_bounded(
    log: TranscriptLog<Seq<char>>,
    rec: Record<Seq<char>>,
    now: u64,
)
    requires
        log.pending matches Some(p) ==> (payload(p) matches Some(n) && n < COALESCE_BYTES),
        log.pending is Some <==> log.opened_at is Some,
    ensures
        ({
            let (after, out) = write_step(log, rec, now);
            &&& after.pending matches Some(p) ==> (payload(p) matches Some(n) && n < COALESCE_BYTES)
            &&& after.pending is Some <==> after.opened_at is Some
            &&& after.opened_at matches Some(t) ==> t == now || (log.opened_at == Some(t) && now - t
                < COALESCE_AGE_MS)
            &&& after.len == log.len && after.torn == log.torn
            &&& payload(rec) is None ==> after.pending is None && out.last() == rec
        }),
{
}

/// A line of the file is blank, or was damaged and is counted, or is read, in its place.
pub proof fn law_every_line_is_accounted_for(lines: Seq<LogLine>, more: Seq<LogLine>)
    ensures
        lines.len() == line_records(lines).len() + damaged(lines) + lines.filter(
            |l: LogLine| is_blank(l),
        ).len(),
        line_records(lines + more) == line_records(lines) + line_records(more),
    decreases lines.len() + more.len(),
{
    reveal(Seq::filter);
    let e = Seq::<LogLine>::empty();
    if more.len() > 0 {
        law_every_line_is_accounted_for(lines, more.drop_last());
        assert((lines + more).drop_last() =~= lines + more.drop_last());
        assert(line_records(lines + more) =~= line_records(lines) + line_records(more));
    } else {
        assert(lines + more =~= lines);
        assert(line_records(lines) + line_records(more) =~= line_records(lines));
        if lines.len() > 0 {
            law_every_line_is_accounted_for(lines.drop_last(), e);
        }
    }
}

} // verus!
