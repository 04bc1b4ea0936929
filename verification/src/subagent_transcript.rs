//! The transcript of one delegated run: an append-only log of its own, so that a
//! sub-agent that dies in the middle of its work leaves what it did. A log without an
//! end is that of a run that crashed or still goes on.
use crate::clock::{local_now, Moment};
use crate::event::{AgentEvent, EventView};
use crate::text;
use crate::text::str_trim;
use crate::transcript;
use crate::transcript::{apply_event_at, Entry};
use vstd::prelude::*;

verus! {

/// How a sub-agent was started.
#[derive(Debug, Clone, Copy, PartialEq, Eq, Structural)]
pub enum SpawnKind {
    Blocking,
    Background,
}

/// How a sub-agent's run ended.
#[derive(Debug, Clone, Copy, PartialEq, Eq, Structural)]
pub enum EndStatus {
    Success,
    Failed,
    Panicked,
    Cancelled,
}

/// One line of a transcript: a projection of the sub-agent's events that keeps the
/// arguments and the result of every tool call, and what frames the run.
#[derive(Debug, Clone, PartialEq, Eq)]
pub enum Record<S = String> {
    Start { model: S, label: S, kind: SpawnKind, prompt: S },
    Reasoning { text: S },
    Text { chunk: S },
    ToolStart { id: S, name: S, args: S },
    ToolOutput { id: S, chunk: S },
    ToolEnd { id: S, name: S, result: S, ok: bool },
    Notice { msg: S },
    Steered { text: S },
    Error { msg: S },
    End {
        status: EndStatus,
        /// The length of the run's trimmed output in bytes. A hint only.
        bytes: usize,
    },
}

impl View for Record<String> {
    type V = Record<Seq<char>>;

    open spec fn view(&self) -> Record<Seq<char>> {
        match self {
            Record::Start { model, label, kind, prompt } => Record::Start {
                model: model@,
                label: label@,
                kind: *kind,
                prompt: prompt@,
            },
            Record::Reasoning { text } => Record::Reasoning { text: text@ },
            Record::Text { chunk } => Record::Text { chunk: chunk@ },
            Record::ToolStart { id, name, args } => Record::ToolStart {
                id: id@,
                name: name@,
                args: args@,
            },
            Record::ToolOutput { id, chunk } => Record::ToolOutput { id: id@, chunk: chunk@ },
            Record::ToolEnd { id, name, result, ok } => Record::ToolEnd {
                id: id@,
                name: name@,
                result: result@,
                ok: *ok,
            },
            Record::Notice { msg } => Record::Notice { msg: msg@ },
            Record::Steered { text } => Record::Steered { text: text@ },
            Record::Error { msg } => Record::Error { msg: msg@ },
            Record::End { status, bytes } => Record::End { status: *status, bytes: *bytes },
        }
    }
}

/// The view of an optional record.
pub open spec fn opt_record(r: Option<Record>) -> Option<Record<Seq<char>>> {
    match r {
        Some(x) => Some(x@),
        None => None,
    }
}

/// The record that keeps an event. Bookkeeping and signals that no transcript shows are
/// not kept.
pub open spec fn record_of(ev: EventView) -> Option<Record<Seq<char>>> {
    match ev {
        AgentEvent::Reasoning(text) => Some(Record::Reasoning { text }),
        AgentEvent::Text(chunk) => Some(Record::Text { chunk }),
        AgentEvent::ToolStart { id, name, args } => Some(Record::ToolStart { id, name, args }),
        AgentEvent::ToolOutput { id, chunk } => Some(Record::ToolOutput { id, chunk }),
        AgentEvent::ToolEnd { id, name, result, ok } => Some(
            Record::ToolEnd { id, name, result, ok },
        ),
        AgentEvent::Notice(msg) => Some(Record::Notice { msg }),
        AgentEvent::Steered(text) => Some(Record::Steered { text }),
        AgentEvent::Usage(_) => None,
        AgentEvent::History(_) => None,
        AgentEvent::TodoUpdated(_) => None,
        AgentEvent::TurnDone => None,
    }
}

/// The event that a record stands for. A run's task opens the transcript as a user
/// turn, an error shows as a notice, and the end of a run shows nothing.
pub open spec fn event_of(rec: Record<Seq<char>>) -> Option<EventView> {
    match rec {
        Record::Start { prompt, .. } => Some(AgentEvent::Steered(prompt)),
        Record::Reasoning { text } => Some(AgentEvent::Reasoning(text)),
        Record::Text { chunk } => Some(AgentEvent::Text(chunk)),
        Record::ToolStart { id, name, args } => Some(AgentEvent::ToolStart { id, name, args }),
        Record::ToolOutput { id, chunk } => Some(AgentEvent::ToolOutput { id, chunk }),
        Record::ToolEnd { id, name, result, ok } => Some(
            AgentEvent::ToolEnd { id, name, result, ok },
        ),
        Record::Notice { msg } => Some(AgentEvent::Notice(msg)),
        Record::Steered { text } => Some(AgentEvent::Steered(text)),
        Record::Error { msg } => Some(AgentEvent::Notice(msg)),
        Record::End { .. } => None,
    }
}

impl Record {
    /// The record that keeps an event, if the event is kept.
    pub fn from_event(ev: &AgentEvent) -> (r: Option<Record>)
        ensures
            opt_record(r) == record_of(ev@),
    {
        match ev {
            AgentEvent::Reasoning(t) => Some(Record::Reasoning { text: t.clone() }),
            AgentEvent::Text(t) => Some(Record::Text { chunk: t.clone() }),
            AgentEvent::ToolStart { id, name, args } => Some(
                Record::ToolStart { id: id.clone(), name: name.clone(), args: args.clone() },
            ),
            AgentEvent::ToolOutput { id, chunk } => Some(
                Record::ToolOutput { id: id.clone(), chunk: chunk.clone() },
            ),
            AgentEvent::ToolEnd { id, name, result, ok } => Some(
                Record::ToolEnd {
                    id: id.clone(),
                    name: name.clone(),
                    result: result.clone(),
                    ok: *ok,
                },
            ),
            AgentEvent::Notice(n) => Some(Record::Notice { msg: n.clone() }),
            AgentEvent::Steered(s) => Some(Record::Steered { text: s.clone() }),
            _ => None,
        }
    }

    /// The event that this record stands for, if it shows anything.
    pub fn as_event(&self) -> (r: Option<AgentEvent>)
        ensures
            match r {
                Some(ev) => event_of(self@) == Some(ev@),
                None => event_of(self@) is None,
            },
    {
        match self {
            Record::Start { prompt, .. } => Some(AgentEvent::Steered(prompt.clone())),
            Record::Reasoning { text } => Some(AgentEvent::Reasoning(text.clone())),
            Record::Text { chunk } => Some(AgentEvent::Text(chunk.clone())),
            Record::ToolStart { id, name, args } => Some(
                AgentEvent::ToolStart { id: id.clone(), name: name.clone(), args: args.clone() },
            ),
            Record::ToolOutput { id, chunk } => Some(
                AgentEvent::ToolOutput { id: id.clone(), chunk: chunk.clone() },
            ),
            Record::ToolEnd { id, name, result, ok } => Some(
                AgentEvent::ToolEnd {
                    id: id.clone(),
                    name: name.clone(),
                    result: result.clone(),
                    ok: *ok,
                },
            ),
            Record::Notice { msg } => Some(AgentEvent::Notice(msg.clone())),
            Record::Steered { text } => Some(AgentEvent::Steered(text.clone())),
            Record::Error { msg } => Some(AgentEvent::Notice(msg.clone())),
            Record::End { .. } => None,
        }
    }
}

/// The text that a record with the JSON text `json` goes into its file as: one line.
pub fn record_line(json: &str) -> (r: String)
    ensures
        r@ == json@.push('\n'),
{
    let mut line = json.to_string();
    line.push('\n');
    line
}

/// One line of a transcript that is read back: its text, and the record that it parses
/// to.
#[derive(Debug, Clone, PartialEq, Eq)]
pub struct TranscriptLine {
    pub text: String,
    pub record: Option<Record>,
}

/// Whether a line holds nothing but white space.
pub open spec fn is_blank(line: TranscriptLine) -> bool {
    text::trim(line.text@).len() == 0
}

/// The last line that is not blank.
pub open spec fn last_line(lines: Seq<TranscriptLine>) -> Option<TranscriptLine>
    decreases lines.len(),
{
    if lines.len() == 0 {
        None
    } else if is_blank(lines.last()) {
        last_line(lines.drop_last())
    } else {
        Some(lines.last())
    }
}

/// Whether a line holds the record of a run's end.
pub open spec fn is_end(line: TranscriptLine) -> bool {
    line.record matches Some(rec) && rec is End
}

/// Whether the last line of a transcript that is not blank is the end of its run. One
/// without such a line is an orphan.
pub fn is_complete(lines: &Vec<TranscriptLine>) -> (r: bool)
    ensures
        r == (last_line(lines@) matches Some(l) && is_end(l)),
{
    let mut i: usize = lines.len();
    assert(lines@.take(i as int) =~= lines@);
    while i > 0
        invariant
            i <= lines@.len(),
            last_line(lines@) == last_line(lines@.take(i as int)),
        decreases i,
    {
        assert(lines@.take(i as int).drop_last() =~= lines@.take(i - 1));
        i = i - 1;
        if !str_trim(lines[i].text.as_str()).as_str().is_empty() {
            return matches!(&lines[i].record, Some(Record::End { .. }));
        }
    }
    false
}

/// The transcript `t` after the lines, in order: blank ones and ones that do not parse
/// change nothing.
pub open spec fn fold_lines(
    t: Seq<Entry<Seq<char>>>,
    lines: Seq<TranscriptLine>,
    now: Moment,
) -> Seq<Entry<Seq<char>>>
    decreases lines.len(),
{
    if lines.len() == 0 {
        t
    } else {
        let before = fold_lines(t, lines.drop_last(), now);
        let line = lines.last();
        if is_blank(line) {
            before
        } else {
            match line.record {
                Some(rec) => match event_of(rec@) {
                    Some(ev) => transcript::applied(before, ev, now),
                    None => before,
                },
                None => before,
            }
        }
    }
}

/// Fold the lines of a transcript, stamping entries with `now`.
pub fn read_transcript_at(lines: &Vec<TranscriptLine>, now: Moment) -> (r: Vec<Entry>)
    ensures
        transcript::entries(r@) == fold_lines(Seq::empty(), lines@, now),
{
    let mut list: Vec<Entry> = Vec::new();
    assert(lines@.take(0) =~= Seq::empty());
    assert(transcript::entries(list@) =~= Seq::empty());
    for i in 0..lines.len()
        invariant
            transcript::entries(list@) == fold_lines(
                Seq::empty(),
                lines@.take(i as int),
                now,
            ),
    {
        assert(lines@.take(i + 1).drop_last() =~= lines@.take(i as int));
        if !str_trim(lines[i].text.as_str()).as_str().is_empty() {
            if let Some(rec) = &lines[i].record {
                if let Some(ev) = rec.as_event() {
                    apply_event_at(&mut list, &ev, now);
                }
            }
        }
    }
    assert(lines@.take(lines@.len() as int) =~= lines@);
    list
}

/// Fold the lines of a transcript, stamped with the current time. A line that does not
/// parse is skipped.
pub fn read_transcript(lines: &Vec<TranscriptLine>) -> (r: Vec<Entry>)
    ensures
        exists|now: Moment|
            now.wf() && transcript::entries(r@) == #[trigger] fold_lines(
                Seq::empty(),
                lines@,
                now,
            ),
{
    let now = local_now();
    read_transcript_at(lines, now)
}

/// What is kept of an event stands for that event.
pub proof fn law_kept_events_come_back(ev: EventView)
    ensures
        record_of(ev) matches Some(rec) ==> event_of(rec) == Some(ev),
        record_of(ev) is None <==> ev is Usage || ev is History || ev is TodoUpdated
            || ev is TurnDone,
{
}

/// A transcript ends exactly once its end is written: it is complete after the line of
/// an end, and any later line that is not blank and no end makes it an orphan again.
pub proof fn law_last_line_decides(lines: Seq<TranscriptLine>, line: TranscriptLine)
    requires
        !is_blank(line),
    ensures
        last_line(lines.push(line)) == Some(line),
{
    assert(lines.push(line).drop_last() =~= lines);
}

/// A blank line changes neither whether a transcript is complete nor what it folds to.
pub proof fn law_blank_lines_change_nothing(
    lines: Seq<TranscriptLine>,
    line: TranscriptLine,
    now: Moment,
)
    requires
        is_blank(line),
    ensures
        last_line(lines.push(line)) == last_line(lines),
        fold_lines(Seq::empty(), lines.push(line), now) == fold_lines(Seq::empty(), lines, now),
{
    assert(lines.push(line).drop_last() =~= lines);
}

} // verus!
