//! Running the calls of one round: which run together, which are refused or vetoed, and
//! how their results reach the transcript and the history.
use crate::agent;
use crate::agent::{Agent, AgentView};
use crate::chat;
use crate::chat::{copied_todos, ChatMessage, TodoItem, ToolCall};
use crate::event;
use crate::event::{AgentEvent, EventView};
use crate::json;
use crate::json::{parse_document, ToolArgs};
use crate::repeat;
use crate::repeat::RepeatGuard;
use crate::text;
use crate::text::{join_strings, str_eq, str_trim};
use crate::turn_loop;
use crate::turn_loop::{format_duration, tool_error_text};
use vstd::prelude::*;

verus! {

// ---------------------------------------------------------------------------
// Batches
// ---------------------------------------------------------------------------

/// Where the run of calls that may run together, beginning at `from`, ends.
pub open spec fn run_end(concurrent: Seq<bool>, from: int) -> int
    decreases concurrent.len() - from,
{
    if 0 <= from < concurrent.len() && concurrent[from] {
        run_end(concurrent, from + 1)
    } else {
        from
    }
}

/// Where the batch that begins at `from` ends: after the call alone if it may not run
/// together with others, else after the whole run of those that may.
pub open spec fn batch_end(concurrent: Seq<bool>, from: int) -> int {
    if concurrent[from] {
        run_end(concurrent, from)
    } else {
        from + 1
    }
}

/// Where the batch that begins at `from` ends. `concurrent` says of each call whether it
/// may run together with others.
pub fn next_batch(concurrent: &Vec<bool>, from: usize) -> (r: usize)
    requires
        from < concurrent@.len(),
    ensures
        r == batch_end(concurrent@, from as int),
        from < r <= concurrent@.len(),
{
    let together: bool = concurrent[from];
    let count: usize = concurrent.len();
    let mut end: usize = from + 1;
    while together && end < count && concurrent[end]
        invariant
            from < end <= concurrent@.len(),
            count == concurrent@.len(),
            together == concurrent@[from as int],
            together ==> run_end(concurrent@, from as int) == run_end(concurrent@, end as int),
            !together ==> end == from + 1,
        decreases concurrent@.len() - end,
    {
        end = end + 1;
    }
    end
}

/// Within a batch of more than one every call may run together with others; the call
/// after such a batch may not.
pub proof fn law_a_call_that_must_run_alone_does(concurrent: Seq<bool>, from: int)
    requires
        0 <= from < concurrent.len(),
    ensures
        from < batch_end(concurrent, from) <= concurrent.len(),
        batch_end(concurrent, from) > from + 1 ==> forall|i: int|
            from <= i < batch_end(concurrent, from) ==> #[trigger] concurrent[i],
        concurrent[from] && batch_end(concurrent, from) < concurrent.len()
            ==> !concurrent[batch_end(concurrent, from)],
{
    lemma_run_end(concurrent, from);
}

proof fn lemma_run_end(concurrent: Seq<bool>, from: int)
    requires
        0 <= from <= concurrent.len(),
    ensures
        from <= run_end(concurrent, from) <= concurrent.len(),
        from < concurrent.len() && concurrent[from] ==> from < run_end(concurrent, from),
        forall|i: int| from <= i < run_end(concurrent, from) ==> #[trigger] concurrent[i],
        run_end(concurrent, from) < concurrent.len() ==> !concurrent[run_end(concurrent, from)],
    decreases concurrent.len() - from,
{
    if from < concurrent.len() && concurrent[from] {
        lemma_run_end(concurrent, from + 1);
    }
}

// ---------------------------------------------------------------------------
// One call
// ---------------------------------------------------------------------------

/// How a call went: its result, or the chain of causes of its failure, outermost first.
pub type CallResult = Result<String, Vec<String>>;

/// What is to be done with a call.
#[derive(Debug, Clone, PartialEq, Eq)]
pub enum CallPlan {
    /// Do not run it: it failed too often, and this is its answer.
    Refuse(String),
    /// Do not run it: its arguments cannot be read, and this is its answer.
    Fail(String),
    /// Run it without arguments.
    RunEmpty,
    /// Run it with the arguments that it came with.
    Run,
}

/// What a [`CallPlan`] holds.
pub enum CallPlanView {
    Refuse(Seq<char>),
    Fail(Seq<char>),
    RunEmpty,
    Run,
}

impl View for CallPlan {
    type V = CallPlanView;

    open spec fn view(&self) -> CallPlanView {
        match self {
            CallPlan::Refuse(s) => CallPlanView::Refuse(s@),
            CallPlan::Fail(s) => CallPlanView::Fail(s@),
            CallPlan::RunEmpty => CallPlanView::RunEmpty,
            CallPlan::Run => CallPlanView::Run,
        }
    }
}

/// What plans hold.
pub open spec fn plans(s: Seq<CallPlan>) -> Seq<CallPlanView> {
    Seq::new(s.len(), |i: int| s[i]@)
}

/// What is to be done with a call, given what the parser makes of its arguments: one
/// that failed too often is refused, one whose arguments are no JSON document fails, and
/// blank arguments stand for none.
pub open spec fn call_plan(
    g: RepeatGuard,
    call: ToolCall<Seq<char>>,
    parsed: Result<json::ArgsView, Seq<char>>,
) -> CallPlanView {
    if repeat::refuses(g, repeat::key_of(call.name, call.arguments)) {
        CallPlanView::Refuse(repeat::refusal_text(call.name, g.failures))
    } else if text::trim(call.arguments).len() == 0 {
        CallPlanView::RunEmpty
    } else {
        match parsed {
            Ok(_) => CallPlanView::Run,
            Err(e) => CallPlanView::Fail("invalid tool arguments JSON: "@ + e),
        }
    }
}

/// What is to be done with a call whose arguments parse to `parsed`.
pub fn plan_parsed(g: &RepeatGuard, call: &ToolCall, parsed: &Result<ToolArgs, String>) -> (r:
    CallPlan)
    ensures
        r@ == call_plan(*g, call@, json::document_view(*parsed)),
{
    if let Some(msg) = g.refusal(call.name.as_str(), call.arguments.as_str()) {
        return CallPlan::Refuse(msg);
    }
    if str_trim(call.arguments.as_str()).as_str().is_empty() {
        return CallPlan::RunEmpty;
    }
    match parsed {
        Ok(_) => CallPlan::Run,
        Err(e) => {
            let mut s = "invalid tool arguments JSON: ".to_string();
            s.append(e.as_str());
            CallPlan::Fail(s)
        },
    }
}

/// What is to be done with a call.
pub fn plan_call(g: &RepeatGuard, call: &ToolCall) -> (r: CallPlan)
    ensures
        r@ == call_plan(*g, call@, json::json_document(call.arguments@)),
{
    let parsed = parse_document(call.arguments.as_str());
    plan_parsed(g, call, &parsed)
}

/// The event that a call begins, with the arguments that it runs with where those are
/// known, else with those that it came with.
pub open spec fn started(call: ToolCall<Seq<char>>, recorded: Option<Seq<char>>) -> EventView {
    AgentEvent::ToolStart {
        id: call.id,
        name: call.name,
        args: match recorded {
            Some(a) => a,
            None => call.arguments,
        },
    }
}

/// Announce a call.
pub fn start_event(call: &ToolCall, recorded: &Option<String>) -> (r: AgentEvent)
    ensures
        r@ == started(call@, json::opt_view(*recorded)),
{
    AgentEvent::ToolStart {
        id: call.id.clone(),
        name: call.name.clone(),
        args: match recorded {
            Some(a) => a.clone(),
            None => call.arguments.clone(),
        },
    }
}

/// Begin a batch: each call is announced, in order, and it is settled for each what is to
/// be done with it. The calls of one batch do not count against each other: all are
/// judged by the guard as it was before the batch.
pub fn run_tool_batch(
    guard: &RepeatGuard,
    batch: &Vec<ToolCall>,
    recorded: &Vec<Option<String>>,
) -> (r: (Vec<AgentEvent>, Vec<CallPlan>))
    requires
        batch@.len() == recorded@.len(),
    ensures
        event::events(r.0@) == Seq::new(
            batch@.len(),
            |i: int| started(batch@[i]@, json::opt_view(recorded@[i])),
        ),
        plans(r.1@) == Seq::new(
            batch@.len(),
            |i: int|
                call_plan(*guard, batch@[i]@, json::json_document(batch@[i].arguments@)),
        ),
{
    let mut evs: Vec<AgentEvent> = Vec::new();
    let mut todo: Vec<CallPlan> = Vec::new();
    for i in 0..batch.len()
        invariant
            batch@.len() == recorded@.len(),
            evs@.len() == i,
            todo@.len() == i,
            forall|k: int|
                0 <= k < i ==> (#[trigger] evs@[k])@ == started(
                    batch@[k]@,
                    json::opt_view(recorded@[k]),
                ),
            forall|k: int|
                0 <= k < i ==> (#[trigger] todo@[k])@ == call_plan(
                    *guard,
                    batch@[k]@,
                    json::json_document(batch@[k].arguments@),
                ),
    {
        evs.push(start_event(&batch[i], &recorded[i]));
        todo.push(plan_call(guard, &batch[i]));
    }
    assert(event::events(evs@) =~= Seq::new(
        batch@.len(),
        |i: int| started(batch@[i]@, json::opt_view(recorded@[i])),
    ));
    assert(plans(todo@) =~= Seq::new(
        batch@.len(),
        |i: int| call_plan(*guard, batch@[i]@, json::json_document(batch@[i].arguments@)),
    ));
    (evs, todo)
}

/// Why a call that a hook vetoed fails.
pub fn veto_text(reason: &str) -> (r: String)
    ensures
        r@ == "blocked by pre_tool hook: "@ + reason@,
{
    let mut s = "blocked by pre_tool hook: ".to_string();
    s.append(reason);
    s
}

/// Why a call whose task was cancelled fails.
pub fn cancelled_text(error: &str) -> (r: String)
    ensures
        r@ == "tool task cancelled: "@ + error@,
{
    let mut s = "tool task cancelled: ".to_string();
    s.append(error);
    s
}

/// The view of a call's result.
pub open spec fn result_view(r: CallResult) -> Result<Seq<char>, Seq<Seq<char>>> {
    match r {
        Ok(s) => Ok(s@),
        Err(c) => Err(text::views(c@)),
    }
}

/// The outermost of a chain of causes.
pub open spec fn outermost(chain: Seq<Seq<char>>) -> Seq<char> {
    if chain.len() > 0 {
        chain[0]
    } else {
        Seq::empty()
    }
}

/// All that the hooks say after a call: their notes, then why one of them objects.
pub open spec fn hook_remarks(notes: Seq<Seq<char>>, block: Option<Seq<char>>) -> Seq<Seq<char>> {
    match block {
        Some(b) => notes.push(b),
        None => notes,
    }
}

/// A call's result with what the hooks say of it on lines after it. A failure keeps its
/// outermost cause.
pub open spec fn with_remarks(
    result: Result<Seq<char>, Seq<Seq<char>>>,
    remarks: Seq<Seq<char>>,
) -> Result<Seq<char>, Seq<Seq<char>>> {
    if remarks.len() == 0 {
        result
    } else {
        match result {
            Ok(s) => Ok(s + "\n"@ + text::join(remarks, "\n"@)),
            Err(c) => Err(seq![outermost(c) + "\n"@ + text::join(remarks, "\n"@)]),
        }
    }
}

/// Add to a call's result what the hooks that saw it have to say.
pub fn add_remarks(result: CallResult, notes: Vec<String>, block: Option<String>) -> (r: CallResult)
    ensures
        result_view(r) == with_remarks(
            result_view(result),
            hook_remarks(text::views(notes@), json::opt_view(block)),
        ),
{
    let mut remarks = notes;
    let ghost before = text::views(notes@);
    let ghost said = hook_remarks(before, json::opt_view(block));
    if let Some(b) = block {
        remarks.push(b);
    }
    assert(text::views(remarks@) =~= said);
    if remarks.len() == 0 {
        return result;
    }
    let joined = join_strings(&remarks, "\n");
    match result {
        Ok(s) => {
            let mut t = s;
            t.append("\n");
            t.append(joined.as_str());
            Ok(t)
        },
        Err(chain) => {
            let mut t = if chain.len() > 0 {
                chain[0].clone()
            } else {
                String::new()
            };
            t.append("\n");
            t.append(joined.as_str());
            let mut out: Vec<String> = Vec::new();
            out.push(t);
            assert(text::views(out@) =~= seq![t@]);
            Err(out)
        },
    }
}

/// A call's result as the transcript shows it: the text or the failure, and what is to
/// be said of a call that repeats itself.
pub open spec fn shown_result(
    g: RepeatGuard,
    call: ToolCall<Seq<char>>,
    result: Result<Seq<char>, Seq<Seq<char>>>,
    repeatable: bool,
) -> Seq<char> {
    let body = match result {
        Ok(s) => s,
        Err(c) => "Error: "@ + text::join(c, ": "@),
    };
    match repeat::nudge(
        g,
        call.name,
        repeat::key_of(call.name, call.arguments),
        result is Ok,
        repeatable,
    ) {
        Some(n) => body + n,
        None => body,
    }
}

/// What the history holds of a finished call: what the transcript shows, and the time
/// that the call took.
pub open spec fn kept_result(
    call: ToolCall<Seq<char>>,
    shown: Seq<char>,
    elapsed_ms: u64,
) -> chat::MessageView {
    chat::tool_result(
        call.id,
        shown + "\n\n(took "@ + turn_loop::duration_text(elapsed_ms as nat) + ")"@,
    )
}

/// The events of a finished call: its end, and for the TODO tool the list as it is
/// now.
pub open spec fn end_events(
    call: ToolCall<Seq<char>>,
    shown: Seq<char>,
    ok: bool,
    list: Seq<TodoItem<Seq<char>>>,
) -> Seq<EventView> {
    let end = AgentEvent::ToolEnd { id: call.id, name: call.name, result: shown, ok };
    if call.name == "todo"@ {
        seq![end, AgentEvent::TodoUpdated(list)]
    } else {
        seq![end]
    }
}

/// One finished call: how long it took and how it went, and whether its tool is meant to
/// be asked the same thing again and again.
#[derive(Debug, PartialEq, Eq)]
pub struct Finished {
    pub elapsed_ms: u64,
    pub result: CallResult,
    pub repeatable: bool,
}

/// What became of a call.
#[derive(Debug, PartialEq, Eq)]
pub enum CallEnd {
    /// It was refused, for this reason.
    Refused(String),
    /// Its arguments could not be read, for this reason.
    Unreadable(String),
    /// A hook vetoed it, for this reason.
    Vetoed(String),
    /// It ran, and the hooks that saw its result left notes or object to it.
    Ran { result: CallResult, notes: Vec<String>, block: Option<String> },
    /// It was cancelled, for this reason.
    Cancelled(String),
}

/// The result of a call that ended so.
pub open spec fn ended_result(end: CallEnd) -> Result<Seq<char>, Seq<Seq<char>>> {
    match end {
        CallEnd::Refused(why) => Err(seq![why@]),
        CallEnd::Unreadable(why) => Err(seq![why@]),
        CallEnd::Vetoed(why) => Err(seq!["blocked by pre_tool hook: "@ + why@]),
        CallEnd::Ran { result, notes, block } => with_remarks(
            result_view(result),
            hook_remarks(text::views(notes@), json::opt_view(block)),
        ),
        CallEnd::Cancelled(why) => Err(seq!["tool task cancelled: "@ + why@]),
    }
}

/// Whether a call that ended so is charged the time until its end: one that was refused
/// never ran, and one that was cancelled has no measure.
pub open spec fn is_timed(end: CallEnd) -> bool {
    !(end is Refused) && !(end is Cancelled)
}

/// A failure with one cause.
fn failure(why: String) -> (r: CallResult)
    ensures
        result_view(r) == Err::<Seq<char>, Seq<Seq<char>>>(seq![why@]),
{
    let mut chain: Vec<String> = Vec::new();
    chain.push(why);
    assert(text::views(chain@) =~= seq![why@]);
    Err(chain)
}

/// Settle a call by what became of it.
pub fn settle_call(end: CallEnd, elapsed_ms: u64, repeatable: bool) -> (r: Finished)
    ensures
        result_view(r.result) == ended_result(end),
        r.elapsed_ms == (if is_timed(end) {
            elapsed_ms
        } else {
            0
        }),
        r.repeatable == repeatable,
{
    match end {
        CallEnd::Refused(why) => Finished { elapsed_ms: 0, result: failure(why), repeatable },
        CallEnd::Unreadable(why) => Finished { elapsed_ms, result: failure(why), repeatable },
        CallEnd::Vetoed(why) => Finished {
            elapsed_ms,
            result: failure(veto_text(why.as_str())),
            repeatable,
        },
        CallEnd::Ran { result, notes, block } => Finished {
            elapsed_ms,
            result: add_remarks(result, notes, block),
            repeatable,
        },
        CallEnd::Cancelled(why) => Finished {
            elapsed_ms: 0,
            result: failure(cancelled_text(why.as_str())),
            repeatable,
        },
    }
}

/// The guard after the first `n` calls of a batch were finished.
pub open spec fn guard_after(
    g: RepeatGuard,
    batch: Seq<ToolCall<Seq<char>>>,
    done: Seq<Finished>,
    n: int,
) -> RepeatGuard
    decreases n,
{
    if n <= 0 {
        g
    } else {
        repeat::recorded(
            guard_after(g, batch, done, n - 1),
            repeat::key_of(batch[n - 1].name, batch[n - 1].arguments),
            done[n - 1].result is Ok,
        )
    }
}

/// What the transcript shows of the call at `i` of a batch.
pub open spec fn shown_at(
    g: RepeatGuard,
    batch: Seq<ToolCall<Seq<char>>>,
    done: Seq<Finished>,
    i: int,
) -> Seq<char> {
    shown_result(
        guard_after(g, batch, done, i),
        batch[i],
        result_view(done[i].result),
        done[i].repeatable,
    )
}

/// The events of the first `n` calls of a batch, in the order of the calls. `list` is the
/// TODO list that the calls left.
pub open spec fn batch_events(
    g: RepeatGuard,
    batch: Seq<ToolCall<Seq<char>>>,
    done: Seq<Finished>,
    list: Seq<TodoItem<Seq<char>>>,
    n: int,
) -> Seq<EventView>
    decreases n,
{
    if n <= 0 {
        Seq::empty()
    } else {
        batch_events(g, batch, done, list, n - 1) + end_events(
            batch[n - 1],
            shown_at(g, batch, done, n - 1),
            done[n - 1].result is Ok,
            list,
        )
    }
}

/// What the history holds of the first `n` calls of a batch, in the order of the calls.
pub open spec fn batch_messages(
    g: RepeatGuard,
    batch: Seq<ToolCall<Seq<char>>>,
    done: Seq<Finished>,
    n: int,
) -> Seq<chat::MessageView> {
    Seq::new(
        n as nat,
        |i: int| kept_result(batch[i], shown_at(g, batch, done, i), done[i].elapsed_ms),
    )
}

impl<H> Agent<H> {
    /// Record a finished call: its end is announced and its answer enters the history.
    pub fn finish_tool_call(
        &mut self,
        call: &ToolCall,
        elapsed_ms: u64,
        result: &CallResult,
        repeatable: bool,
        guard: &mut RepeatGuard,
    ) -> (r: Vec<AgentEvent>)
        requires
            old(guard).wf(),
            old(guard).calls < u32::MAX,
        ensures
            ({
                let shown = shown_result(*old(guard), call@, result_view(*result), repeatable);
                &&& event::events(r@) == end_events(
                    call@,
                    shown,
                    *result is Ok,
                    old(self)@.todos,
                )
                &&& final(self)@ == (AgentView {
                    messages: old(self)@.messages.push(kept_result(call@, shown, elapsed_ms)),
                    ..old(self)@
                })
            }),
            *final(guard) == repeat::recorded(
                *old(guard),
                repeat::key_of(call.name@, call.arguments@),
                *result is Ok,
            ),
            final(guard).wf(),
    {
        let ok: bool = result.is_ok();
        let mut body = match result {
            Ok(s) => s.clone(),
            Err(c) => tool_error_text(c),
        };
        if let Some(n) = guard.record(
            call.name.as_str(),
            call.arguments.as_str(),
            ok,
            repeatable,
        ) {
            body.append(n.as_str());
        }
        let ghost shown = body@;
        let mut evs: Vec<AgentEvent> = Vec::new();
        evs.push(
            AgentEvent::ToolEnd {
                id: call.id.clone(),
                name: call.name.clone(),
                result: body.clone(),
                ok,
            },
        );
        if str_eq(call.name.as_str(), "todo") {
            evs.push(AgentEvent::TodoUpdated(copied_todos(&self.todos)));
        }
        assert(event::events(evs@) =~= end_events(call@, shown, ok, self@.todos));
        body.append("\n\n(took ");
        body.append(format_duration(elapsed_ms).as_str());
        body.append(")");
        let ghost before = self.messages@;
        let m = ChatMessage::tool_result(call.id.as_str(), body.as_str());
        self.messages.push(m);
        proof {
            agent::lemma_messages_push(before, m);
        }
        evs
    }

    /// Record the finished calls of a batch, in the order of the calls whatever order
    /// they finished in.
    pub fn finish_batch(
        &mut self,
        batch: &Vec<ToolCall>,
        done: &Vec<Finished>,
        guard: &mut RepeatGuard,
    ) -> (r: Vec<AgentEvent>)
        requires
            batch@.len() == done@.len(),
            old(guard).wf(),
            old(guard).calls + batch@.len() <= u32::MAX,
        ensures
            event::events(r@) == batch_events(
                *old(guard),
                chat::calls(batch@),
                done@,
                old(self)@.todos,
                batch@.len() as int,
            ),
            final(self)@ == (AgentView {
                messages: old(self)@.messages + batch_messages(
                    *old(guard),
                    chat::calls(batch@),
                    done@,
                    batch@.len() as int,
                ),
                ..old(self)@
            }),
            *final(guard) == guard_after(
                *old(guard),
                chat::calls(batch@),
                done@,
                batch@.len() as int,
            ),
            final(guard).wf(),
    {
        let ghost g = *guard;
        let ghost a = self@;
        let ghost asked = chat::calls(batch@);
        let mut evs: Vec<AgentEvent> = Vec::new();
        assert(event::events(evs@) =~= Seq::empty());
        assert(a.messages + batch_messages(g, asked, done@, 0) =~= a.messages);
        for i in 0..batch.len()
            invariant
                batch@.len() == done@.len(),
                asked == chat::calls(batch@),
                guard.wf(),
                guard.calls + (batch@.len() - i) <= u32::MAX,
                g.calls + batch@.len() <= u32::MAX,
                *guard == guard_after(g, asked, done@, i as int),
                event::events(evs@) == batch_events(g, asked, done@, a.todos, i as int),
                self@ == (AgentView {
                    messages: a.messages + batch_messages(g, asked, done@, i as int),
                    ..a
                }),
        {
            let ghost before = evs@;
            assert(asked[i as int] == batch@[i as int]@);
            let mut more = self.finish_tool_call(
                &batch[i],
                done[i].elapsed_ms,
                &done[i].result,
                done[i].repeatable,
                guard,
            );
            let ghost added = more@;
            evs.append(&mut more);
            proof {
                assert(event::events(evs@) =~= event::events(before) + event::events(added));
                let now = batch_messages(g, asked, done@, i + 1);
                assert(a.messages + now =~= (a.messages + batch_messages(
                    g,
                    asked,
                    done@,
                    i as int,
                )).push(now[i as int]));
            }
        }
        evs
    }
}

/// The answers of a batch stand in the history in the order of the calls, one for each
/// call and each naming its call.
pub proof fn law_answers_follow_the_calls(
    g: RepeatGuard,
    batch: Seq<ToolCall<Seq<char>>>,
    done: Seq<Finished>,
)
    ensures
        batch_messages(g, batch, done, batch.len() as int).len() == batch.len(),
        forall|i: int|
            0 <= i < batch.len() ==> (#[trigger] batch_messages(
                g,
                batch,
                done,
                batch.len() as int,
            )[i]).tool_call_id == Some(batch[i].id),
{
}

/// Hooks speak only of calls that ran, and they never turn a failure into a success.
pub proof fn law_remarks_keep_the_outcome(end: CallEnd)
    ensures
        ended_result(end) is Ok <==> (end matches CallEnd::Ran { result, .. } && result is Ok),
{
}

/// A refused call fails without running, and a call that failed often enough in a row
/// is refused whatever its arguments parse to.
pub proof fn law_refusal_comes_first(
    g: RepeatGuard,
    call: ToolCall<Seq<char>>,
    parsed: Result<json::ArgsView, Seq<char>>,
)
    requires
        repeat::refuses(g, repeat::key_of(call.name, call.arguments)),
    ensures
        call_plan(g, call, parsed) is Refuse,
{
}

/// What is done with a call that is not refused: it runs where its arguments are a JSON
/// document, runs without arguments where they are blank, and else fails with what the
/// parser says. One that is refused does not run, whatever its arguments are.
pub proof fn law_what_is_done_with_a_call(
    g: RepeatGuard,
    call: ToolCall<Seq<char>>,
    args: json::ArgsView,
    error: Seq<char>,
)
    ensures
        ({
            let refused = g.key == Some(repeat::key_of(call.name, call.arguments)) && g.failures
                >= 2;
            let blank = forall|i: int|
                0 <= i < call.arguments.len() ==> text::is_white(#[trigger] call.arguments[i]);
            &&& !refused && !blank ==> call_plan(g, call, Ok(args)) is Run
            &&& !refused && !blank ==> (call_plan(g, call, Err(error)) matches CallPlanView::Fail(w)
                && w.len() >= error.len() && w.skip(w.len() - error.len()) == error)
            &&& !refused && blank ==> call_plan(g, call, Ok(args)) is RunEmpty && call_plan(
                g,
                call,
                Err(error),
            ) is RunEmpty
            &&& refused ==> (call_plan(g, call, Ok(args)) matches CallPlanView::Refuse(w)
                && text::contains(w, call.name)) && call_plan(g, call, Err(error)) is Refuse
        }),
{
    let s = call.arguments;
    text::law_trimming_takes_white_space_off(s);
    let (x, y) = choose|x: int, y: int|
        #![trigger s.subrange(x, y)]
        0 <= x <= y <= s.len() && text::trim(s) == s.subrange(x, y) && (forall|i: int|
            0 <= i < x ==> text::is_white(#[trigger] s[i])) && (forall|i: int|
            y <= i < s.len() ==> text::is_white(#[trigger] s[i]));
    if text::trim(s).len() > 0 {
        assert(!text::is_white(s[x]));
    }
    let w = "invalid tool arguments JSON: "@ + error;
    assert(w.skip(w.len() - error.len()) =~= error);
    let r = repeat::refusal_text(call.name, g.failures);
    let head = "refused without running: this exact "@;
    let tail = r.skip((head.len() + call.name.len()) as int);
    text::lemma_holds_itself(call.name);
    text::lemma_part_holds(head, call.name, tail, call.name);
    assert(head + call.name + tail =~= r);
}

/// A call is announced by its own id and name, with the arguments that it runs with.
pub proof fn law_a_call_is_announced_as_it_runs(
    call: ToolCall<Seq<char>>,
    recorded: Option<Seq<char>>,
)
    ensures
        started(call, recorded) matches AgentEvent::ToolStart { id, name, args } && id == call.id
            && name == call.name && (match recorded {
            Some(r) => args == r,
            None => args == call.arguments,
        }),
{
}

/// What a call printed is shown and kept whole: it comes first in both, a failure with all
/// of its causes behind the word that says so; and the answer in the history names the
/// call that it answers.
pub proof fn law_a_result_is_kept_whole(
    g: RepeatGuard,
    call: ToolCall<Seq<char>>,
    text: Seq<char>,
    causes: Seq<Seq<char>>,
    repeatable: bool,
    elapsed_ms: u64,
    i: int,
)
    ensures
        text::starts_with(shown_result(g, call, Ok(text), repeatable), text),
        text::starts_with(shown_result(g, call, Err(causes), repeatable), "Error: "@),
        0 <= i < causes.len() ==> text::contains(
            shown_result(g, call, Err(causes), repeatable),
            causes[i],
        ),
        ({
            let m = kept_result(call, text, elapsed_ms);
            &&& m.role == chat::Role::Tool
            &&& m.tool_call_id == Some(call.id)
            &&& m.tool_calls is None
            &&& m.content matches Some(c) && text::starts_with(c, text)
        }),
{
    let shown = shown_result(g, call, Ok(text), repeatable);
    assert(shown.take(text.len() as int) =~= text);
    let failed = shown_result(g, call, Err(causes), repeatable);
    let head = "Error: "@;
    assert(failed.take(head.len() as int) =~= head);
    if 0 <= i < causes.len() {
        let all = text::join(causes, ": "@);
        text::law_join_holds_every_part(causes, ": "@, i);
        let tail = failed.skip((head.len() + all.len()) as int);
        text::lemma_part_holds(head, all, tail, causes[i]);
        assert(head + all + tail =~= failed);
    }
    let kept = kept_result(call, text, elapsed_ms).content->0;
    assert(kept.take(text.len() as int) =~= text);
}

/// The end of a call is announced by its own id and name, with what is shown of it and
/// whether it went well; the TODO list is published after the TODO tool and no other.
pub proof fn law_an_end_is_announced_as_it_came(
    call: ToolCall<Seq<char>>,
    shown: Seq<char>,
    ok: bool,
    list: Seq<TodoItem<Seq<char>>>,
)
    ensures
        ({
            let e = end_events(call, shown, ok, list);
            &&& e[0] == (EventView::ToolEnd { id: call.id, name: call.name, result: shown, ok })
            &&& e.len() == (if call.name == seq!['t', 'o', 'd', 'o'] {
                2int
            } else {
                1int
            })
            &&& e.len() == 2 ==> e[1] == EventView::TodoUpdated(list)
        }),
{
    reveal_strlit("todo");
    assert("todo"@ =~= seq!['t', 'o', 'd', 'o']);
}

/// A call that did not run fails, and says why; one that ran keeps its text, with what the
/// hooks say behind it.
#[verifier::rlimit(40)]
pub proof fn law_how_a_call_ended(end: CallEnd, i: int)
    ensures
        match end {
            CallEnd::Refused(why) => ended_result(end) matches Err(c) && c.len() == 1 && c[0]
                == why@,
            CallEnd::Unreadable(why) => ended_result(end) matches Err(c) && c.len() == 1 && c[0]
                == why@,
            CallEnd::Vetoed(why) => ended_result(end) matches Err(c) && c.len() == 1 && c[0].len()
                >= why@.len() && c[0].skip(c[0].len() - why@.len()) == why@,
            CallEnd::Cancelled(why) => ended_result(end) matches Err(c) && c.len() == 1
                && c[0].len() >= why@.len() && c[0].skip(c[0].len() - why@.len()) == why@,
            CallEnd::Ran { result, notes, block } => {
                &&& result matches Ok(s) ==> (ended_result(end) matches Ok(t) && text::starts_with(
                    t,
                    s@,
                ) && (0 <= i < notes@.len() ==> text::contains(t, notes@[i]@)) && (
                block matches Some(b) ==> text::contains(t, b@)))
                &&& result matches Err(c) ==> (c@.len() > 0 ==> (ended_result(end) matches Err(d)
                    && d.len() > 0 && text::starts_with(d[0], c@[0]@)))
                &&& notes@.len() == 0 && block is None ==> ended_result(end) == result_view(result)
            },
        },
        is_timed(end) <==> (end is Ran || end is Vetoed || end is Unreadable),
{
    match end {
        CallEnd::Vetoed(why) => {
            let w = "blocked by pre_tool hook: "@ + why@;
            assert(w.skip(w.len() - why@.len()) =~= why@);
        },
        CallEnd::Cancelled(why) => {
            let w = "tool task cancelled: "@ + why@;
            assert(w.skip(w.len() - why@.len()) =~= why@);
        },
        CallEnd::Ran { result, notes, block } => {
            let remarks = hook_remarks(text::views(notes@), json::opt_view(block));
            let all = text::join(remarks, "\n"@);
            if let Ok(s) = result {
                let t = s@ + "\n"@ + all;
                assert(t.take(s@.len() as int) =~= s@);
                assert(s@.take(s@.len() as int) =~= s@);
                if 0 <= i < notes@.len() {
                    assert(remarks[i] == notes@[i]@);
                    text::law_join_holds_every_part(remarks, "\n"@, i);
                    text::lemma_part_holds(s@ + "\n"@, all, Seq::empty(), notes@[i]@);
                    assert(s@ + "\n"@ + all + Seq::<char>::empty() =~= t);
                }
                if let Some(b) = block {
                    assert(remarks[notes@.len() as int] == b@);
                    text::law_join_holds_every_part(remarks, "\n"@, notes@.len() as int);
                    text::lemma_part_holds(s@ + "\n"@, all, Seq::empty(), b@);
                    assert(s@ + "\n"@ + all + Seq::<char>::empty() =~= t);
                }
            }
            if let Err(c) = result {
                if c@.len() > 0 {
                    let d = c@[0]@ + "\n"@ + all;
                    assert(d.take(c@[0]@.len() as int) =~= c@[0]@);
                    assert(c@[0]@.take(c@[0]@.len() as int) =~= c@[0]@);
                }
            }
        },
        _ => {},
    }
}

/// A batch is one call that must run alone, or a run of calls that may all run together
/// and that is as long as it can be.
pub proof fn law_a_batch_is_as_long_as_it_can_be(concurrent: Seq<bool>, from: int)
    requires
        0 <= from < concurrent.len(),
    ensures
        ({
            let end = batch_end(concurrent, from);
            &&& from < end <= concurrent.len()
            &&& !concurrent[from] ==> end == from + 1
            &&& concurrent[from] ==> (forall|i: int| from <= i < end ==> #[trigger] concurrent[i])
                && (end == concurrent.len() || !concurrent[end])
        }),
{
    if concurrent[from] {
        lemma_run_of_true(concurrent, from);
    }
}

proof fn lemma_run_of_true(concurrent: Seq<bool>, from: int)
    requires
        0 <= from <= concurrent.len(),
    ensures
        ({
            let end = run_end(concurrent, from);
            &&& from <= end <= concurrent.len()
            &&& forall|i: int| from <= i < end ==> #[trigger] concurrent[i]
            &&& end == concurrent.len() || !concurrent[end]
        }),
    decreases concurrent.len() - from,
{
    if from < concurrent.len() && concurrent[from] {
        lemma_run_of_true(concurrent, from + 1);
    }
}

/// The calls of a batch end in the transcript in the order of the calls: the end of the
/// call at `i` is announced by its id, with its own outcome.
pub proof fn law_every_call_of_a_batch_ends(
    g: RepeatGuard,
    batch: Seq<ToolCall<Seq<char>>>,
    done: Seq<Finished>,
    list: Seq<TodoItem<Seq<char>>>,
    n: int,
    i: int,
)
    requires
        0 <= i < n <= batch.len(),
    ensures
        exists|k: int|
            0 <= k < batch_events(g, batch, done, list, n).len() && (#[trigger] batch_events(
                g,
                batch,
                done,
                list,
                n,
            )[k] matches AgentEvent::ToolEnd { id, name, ok, .. } && id == batch[i].id && name
                == batch[i].name && ok == done[i].result is Ok),
    decreases n,
{
    let before = batch_events(g, batch, done, list, n - 1);
    let all = batch_events(g, batch, done, list, n);
    if i == n - 1 {
        assert(all[before.len() as int] is ToolEnd);
    } else {
        law_every_call_of_a_batch_ends(g, batch, done, list, n - 1, i);
        let k = choose|k: int|
            0 <= k < before.len() && (#[trigger] before[k] matches AgentEvent::ToolEnd {
                id,
                name,
                ok,
                ..
            } && id == batch[i].id && name == batch[i].name && ok == done[i].result is Ok);
        assert(all[k] == before[k]);
    }
}

} // verus!
