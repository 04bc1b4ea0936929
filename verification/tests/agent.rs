use hrdr::agent::{wants_hooks, wants_memory, Agent, HookReply};
use hrdr::attempt::{RequestAction, OVERFLOW_MSG};
use hrdr::chat::{BackgroundTask, ChatMessage, MessageOrigin, Role, Steer, TodoItem, ToolCall};
use hrdr::clock::Moment;
use hrdr::event::AgentEvent;
use hrdr::repair::{ensure_assistant_has_content, repair_dangling_tool_calls};
use hrdr::repeat::RepeatGuard;
use hrdr::request::{
    account_headers, refresh_oauth_if_needed, retry_notice, usage_event, ChatChunk,
    CompactionOutcome, Drained, Failure, OAuthAction, RequestStage,
};
use hrdr::subagent_live::{LiveSubagent, LiveSubagents, SubagentKind};
use hrdr::tool_batch::{
    add_remarks, cancelled_text, next_batch, plan_call, run_tool_batch, settle_call, start_event,
    veto_text, CallEnd, CallPlan, Finished,
};
use hrdr::turn_loop::{
    checkpoint_warning_round, format_duration, looks_like_unparsed_tool_call,
    render_unfinished_todos, tool_error_text, AfterReply, BUDGET_EXHAUSTED_MESSAGE,
    TRUNCATED_NOTICE, UNPARSED_TOOL_CALL_NOTICE,
};
use hrdr::usage::CallSpend;

fn agent(max_steps: usize) -> Agent<u32> {
    Agent {
        messages: Vec::new(),
        todos: Vec::new(),
        background: Vec::new(),
        registry: LiveSubagents::new(),
        pending_notices: Vec::new(),
        unsupported_params: Vec::new(),
        tool_syntax_warned: false,
        max_steps,
        last_prompt_tokens: None,
        todo_turn: 0,
    }
}

fn now() -> Moment {
    Moment { secs: 5, nanos: 0 }
}

fn call(id: &str, name: &str, arguments: &str) -> ToolCall {
    ToolCall { id: id.into(), name: name.into(), arguments: arguments.into() }
}

fn asking(calls: Vec<ToolCall>) -> ChatMessage {
    ChatMessage { tool_calls: Some(calls), ..ChatMessage::assistant("") }
}

fn steer(s: &str) -> Steer {
    Steer { sent: format!("sent {s}"), display: format!("shown {s}") }
}

fn todo(content: &str, status: &str) -> TodoItem {
    TodoItem { content: content.into(), status: status.into() }
}

fn notice(s: &str) -> AgentEvent {
    AgentEvent::Notice(s.into())
}

// ---------------------------------------------------------------------------
// The stream
// ---------------------------------------------------------------------------

fn chunk(content: Option<&str>, reasoning: Option<&str>) -> ChatChunk {
    ChatChunk {
        content: content.map(str::to_string),
        reasoning_content: reasoning.map(str::to_string),
        tool_fragments: 0,
    }
}

fn drain(chunks: Vec<ChatChunk>) -> (Vec<AgentEvent>, Drained) {
    let mut d = Drained::new();
    let mut seen = Vec::new();
    for (i, c) in chunks.iter().enumerate() {
        seen.extend(d.drain_stream(c, i as u64));
    }
    (seen, d)
}

/// A round that streams only arguments shows nothing, and is timed all the same.
#[test]
fn a_tool_call_only_round_is_still_timed() {
    let piece = ChatChunk { content: None, reasoning_content: None, tool_fragments: 1 };
    let (events, d) = drain(vec![piece.clone(), piece]);
    assert!(events.is_empty(), "{events:?}");
    assert!(d.decode_ms(10) > 0);
    assert_eq!(d.decode_ms(10), 10);
}

#[test]
fn a_round_that_streams_nothing_is_timed_at_zero() {
    let (_, d) = drain(vec![chunk(Some(""), Some(""))]);
    assert_eq!(d.decode_ms(10), 0);
}

#[test]
fn empty_deltas_are_not_forwarded_as_events() {
    let (events, _) = drain(vec![
        chunk(None, Some("thinking")),
        chunk(Some(""), None), // must not close the reasoning block
        chunk(None, Some(" harder")),
        chunk(Some("answer"), Some("")), // empty reasoning must not split text
        chunk(Some(" more"), Some("")),
    ]);
    let reasoning: Vec<&str> = events
        .iter()
        .filter_map(|e| match e {
            AgentEvent::Reasoning(t) => Some(t.as_str()),
            _ => None,
        })
        .collect();
    let text: Vec<&str> = events
        .iter()
        .filter_map(|e| match e {
            AgentEvent::Text(t) => Some(t.as_str()),
            _ => None,
        })
        .collect();
    assert_eq!(reasoning, vec!["thinking", " harder"]);
    assert_eq!(text, vec!["answer", " more"]);
}

#[test]
fn empty_deltas_still_accumulate_into_the_final_message() {
    let (_, d) = drain(vec![
        chunk(Some("hello"), Some("")),
        chunk(Some(""), None),
        chunk(Some(" world"), Some("")),
    ]);
    assert_eq!(d.content, "hello world");
}

#[test]
fn a_call_that_took_forever_is_still_reported() {
    let spend = CallSpend {
        prompt_tokens: 7,
        completion_tokens: 2,
        cached_prompt_tokens: Some(3),
        cache_creation_tokens: None,
        cost_usd_bits: None,
        session_cost_usd_bits: None,
    };
    match usage_event(&spend, u64::MAX, Some(1), true) {
        AgentEvent::Usage(r) => {
            assert_eq!((r.prompt_tokens, r.completion_tokens, r.decode_ms), (7, 2, u32::MAX));
            assert_eq!((r.cached_prompt_tokens, r.reasoning_tokens), (Some(3), Some(1)));
            assert!(r.cost_partial);
        }
        other => panic!("{other:?}"),
    }
}

// ---------------------------------------------------------------------------
// Attempts
// ---------------------------------------------------------------------------

fn failure(overflow: bool, param: Option<&str>) -> Failure {
    Failure { overflow, rejected_param: param.map(str::to_string) }
}

#[test]
fn a_refused_parameter_is_dropped_and_said() {
    let mut a = agent(3);
    let (turn, _) = a.start_turn();
    let (mut attempt, shown, action) = a.begin_request();
    assert!(shown.is_empty());
    assert_eq!(action, RequestAction::Connect { refresh: true });
    let (shown, action) =
        a.request_failed(&mut attempt, &turn, failure(false, Some("top_k")), "400".into());
    assert_eq!(
        shown,
        vec![notice(
            "this endpoint rejected `top_k` — dropping it for the rest of the session"
        )]
    );
    assert_eq!(action, RequestAction::Connect { refresh: false });
    // A second refusal of it is left to the budget.
    let (shown, action) =
        a.request_failed(&mut attempt, &turn, failure(false, Some("top_k")), "400".into());
    assert!(shown.is_empty());
    assert_eq!(action, RequestAction::AskBudget(RequestStage::Connecting));
    let (_, action) = a.budget_answered(&mut attempt, false);
    assert_eq!(action, RequestAction::Fail("400".into()));
}

#[test]
fn an_overflow_is_compacted_once() {
    let mut a = agent(3);
    for _ in 0..3 {
        a.messages.push(ChatMessage::user("x"));
    }
    let (mut turn, _) = a.start_turn();
    let (mut attempt, _, _) = a.begin_request();
    assert_eq!(attempt.connected(), RequestAction::Drain);
    let (shown, action) =
        a.request_failed(&mut attempt, &turn, failure(true, None), "too long".into());
    assert_eq!(shown, vec![notice(OVERFLOW_MSG)]);
    assert_eq!(action, RequestAction::Compact);
    let smaller = CompactionOutcome { shrank: true, after: 2, notice: "compacted".into() };
    let (shown, action) = a.request_compacted(&mut attempt, &mut turn, Ok(smaller));
    assert_eq!(shown, vec![notice("compacted")]);
    // The reply had begun, so the credentials are looked at again.
    assert_eq!(action, RequestAction::Connect { refresh: true });
    let (_, action) =
        a.request_failed(&mut attempt, &turn, failure(true, None), "too long".into());
    assert_eq!(action, RequestAction::AskBudget(RequestStage::Connecting));
    let (_, action) = a.budget_answered(&mut attempt, true);
    assert_eq!(action, RequestAction::Connect { refresh: false });
}

#[test]
fn a_turn_that_cannot_shrink_fails() {
    let mut a = agent(3);
    let (mut turn, _) = a.start_turn();
    let (mut attempt, _, _) = a.begin_request();
    attempt.error = "400".into();
    let same = CompactionOutcome { shrank: false, after: 4, notice: "x".into() };
    let (_, action) = a.request_compacted(&mut attempt, &mut turn, Ok(same));
    assert_eq!(
        action,
        RequestAction::Fail(
            "context window exceeded and the current turn is too large to compact (4 messages, nothing left to shrink) — 400"
                .into()
        )
    );
    let (_, action) = a.request_compacted(&mut attempt, &mut turn, Err("no".into()));
    assert_eq!(action, RequestAction::Fail("no".into()));
}

#[test]
fn a_retry_is_announced() {
    assert_eq!(
        retry_notice(RequestStage::Connecting, "2", 1, 4),
        notice("network error — retrying in 2s (attempt 1/4)")
    );
    assert_eq!(
        retry_notice(RequestStage::Streaming, "8", 3, 4),
        notice("stream interrupted — retrying in 8s (attempt 3/4)")
    );
}

#[test]
fn account_credentials_stay_at_the_trusted_endpoint() {
    assert_eq!(refresh_oauth_if_needed(true, false), OAuthAction::Refresh);
    assert_eq!(refresh_oauth_if_needed(false, true), OAuthAction::RestoreHeaders);
    assert_eq!(refresh_oauth_if_needed(false, false), OAuthAction::Keep);
    let base = vec![("a".to_string(), "b".to_string())];
    assert_eq!(account_headers(base.clone(), None), base);
    assert_eq!(
        account_headers(base, Some("id".into()))[1],
        ("ChatGPT-Account-Id".to_string(), "id".to_string())
    );
}

// ---------------------------------------------------------------------------
// The turn
// ---------------------------------------------------------------------------

#[test]
fn unparsed_tool_call_detection_keys_on_template_markers() {
    for leaked in [
        "<tool_call>\n{\"name\": \"read\", \"arguments\": {}}\n</tool_call>",
        "let me look: <|python_tag|>read(path=\"a.rs\")",
        "<function=read>{\"path\": \"a.rs\"}</function>",
        "[TOOL_CALLS] [{\"name\": \"read\"}]",
        "<|channel|>commentary to=functions.read",
        "functools[{\"name\": \"read\"}]",
    ] {
        assert!(looks_like_unparsed_tool_call(leaked), "must detect leaked markup: {leaked}");
    }
    for innocent in [
        "I'll call the `read` tool with {\"path\": \"a.rs\"} next.",
        "The tool_call field was empty, so nothing ran.",
        "Use tools like read and grep to explore.",
        "",
    ] {
        assert!(
            !looks_like_unparsed_tool_call(innocent),
            "must not fire on ordinary prose: {innocent}"
        );
    }
}

#[test]
fn a_reply_without_calls_ends_the_turn() {
    let mut a = agent(3);
    let (mut turn, _) = a.start_turn();
    a.begin_round(&mut turn, false);
    let reply = ChatMessage::assistant("done");
    let (events, next) = a.receive_reply(&mut turn, reply, false, true, 0, now());
    assert_eq!(next, AfterReply::Finish);
    assert!(!events.contains(&notice(TRUNCATED_NOTICE)));
    assert_eq!(a.messages.last().unwrap().content.as_deref(), Some("done"));
    assert_eq!(a.end_turn(), vec![AgentEvent::TurnDone]);
    assert_eq!(a.todo_turn, 1);
}

#[test]
fn unfinished_items_are_asked_about_once() {
    let mut a = agent(3);
    a.todos = vec![todo("write it", "in_progress"), todo("old", "completed")];
    let (mut turn, _) = a.start_turn();
    a.begin_round(&mut turn, false);
    let (_, next) =
        a.receive_reply(&mut turn, ChatMessage::assistant("bye"), false, true, 0, now());
    assert_eq!(next, AfterReply::Nudged);
    assert_eq!(a.messages.last().unwrap().origin, MessageOrigin::Nudge);
    a.begin_round(&mut turn, false);
    let (_, next) =
        a.receive_reply(&mut turn, ChatMessage::assistant("bye"), false, true, 0, now());
    assert_eq!(next, AfterReply::Finish);
    assert_eq!(render_unfinished_todos(&a.todos), "[~] write it");
}

#[test]
fn a_leaked_tool_call_is_warned_of_once() {
    let mut a = agent(3);
    let (mut turn, _) = a.start_turn();
    let leak = ChatMessage::assistant("<tool_call>{}");
    let (events, _) = a.receive_reply(&mut turn, leak.clone(), true, true, 0, now());
    assert!(events.contains(&notice(UNPARSED_TOOL_CALL_NOTICE)));
    assert!(events.contains(&notice(TRUNCATED_NOTICE)));
    let (events, _) = a.receive_reply(&mut turn, leak, false, true, 0, now());
    assert!(!events.contains(&notice(UNPARSED_TOOL_CALL_NOTICE)));
}

#[test]
fn the_budget_ends_with_a_summary() {
    let mut a = agent(2);
    let (mut turn, _) = a.start_turn();
    a.begin_round(&mut turn, false);
    a.begin_round(&mut turn, false);
    assert!(!a.has_round(&turn));
    let events = a.start_wrap_up();
    assert_eq!(
        events,
        vec![notice("tool-round limit reached (2) — asking the model to wrap up")]
    );
    assert_eq!(
        a.messages.last().unwrap().content.as_deref(),
        Some(BUDGET_EXHAUSTED_MESSAGE)
    );
    a.receive_wrap_up(ChatMessage::assistant("  "));
    assert_eq!(a.messages.last().unwrap().content.as_deref(), Some("(no response)"));
    assert_eq!(checkpoint_warning_round(100), Some(80));
    assert_eq!(checkpoint_warning_round(1), None);
}

#[test]
fn a_delivered_message_renews_the_budget() {
    let mut a = agent(5);
    let (mut turn, _) = a.start_turn();
    for _ in 0..3 {
        a.begin_round(&mut turn, false);
    }
    assert_eq!(turn.step, 3);
    a.begin_round(&mut turn, true);
    assert_eq!(turn.step, 1);
}

#[test]
fn durations_and_errors_are_readable() {
    assert_eq!(format_duration(5), "5ms");
    assert_eq!(tool_error_text(&vec!["outer".into(), "inner".into()]), "Error: outer: inner");
}

// ---------------------------------------------------------------------------
// Messages
// ---------------------------------------------------------------------------

#[test]
fn hooks_and_memory_add_to_a_message() {
    let mut a = agent(1);
    let hooks = HookReply {
        notes: vec!["note".into()],
        block: None,
        context: vec!["c1".into(), "c2".into()],
    };
    let d = a.deliver_user_message(steer("x"), Some(hooks), Some("memory".into()), now());
    assert_eq!(d.blocked, None);
    assert_eq!(d.events, vec![notice("note"), AgentEvent::Steered("shown x".into())]);
    assert_eq!(
        a.messages[0].content.as_deref(),
        Some("sent x\n\n[hook context]\nc1\nc2\n\nmemory")
    );
    let block = HookReply { notes: vec![], block: Some("no".into()), context: vec![] };
    let d = a.deliver_user_message(steer("y"), Some(block), None, now());
    assert_eq!(d.blocked.as_deref(), Some("blocked by user_prompt hook: no"));
    assert_eq!(a.messages.len(), 1);
    assert!(wants_hooks(&steer("x"), true, true));
    assert!(!wants_hooks(&steer("x"), false, true));
    assert!(wants_memory(&steer("x"), true));
    assert!(!wants_memory(&Steer { sent: " ".into(), display: "".into() }, true));
}

#[test]
fn queued_messages_enter_in_order() {
    let mut a = agent(1);
    assert!(Agent::<u32>::has_steering(&vec![steer("1")]));
    let (events, any) = a.drain_steering(vec![steer("1"), steer("2")], now());
    assert!(any);
    assert_eq!(
        events,
        vec![AgentEvent::Steered("shown 1".into()), AgentEvent::Steered("shown 2".into())]
    );
    assert_eq!(a.messages[1].content.as_deref(), Some("sent 2"));
    assert_eq!(a.messages[1].entered, Some(now()));
    let (events, any) = a.drain_steering(vec![], now());
    assert!(events.is_empty() && !any);
}

fn task(id: u64, done: bool, delivered: bool, cancelled: bool) -> BackgroundTask {
    BackgroundTask {
        id,
        label: format!("l{id}"),
        result: Some(format!("r{id}")),
        done,
        delivered,
        cancelled,
    }
}

#[test]
fn finished_tasks_are_delivered_and_cancelled_ones_are_not() {
    let mut a = agent(1);
    a.background = vec![
        task(1, true, false, false),
        task(2, false, false, false),
        task(3, true, false, true),
    ];
    a.registry.register(LiveSubagent {
        key: 1,
        bg_id: Some(1),
        tool_id: None,
        label: "l1".into(),
        model: "m".into(),
        kind: SubagentKind::Background,
        agent: 9,
        running: false,
        done: true,
        delivered: false,
        pinned: false,
    });
    let events = a.drain_background(now());
    assert_eq!(events, vec![notice("background task #1 (l1) finished")]);
    assert_eq!(a.messages.len(), 1);
    let told = a.messages[0].content.clone().unwrap();
    assert!(told.starts_with("[Background task #1 (l1) finished — its result:]\nr1"), "{told}");
    assert_eq!(a.messages[0].origin, MessageOrigin::Tool);
    assert_eq!(a.background, vec![task(2, false, false, false)]);
    assert!(a.registry.list[0].delivered);
    a.release_finished_subagents();
    assert!(a.registry.is_empty());
    assert_eq!(a.todo_snapshot(), (vec![], 0));
}

// ---------------------------------------------------------------------------
// Calls
// ---------------------------------------------------------------------------

#[test]
fn calls_that_may_run_together_do() {
    let c = vec![true, true, false, true];
    assert_eq!(next_batch(&c, 0), 2);
    assert_eq!(next_batch(&c, 2), 3);
    assert_eq!(next_batch(&c, 3), 4);
}

#[test]
fn a_call_is_planned() {
    let g = RepeatGuard::default();
    assert_eq!(plan_call(&g, &call("1", "read", r#"{"path":"a"}"#)), CallPlan::Run);
    assert_eq!(plan_call(&g, &call("1", "read", "  ")), CallPlan::RunEmpty);
    match plan_call(&g, &call("1", "read", "{")) {
        CallPlan::Fail(s) => assert!(s.starts_with("invalid tool arguments JSON: "), "{s}"),
        other => panic!("{other:?}"),
    }
}

#[test]
fn a_call_that_keeps_failing_is_refused() {
    let mut g = RepeatGuard::default();
    let c = call("1", "shell", "{}");
    let mut failed = 0;
    while plan_call(&g, &c) == CallPlan::Run {
        g.record("shell", "{}", false, false);
        failed += 1;
    }
    match plan_call(&g, &c) {
        CallPlan::Refuse(s) => assert!(
            s.starts_with(&format!(
                "refused without running: this exact shell call already failed {failed} times in a row"
            )),
            "{s}"
        ),
        other => panic!("{other:?}"),
    }
    // Any other call goes through, and clears the way for this one.
    assert_eq!(plan_call(&g, &call("2", "shell", r#"{"x":1}"#)), CallPlan::Run);
    g.record("shell", r#"{"x":1}"#, true, false);
    assert_eq!(plan_call(&g, &c), CallPlan::Run);
}

#[test]
fn finished_calls_are_shown_and_kept() {
    let mut a = agent(1);
    let mut g = RepeatGuard::default();
    let batch = vec![call("1", "read", "{}"), call("2", "todo", "{}")];
    let done = vec![
        Finished { elapsed_ms: 5, result: Ok("text".into()), repeatable: false },
        Finished { elapsed_ms: 7, result: Err(vec!["bad".into()]), repeatable: false },
    ];
    let events = a.finish_batch(&batch, &done, &mut g);
    assert_eq!(
        events,
        vec![
            AgentEvent::ToolEnd {
                id: "1".into(),
                name: "read".into(),
                result: "text".into(),
                ok: true
            },
            AgentEvent::ToolEnd {
                id: "2".into(),
                name: "todo".into(),
                result: "Error: bad".into(),
                ok: false
            },
            AgentEvent::TodoUpdated(a.todos.clone()),
        ]
    );
    assert_eq!(a.messages[0].content.as_deref(), Some("text\n\n(took 5ms)"));
    assert_eq!(a.messages[1].tool_call_id.as_deref(), Some("2"));
}

#[test]
fn hooks_remark_on_results() {
    assert_eq!(
        add_remarks(Ok("out".into()), vec!["n".into()], Some("b".into())),
        Ok("out\nn\nb".into())
    );
    assert_eq!(add_remarks(Ok("out".into()), vec![], None), Ok("out".into()));
    assert_eq!(
        add_remarks(Err(vec!["outer".into(), "inner".into()]), vec!["n".into()], None),
        Err(vec!["outer\nn".into()])
    );
    assert_eq!(veto_text("no"), "blocked by pre_tool hook: no");
    assert_eq!(cancelled_text("x"), "tool task cancelled: x");
    assert_eq!(
        start_event(&call("1", "n", "raw"), &Some("used".into())),
        AgentEvent::ToolStart { id: "1".into(), name: "n".into(), args: "used".into() }
    );
}

#[test]
fn a_batch_is_announced_before_it_runs() {
    let mut g = RepeatGuard::default();
    let c = call("1", "shell", "{}");
    while plan_call(&g, &c) == CallPlan::Run {
        g.record("shell", "{}", false, false);
    }
    let batch = vec![call("1", "read", "{}"), call("2", "shell", "{}"), call("3", "read", "{")];
    let (events, plans) = run_tool_batch(&g, &batch, &vec![Some("{\"a\":1}".into()), None, None]);
    let args: Vec<String> = events
        .into_iter()
        .map(|e| match e {
            AgentEvent::ToolStart { id, args, .. } => format!("{id} {args}"),
            other => panic!("{other:?}"),
        })
        .collect();
    assert_eq!(args, vec!["1 {\"a\":1}", "2 {}", "3 {"]);
    assert_eq!(plans[0], CallPlan::Run);
    assert!(matches!(plans[1], CallPlan::Refuse(_)));
    assert!(matches!(plans[2], CallPlan::Fail(_)));
}

#[test]
fn calls_are_settled_by_what_became_of_them() {
    let failed = |why: &str, elapsed_ms| Finished {
        elapsed_ms,
        result: Err(vec![why.to_string()]),
        repeatable: true,
    };
    assert_eq!(settle_call(CallEnd::Refused("no".into()), 9, true), failed("no", 0));
    assert_eq!(settle_call(CallEnd::Unreadable("bad".into()), 9, true), failed("bad", 9));
    assert_eq!(
        settle_call(CallEnd::Vetoed("x".into()), 9, true),
        failed("blocked by pre_tool hook: x", 9)
    );
    assert_eq!(
        settle_call(CallEnd::Cancelled("x".into()), 9, true),
        failed("tool task cancelled: x", 0)
    );
    let ran = CallEnd::Ran { result: Ok("out".into()), notes: vec!["n".into()], block: None };
    assert_eq!(
        settle_call(ran, 9, false),
        Finished { elapsed_ms: 9, result: Ok("out\nn".into()), repeatable: false }
    );
}

#[test]
fn every_call_gets_an_answer() {
    let mut m = vec![
        asking(vec![call("1", "a", "{}"), call("2", "b", "{}")]),
        ChatMessage::tool_result("1", "ok"),
        ChatMessage::user("next"),
    ];
    repair_dangling_tool_calls(&mut m);
    assert_eq!(m.len(), 4);
    assert_eq!(m[2], ChatMessage::tool_result("2", "[interrupted]"));
    assert_eq!(m[3].role, Role::User);
    let mut empty = ChatMessage::assistant("");
    ensure_assistant_has_content(&mut empty);
    assert_eq!(empty.content.as_deref(), Some("(no response)"));
}
