use hrdr::agent::{Agent, HookReply};
use hrdr::chat::{ChatMessage, Role, Steer, TodoItem, ToolCall};
use hrdr::clock::Moment;
use hrdr::event::AgentEvent;
use hrdr::run::{Opening, Reply, Run, RunAction, RunEvent, RunStage};
use hrdr::subagent_live::LiveSubagents;
use hrdr::tool_batch::Finished;
use hrdr::usage::CallSpend;

fn agent(max_steps: usize) -> Agent<u8> {
    Agent {
        messages: Vec::new(),
        todos: Vec::new(),
        background: Vec::new(),
        registry: LiveSubagents::new(),
        pending_notices: Vec::new(),
        unsupported_params: Vec::new(),
        tool_syntax_warned: false,
        max_steps,
        last_prompt_tokens: None,
        todo_turn: 0,
    }
}

fn now() -> Moment {
    Moment { secs: 1_700_000_000, nanos: 0 }
}

fn steer(text: &str) -> Steer {
    Steer { sent: format!("{text} (sent)"), display: text.into() }
}

fn opened(text: &str) -> RunEvent {
    RunEvent::Opened(Some(Opening { msg: steer(text), hooks: None, recall: None }))
}

fn spend() -> CallSpend {
    CallSpend {
        prompt_tokens: 100,
        completion_tokens: 5,
        cached_prompt_tokens: None,
        cache_creation_tokens: None,
        cost_usd_bits: None,
        session_cost_usd_bits: None,
    }
}

fn reply(message: ChatMessage) -> Reply {
    let calls = message.tool_calls.as_ref().map_or(0, |c| c.len());
    Reply {
        message,
        truncated: false,
        warnings: Vec::new(),
        spend: spend(),
        decode_ms: 7,
        reasoning_tokens: None,
        cost_partial: false,
        tools_offered: true,
        background_running: 0,
        concurrent: vec![true; calls],
    }
}

fn replied(r: Reply) -> RunEvent {
    RunEvent::Replied(Ok(r))
}

fn asks(ids: &[&str]) -> ChatMessage {
    let mut m = ChatMessage::assistant("working");
    m.tool_calls = Some(
        ids.iter()
            .map(|id| ToolCall { id: id.to_string(), name: "read".into(), arguments: "{}".into() })
            .collect(),
    );
    m
}

fn done() -> Finished {
    Finished { elapsed_ms: 1, result: Ok("out".into()), repeatable: false }
}

/// A turn up to the model's first reply.
fn until_reply(a: &mut Agent<u8>) -> Run {
    let (mut run, _, action) = a.start_run();
    assert_eq!(action, RunAction::TakeOpening);
    let (shown, action) = a.run(&mut run, opened("hi"), now());
    assert_eq!(shown, vec![AgentEvent::Steered("hi".into())]);
    assert_eq!(action, RunAction::TakeQueued);
    let (_, action) = a.run(&mut run, RunEvent::Queued(vec![]), now());
    assert_eq!(action, RunAction::Prepare);
    let (_, action) = a.run(&mut run, RunEvent::Checked(Ok(())), now());
    assert_eq!(action, RunAction::Request { tools: true });
    run
}

#[test]
fn a_turn_without_calls_ends_at_once() {
    let mut a = agent(4);
    let mut run = until_reply(&mut a);
    let (shown, action) = a.run(&mut run, replied(reply(ChatMessage::assistant("hello"))), now());
    assert!(matches!(shown.as_slice(), [AgentEvent::Usage(u)] if u.decode_ms == 7));
    assert_eq!(action, RunAction::EndHooks);
    assert_eq!(a.last_prompt_tokens, Some(100));
    let (shown, action) = a.run(&mut run, RunEvent::HooksRan, now());
    assert_eq!(shown, vec![AgentEvent::TurnDone]);
    assert_eq!(action, RunAction::Done);
    assert_eq!(run.stage, RunStage::Over);
    assert_eq!(a.todo_turn, 1);
    let roles: Vec<Role> = a.messages.iter().map(|m| m.role).collect();
    assert_eq!(roles, vec![Role::User, Role::Assistant]);
    assert_eq!(a.messages[0].content.as_deref(), Some("hi (sent)"));
}

#[test]
fn calls_run_in_batches_and_the_round_is_closed() {
    let mut a = agent(9);
    let mut run = until_reply(&mut a);
    let mut r = reply(asks(&["1", "2", "3"]));
    r.concurrent = vec![true, true, false];
    let (_, action) = a.run(&mut run, replied(r), now());
    assert_eq!(action, RunAction::RunBatch { from: 0, to: 2 });
    let (_, action) = a.run(&mut run, RunEvent::BatchRan(vec![done(), done()]), now());
    assert_eq!(action, RunAction::RunBatch { from: 2, to: 3 });
    let (shown, action) = a.run(&mut run, RunEvent::BatchRan(vec![done()]), now());
    match shown.last() {
        Some(AgentEvent::History(kept)) => assert_eq!(kept, &a.messages),
        other => panic!("{other:?}"),
    }
    assert_eq!(action, RunAction::TakeQueued);
    let answered: Vec<_> = a.messages.iter().filter_map(|m| m.tool_call_id.clone()).collect();
    assert_eq!(answered, vec!["1", "2", "3"]);
    assert_eq!(run.turn.step, 1);
    // A message that joins the turn gives it a fresh budget.
    a.run(&mut run, RunEvent::Queued(vec![]), now());
    assert_eq!(run.turn.step, 2);
    a.run(&mut run, RunEvent::Checked(Ok(())), now());
    a.run(&mut run, replied(reply(asks(&["4"]))), now());
    a.run(&mut run, RunEvent::BatchRan(vec![done()]), now());
    let (shown, _) = a.run(&mut run, RunEvent::Queued(vec![steer("also")]), now());
    assert_eq!(shown, vec![AgentEvent::Steered("also".into())]);
    assert_eq!(run.turn.step, 1);
}

#[test]
fn a_spent_budget_is_wrapped_up_without_tools() {
    let mut a = agent(1);
    let mut run = until_reply(&mut a);
    a.run(&mut run, replied(reply(asks(&["1"]))), now());
    let (shown, action) = a.run(&mut run, RunEvent::BatchRan(vec![done()]), now());
    assert_eq!(
        shown.last(),
        Some(&AgentEvent::Notice(
            "tool-round limit reached (1) — asking the model to wrap up".into()
        ))
    );
    assert_eq!(action, RunAction::Prepare);
    let (_, action) = a.run(&mut run, RunEvent::Checked(Ok(())), now());
    assert_eq!(action, RunAction::Request { tools: false });
    a.last_prompt_tokens = None;
    let (_, action) = a.run(&mut run, replied(reply(ChatMessage::assistant(""))), now());
    assert_eq!(action, RunAction::EndHooks);
    assert_eq!(a.last_prompt_tokens, None);
    assert_eq!(a.messages.last().unwrap().content.as_deref(), Some("(no response)"));
}

#[test]
fn a_turn_fails_for_a_hook_a_budget_or_a_model() {
    let mut a = agent(3);
    let (mut run, _, _) = a.start_run();
    let hooks = HookReply {
        notes: vec!["seen".into()],
        block: Some("no".into()),
        context: vec![],
    };
    let ev = RunEvent::Opened(Some(Opening { msg: steer("x"), hooks: Some(hooks), recall: None }));
    let (shown, action) = a.run(&mut run, ev, now());
    assert_eq!(shown, vec![AgentEvent::Notice("seen".into())]);
    assert_eq!(action, RunAction::Fail("blocked by user_prompt hook: no".into()));
    assert!(a.messages.is_empty());

    let (mut run, _, _) = a.start_run();
    a.run(&mut run, RunEvent::Opened(None), now());
    a.run(&mut run, RunEvent::Queued(vec![]), now());
    let (shown, action) = a.run(&mut run, RunEvent::Checked(Err("spent".into())), now());
    assert_eq!(shown, vec![AgentEvent::Notice("spent".into())]);
    assert_eq!(action, RunAction::Fail("spent".into()));

    let mut run = until_reply(&mut a);
    let (shown, action) = a.run(&mut run, RunEvent::Replied(Err("down".into())), now());
    assert!(shown.is_empty());
    assert_eq!(action, RunAction::Fail("down".into()));
    assert_eq!(run.stage, RunStage::Over);
}

#[test]
fn unfinished_items_give_the_turn_one_more_round() {
    let mut a = agent(5);
    a.todos = vec![TodoItem { content: "x".into(), status: "pending".into() }];
    let mut run = until_reply(&mut a);
    let mut r = reply(ChatMessage::assistant("later"));
    r.warnings = vec!["careful".into()];
    let (shown, action) = a.run(&mut run, replied(r), now());
    assert_eq!(shown[0], AgentEvent::Notice("careful".into()));
    assert!(matches!(shown[1], AgentEvent::Usage(_)));
    assert_eq!(action, RunAction::TakeQueued);
    a.run(&mut run, RunEvent::Queued(vec![]), now());
    a.run(&mut run, RunEvent::Checked(Ok(())), now());
    let (_, action) = a.run(&mut run, replied(reply(ChatMessage::assistant("no"))), now());
    assert_eq!(action, RunAction::EndHooks);
}

#[test]
fn a_round_is_published_before_notes_are_added_to_it() {
    let mut a = agent(4);
    let mut run = until_reply(&mut a);
    a.run(&mut run, replied(reply(asks(&["1"]))), now());
    let (shown, _) = a.run(&mut run, RunEvent::BatchRan(vec![done()]), now());
    let Some(AgentEvent::History(kept)) = shown.last() else {
        panic!("{shown:?}");
    };
    assert_eq!(kept.len(), a.messages.len());
    assert_eq!(kept[..2], a.messages[..2]);
    assert_eq!(kept[2].content.as_deref(), Some("out\n\n(took 1ms)"));
    assert_eq!(
        a.messages[2].content.as_deref(),
        Some("out\n\n(took 1ms)\n\n[note: only 3 tool rounds remain this turn — finish up and summarize]")
    );
}

#[test]
fn the_todo_list_is_published_as_its_tool_left_it() {
    let mut a = agent(9);
    let mut run = until_reply(&mut a);
    let mut m = asks(&["1"]);
    m.tool_calls.as_mut().unwrap()[0].name = "todo".into();
    a.run(&mut run, replied(reply(m)), now());
    a.todos = vec![TodoItem { content: "x".into(), status: "completed".into() }];
    let (shown, _) = a.run(&mut run, RunEvent::BatchRan(vec![done()]), now());
    assert_eq!(shown[1], AgentEvent::TodoUpdated(a.todos.clone()));
}

/// Over a whole turn it is said once that it is done, and last of all; and there is a
/// model call for each round and one more.
#[test]
fn a_whole_turn_is_done_once_and_keeps_to_its_budget() {
    let mut a = agent(2);
    let (mut run, mut shown, mut action) = a.start_run();
    let mut calls = 0;
    while !matches!(action, RunAction::Done | RunAction::Fail(_)) {
        let ev = match action {
            RunAction::TakeOpening => opened("hi"),
            RunAction::TakeQueued => RunEvent::Queued(vec![]),
            RunAction::Prepare => RunEvent::Checked(Ok(())),
            RunAction::Request { tools } => {
                calls += 1;
                assert_eq!(tools, calls <= 2);
                replied(reply(asks(if tools { &["1"] } else { &[] })))
            }
            RunAction::RunBatch { from, to } => {
                RunEvent::BatchRan((from..to).map(|_| done()).collect())
            }
            RunAction::EndHooks => RunEvent::HooksRan,
            RunAction::Done | RunAction::Fail(_) => unreachable!(),
        };
        let (more, next) = a.run(&mut run, ev, now());
        shown.extend(more);
        action = next;
    }
    assert_eq!(action, RunAction::Done);
    assert_eq!(calls, 3);
    let done_at: Vec<usize> = (0..shown.len())
        .filter(|i| shown[*i] == AgentEvent::TurnDone)
        .collect();
    assert_eq!(done_at, vec![shown.len() - 1]);
}
