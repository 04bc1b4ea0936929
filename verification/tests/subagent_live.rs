use hrdr::subagent_live::{KeySource, LiveSubagent, LiveSubagents, SubagentKind};

fn entry(key: u64, running: bool, done: bool, delivered: bool, pinned: bool) -> LiveSubagent<u32> {
    LiveSubagent {
        key,
        bg_id: None,
        tool_id: None,
        label: format!("run {key}"),
        model: "m".into(),
        kind: SubagentKind::Blocking,
        agent: key as u32 * 10,
        running,
        done,
        delivered,
        pinned,
    }
}

#[test]
fn keys_are_unique_across_runs() {
    let mut keys = KeySource::new();
    let a = LiveSubagents::<u32>::next_key(&mut keys);
    let b = LiveSubagents::<u32>::next_key(&mut keys);
    assert!(b > a);
}

#[test]
fn registries_of_one_process_share_their_keys() {
    let mut keys = KeySource::new();
    let mut one: LiveSubagents<u32> = LiveSubagents::new();
    let mut other: LiveSubagents<u32> = LiveSubagents::new();
    assert!(one.is_empty());
    for _ in 0..2 {
        let key = LiveSubagents::<u32>::next_key(&mut keys);
        one.register(entry(key, true, false, false, false));
        let key = LiveSubagents::<u32>::next_key(&mut keys);
        other.register(entry(key, true, false, false, false));
    }
    let of_one: Vec<u64> = one.list.iter().map(|e| e.key).collect();
    let of_other: Vec<u64> = other.list.iter().map(|e| e.key).collect();
    assert_eq!(of_one, vec![1, 3]);
    assert_eq!(of_other, vec![2, 4]);
    assert!(one.handle(2).is_none() && other.handle(3).is_none());
}

#[test]
fn an_entry_is_found_and_changed_by_its_key() {
    let mut live = LiveSubagents::new();
    live.register(entry(1, true, false, false, false));
    live.register(entry(2, true, false, false, false));
    assert_eq!(live.handle(2), Some(&20));
    assert_eq!(live.handle(3), None);
    live.update(2).unwrap().pinned = true;
    assert!(!live.list[0].pinned && live.list[1].pinned);
    assert!(live.update(7).is_none());
    assert_eq!(live.len(), 2);
}

#[test]
fn prune_keeps_running_owed_and_pinned_entries() {
    let mut live = LiveSubagents::new();
    // Still running → kept.
    live.register(entry(1, true, false, false, false));
    // Finished but its result is still owed to the main agent → kept.
    live.register(entry(2, false, true, false, false));
    // Finished and delivered, but the user is looking at it → kept.
    live.register(entry(3, false, true, true, true));
    // Finished, delivered, unwatched → dropped.
    live.register(entry(4, false, true, true, false));

    live.prune();
    let keys: Vec<u64> = live.list.iter().map(|e| e.key).collect();
    assert_eq!(keys, vec![1, 2, 3], "only the disposable entry is dropped");
    assert!(!live.list[2].disposable());

    // Unpin the one being viewed: now it too is disposable.
    live.update(3).unwrap().pinned = false;
    live.prune();
    let keys: Vec<u64> = live.list.iter().map(|e| e.key).collect();
    assert_eq!(keys, vec![1, 2]);
}
