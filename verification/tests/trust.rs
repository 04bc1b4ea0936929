use hrdr::trust::{is_trusted, trust};

#[test]
fn an_unknown_directory_is_not_trusted_and_trusting_it_sticks() {
    let dir = "/home/me/project";
    assert!(!is_trusted(Some(""), dir), "nothing is trusted to begin with");
    let store = trust(Some(""), dir).unwrap();
    assert!(is_trusted(Some(&store), dir));
}

/// A directory cloned into a trusted parent is the one nobody has read.
#[test]
fn trusting_a_parent_does_not_trust_a_child() {
    let parent = "/home/me/project";
    let child = "/home/me/project/just-cloned";
    let store = trust(None, parent).unwrap();
    assert!(is_trusted(Some(&store), parent));
    assert!(!is_trusted(Some(&store), child), "a child must be answered on its own");
}

/// The store is a set.
#[test]
fn trusting_twice_records_one_entry() {
    let dir = "/home/me/project";
    let mut store = trust(None, dir).unwrap();
    if let Some(more) = trust(Some(&store), dir) {
        store.push_str(&more);
    }
    assert_eq!(store.lines().filter(|l| !l.trim().is_empty()).count(), 1);
}

/// No store yet is the same answer as an empty one.
#[test]
fn a_missing_store_trusts_nothing() {
    assert!(!is_trusted(None, "/home/me/project"));
    assert!(!is_trusted(Some(""), "/home/me/project"));
}

/// Entries are added below one another.
#[test]
fn entries_are_lines() {
    let mut store = trust(None, "/a").unwrap();
    store.push_str(&trust(Some(&store), "/b").unwrap());
    assert_eq!(store, "/a\n/b\n");
    assert!(is_trusted(Some(&store), "/a") && is_trusted(Some(&store), "/b"));
    assert!(!is_trusted(Some(&store), "/a\n/b"));
}
