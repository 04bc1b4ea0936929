use hrdr::store_lock::{
    is_stale_lock, lock_content, lock_owner, lock_path, remove_lock_file_if_owned, CreateOutcome,
    LockFacts, LockStep, StoreKind, StoreLock, LOCK_ACQUIRE_ATTEMPTS,
    SMALL_FILE_STALE_LOCK_AGE_SECS,
};

const NOW: u64 = 1_700_000_000;
const SESSION_BYTES: u64 = 64 * 1024 * 1024;

/// A store's lock, as the file system has it.
struct Disk {
    lock: Option<String>,
    written: u64,
}

/// Take the lock of a store whose age of abandoned locks is `stale_age`.
fn take(disk: &mut Disk, pid: u32, stale_age: u64, alive: bool) -> Result<u32, String> {
    let mut l = StoreLock::new("auth.toml");
    loop {
        let outcome = if disk.lock.is_none() {
            disk.lock = Some(lock_content(pid, NOW));
            disk.written = NOW;
            CreateOutcome::Created
        } else {
            CreateOutcome::Held
        };
        let facts = LockFacts {
            content: disk.lock.clone(),
            age_secs: Some(NOW - disk.written),
            owner_alive: alive,
        };
        let stale = is_stale_lock(&facts, NOW, stale_age);
        match l.acquire(&outcome, stale) {
            LockStep::Taken => return Ok(l.attempts),
            LockStep::Reap => disk.lock = None,
            LockStep::Wait => {}
            LockStep::GiveUp { why, .. } => return Err(why),
        }
    }
}

fn small() -> u64 {
    StoreKind::SmallFileRewrite.stale_age_secs(SESSION_BYTES)
}

#[test]
fn lock_path_is_sibling_with_lock_suffix() {
    assert_eq!(lock_path("/some/dir/auth.toml"), "/some/dir/auth.toml.lock");
    assert_eq!(lock_path("/x/oauth.json"), "/x/oauth.json.lock");
}

#[test]
fn acquire_creates_and_drop_removes_the_lock_file() {
    let mut disk = Disk { lock: None, written: NOW };
    assert_eq!(take(&mut disk, 42, small(), true), Ok(1));
    assert!(disk.lock.is_some(), "lock file exists while held");
    assert!(remove_lock_file_if_owned(disk.lock.as_deref(), 42), "and is its owner's to remove");
}

#[test]
fn drop_leaves_a_reclaimed_lock_alone() {
    // Another process took the lock for abandoned and has it now.
    let lock = lock_content(999_999, NOW);
    assert!(!remove_lock_file_if_owned(Some(&lock), 42));
    assert!(!remove_lock_file_if_owned(None, 42));
    assert!(!remove_lock_file_if_owned(Some(""), 42));
}

#[test]
fn second_acquire_while_held_times_out_cleanly() {
    let mut disk = Disk { lock: None, written: NOW };
    take(&mut disk, 42, small(), true).unwrap();
    let err = take(&mut disk, 42, small(), true).unwrap_err();
    assert!(err.contains("timed out acquiring"), "{err}");
    assert_eq!(
        err,
        "timed out acquiring lock auth.toml.lock (held by another process?)"
    );
}

#[test]
fn stale_lock_with_dead_pid_is_reaped() {
    let old = NOW - (SMALL_FILE_STALE_LOCK_AGE_SECS + 60);
    let mut disk = Disk { lock: Some(format!("4294967294 {old}")), written: NOW };
    assert_eq!(take(&mut disk, 42, small(), false), Ok(2));
    assert_eq!(disk.lock, Some(format!("42 {NOW}")), "our fresh lock replaced the stale one");
}

#[test]
fn unparseable_old_lock_is_reaped_by_mtime() {
    let written = NOW - (SMALL_FILE_STALE_LOCK_AGE_SECS + 60);
    let mut disk = Disk { lock: Some(String::new()), written };
    assert!(take(&mut disk, 42, small(), true).is_ok());
}

#[test]
fn fresh_unparseable_lock_is_not_reaped() {
    let mut disk = Disk { lock: Some("garbage-no-pid".into()), written: NOW };
    let err = take(&mut disk, 42, small(), true).unwrap_err();
    assert!(err.contains("timed out acquiring"), "{err}");
}

/// A save holds the blob store's lock for longer than a small file's is held.
#[test]
fn a_blob_store_lock_outlives_a_small_file_lock() {
    let blob = StoreKind::BlobStore.stale_age_secs(SESSION_BYTES);
    let between = SMALL_FILE_STALE_LOCK_AGE_SECS + 1;
    assert!(between < blob, "the blob store's window is the longer one: {blob}");
    let facts = LockFacts {
        content: Some(format!("4294967294 {}", NOW - between)),
        age_secs: None,
        owner_alive: false,
    };
    assert!(is_stale_lock(&facts, NOW, small()), "a credential lock this old is abandoned");
    assert!(!is_stale_lock(&facts, NOW, blob), "the same age is a save still writing");
    assert_eq!(small(), 60);
    assert_eq!(blob, 128);
}

#[test]
fn a_lock_that_cannot_be_created_is_an_error_at_once() {
    let mut l = StoreLock::new("/x/auth.toml");
    let step = l.acquire(&CreateOutcome::Failed("permission denied".into()), false);
    assert_eq!(
        step,
        LockStep::GiveUp {
            why: "acquiring lock /x/auth.toml.lock: permission denied".into(),
            reap: false
        }
    );
    // The last try removes an abandoned lock for the next who comes.
    let mut l = StoreLock { lock_path: "l".into(), attempts: LOCK_ACQUIRE_ATTEMPTS - 1 };
    assert!(matches!(l.acquire(&CreateOutcome::Held, true), LockStep::GiveUp { reap: true, .. }));
}

#[test]
fn a_lock_says_who_holds_it() {
    assert_eq!(lock_content(42, 1000), "42 1000");
    assert_eq!(lock_owner("42 1000"), Some((42, 1000)));
    assert_eq!(lock_owner("42"), None);
    assert_eq!(lock_owner("x 1000"), None);
}

/// A lock that comes free is taken at the try that finds it so, and one that never does
/// is given up after the last.
#[test]
fn trying_for_a_lock_ends() {
    let mut l = StoreLock::new("a");
    assert_eq!(l.acquire(&CreateOutcome::Held, false), LockStep::Wait);
    assert_eq!(l.acquire(&CreateOutcome::Held, true), LockStep::Reap);
    assert_eq!(l.acquire(&CreateOutcome::Created, false), LockStep::Taken);
    let mut l = StoreLock::new("a");
    for _ in 1..LOCK_ACQUIRE_ATTEMPTS {
        assert_eq!(l.acquire(&CreateOutcome::Held, false), LockStep::Wait);
    }
    assert!(matches!(l.acquire(&CreateOutcome::Held, false), LockStep::GiveUp { .. }));
    assert_eq!(l.attempts, LOCK_ACQUIRE_ATTEMPTS);
}
