//! The lock that keeps two processes from writing a store at once: a file beside it that
//! only one can create, which says who did and when.
use crate::text;
use crate::text::{cat, cat3, decimal_string, parse_up_to, str_words};
use vstd::prelude::*;

verus! {

/// How old a lock must be to be taken for abandoned, where it guards the rewriting of a
/// small file, in seconds.
pub const SMALL_FILE_STALE_LOCK_AGE_SECS: u64 = 60;

/// How many bytes a second a slow file system writes.
pub const SLOW_FS_BYTES_PER_SEC: u64 = 1_048_576;

/// How often a lock is tried for.
pub const LOCK_ACQUIRE_ATTEMPTS: u32 = 100;

/// How long to wait between two tries, in milliseconds.
pub const LOCK_RETRY_DELAY_MS: u64 = 50;

/// What a lock guards, and so how long it may honestly be held.
#[derive(Debug, Clone, Copy, PartialEq, Eq, Structural)]
pub enum StoreKind {
    /// One rewriting of a small file.
    SmallFileRewrite,
    /// The writing of a session and all that is attached to it.
    BlobStore,
}

impl StoreKind {
    /// How old a lock must be to be taken for abandoned, in seconds. A session file has
    /// at most `max_session_bytes`.
    pub open spec fn stale_age(self, max_session_bytes: u64) -> int {
        match self {
            StoreKind::SmallFileRewrite => SMALL_FILE_STALE_LOCK_AGE_SECS as int,
            StoreKind::BlobStore => (2 * max_session_bytes) / (SLOW_FS_BYTES_PER_SEC as int),
        }
    }

    /// How old a lock must be to be taken for abandoned, in seconds: the time that a
    /// slow file system takes for the session and as much again for what is attached.
    pub fn stale_age_secs(self, max_session_bytes: u64) -> (r: u64)
        requires
            2 * max_session_bytes <= u64::MAX,
        ensures
            r == self.stale_age(max_session_bytes),
    {
        match self {
            StoreKind::SmallFileRewrite => SMALL_FILE_STALE_LOCK_AGE_SECS,
            StoreKind::BlobStore => (2 * max_session_bytes) / SLOW_FS_BYTES_PER_SEC,
        }
    }
}

/// The lock of the store at `store`.
pub fn lock_path(store: &str) -> (r: String)
    ensures
        r@ == store@ + ".lock"@,
{
    cat(store, ".lock")
}

// ---------------------------------------------------------------------------
// What a lock says
// ---------------------------------------------------------------------------

/// What a lock says: who holds it, and since when.
pub open spec fn content(pid: u32, now: u64) -> Seq<char> {
    text::decimal(pid as nat) + " "@ + text::decimal(now as nat)
}

/// What a lock says: who holds it, and since when.
pub fn lock_content(pid: u32, now: u64) -> (r: String)
    ensures
        r@ == content(pid, now),
{
    cat3(decimal_string(pid as u64).as_str(), " ", decimal_string(now).as_str())
}

/// Who a lock says that it is held by.
pub open spec fn pid_of(lock: Seq<char>) -> Option<nat> {
    let words = text::words(lock);
    if words.len() > 0 {
        text::parse_unsigned(words[0], u32::MAX as nat)
    } else {
        None
    }
}

/// Who a lock says that it is held by, and since when.
pub open spec fn owner(lock: Seq<char>) -> Option<(nat, nat)> {
    let words = text::words(lock);
    if words.len() < 2 {
        None
    } else {
        match (pid_of(lock), text::parse_unsigned(words[1], u64::MAX as nat)) {
            (Some(p), Some(t)) => Some((p, t)),
            _ => None,
        }
    }
}

/// Who a lock says that it is held by, and since when; `None` for one that says neither.
pub fn lock_owner(lock: &str) -> (r: Option<(u32, u64)>)
    ensures
        match r {
            Some((p, t)) => owner(lock@) == Some((p as nat, t as nat)),
            None => owner(lock@) is None,
        },
{
    let words = str_words(lock);
    assert(text::views(words@).len() == words@.len());
    if words.len() < 2 {
        return None;
    }
    assert(text::words(lock@)[0] == words@[0]@);
    assert(text::words(lock@)[1] == words@[1]@);
    match (
        parse_up_to(words[0].as_str(), u32::MAX as u64),
        parse_up_to(words[1].as_str(), u64::MAX),
    ) {
        (Some(p), Some(t)) => Some((p as u32, t)),
        _ => None,
    }
}

/// What is known of a lock that is in the way.
#[derive(Debug, Clone, PartialEq, Eq)]
pub struct LockFacts {
    /// What it says; `None` where it is gone.
    pub content: Option<String>,
    /// How long ago it was written, in seconds, where that is known.
    pub age_secs: Option<u64>,
    /// Whether the process that it names runs. Where nobody can tell, it does.
    pub owner_alive: bool,
}

/// Whether a lock is abandoned: it is old, and the process that it names is gone. One
/// that names none goes by its age alone; one that is gone is not in the way.
pub open spec fn stale(facts: LockFacts, now: u64, stale_age: u64) -> bool {
    match facts.content {
        Some(c) => match owner(c@) {
            Some((p, t)) => now >= t && now - t >= stale_age && !facts.owner_alive,
            None => facts.age_secs matches Some(a) && a >= stale_age,
        },
        None => false,
    }
}

/// Whether a lock is abandoned.
pub fn is_stale_lock(facts: &LockFacts, now: u64, stale_age: u64) -> (r: bool)
    ensures
        r == stale(*facts, now, stale_age),
{
    match &facts.content {
        Some(c) => match lock_owner(c.as_str()) {
            Some((_, t)) => now >= t && now - t >= stale_age && !facts.owner_alive,
            None => match facts.age_secs {
                Some(a) => a >= stale_age,
                None => false,
            },
        },
        None => false,
    }
}

/// Whether a lock is held by `pid`, who alone may remove it: one that was taken over
/// belongs to whoever took it. A lock that is gone belongs to nobody.
pub fn remove_lock_file_if_owned(lock: Option<&str>, pid: u32) -> (r: bool)
    ensures
        r == (match lock {
            Some(c) => pid_of(c@) == Some(pid as nat),
            None => false,
        }),
        lock is None ==> !r,
        forall|owner: u32, at: u64|
            lock matches Some(c) && c@ == #[trigger] content(owner, at) ==> r == (owner == pid),
{
    proof {
        assert forall|owner: u32, at: u64|
            lock matches Some(c) && c@ == #[trigger] content(owner, at) implies (pid_of(
            content(owner, at),
        ) == Some(pid as nat) <==> owner == pid) by {
            law_a_lock_names_its_owner(owner, at, pid);
        }
    }
    match lock {
        Some(c) => {
            let words = str_words(c);
            assert(text::views(words@).len() == words@.len());
            if words.len() == 0 {
                return false;
            }
            assert(text::words(c@)[0] == words@[0]@);
            match parse_up_to(words[0].as_str(), u32::MAX as u64) {
                Some(p) => p == pid as u64,
                None => false,
            }
        },
        None => false,
    }
}

proof fn lemma_digit_run(d: Seq<char>, rest: Seq<char>)
    requires
        forall|i: int| 0 <= i < d.len() ==> text::is_digit(#[trigger] d[i]),
        rest.len() == 0 || text::is_white(rest[0]),
    ensures
        text::word_len(d + rest) == d.len(),
    decreases d.len(),
{
    if d.len() > 0 {
        assert(text::is_digit(d[0]));
        assert((d + rest)[0] == d[0]);
        assert((d + rest).drop_first() =~= d.drop_first() + rest);
        assert forall|i: int| 0 <= i < d.drop_first().len() implies text::is_digit(
            #[trigger] d.drop_first()[i],
        ) by {
            assert(d[i + 1] == d.drop_first()[i]);
        }
        lemma_digit_run(d.drop_first(), rest);
    } else {
        assert(d + rest =~= rest);
    }
}

proof fn lemma_content_words(pid: u32, now: u64)
    ensures
        text::words(content(pid, now)) == seq![
            text::decimal(pid as nat),
            text::decimal(now as nat),
        ],
{
    let a = text::decimal(pid as nat);
    let b = text::decimal(now as nat);
    text::lemma_decimal_digits(pid as nat);
    text::lemma_decimal_digits(now as nat);
    reveal_strlit(" ");
    assert(" "@ =~= seq![' ']);
    let s = content(pid, now);
    let rest = seq![' '] + b;
    assert(s =~= a + rest);
    assert(text::is_digit(a[0]) && text::is_digit(b[0]));
    assert(s[0] == a[0]);
    assert(text::trim_start(s) == s);
    lemma_digit_run(a, rest);
    assert(s.take(a.len() as int) =~= a);
    assert(s.skip(a.len() as int) =~= rest);
    assert(rest.drop_first() =~= b);
    assert(text::trim_start(b) == b);
    assert(text::trim_start(rest) == b);
    lemma_digit_run(b, Seq::empty());
    assert(b + Seq::<char>::empty() =~= b);
    assert(b.take(b.len() as int) =~= b);
    assert(b.skip(b.len() as int) =~= Seq::empty());
    assert(text::words(Seq::<char>::empty()) =~= Seq::empty());
    assert(text::words(rest) =~= seq![b] + text::words(Seq::empty()));
    assert(text::words(s) =~= seq![a] + text::words(rest));
    assert(text::words(s) =~= seq![a, b]);
}

proof fn lemma_decimal_parses(n: nat, max: nat)
    requires
        n <= max,
    ensures
        text::parse_unsigned(text::decimal(n), max) == Some(n),
{
    text::lemma_decimal_digits(n);
    assert(text::is_digit(text::decimal(n)[0]));
    assert(text::unsigned_digits(text::decimal(n)) == text::decimal(n));
}

/// What is written into a lock is what is read from it, and only the process that wrote
/// it may remove it.
pub proof fn law_a_lock_names_its_owner(pid: u32, now: u64, other: u32)
    ensures
        owner(content(pid, now)) == Some((pid as nat, now as nat)),
        pid_of(content(pid, now)) == Some(other as nat) <==> other == pid,
{
    lemma_content_words(pid, now);
    lemma_decimal_parses(pid as nat, u32::MAX as nat);
    lemma_decimal_parses(now as nat, u64::MAX as nat);
}

/// The lock of a process that runs is never abandoned, and no lock is before its time.
pub proof fn law_a_live_lock_is_never_stale(
    pid: u32,
    taken: u64,
    now: u64,
    facts: LockFacts,
    stale_age: u64,
)
    requires
        facts.content matches Some(c) && c@ == content(pid, taken),
    ensures
        facts.owner_alive ==> !stale(facts, now, stale_age),
        now < taken + stale_age ==> !stale(facts, now, stale_age),
        !facts.owner_alive && now >= taken + stale_age ==> stale(facts, now, stale_age),
{
    law_a_lock_names_its_owner(pid, taken, pid);
}

// ---------------------------------------------------------------------------
// Taking it
// ---------------------------------------------------------------------------

/// What came of trying to create the lock.
#[derive(Debug, Clone, PartialEq, Eq)]
pub enum CreateOutcome<S = String> {
    Created,
    /// There is one, or one that is just being removed.
    Held,
    /// Something else is wrong.
    Failed(S),
}

impl View for CreateOutcome<String> {
    type V = CreateOutcome<Seq<char>>;

    open spec fn view(&self) -> CreateOutcome<Seq<char>> {
        match self {
            CreateOutcome::Created => CreateOutcome::Created,
            CreateOutcome::Held => CreateOutcome::Held,
            CreateOutcome::Failed(e) => CreateOutcome::Failed(e@),
        }
    }
}

/// What to do next.
#[derive(Debug, Clone, PartialEq, Eq)]
pub enum LockStep<S = String> {
    /// The lock is taken.
    Taken,
    /// Remove the abandoned lock and try again.
    Reap,
    /// Wait and try again.
    Wait,
    /// Give up, and remove the lock where it is abandoned: for the next who tries.
    GiveUp { why: S, reap: bool },
}

impl View for LockStep<String> {
    type V = LockStep<Seq<char>>;

    open spec fn view(&self) -> LockStep<Seq<char>> {
        match self {
            LockStep::Taken => LockStep::Taken,
            LockStep::Reap => LockStep::Reap,
            LockStep::Wait => LockStep::Wait,
            LockStep::GiveUp { why, reap } => LockStep::GiveUp { why: why@, reap: *reap },
        }
    }
}

/// Trying for a lock.
#[derive(Debug, Clone, PartialEq, Eq)]
pub struct StoreLock {
    pub lock_path: String,
    /// How often it was tried for.
    pub attempts: u32,
}

/// What to do after try `attempt`, the first being one.
pub open spec fn next_step(
    path: Seq<char>,
    attempt: int,
    outcome: CreateOutcome<Seq<char>>,
    is_stale: bool,
) -> LockStep<Seq<char>> {
    match outcome {
        CreateOutcome::Created => LockStep::Taken,
        CreateOutcome::Failed(e) => LockStep::GiveUp {
            why: "acquiring lock "@ + path + ": "@ + e,
            reap: false,
        },
        CreateOutcome::Held => if attempt >= LOCK_ACQUIRE_ATTEMPTS {
            LockStep::GiveUp {
                why: "timed out acquiring lock "@ + path + " (held by another process?)"@,
                reap: is_stale,
            }
        } else if is_stale {
            LockStep::Reap
        } else {
            LockStep::Wait
        },
    }
}

impl StoreLock {
    /// Begin to try for the lock of the store at `store`.
    pub fn new(store: &str) -> (r: Self)
        ensures
            r.lock_path@ == store@ + ".lock"@,
            r.attempts == 0,
    {
        StoreLock { lock_path: lock_path(store), attempts: 0 }
    }

    /// Take note of a try, and of whether the lock in the way is abandoned.
    pub fn acquire(&mut self, outcome: &CreateOutcome, is_stale: bool) -> (r: LockStep)
        requires
            old(self).attempts < LOCK_ACQUIRE_ATTEMPTS,
        ensures
            final(self).attempts == old(self).attempts + 1,
            final(self).lock_path@ == old(self).lock_path@,
            r@ == next_step(
                old(self).lock_path@,
                old(self).attempts + 1,
                outcome@,
                is_stale,
            ),
    {
        self.attempts = self.attempts + 1;
        match outcome {
            CreateOutcome::Created => LockStep::Taken,
            CreateOutcome::Failed(e) => {
                let mut s = cat3("acquiring lock ", self.lock_path.as_str(), ": ");
                s.append(e.as_str());
                LockStep::GiveUp { why: s, reap: false }
            },
            CreateOutcome::Held => if self.attempts >= LOCK_ACQUIRE_ATTEMPTS {
                LockStep::GiveUp {
                    why: cat3(
                        "timed out acquiring lock ",
                        self.lock_path.as_str(),
                        " (held by another process?)",
                    ),
                    reap: is_stale,
                }
            } else if is_stale {
                LockStep::Reap
            } else {
                LockStep::Wait
            },
        }
    }
}

/// What one try came to, and whether the lock in its way was abandoned.
pub type Try = (CreateOutcome<Seq<char>>, bool);

/// What to do after try `i` of `tries`, the first being number zero.
pub open spec fn step_at(path: Seq<char>, tries: Seq<Try>, i: int) -> LockStep<Seq<char>> {
    next_step(path, i + 1, tries[i].0, tries[i].1)
}

/// Whether try `i` is the one that settles the matter: it takes the lock or gives up, and
/// none before it did.
pub open spec fn settles(path: Seq<char>, tries: Seq<Try>, i: int) -> bool {
    &&& 0 <= i < tries.len()
    &&& step_at(path, tries, i) is Taken || step_at(path, tries, i) is GiveUp
    &&& forall|j: int|
        0 <= j < i ==> (#[trigger] step_at(path, tries, j) is Wait || step_at(
            path,
            tries,
            j,
        ) is Reap)
}

/// Trying for a lock ends within the tries that it has: one of them settles it. The lock
/// is taken then where it was created, and only there.
pub proof fn law_acquiring_ends(path: Seq<char>, tries: Seq<Try>)
    requires
        tries.len() >= LOCK_ACQUIRE_ATTEMPTS,
    ensures
        exists|i: int| #[trigger] settles(path, tries, i) && i < LOCK_ACQUIRE_ATTEMPTS,
        forall|i: int| #[trigger]
            settles(path, tries, i) ==> (step_at(path, tries, i) is Taken <==> tries[i].0 is Created),
{
    lemma_one_settles(path, tries, 0);
}

proof fn lemma_one_settles(path: Seq<char>, tries: Seq<Try>, from: int)
    requires
        tries.len() >= LOCK_ACQUIRE_ATTEMPTS,
        0 <= from < LOCK_ACQUIRE_ATTEMPTS,
        forall|j: int|
            0 <= j < from ==> (#[trigger] step_at(path, tries, j) is Wait || step_at(
                path,
                tries,
                j,
            ) is Reap),
    ensures
        exists|i: int| #[trigger] settles(path, tries, i) && i < LOCK_ACQUIRE_ATTEMPTS,
    decreases LOCK_ACQUIRE_ATTEMPTS - from,
{
    if step_at(path, tries, from) is Taken || step_at(path, tries, from) is GiveUp {
        assert(settles(path, tries, from));
    } else {
        lemma_one_settles(path, tries, from + 1);
    }
}

/// A lock is taken at the first try that finds it free, as long as that is not one too
/// many; before that it is waited for, and broken only where it is abandoned. A try that
/// fails otherwise ends it there and breaks nothing.
pub proof fn law_a_lock_that_is_freed_in_time_is_taken(path: Seq<char>, tries: Seq<Try>, i: int)
    requires
        0 <= i < tries.len(),
        i < LOCK_ACQUIRE_ATTEMPTS,
        forall|j: int| 0 <= j < i ==> (#[trigger] tries[j]).0 is Held,
    ensures
        tries[i].0 is Created ==> settles(path, tries, i) && step_at(path, tries, i) is Taken,
        (tries[i].0 matches CreateOutcome::Failed(e) ==> (settles(path, tries, i) && (step_at(
            path,
            tries,
            i,
        ) matches LockStep::GiveUp { why, reap } && !reap && text::contains(why, e)
            && text::contains(why, path)))),
        forall|j: int|
            0 <= j < i ==> (#[trigger] step_at(path, tries, j) is Reap <==> tries[j].1),
        forall|j: int|
            0 <= j < i ==> (#[trigger] step_at(path, tries, j) is Wait <==> !tries[j].1),
{
    broadcast use text::lemma_sum_holds;

    assert forall|j: int| 0 <= j < i implies (#[trigger] step_at(path, tries, j) is Wait || step_at(
        path,
        tries,
        j,
    ) is Reap) by {
        assert(tries[j].0 is Held);
    }
    assert forall|j: int| 0 <= j < i implies (#[trigger] step_at(path, tries, j) is Reap
        <==> tries[j].1) by {
        assert(tries[j].0 is Held);
    }
    assert forall|j: int| 0 <= j < i implies (#[trigger] step_at(path, tries, j) is Wait
        <==> !tries[j].1) by {
        assert(tries[j].0 is Held);
    }
    text::lemma_holds_itself(path);
    if let CreateOutcome::Failed(e) = tries[i].0 {
        text::lemma_holds_itself(e);
        assert(text::contains("acquiring lock "@ + path + ": "@ + e, e));
        assert(text::contains("acquiring lock "@ + path + ": "@ + e, path));
    }
}

/// The last try says which lock could not be had, and breaks it for the next one exactly
/// where it is abandoned.
pub proof fn law_the_last_try_names_the_lock(path: Seq<char>, is_stale: bool)
    ensures
        next_step(path, LOCK_ACQUIRE_ATTEMPTS as int, CreateOutcome::Held, is_stale) matches LockStep::GiveUp {
            why,
            reap,
        } && reap == is_stale && text::contains(why, path),
{
    broadcast use text::lemma_sum_holds;

    text::lemma_holds_itself(path);
    assert(text::contains(
        "timed out acquiring lock "@ + path + " (held by another process?)"@,
        path,
    ));
}

/// A lock that does not say whose it is goes by how old its file is, and one that could
/// not be read is left alone.
pub proof fn law_a_nameless_lock_goes_by_its_age(facts: LockFacts, now: u64, stale_age: u64)
    ensures
        facts.content is None ==> !stale(facts, now, stale_age),
        facts.content matches Some(c) ==> (text::words(c@).len() < 2 ==> (stale(facts, now, stale_age)
            <==> (facts.age_secs matches Some(a) && a >= stale_age))),
{
}

} // verus!
