//! The live sub-agents: those that a frontend can address, and those whose result is
//! still owed to the main agent.
//!
//! One is kept while it runs, while its result is owed, or while a frontend has pinned
//! it because the user looks at it. Once it is finished, delivered and unpinned, it is
//! pruned.
use vstd::prelude::*;

verus! {

/// How a sub-agent was delegated.
#[derive(Debug, Clone, Copy, PartialEq, Eq, Structural)]
pub enum SubagentKind {
    /// The call that started it waits for it; its answer is the tool's result.
    Blocking,
    /// Detached; its answer is delivered later.
    Background,
}

/// A sub-agent that can be addressed. `H` is what it is addressed by: the agent itself,
/// and the queue that its turn drains.
pub struct LiveSubagent<H> {
    /// The frontend's name for it, unique across blocking and background runs.
    pub key: u64,
    /// The background run's number that the model sees, for a background run.
    pub bg_id: Option<u64>,
    /// The tool call that started it, when there was one.
    pub tool_id: Option<String>,
    pub label: String,
    pub model: String,
    pub kind: SubagentKind,
    pub agent: H,
    /// A turn is in flight on it.
    pub running: bool,
    /// Its delegated task has finished.
    pub done: bool,
    /// Its result has reached the main agent.
    pub delivered: bool,
    /// A frontend shows it.
    pub pinned: bool,
}

impl<H> LiveSubagent<H> {
    /// Whether it may be dropped: its work is done, the main agent has its result, and
    /// nobody looks at it.
    pub open spec fn is_disposable(self) -> bool {
        !self.running && self.done && self.delivered && !self.pinned
    }

    /// Whether it may be dropped.
    pub fn disposable(&self) -> (r: bool)
        ensures
            r == self.is_disposable(),
    {
        !self.running && self.done && self.delivered && !self.pinned
    }
}

/// Where the keys of sub-agents come from. A process has one, which all its registries
/// share, so that a frontend has one space of names for its panes.
#[derive(Debug, Clone, Copy, PartialEq, Eq, Structural)]
pub struct KeySource {
    /// The last key that was given out; zero before the first.
    pub last: u64,
}

impl KeySource {
    pub fn new() -> (r: Self)
        ensures
            r.last == 0,
    {
        KeySource { last: 0 }
    }
}

/// The source after one more key was taken from it: the key is its last one.
pub open spec fn after(s: KeySource) -> KeySource {
    KeySource { last: (s.last + 1) as u64 }
}

/// The source after `n` more keys were taken from it, and these keys.
pub open spec fn taken(s: KeySource, n: nat) -> (KeySource, Seq<u64>)
    decreases n,
{
    if n == 0 {
        (s, Seq::empty())
    } else {
        let (mid, keys) = taken(s, (n - 1) as nat);
        (after(mid), keys.push(after(mid).last))
    }
}

/// Whether the key of every entry was given out by the source before now.
pub open spec fn issued<H>(list: Seq<LiveSubagent<H>>, s: KeySource) -> bool {
    forall|i: int| 0 <= i < list.len() ==> 0 < (#[trigger] list[i]).key <= s.last
}

/// The live sub-agents, in the order in which they were registered.
pub struct LiveSubagents<H> {
    pub list: Vec<LiveSubagent<H>>,
}

/// Where the first entry with `key` stands.
pub open spec fn position<H>(list: Seq<LiveSubagent<H>>, key: u64) -> Option<int>
    decreases list.len(),
{
    if list.len() == 0 {
        None
    } else {
        match position(list.drop_last(), key) {
            Some(i) => Some(i),
            None => if list.last().key == key {
                Some(list.len() - 1)
            } else {
                None
            },
        }
    }
}

/// The entries that must be kept.
pub open spec fn kept<H>(list: Seq<LiveSubagent<H>>) -> Seq<LiveSubagent<H>> {
    list.filter(|e: LiveSubagent<H>| !e.is_disposable())
}

/// The first entry with a key is an entry with that key, and none stands before it.
pub proof fn lemma_position<H>(list: Seq<LiveSubagent<H>>, key: u64)
    ensures
        match position(list, key) {
            Some(i) => {
                &&& 0 <= i < list.len()
                &&& list[i].key == key
                &&& forall|j: int| 0 <= j < i ==> (#[trigger] list[j]).key != key
            },
            None => forall|j: int| 0 <= j < list.len() ==> (#[trigger] list[j]).key != key,
        },
    decreases list.len(),
{
    if list.len() > 0 {
        lemma_position(list.drop_last(), key);
        assert forall|j: int|
            0 <= j < list.len() - 1 && (match position(list.drop_last(), key) {
                Some(i) => j < i,
                None => true,
            }) implies (#[trigger] list[j]).key != key by {
            assert(list.drop_last()[j] == list[j]);
        }
    }
}

impl<H> LiveSubagents<H> {
    pub fn new() -> (r: Self)
        ensures
            r.list@.len() == 0,
    {
        LiveSubagents { list: Vec::new() }
    }

    /// Take the next key from the source that all registries share.
    pub fn next_key(source: &mut KeySource) -> (r: u64)
        requires
            old(source).last < u64::MAX,
        ensures
            r == old(source).last + 1,
            *final(source) == after(*old(source)),
    {
        source.last = source.last + 1;
        source.last
    }

    /// Register a sub-agent when it starts.
    pub fn register(&mut self, entry: LiveSubagent<H>)
        ensures
            final(self).list@ == old(self).list@.push(entry),
    {
        self.list.push(entry);
    }

    /// Where the first entry with `key` stands, if there is one.
    pub fn find(&self, key: u64) -> (r: Option<usize>)
        ensures
            match r {
                Some(i) => i < self.list@.len() && position(self.list@, key) == Some(i as int),
                None => position(self.list@, key) is None,
            },
    {
        let mut i: usize = 0;
        while i < self.list.len()
            invariant
                i <= self.list@.len(),
                forall|j: int| 0 <= j < i ==> (#[trigger] self.list@[j]).key != key,
            decreases self.list@.len() - i,
        {
            proof {
                lemma_position(self.list@, key);
            }
            if self.list[i].key == key {
                return Some(i);
            }
            i = i + 1;
        }
        proof {
            lemma_position(self.list@, key);
        }
        None
    }

    /// The entry with `key`, to be changed in place, if it is still there. Nothing else
    /// changes.
    pub fn update(&mut self, key: u64) -> (r: Option<&mut LiveSubagent<H>>)
        ensures
            match r {
                Some(e) => position(old(self).list@, key) matches Some(i) && *e
                    == old(self).list@[i] && final(self).list@ == old(self).list@.update(
                    i,
                    *final(e),
                ),
                None => position(old(self).list@, key) is None && final(self).list@ == old(
                    self,
                ).list@,
            },
    {
        match self.find(key) {
            Some(i) => Some(&mut self.list[i]),
            None => None,
        }
    }

    /// What the entry with `key` is addressed by, if it is still there.
    pub fn handle(&self, key: u64) -> (r: Option<&H>)
        ensures
            match r {
                Some(h) => position(self.list@, key) matches Some(i) && *h
                    == self.list@[i].agent,
                None => position(self.list@, key) is None,
            },
    {
        match self.find(key) {
            Some(i) => Some(&self.list[i].agent),
            None => None,
        }
    }

    /// Drop every entry that is finished, delivered and unpinned.
    pub fn prune(&mut self)
        ensures
            final(self).list@ == kept(old(self).list@),
    {
        let ghost before = self.list@;
        let ghost keep = |e: LiveSubagent<H>| !e.is_disposable();
        let mut i: usize = 0;
        assert(before =~= self.list@.take(0) + before.skip(0));
        assert(self.list@.skip(0) =~= before);
        assert(self.list@.take(0) =~= Seq::empty());
        while i < self.list.len()
            invariant
                i <= self.list@.len(),
                keep == (|e: LiveSubagent<H>| !e.is_disposable()),
                before.filter(keep) == self.list@.take(i as int) + self.list@.skip(
                    i as int,
                ).filter(keep),
            decreases self.list@.len() - i,
        {
            let ghost rest = self.list@.skip(i as int);
            let ghost done = self.list@.take(i as int);
            let ghost first = rest[0];
            proof {
                lemma_filter_first(rest, keep);
            }
            if self.list[i].disposable() {
                self.list.remove(i);
                assert(self.list@.take(i as int) =~= done);
                assert(self.list@.skip(i as int) =~= rest.drop_first());
            } else {
                i = i + 1;
                assert(self.list@.take(i as int) =~= done.push(first));
                assert(self.list@.skip(i as int) =~= rest.drop_first());
                assert(done + (seq![first] + rest.drop_first().filter(keep)) =~= done.push(first)
                    + rest.drop_first().filter(keep));
            }
        }
        proof {
            assert(self.list@.skip(i as int) =~= Seq::empty());
            reveal(Seq::filter);
            assert(self.list@.take(i as int) + Seq::empty() =~= self.list@);
        }
    }

    /// How many entries are kept.
    pub fn len(&self) -> (r: usize)
        ensures
            r == self.list@.len(),
    {
        self.list.len()
    }

    pub fn is_empty(&self) -> (r: bool)
        ensures
            r == (self.list@.len() == 0),
    {
        self.list.len() == 0
    }
}

/// Filtering a sequence is filtering its first element and then the rest.
pub proof fn lemma_filter_first<A>(s: Seq<A>, p: spec_fn(A) -> bool)
    requires
        s.len() > 0,
    ensures
        s.filter(p) == (if p(s[0]) {
            seq![s[0]]
        } else {
            Seq::empty()
        }) + s.drop_first().filter(p),
    decreases s.len(),
{
    reveal(Seq::filter);
    if s.len() == 1 {
        assert(s.drop_first() =~= Seq::empty());
        assert(s.drop_last() =~= Seq::empty());
        assert(s.filter(p) =~= (if p(s[0]) {
            seq![s[0]]
        } else {
            Seq::empty()
        }) + s.drop_first().filter(p));
    } else {
        lemma_filter_first(s.drop_last(), p);
        assert(s.drop_last().drop_first() =~= s.drop_first().drop_last());
        assert(s.filter(p) =~= (if p(s[0]) {
            seq![s[0]]
        } else {
            Seq::empty()
        }) + s.drop_first().filter(p));
    }
}

/// No key is given out twice, whatever registries the keys are for: each is greater than
/// all that came before it.
pub proof fn law_keys_are_never_repeated(s: KeySource, n: nat)
    requires
        s.last + n <= u64::MAX,
    ensures
        taken(s, n).0.last == s.last + n,
        taken(s, n).1.len() == n,
        forall|i: int| 0 <= i < n ==> #[trigger] taken(s, n).1[i] > s.last,
        forall|i: int, j: int|
            0 <= i < j < n ==> #[trigger] taken(s, n).1[i] < #[trigger] taken(s, n).1[j],
    decreases n,
{
    if n > 0 {
        law_keys_are_never_repeated(s, (n - 1) as nat);
        let keys = taken(s, (n - 1) as nat).1;
        assert forall|i: int| 0 <= i < n - 1 implies keys[i] <= s.last + n - 1 by {
            lemma_taken(s, (n - 1) as nat, i);
        }
    }
}

/// Key `i` of those taken is the one after the `i` keys before it.
proof fn lemma_taken(s: KeySource, n: nat, i: int)
    requires
        s.last + n <= u64::MAX,
        0 <= i < n,
    ensures
        taken(s, n).0.last == s.last + n,
        taken(s, n).1.len() == n,
        taken(s, n).1[i] == s.last + i + 1,
    decreases n,
{
    if n == 1 {
        assert(taken(s, 0) == (s, Seq::<u64>::empty()));
    } else {
        lemma_taken(s, (n - 1) as nat, 0);
        if i < n - 1 {
            lemma_taken(s, (n - 1) as nat, i);
        }
    }
}

/// The next key names no entry of any registry whose keys came from the same source, and
/// the keys of all of them, and of one that takes an entry with the new key in, come from
/// it still.
pub proof fn law_a_new_key_names_no_entry<H>(
    registries: Seq<Seq<LiveSubagent<H>>>,
    s: KeySource,
    entry: LiveSubagent<H>,
)
    requires
        s.last < u64::MAX,
        forall|k: int| 0 <= k < registries.len() ==> issued(#[trigger] registries[k], s),
        entry.key == after(s).last,
    ensures
        forall|k: int|
            0 <= k < registries.len() ==> position(#[trigger] registries[k], after(s).last) is None
                && issued(registries[k], after(s)) && issued(
                registries[k].push(entry),
                after(s),
            ),
{
    assert forall|k: int| 0 <= k < registries.len() implies position(
        #[trigger] registries[k],
        after(s).last,
    ) is None && issued(registries[k], after(s)) && issued(
        registries[k].push(entry),
        after(s),
    ) by {
        lemma_position(registries[k], after(s).last);
    }
}

/// Pruning takes away exactly the entries that may be dropped, so one that runs, is
/// owed or is pinned is kept; and pruning again changes nothing.
pub proof fn law_prune_keeps_what_is_needed<H>(list: Seq<LiveSubagent<H>>)
    ensures
        forall|e: LiveSubagent<H>| #[trigger]
            kept(list).contains(e) <==> list.contains(e) && !e.is_disposable(),
        kept(kept(list)) == kept(list),
{
    let p = |e: LiveSubagent<H>| !e.is_disposable();
    assert forall|e: LiveSubagent<H>| #[trigger] kept(list).contains(e) <==> list.contains(e)
        && !e.is_disposable() by {
        if kept(list).contains(e) {
            list.lemma_filter_contains_rev(p, e);
            let i = choose|i: int| 0 <= i < kept(list).len() && kept(list)[i] == e;
            list.lemma_filter_pred(p, i);
        }
        if list.contains(e) && !e.is_disposable() {
            let i = choose|i: int| 0 <= i < list.len() && list[i] == e;
            list.lemma_filter_contains(p, i);
        }
    }
    assert forall|i: int| 0 <= i < kept(list).len() implies p(#[trigger] kept(list)[i]) by {
        list.lemma_filter_pred(p, i);
    }
    lemma_filter_all(kept(list), p);
}

/// Filtering takes nothing away where every element passes.
pub proof fn lemma_filter_all<A>(s: Seq<A>, p: spec_fn(A) -> bool)
    requires
        forall|i: int| 0 <= i < s.len() ==> p(#[trigger] s[i]),
    ensures
        s.filter(p) == s,
    decreases s.len(),
{
    reveal(Seq::filter);
    if s.len() > 0 {
        let d = s.drop_last();
        assert forall|i: int| 0 <= i < d.len() implies p(#[trigger] d[i]) by {
            assert(d[i] == s[i]);
        }
        lemma_filter_all(d, p);
        assert(p(s[s.len() - 1]));
        assert(d.push(s.last()) =~= s);
    } else {
        assert(s.filter(p) =~= s);
    }
}

/// A key finds the first entry that has it, and none where no entry does.
pub proof fn law_a_key_finds_its_entry<H>(list: Seq<LiveSubagent<H>>, key: u64, i: int)
    ensures
        match position(list, key) {
            Some(p) => 0 <= p < list.len() && list[p].key == key && forall|k: int|
                0 <= k < p ==> (#[trigger] list[k]).key != key,
            None => forall|k: int| 0 <= k < list.len() ==> (#[trigger] list[k]).key != key,
        },
        0 <= i < list.len() && list[i].key == key ==> position(list, key) is Some,
    decreases list.len(),
{
    if list.len() > 0 {
        law_a_key_finds_its_entry(list.drop_last(), key, i);
        let rest = list.drop_last();
        if position(rest, key) is None {
            assert forall|k: int| 0 <= k < list.len() - 1 implies (#[trigger] list[k]).key != key by {
                assert(rest[k] == list[k]);
            }
        } else {
            let p = position(rest, key)->0;
            assert forall|k: int| 0 <= k < p implies (#[trigger] list[k]).key != key by {
                assert(rest[k] == list[k]);
            }
        }
    }
}

/// An entry may go once it has run, is over and was delivered, and nobody holds it.
pub proof fn law_what_may_go<H>(list: Seq<LiveSubagent<H>>, e: LiveSubagent<H>)
    requires
        list.contains(e),
    ensures
        e.running || !e.done || !e.delivered || e.pinned ==> kept(list).contains(e),
        !e.running && e.done && e.delivered && !e.pinned ==> !kept(list).contains(e),
{
    let p = |x: LiveSubagent<H>| !x.is_disposable();
    let i = choose|i: int| 0 <= i < list.len() && list[i] == e;
    if p(e) {
        list.lemma_filter_contains(p, i);
    } else if kept(list).contains(e) {
        let k = choose|k: int| 0 <= k < kept(list).len() && kept(list)[k] == e;
        list.lemma_filter_pred(p, k);
    }
}

} // verus!
