//! The order of completions: by how well they match, then by length, then by name, and
//! otherwise in the order that they were given in.
use crate::text::chars_of;
use vstd::prelude::*;

verus! {

/// What a match is ordered by.
#[derive(Debug, Clone, PartialEq, Eq)]
pub struct Key<S = String> {
    /// How well it matches; less is better.
    pub rank: u8,
    pub len: usize,
    pub name: S,
}

impl View for Key<String> {
    type V = Key<Seq<char>>;

    open spec fn view(&self) -> Key<Seq<char>> {
        Key { rank: self.rank, len: self.len, name: self.name@ }
    }
}

/// The views of a list of keys; a row that does not match has none.
pub open spec fn keys(v: Seq<Option<Key>>) -> Seq<Option<Key<Seq<char>>>> {
    Seq::new(
        v.len(),
        |i: int|
            match v[i] {
                Some(k) => Some(k@),
                None => None,
            },
    )
}

/// Whether `a` stands before `b` in the order of code points.
pub open spec fn text_less(a: Seq<char>, b: Seq<char>) -> bool
    decreases a.len(),
{
    if b.len() == 0 {
        false
    } else if a.len() == 0 {
        true
    } else if a[0] != b[0] {
        (a[0] as int) < (b[0] as int)
    } else {
        text_less(a.drop_first(), b.drop_first())
    }
}

/// Whether a match with key `a` stands before one with key `b`.
pub open spec fn less(a: Key<Seq<char>>, b: Key<Seq<char>>) -> bool {
    ||| a.rank < b.rank
    ||| a.rank == b.rank && a.len < b.len
    ||| a.rank == b.rank && a.len == b.len && text_less(a.name, b.name)
}

/// The key of row `i`.
pub open spec fn key_of(ks: Seq<Option<Key<Seq<char>>>>, i: int) -> Key<Seq<char>> {
    ks[i]->0
}

/// Put row `i` into an ordered list of rows: behind all that it does not stand before.
pub open spec fn inserted(ks: Seq<Option<Key<Seq<char>>>>, s: Seq<int>, i: int) -> Seq<int>
    decreases s.len(),
{
    if s.len() > 0 && less(key_of(ks, i), key_of(ks, s.last())) {
        inserted(ks, s.drop_last(), i).push(s.last())
    } else {
        s.push(i)
    }
}

/// The rows among the first `n` that match, in order.
pub open spec fn ordered(ks: Seq<Option<Key<Seq<char>>>>, n: int) -> Seq<int>
    decreases n,
{
    if n <= 0 {
        Seq::empty()
    } else if ks[n - 1] is Some {
        inserted(ks, ordered(ks, n - 1), n - 1)
    } else {
        ordered(ks, n - 1)
    }
}

/// All rows that match, in order.
pub open spec fn order(ks: Seq<Option<Key<Seq<char>>>>) -> Seq<int> {
    ordered(ks, ks.len() as int)
}

/// Row numbers as whole numbers.
pub open spec fn rows(v: Seq<usize>) -> Seq<int> {
    Seq::new(v.len(), |i: int| v[i] as int)
}

fn code_point(c: char) -> (r: u32)
    ensures
        r == c as int,
{
    c as u32
}

fn str_less(a: &str, b: &str) -> (r: bool)
    ensures
        r == text_less(a@, b@),
{
    let x = chars_of(a);
    let y = chars_of(b);
    let mut i: usize = 0;
    assert(x@.skip(0) =~= x@);
    assert(y@.skip(0) =~= y@);
    while i < x.len() && i < y.len() && x[i] == y[i]
        invariant
            i <= x@.len(),
            i <= y@.len(),
            text_less(x@, y@) == text_less(x@.skip(i as int), y@.skip(i as int)),
        decreases x@.len() - i,
    {
        assert(x@.skip(i as int).drop_first() =~= x@.skip(i + 1));
        assert(y@.skip(i as int).drop_first() =~= y@.skip(i + 1));
        i = i + 1;
    }
    if i == y.len() {
        false
    } else if i == x.len() {
        true
    } else {
        code_point(x[i]) < code_point(y[i])
    }
}

fn key_less(a: &Key, b: &Key) -> (r: bool)
    ensures
        r == less(a@, b@),
{
    a.rank < b.rank || (a.rank == b.rank && (a.len < b.len || (a.len == b.len && str_less(
        a.name.as_str(),
        b.name.as_str(),
    ))))
}

fn stands_before(ks: &Vec<Option<Key>>, i: usize, j: usize) -> (r: bool)
    requires
        i < ks@.len(),
        j < ks@.len(),
        ks@[i as int] is Some,
        ks@[j as int] is Some,
    ensures
        r == less(key_of(keys(ks@), i as int), key_of(keys(ks@), j as int)),
{
    match (&ks[i], &ks[j]) {
        (Some(a), Some(b)) => key_less(a, b),
        _ => false,
    }
}

/// The rows that match, in order.
pub fn order_rows(ks: &Vec<Option<Key>>) -> (r: Vec<usize>)
    ensures
        rows(r@) == order(keys(ks@)),
        forall|p: int| 0 <= p < r@.len() ==> (#[trigger] r@[p]) < ks@.len() && ks@[r@[p] as int] is Some,
{
    let ghost all = keys(ks@);
    let mut out: Vec<usize> = Vec::new();
    assert(rows(out@) =~= Seq::empty());
    for i in 0..ks.len()
        invariant
            all == keys(ks@),
            rows(out@) == ordered(all, i as int),
            forall|p: int|
                0 <= p < out@.len() ==> (#[trigger] out@[p]) < i && ks@[out@[p] as int] is Some,
    {
        assert(all[i as int] is Some <==> ks@[i as int] is Some);
        if ks[i].is_some() {
            let ghost s = rows(out@);
            let mut p: usize = out.len();
            assert(s.take(p as int) =~= s);
            assert(inserted(all, s, i as int) =~= inserted(all, s.take(p as int), i as int) + s.skip(
                p as int,
            ));
            while p > 0 && stands_before(ks, i, out[p - 1])
                invariant
                    i < ks@.len(),
                    ks@[i as int] is Some,
                    all == keys(ks@),
                    s == rows(out@),
                    p <= out@.len(),
                    forall|q: int|
                        0 <= q < out@.len() ==> (#[trigger] out@[q]) < i && ks@[out@[q] as int] is Some,
                    inserted(all, s, i as int) == inserted(all, s.take(p as int), i as int)
                        + s.skip(p as int),
                decreases p,
            {
                proof {
                    let t = s.take(p as int);
                    assert(t.last() == s[p - 1]);
                    assert(t.drop_last() =~= s.take(p - 1));
                    assert(inserted(all, t.drop_last(), i as int).push(t.last()) + s.skip(p as int)
                        =~= inserted(all, s.take(p - 1), i as int) + s.skip(p - 1));
                }
                p = p - 1;
            }
            proof {
                let t = s.take(p as int);
                if p > 0 {
                    assert(t.last() == s[p - 1]);
                }
                assert(inserted(all, t, i as int) == t.push(i as int));
            }
            out.insert(p, i);
            assert(rows(out@) =~= s.take(p as int).push(i as int) + s.skip(p as int));
        }
    }
    out
}

// ---------------------------------------------------------------------------
// Laws
// ---------------------------------------------------------------------------

proof fn lemma_text_less_transitive(a: Seq<char>, b: Seq<char>, c: Seq<char>)
    ensures
        text_less(a, b) && text_less(b, c) ==> text_less(a, c),
        text_less(a, b) && !text_less(c, b) ==> text_less(a, c),
        !text_less(b, a) && text_less(b, c) ==> text_less(a, c),
        !text_less(b, a) && !text_less(c, b) ==> !text_less(c, a),
        !(text_less(a, b) && text_less(b, a)),
    decreases a.len() + b.len() + c.len(),
{
    if a.len() > 0 && b.len() > 0 && c.len() > 0 {
        lemma_text_less_transitive(a.drop_first(), b.drop_first(), c.drop_first());
    } else if a.len() > 0 && b.len() > 0 {
        lemma_text_less_transitive(a.drop_first(), b.drop_first(), c);
    }
}

proof fn lemma_less_transitive(a: Key<Seq<char>>, b: Key<Seq<char>>, c: Key<Seq<char>>)
    ensures
        less(a, b) && less(b, c) ==> less(a, c),
        less(a, b) && !less(c, b) ==> less(a, c),
        !less(b, a) && !less(c, b) ==> !less(c, a),
        !(less(a, b) && less(b, a)),
{
    lemma_text_less_transitive(a.name, b.name, c.name);
}

/// Whether the rows stand in order: none before one that it should stand behind, and
/// rows with equal keys as they were given.
pub open spec fn in_order(ks: Seq<Option<Key<Seq<char>>>>, s: Seq<int>) -> bool {
    forall|p: int, q: int|
        0 <= p < q < s.len() ==> {
            &&& !less(key_of(ks, #[trigger] s[q]), key_of(ks, #[trigger] s[p]))
            &&& less(key_of(ks, s[p]), key_of(ks, s[q])) || s[p] < s[q]
        }
}

proof fn lemma_inserted(ks: Seq<Option<Key<Seq<char>>>>, s: Seq<int>, i: int)
    requires
        in_order(ks, s),
        forall|p: int| 0 <= p < s.len() ==> #[trigger] s[p] < i,
    ensures
        in_order(ks, inserted(ks, s, i)),
        inserted(ks, s, i).len() == s.len() + 1,
        forall|x: int| #[trigger] inserted(ks, s, i).contains(x) <==> s.contains(x) || x == i,
    decreases s.len(),
{
    let out = inserted(ks, s, i);
    if s.len() > 0 && less(key_of(ks, i), key_of(ks, s.last())) {
        let front = s.drop_last();
        assert forall|p: int| 0 <= p < front.len() implies #[trigger] front[p] < i by {
            assert(s[p] == front[p]);
        }
        assert(in_order(ks, front)) by {
            assert forall|p: int, q: int| 0 <= p < q < front.len() implies {
                &&& !less(key_of(ks, #[trigger] front[q]), key_of(ks, #[trigger] front[p]))
                &&& less(key_of(ks, front[p]), key_of(ks, front[q])) || front[p] < front[q]
            } by {
                assert(s[p] == front[p] && s[q] == front[q]);
            }
        }
        lemma_inserted(ks, front, i);
        let inner = inserted(ks, front, i);
        assert forall|p: int, q: int| 0 <= p < q < out.len() implies {
            &&& !less(key_of(ks, #[trigger] out[q]), key_of(ks, #[trigger] out[p]))
            &&& less(key_of(ks, out[p]), key_of(ks, out[q])) || out[p] < out[q]
        } by {
            assert(out[p] == inner[p]);
            if q < inner.len() {
                assert(out[q] == inner[q]);
            } else {
                assert(out[q] == s.last());
                assert(inner.contains(inner[p]));
                if inner[p] == i {
                    lemma_less_transitive(key_of(ks, i), key_of(ks, s.last()), key_of(ks, i));
                } else {
                    assert(front.contains(inner[p]));
                    let k = choose|k: int| 0 <= k < front.len() && front[k] == inner[p];
                    assert(s[k] == inner[p] && s[s.len() - 1] == s.last());
                }
            }
        }
        assert forall|x: int| #[trigger] out.contains(x) <==> s.contains(x) || x == i by {
            if out.contains(x) {
                let k = choose|k: int| 0 <= k < out.len() && out[k] == x;
                if k < inner.len() {
                    assert(inner[k] == x);
                    assert(inner.contains(x));
                    if x != i {
                        let m = choose|m: int| 0 <= m < front.len() && front[m] == x;
                        assert(s[m] == x);
                    }
                } else {
                    assert(s[s.len() - 1] == x);
                }
            }
            if s.contains(x) || x == i {
                if x == s.last() {
                    assert(out[inner.len() as int] == x);
                } else {
                    if s.contains(x) {
                        let m = choose|m: int| 0 <= m < s.len() && s[m] == x;
                        assert(front[m] == x);
                    }
                    assert(inner.contains(x));
                    let k = choose|k: int| 0 <= k < inner.len() && inner[k] == x;
                    assert(out[k] == x);
                }
            }
        }
    } else {
        assert forall|p: int, q: int| 0 <= p < q < out.len() implies {
            &&& !less(key_of(ks, #[trigger] out[q]), key_of(ks, #[trigger] out[p]))
            &&& less(key_of(ks, out[p]), key_of(ks, out[q])) || out[p] < out[q]
        } by {
            assert(out[p] == s[p]);
            if q < s.len() {
                assert(out[q] == s[q]);
            } else {
                let last = s.last();
                assert(s[s.len() - 1] == last);
                if p < s.len() - 1 {
                    lemma_less_transitive(key_of(ks, s[p]), key_of(ks, last), key_of(ks, i));
                }
            }
        }
        assert forall|x: int| #[trigger] out.contains(x) <==> s.contains(x) || x == i by {
            if out.contains(x) {
                let k = choose|k: int| 0 <= k < out.len() && out[k] == x;
                if k < s.len() {
                    assert(s[k] == x);
                }
            }
            if s.contains(x) {
                let k = choose|k: int| 0 <= k < s.len() && s[k] == x;
                assert(out[k] == x);
            }
            assert(out[s.len() as int] == i);
        }
    }
}

proof fn lemma_ordered(ks: Seq<Option<Key<Seq<char>>>>, n: int)
    requires
        0 <= n <= ks.len(),
    ensures
        in_order(ks, ordered(ks, n)),
        forall|x: int| #[trigger] ordered(ks, n).contains(x) <==> 0 <= x < n && ks[x] is Some,
    decreases n,
{
    if n > 0 {
        lemma_ordered(ks, n - 1);
        let s = ordered(ks, n - 1);
        assert forall|p: int| 0 <= p < s.len() implies #[trigger] s[p] < n - 1 by {
            assert(s.contains(s[p]));
        }
        lemma_inserted(ks, s, n - 1);
    }
}

/// Every row that matches is listed, no other is, and they stand in order.
pub proof fn law_matches_are_listed_in_order(ks: Seq<Option<Key<Seq<char>>>>)
    ensures
        in_order(ks, order(ks)),
        forall|i: int| #[trigger] order(ks).contains(i) <==> 0 <= i < ks.len() && ks[i] is Some,
{
    lemma_ordered(ks, ks.len() as int);
}

/// No row stands twice in an ordered list.
pub proof fn lemma_in_order_distinct(ks: Seq<Option<Key<Seq<char>>>>, s: Seq<int>)
    requires
        in_order(ks, s),
    ensures
        s.no_duplicates(),
{
}

/// One text stands before another exactly where it is a beginning of it, or where the
/// first character in which they differ has the smaller code point.
pub proof fn law_text_order_is_by_the_first_difference(a: Seq<char>, b: Seq<char>)
    ensures
        text_less(a, b) <==> exists|k: int|
            #![trigger a.take(k)]
            0 <= k <= a.len() && k < b.len() && a.take(k) == b.take(k) && (k == a.len() || (
            a[k] as int) < (b[k] as int)),
    decreases a.len(),
{
    if text_less(a, b) {
        lemma_difference(a, b);
    }
    if exists|k: int|
        #![trigger a.take(k)]
        0 <= k <= a.len() && k < b.len() && a.take(k) == b.take(k) && (k == a.len() || (a[k] as int)
            < (b[k] as int)) {
        let k = choose|k: int|
            #![trigger a.take(k)]
            0 <= k <= a.len() && k < b.len() && a.take(k) == b.take(k) && (k == a.len() || (
            a[k] as int) < (b[k] as int));
        lemma_differs_at(a, b, k);
    }
}

proof fn lemma_differs_at(a: Seq<char>, b: Seq<char>, k: int)
    requires
        0 <= k <= a.len(),
        k < b.len(),
        a.take(k) == b.take(k),
        k == a.len() || (a[k] as int) < (b[k] as int),
    ensures
        text_less(a, b),
    decreases a.len(),
{
    if k > 0 {
        assert(a.take(k)[0] == a[0] && b.take(k)[0] == b[0]);
        assert(a.drop_first().take(k - 1) =~= a.take(k).drop_first());
        assert(b.drop_first().take(k - 1) =~= b.take(k).drop_first());
        lemma_differs_at(a.drop_first(), b.drop_first(), k - 1);
    }
}

proof fn lemma_difference(a: Seq<char>, b: Seq<char>)
    requires
        text_less(a, b),
    ensures
        exists|k: int|
            #![trigger a.take(k)]
            0 <= k <= a.len() && k < b.len() && a.take(k) == b.take(k) && (k == a.len() || (
            a[k] as int) < (b[k] as int)),
    decreases a.len(),
{
    if a.len() == 0 || a[0] != b[0] {
        assert(a.take(0) =~= b.take(0));
    } else {
        lemma_difference(a.drop_first(), b.drop_first());
        let c = a.drop_first();
        let d = b.drop_first();
        let k = choose|k: int|
            #![trigger c.take(k)]
            0 <= k <= c.len() && k < d.len() && c.take(k) == d.take(k) && (k == c.len() || (
            c[k] as int) < (d[k] as int));
        assert forall|j: int| 0 <= j < k + 1 implies #[trigger] a.take(k + 1)[j] == b.take(k + 1)[j] by {
            if j > 0 {
                assert(c.take(k)[j - 1] == d.take(k)[j - 1]);
            }
        }
        assert(a.take(k + 1) =~= b.take(k + 1));
    }
}

} // verus!
