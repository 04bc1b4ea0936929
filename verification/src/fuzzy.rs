//! The filter of the pickers: rows that hold the characters of the query in order.
use crate::text;
use crate::text::{chars_of, str_trim};
use vstd::prelude::*;

verus! {

/// What `str::to_lowercase` makes of `s`.
pub uninterp spec fn unicode_lower(s: Seq<char>) -> Seq<char>;

/// `str::to_lowercase`: `s` with every letter brought to lower case by Unicode's rules.
/// The result depends on `s` alone.
#[verifier::external_body]
pub(crate) fn lowercase(s: &str) -> (r: String)
    ensures
        r@ == unicode_lower(s@),
{
    s.to_lowercase()
}

/// Whether `at` says where each character of `q` stands in `s`, one after the other.
pub open spec fn places(q: Seq<char>, s: Seq<char>, at: Seq<int>) -> bool {
    &&& at.len() == q.len()
    &&& forall|i: int| 0 <= i < at.len() ==> 0 <= #[trigger] at[i] < s.len() && s[at[i]] == q[i]
    &&& forall|i: int, j: int| 0 <= i < j < at.len() ==> #[trigger] at[i] < #[trigger] at[j]
}

/// Whether the characters of `q` stand in `s` in order, others between them or not.
pub open spec fn in_order(q: Seq<char>, s: Seq<char>) -> bool {
    exists|at: Seq<int>| places(q, s, at)
}

/// Looking for the characters of `q` in `s`, taking each where it first comes.
spec fn greedy(q: Seq<char>, s: Seq<char>) -> bool
    decreases s.len(),
{
    if q.len() == 0 {
        true
    } else if s.len() == 0 {
        false
    } else if q[0] == s[0] {
        greedy(q.drop_first(), s.drop_first())
    } else {
        greedy(q, s.drop_first())
    }
}

/// Taking each character where it first comes finds them all, if they are there.
proof fn lemma_greedy(q: Seq<char>, s: Seq<char>)
    ensures
        greedy(q, s) == in_order(q, s),
    decreases s.len(),
{
    if q.len() == 0 {
        assert(places(q, s, Seq::<int>::empty()));
    } else if s.len() == 0 {
        if in_order(q, s) {
            let at = choose|at: Seq<int>| places(q, s, at);
            assert(0 <= at[0] < s.len());
        }
    } else {
        let rest = s.drop_first();
        let (p, skipped) = if q[0] == s[0] {
            (q.drop_first(), 1int)
        } else {
            (q, 0int)
        };
        lemma_greedy(p, rest);
        if in_order(p, rest) {
            let at = choose|at: Seq<int>| places(p, rest, at);
            let moved = Seq::new(at.len(), |i: int| at[i] + 1);
            let whole = if skipped == 1 {
                seq![0int] + moved
            } else {
                moved
            };
            assert forall|i: int| 0 <= i < whole.len() implies 0 <= #[trigger] whole[i] < s.len()
                && s[whole[i]] == q[i] by {
                if i >= skipped {
                    assert(at[i - skipped] + 1 == whole[i]);
                    assert(rest[at[i - skipped]] == p[i - skipped]);
                }
            }
            assert forall|i: int, j: int| 0 <= i < j < whole.len() implies #[trigger] whole[i]
                < #[trigger] whole[j] by {
                assert(at[j - skipped] + 1 == whole[j]);
                if i >= skipped {
                    assert(at[i - skipped] + 1 == whole[i]);
                }
            }
            assert(places(q, s, whole));
        }
        if in_order(q, s) {
            let at = choose|at: Seq<int>| places(q, s, at);
            assert(s[at[0]] == q[0]);
            let moved = Seq::new((at.len() - skipped) as nat, |i: int| at[i + skipped] - 1);
            assert forall|i: int| 0 <= i < moved.len() implies 0 <= #[trigger] moved[i]
                < rest.len() && rest[moved[i]] == p[i] by {
                let k = at[i + skipped];
                assert(s[k] == q[i + skipped]);
                if i + skipped > 0 {
                    assert(at[0] < k);
                } else {
                    assert(k != 0);
                }
            }
            assert forall|i: int, j: int| 0 <= i < j < moved.len() implies #[trigger] moved[i]
                < #[trigger] moved[j] by {
                assert(at[i + skipped] < at[j + skipped]);
            }
            assert(places(p, rest, moved));
        }
    }
}

/// Whether the characters of `q` stand in `hay` in order.
pub fn fuzzy_match_hay(q: &Vec<char>, hay: &str) -> (r: bool)
    ensures
        r == in_order(q@, hay@),
{
    let v = chars_of(hay);
    let mut k: usize = 0;
    proof {
        lemma_greedy(q@, v@);
        assert(q@.skip(0) =~= q@);
        assert(v@.skip(0) =~= v@);
    }
    for i in 0..v.len()
        invariant
            k <= q@.len(),
            greedy(q@, v@) == greedy(q@.skip(k as int), v@.skip(i as int)),
    {
        assert(v@.skip(i as int).drop_first() =~= v@.skip(i + 1));
        if k < q.len() && q[k] == v[i] {
            assert(q@.skip(k as int).drop_first() =~= q@.skip(k + 1));
            k = k + 1;
        }
    }
    k == q.len()
}

/// The numbers of the rows that hold the characters of `q` in order; all of them where
/// `q` is empty.
pub open spec fn matching(hays: Seq<Seq<char>>, q: Seq<char>) -> Seq<usize> {
    Seq::new(hays.len(), |i: int| i as usize).filter(|i: usize| in_order(q, hays[i as int]))
}

/// The numbers of the rows that hold the characters of `q` in order.
pub fn filter_rows(hays: &Vec<String>, q: &Vec<char>) -> (r: Vec<usize>)
    ensures
        r@ == matching(text::views(hays@), q@),
{
    let ghost rows = text::views(hays@);
    let ghost numbers = Seq::new(rows.len(), |i: int| i as usize);
    let ghost keep = |i: usize| in_order(q@, rows[i as int]);
    let mut out: Vec<usize> = Vec::new();
    assert(numbers.take(0).filter(keep) =~= Seq::empty()) by {
        reveal(Seq::filter);
    }
    for i in 0..hays.len()
        invariant
            rows == text::views(hays@),
            numbers == Seq::new(rows.len(), |i: int| i as usize),
            keep == (|i: usize| in_order(q@, rows[i as int])),
            out@ == numbers.take(i as int).filter(keep),
    {
        proof {
            reveal(Seq::filter);
            assert(numbers.take(i + 1).drop_last() =~= numbers.take(i as int));
            assert(numbers.take(i + 1).last() == i);
            assert(rows[i as int] == hays@[i as int]@);
        }
        if fuzzy_match_hay(q, hays[i].as_str()) {
            out.push(i);
        }
    }
    assert(numbers.take(numbers.len() as int) =~= numbers);
    out
}

/// The numbers of the rows that match a query, whatever the case of its letters and the
/// white space around it. The rows are in lower case.
pub fn fuzzy_filter(hays: &Vec<String>, query: &str) -> (r: Vec<usize>)
    ensures
        r@ == (if text::trim(query@).len() == 0 {
            matching(text::views(hays@), Seq::empty())
        } else {
            matching(text::views(hays@), unicode_lower(text::trim(query@)))
        }),
{
    let trimmed = str_trim(query);
    if trimmed.as_str().is_empty() {
        let all: Vec<char> = Vec::new();
        assert(all@ =~= Seq::empty());
        return filter_rows(hays, &all);
    }
    let q = chars_of(lowercase(trimmed.as_str()).as_str());
    filter_rows(hays, &q)
}

/// An empty query matches every row, and a row that holds the query as it stands matches.
pub proof fn law_whole_text_matches(q: Seq<char>, before: Seq<char>, after: Seq<char>)
    ensures
        in_order(Seq::empty(), before),
        in_order(q, before + q + after),
{
    assert(places(Seq::empty(), before, Seq::<int>::empty()));
    let s = before + q + after;
    let at = Seq::new(q.len(), |i: int| before.len() + i);
    assert forall|i: int| 0 <= i < at.len() implies 0 <= #[trigger] at[i] < s.len() && s[at[i]]
        == q[i] by {
        assert(s[before.len() + i] == q[i]);
    }
    assert(places(q, s, at));
}

/// A row that matches still does when the end of the query is taken back, and a row that
/// does not match does not when more is typed.
pub proof fn law_typing_more_only_narrows(q: Seq<char>, more: char, s: Seq<char>)
    ensures
        in_order(q.push(more), s) ==> in_order(q, s),
        in_order(q, s) ==> in_order(q, s.push(more)) && in_order(q.push(more), s.push(more)),
{
    let long = q.push(more);
    if in_order(long, s) {
        let at = choose|at: Seq<int>| places(long, s, at);
        let shorter = at.drop_last();
        assert forall|i: int| 0 <= i < shorter.len() implies 0 <= #[trigger] shorter[i] < s.len()
            && s[shorter[i]] == q[i] by {
            assert(shorter[i] == at[i]);
            assert(long[i] == q[i]);
        }
        assert(places(q, s, shorter));
    }
    if in_order(q, s) {
        let at = choose|at: Seq<int>| places(q, s, at);
        let t = s.push(more);
        assert(places(q, t, at));
        let one = at.push(s.len() as int);
        assert forall|i: int| 0 <= i < one.len() implies 0 <= #[trigger] one[i] < t.len()
            && t[one[i]] == long[i] by {
            if i < at.len() {
                assert(one[i] == at[i]);
            }
        }
        assert(places(long, t, one));
    }
}

/// The rows that match are all given, in the order they stand in, and no other.
pub proof fn law_matching_rows_keep_their_order(hays: Seq<Seq<char>>, q: Seq<char>)
    requires
        hays.len() <= usize::MAX,
    ensures
        forall|i: int|
            0 <= i < hays.len() ==> (#[trigger] matching(hays, q).contains(i as usize) <==> in_order(
                q,
                hays[i],
            )),
        forall|a: int, b: int|
            0 <= a < b < matching(hays, q).len() ==> #[trigger] matching(hays, q)[a]
                < #[trigger] matching(hays, q)[b],
{
    let all = Seq::new(hays.len(), |i: int| i as usize);
    let p = |i: usize| in_order(q, hays[i as int]);
    assert forall|i: int| 0 <= i < hays.len() implies (#[trigger] matching(hays, q).contains(
        i as usize,
    ) <==> in_order(q, hays[i])) by {
        assert(all[i] == i as usize);
        if in_order(q, hays[i]) {
            all.lemma_filter_contains(p, i);
        }
        if matching(hays, q).contains(i as usize) {
            let k = choose|k: int| 0 <= k < matching(hays, q).len() && matching(hays, q)[k] == i as usize;
            all.lemma_filter_pred(p, k);
        }
    }
    lemma_filter_increasing(all, p);
}

proof fn lemma_filter_increasing(s: Seq<usize>, p: spec_fn(usize) -> bool)
    requires
        forall|a: int, b: int| 0 <= a < b < s.len() ==> s[a] < s[b],
    ensures
        forall|a: int, b: int|
            0 <= a < b < s.filter(p).len() ==> #[trigger] s.filter(p)[a] < #[trigger] s.filter(p)[b],
        forall|a: int|
            0 <= a < s.filter(p).len() ==> s.len() > 0 && #[trigger] s.filter(p)[a] <= s.last(),
    decreases s.len(),
{
    reveal(Seq::filter);
    if s.len() > 0 {
        let rest = s.drop_last();
        lemma_filter_increasing(rest, p);
        let kept = rest.filter(p);
        let last = s.last();
        assert(s.filter(p) == if p(last) {
            kept.push(last)
        } else {
            kept
        });
        assert forall|a: int| 0 <= a < kept.len() implies #[trigger] kept[a] < last by {
            assert(rest.last() == s[s.len() - 2]);
        }
    }
}

} // verus!
