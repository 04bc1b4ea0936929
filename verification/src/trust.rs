//! Which directories the user has vouched for: one to a line of a file, each for itself
//! alone.
use crate::text;
use crate::text::{cat, str_eq, str_lines, str_trim};
use vstd::prelude::*;

verus! {

/// The name of the file that keeps them.
pub const TRUSTED_DIRS_FILE: &'static str = "trusted-dirs";

/// What the user answers about a directory.
#[derive(Debug, Clone, Copy, PartialEq, Eq, Structural)]
pub enum TrustChoice {
    /// Its instructions are read and its tools run.
    Trusted,
    /// It is read, and nothing in it runs. This is not kept.
    Untrusted,
    /// It is not opened.
    Cancel,
}

/// Whether a line of the file names `dir`.
pub open spec fn names(line: Seq<char>, dir: Seq<char>) -> bool {
    text::trim(line).len() > 0 && text::trim(line) == dir
}

/// Whether a file of this text names `dir`.
pub open spec fn trusts(store: Seq<char>, dir: Seq<char>) -> bool {
    exists|i: int| 0 <= i < text::lines(store).len() && #[trigger] names(text::lines(store)[i], dir)
}

/// The view of a file that may not be there.
pub open spec fn store_view(store: Option<&str>) -> Seq<char> {
    match store {
        Some(s) => s@,
        None => Seq::empty(),
    }
}

/// Whether the user has vouched for exactly this directory. Vouching for a directory says
/// nothing of those in it. A file that is not there vouches for none.
pub fn is_trusted(store: Option<&str>, dir: &str) -> (r: bool)
    ensures
        r == (store is Some && trusts(store_view(store), dir@)),
{
    let lines = match store {
        Some(s) => str_lines(s),
        None => {
            return false;
        },
    };
    let ghost all = text::lines(store_view(store));
    for i in 0..lines.len()
        invariant
            all == text::views(lines@),
            forall|j: int| 0 <= j < i ==> !names(#[trigger] all[j], dir@),
            all == text::lines(store_view(store)),
            store is Some,
    {
        let line = str_trim(lines[i].as_str());
        assert(all[i as int] == lines@[i as int]@);
        if !line.as_str().is_empty() && str_eq(line.as_str(), dir) {
            assert(names(text::lines(store_view(store))[i as int], dir@));
            return true;
        }
    }
    false
}

/// What to append to the file for it to name `dir`; nothing where it does.
pub fn trust(store: Option<&str>, dir: &str) -> (r: Option<String>)
    ensures
        match r {
            Some(line) => !(store is Some && trusts(store_view(store), dir@)) && line@ == dir@
                + "\n"@,
            None => store is Some && trusts(store_view(store), dir@),
        },
{
    if is_trusted(store, dir) {
        None
    } else {
        Some(cat(dir, "\n"))
    }
}

/// A name that a line of the file can hold.
pub open spec fn storable(dir: Seq<char>) -> bool {
    dir.len() > 0 && !dir.contains('\n') && text::trim(dir) == dir
}

proof fn lemma_lines_append(store: Seq<char>, dir: Seq<char>)
    requires
        storable(dir),
        store.len() == 0 || store.last() == '\n',
    ensures
        text::lines(store + dir.push('\n')) == text::lines(store).push(dir),
{
    let whole = store + dir.push('\n');
    text::lemma_split_one(dir, '\n');
    text::lemma_split_one(Seq::<char>::empty(), '\n');
    text::lemma_split_at(dir, Seq::empty(), '\n');
    assert(dir.push('\n') + Seq::<char>::empty() =~= dir.push('\n'));
    let tail = text::split_on(dir.push('\n'), '\n');
    assert(tail =~= seq![dir, Seq::empty()]);
    assert(text::strip_cr(dir) == dir) by {
        lemma_trimmed_end(dir);
    }
    if store.len() == 0 {
        assert(whole =~= dir.push('\n'));
        assert(text::lines(store) =~= Seq::empty());
        assert(text::lines(whole) =~= seq![dir]);
        assert(Seq::empty().push(dir) =~= seq![dir]);
    } else {
        let body = store.drop_last();
        assert(store =~= body.push('\n') + Seq::<char>::empty());
        assert(whole =~= body.push('\n') + dir.push('\n'));
        text::lemma_split_at(body, Seq::empty(), '\n');
        text::lemma_split_at(body, dir.push('\n'), '\n');
        let head = text::split_on(body, '\n');
        let before = text::split_on(store, '\n');
        let after = text::split_on(whole, '\n');
        assert(before =~= head.push(Seq::empty()));
        assert(after =~= head.push(dir).push(Seq::empty()));
        assert(text::lines(whole) =~= text::lines(store).push(dir));
    }
}

/// Trimmed text ends in no white space.
proof fn lemma_trimmed_end(s: Seq<char>)
    requires
        text::trim(s) == s,
        s.len() > 0,
    ensures
        !text::is_white(s.last()),
{
    text::lemma_trim_end(text::trim_start(s));
}

/// A directory that was vouched for stays so, and no other directory is by it: not those
/// in it, and not those that it is in.
pub proof fn law_trust_is_for_one_directory(store: Seq<char>, dir: Seq<char>, other: Seq<char>)
    requires
        storable(dir),
        store.len() == 0 || store.last() == '\n',
    ensures
        trusts(store + dir.push('\n'), dir),
        other != dir ==> trusts(store + dir.push('\n'), other) == trusts(store, other),
{
    lemma_lines_append(store, dir);
    let before = text::lines(store);
    let after = text::lines(store + dir.push('\n'));
    assert(after[before.len() as int] == dir);
    assert(names(after[before.len() as int], dir));
    if other != dir {
        if trusts(store, other) {
            let i = choose|i: int| 0 <= i < before.len() && #[trigger] names(before[i], other);
            assert(after[i] == before[i]);
            assert(names(after[i], other));
        }
        if trusts(store + dir.push('\n'), other) {
            let i = choose|i: int| 0 <= i < after.len() && #[trigger] names(after[i], other);
            assert(i < before.len());
            assert(names(before[i], other));
        }
    }
}

/// An empty file vouches for none.
pub proof fn law_an_empty_store_trusts_nothing(dir: Seq<char>)
    ensures
        !trusts(Seq::empty(), dir),
{
    text::lemma_split_one(Seq::<char>::empty(), '\n');
    assert(text::lines(Seq::empty()) =~= Seq::empty());
}

} // verus!
