//! Where the state of a user is kept while tests run.
use crate::text;
use crate::text::{cat, cat3, chars_of};
use vstd::prelude::*;

verus! {

/// The path of `name` in a directory.
pub open spec fn joined(dir: Seq<char>, name: Seq<char>) -> Seq<char> {
    if dir.len() == 0 || dir.last() == '/' {
        dir + name
    } else {
        dir + "/"@ + name
    }
}

fn join(dir: &str, name: &str) -> (r: String)
    ensures
        r@ == joined(dir@, name@),
{
    let v = chars_of(dir);
    if v.len() == 0 || v[v.len() - 1] == '/' {
        cat(dir, name)
    } else {
        cat3(dir, "/", name)
    }
}

/// Where data, configuration and caches are kept under a root of their own.
pub fn user_state_dirs(root: &str) -> (r: (String, String, String))
    ensures
        r.0@ == joined(root@, "data"@),
        r.1@ == joined(root@, "config"@),
        r.2@ == joined(root@, "cache"@),
{
    (join(root, "data"), join(root, "config"), join(root, "cache"))
}

/// Nothing is kept outside the root.
pub proof fn law_state_stays_under_its_root(root: Seq<char>, name: Seq<char>)
    ensures
        text::starts_with(joined(root, name), root),
{
    assert(joined(root, name).take(root.len() as int) =~= root);
}

} // verus!
