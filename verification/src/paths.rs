//! Slash-separated paths.

use vstd::prelude::*;
use vstd::string::*;

verus! {

/// `rel` below `base`: joined by one slash, or `rel` itself where it is absolute.
pub open spec fn joined(base: Seq<char>, rel: Seq<char>) -> Seq<char> {
    if rel.len() > 0 && rel[0] == '/' {
        rel
    } else if base.len() == 0 || base.last() == '/' {
        base + rel
    } else {
        base + "/"@ + rel
    }
}

/// Joins two paths.
pub fn join(base: &str, rel: &str) -> (r: String)
    ensures
        r@ == joined(base@, rel@),
{
    let n: usize = base.unicode_len();
    let m: usize = rel.unicode_len();
    if m > 0 && rel.get_char(0) == '/' {
        return rel.to_owned();
    }
    let mut r = base.to_owned();
    if n > 0 && base.get_char(n - 1) != '/' {
        r.append("/");
    }
    r.append(rel);
    r
}

/// A relative path is put behind the base with a slash between the two, an
/// absolute one stands for itself.
pub proof fn law_joined_paths(base: Seq<char>, rel: Seq<char>)
    ensures
        rel.len() > 0 && rel[0] == '/' ==> joined(base, rel) == rel,
        (rel.len() == 0 || rel[0] != '/') ==> {
            &&& base.is_prefix_of(joined(base, rel))
            &&& joined(base, rel).skip(joined(base, rel).len() - rel.len()) == rel
            &&& base.len() > 0 ==> joined(base, rel)[joined(base, rel).len() - rel.len() - 1]
                == '/'
            &&& joined(base, rel).len() == base.len() + rel.len() + (if base.len() == 0
                || base.last() == '/' {
                0int
            } else {
                1int
            })
        },
{
    reveal_strlit("/");
    if rel.len() == 0 || rel[0] != '/' {
        let j = joined(base, rel);
        assert(base =~= j.subrange(0, base.len() as int));
        assert(j.skip(j.len() - rel.len()) =~= rel);
    }
}

} // verus!
