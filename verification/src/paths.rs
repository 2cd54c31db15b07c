//! Paths as text. A path is joined to a base as `std::path::Path::join` does
//! it on Unix.

use vstd::prelude::*;
use vstd::string::StringExecFns;
use vstd::string::StrSliceExecFns;

verus! {

/// `base`, ended by a separator unless it is empty or has one at its end.
pub open spec fn dir_prefix(base: Seq<char>) -> Seq<char> {
    if base.len() == 0 || base.last() == '/' {
        base
    } else {
        base.push('/')
    }
}

/// `rel` below `base`; an absolute `rel` stands for itself.
pub open spec fn join_path(base: Seq<char>, rel: Seq<char>) -> Seq<char> {
    if rel.len() > 0 && rel[0] == '/' {
        rel
    } else {
        dir_prefix(base) + rel
    }
}

/// `path` is `dir` or lies below it.
pub open spec fn under(path: Seq<char>, dir: Seq<char>) -> bool {
    path == dir || (dir_prefix(dir).len() <= path.len() && path.subrange(
        0,
        dir_prefix(dir).len() as int,
    ) == dir_prefix(dir))
}

/// `rel` below `base`.
pub fn join(base: &str, rel: &str) -> (out: String)
    ensures
        out@ == join_path(base@, rel@),
{
    let rel_len: usize = rel.unicode_len();
    if rel_len > 0 && rel.get_char(0) == '/' {
        return String::from_str(rel);
    }
    let mut out = String::from_str(base);
    let base_len: usize = base.unicode_len();
    if base_len > 0 && base.get_char(base_len - 1) != '/' {
        out.push('/');
    }
    out.append(rel);
    out
}

} // verus!
