//! Random service identifiers, drawn with `rand`.

use rand::Rng;
use vstd::prelude::*;

verus! {

/// An ASCII letter or digit.
pub open spec fn is_alphanumeric(c: char) -> bool {
    ('a' <= c && c <= 'z') || ('A' <= c && c <= 'Z') || ('0' <= c && c <= '9')
}

/// A string of `len` ASCII letters and digits.
pub open spec fn is_token(s: Seq<char>, len: nat) -> bool {
    s.len() == len && forall|i: int| 0 <= i < s.len() ==> is_alphanumeric(#[trigger] s[i])
}

/// Draws `len` characters from `rand::distr::Alphanumeric` with the thread's
/// generator (`rand::rng`). Trusted: the length, and that every character is
/// an ASCII letter or digit. Which ones is not determined. The generator
/// gives up, and the program with it, if the operating system has no seed
/// for it.
#[verifier::external_body]
pub fn generate_random_string(len: usize) -> (out: String)
    ensures
        is_token(out@, len as nat),
{
    rand::rng().sample_iter(&rand::distr::Alphanumeric).take(len).map(char::from).collect()
}

} // verus!
