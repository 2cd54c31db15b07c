//! The configuration of the container runtime: an INI file, read by the
//! `configparser` of the `ini` crate.

use crate::text::{first_index_of, lemma_first_index_is, lines_of, split_lines_chars, to_chars, views};
use vstd::prelude::*;

verus! {

/// The section of the configuration that holds the keys of the runtime.
pub const SECTION: &'static str = "waydroid";

/// Why a value of the configuration cannot be had.
#[derive(Clone, Copy, PartialEq, Eq, Debug, Structural)]
pub enum ConfigError {
    /// The text is no configuration.
    Malformed,
    /// The configuration lacks the key.
    MissingKey,
}

/// A character that starts a comment.
pub open spec fn is_comment_mark(c: char) -> bool {
    c == ';' || c == '#'
}

/// Where the comment of a line starts; the length of the line if it has
/// none.
pub open spec fn comment_start(line: Seq<char>) -> int
    decreases line.len(),
{
    if line.len() == 0 {
        0
    } else if is_comment_mark(line[0]) {
        0
    } else {
        1 + comment_start(line.drop_first())
    }
}

/// Index of the last occurrence of `x` in `s`, or `-1` if there is none.
pub open spec fn last_index_of(s: Seq<char>, x: char) -> int
    decreases s.len(),
{
    if s.len() == 0 {
        -1
    } else if s.last() == x {
        s.len() - 1
    } else {
        last_index_of(s.drop_last(), x)
    }
}

/// The brackets of a line are in order: of what stands before its comment,
/// the first `[` does not come after the last `]`. The parser cannot read a
/// line whose brackets are out of order.
pub open spec fn brackets_in_order(line: Seq<char>) -> bool {
    let body = line.subrange(0, comment_start(line));
    let open = first_index_of(body, '[');
    let close = last_index_of(body, ']');
    open >= body.len() || close < 0 || open < close
}

/// Every line of the text has its brackets in order.
pub open spec fn readable(text: Seq<char>) -> bool {
    forall|i: int|
        0 <= i < lines_of(text, '\n', '\r').len() ==> brackets_in_order(
            #[trigger] lines_of(text, '\n', '\r')[i],
        )
}

proof fn lemma_comment_start_is(line: Seq<char>, k: int)
    requires
        0 <= k <= line.len(),
        forall|j: int| 0 <= j < k ==> !is_comment_mark(line[j]),
        k < line.len() ==> is_comment_mark(line[k]),
    ensures
        comment_start(line) == k,
    decreases line.len(),
{
    if line.len() > 0 && k > 0 {
        let rest = line.drop_first();
        assert forall|j: int| 0 <= j < k - 1 implies !is_comment_mark(rest[j]) by {
            assert(rest[j] == line[j + 1]);
        }
        lemma_comment_start_is(rest, k - 1);
    }
}

proof fn lemma_last_index_is(s: Seq<char>, x: char, k: int)
    requires
        -1 <= k < s.len(),
        forall|j: int| k < j < s.len() ==> s[j] != x,
        k >= 0 ==> s[k] == x,
    ensures
        last_index_of(s, x) == k,
    decreases s.len(),
{
    if s.len() > 0 && k < s.len() - 1 {
        let front = s.drop_last();
        assert forall|j: int| k < j < front.len() implies front[j] != x by {
            assert(front[j] == s[j]);
        }
        lemma_last_index_is(front, x, k);
    }
}

fn line_brackets_in_order(line: &[char]) -> (r: bool)
    ensures
        r == brackets_in_order(line@),
{
    let n: usize = line.len();
    let mut end: usize = 0;
    while end < n && line[end] != ';' && line[end] != '#'
        invariant
            end <= n,
            n == line@.len(),
            forall|j: int| 0 <= j < end ==> !is_comment_mark(line@[j]),
        decreases n - end,
    {
        end += 1;
    }
    proof {
        lemma_comment_start_is(line@, end as int);
    }
    let ghost body = line@.subrange(0, end as int);
    let mut open: usize = 0;
    while open < end && line[open] != '['
        invariant
            open <= end <= n,
            n == line@.len(),
            forall|j: int| 0 <= j < open ==> line@[j] != '[',
        decreases end - open,
    {
        open += 1;
    }
    proof {
        assert forall|j: int| 0 <= j < open implies body[j] != '[' by {
            assert(body[j] == line@[j]);
        }
        if open < end {
            assert(body[open as int] == line@[open as int]);
        }
        lemma_first_index_is(body, '[', open as int);
    }
    let mut after: usize = end;
    while after > 0 && line[after - 1] != ']'
        invariant
            after <= end <= n,
            n == line@.len(),
            forall|j: int| after <= j < end ==> line@[j] != ']',
        decreases after,
    {
        after -= 1;
    }
    proof {
        assert forall|j: int| after - 1 < j < body.len() implies body[j] != ']' by {
            assert(body[j] == line@[j]);
        }
        if after > 0 {
            assert(body[after - 1] == line@[after - 1]);
        }
        lemma_last_index_is(body, ']', after - 1);
    }
    open >= end || after == 0 || open < after - 1
}

/// Whether the parser can read the text: every line has its brackets in
/// order.
pub fn is_readable(text: &str) -> (r: bool)
    ensures
        r == readable(text@),
{
    let chars = to_chars(text);
    let lines = split_lines_chars(chars.as_slice());
    let mut i: usize = 0;
    while i < lines.len()
        invariant
            i <= lines@.len(),
            views(lines@) == lines_of(text@, '\n', '\r'),
            forall|k: int| 0 <= k < i ==> brackets_in_order(#[trigger] views(lines@)[k]),
        decreases lines@.len() - i,
    {
        assert(views(lines@)[i as int] == lines@[i as int]@);
        if !line_brackets_in_order(lines[i].as_slice()) {
            return false;
        }
        i += 1;
    }
    true
}

/// What the parser finds in a configuration under a key of a section:
/// nothing at all if it cannot parse the text, else the value of the key if
/// the key is there and has one.
pub uninterp spec fn ini_lookup(text: Seq<char>, section: Seq<char>, key: Seq<char>) -> Option<
    Option<Seq<char>>,
>;

/// The view of what a lookup gives.
pub open spec fn lookup_view(r: Option<Option<String>>) -> Option<Option<Seq<char>>> {
    match r {
        None => None,
        Some(None) => Some(None),
        Some(Some(value)) => Some(Some(value@)),
    }
}

/// Calls `configparser::ini::Ini::read` on the text and then `get` with the
/// section and the key. Trusted: the result is what the parser finds. The
/// parser cannot read a line whose first `[` comes after its last `]`;
/// such texts are left out.
#[verifier::external_body]
fn ini_get(text: &str, section: &str, key: &str) -> (r: Option<Option<String>>)
    requires
        readable(text@),
    ensures
        lookup_view(r) == ini_lookup(text@, section@, key@),
{
    let mut conf = ini::configparser::ini::Ini::new();
    match conf.read(text.to_string()) {
        Ok(_) => Some(conf.get(section, key)),
        Err(_) => None,
    }
}

/// The value of a key, as a result.
pub open spec fn spec_config_value(text: Seq<char>, key: Seq<char>) -> Result<
    Seq<char>,
    ConfigError,
> {
    if !readable(text) {
        Err(ConfigError::Malformed)
    } else {
        match ini_lookup(text, SECTION@, key) {
            None => Err(ConfigError::Malformed),
            Some(None) => Err(ConfigError::MissingKey),
            Some(Some(value)) => Ok(value),
        }
    }
}

/// The view of a result that holds a value.
pub open spec fn value_view(r: Result<String, ConfigError>) -> Result<Seq<char>, ConfigError> {
    match r {
        Ok(value) => Ok(value@),
        Err(e) => Err(e),
    }
}

/// The value of a key of the runtime's section in the text of the
/// configuration.
pub fn config_value(text: &str, key: &str) -> (r: Result<String, ConfigError>)
    ensures
        value_view(r) == spec_config_value(text@, key@),
{
    if !is_readable(text) {
        return Err(ConfigError::Malformed);
    }
    match ini_get(text, SECTION, key) {
        None => Err(ConfigError::Malformed),
        Some(None) => Err(ConfigError::MissingKey),
        Some(Some(value)) => Ok(value),
    }
}

/// The directory of the images that the configuration names.
pub fn images_path(text: &str) -> (r: Result<String, ConfigError>)
    ensures
        value_view(r) == spec_config_value(text@, "images_path"@),
{
    config_value(text, "images_path")
}

} // verus!
