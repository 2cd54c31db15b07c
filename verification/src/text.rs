//! Sequence and text primitives shared by the rest of the library: substring
//! search, splitting into lines and fields, trimming and joining, each with a
//! mathematical definition over `Seq` and an executable counterpart.

use vstd::prelude::*;

verus! {

pub assume_specification[ String::push ](s: &mut String, c: char)
    ensures
        final(s)@ == old(s)@.push(c),
;

/// `needle` occurs in `hay` starting at index `i`.
pub open spec fn matches_at<T>(hay: Seq<T>, needle: Seq<T>, i: int) -> bool {
    &&& 0 <= i
    &&& i + needle.len() <= hay.len()
    &&& hay.subrange(i, i + needle.len()) == needle
}

/// `needle` occurs somewhere in `hay` as a contiguous run.
pub open spec fn has_subseq<T>(hay: Seq<T>, needle: Seq<T>) -> bool {
    exists|i: int| matches_at(hay, needle, i)
}

/// `p` is a prefix of `s`.
pub open spec fn is_prefix<T>(p: Seq<T>, s: Seq<T>) -> bool {
    p.len() <= s.len() && s.subrange(0, p.len() as int) == p
}

/// `p` is a suffix of `s`.
pub open spec fn is_suffix<T>(p: Seq<T>, s: Seq<T>) -> bool {
    p.len() <= s.len() && s.subrange(s.len() - p.len(), s.len() as int) == p
}

/// Index of the first occurrence of `x` in `s`, or `s.len()` if there is none.
pub open spec fn first_index_of<T>(s: Seq<T>, x: T) -> int
    decreases s.len(),
{
    if s.len() == 0 {
        0
    } else if s[0] == x {
        0
    } else {
        1 + first_index_of(s.drop_first(), x)
    }
}

/// The pieces of `s` between occurrences of `sep`; always at least one piece.
pub open spec fn split_on<T>(s: Seq<T>, sep: T) -> Seq<Seq<T>>
    decreases s.len(),
{
    let i = first_index_of(s, sep);
    if 0 <= i < s.len() {
        seq![s.subrange(0, i)] + split_on(s.subrange(i + 1, s.len() as int), sep)
    } else {
        seq![s]
    }
}

/// The part of `s` after its last `sep`, or all of `s` if it holds none.
pub open spec fn after_last<T>(s: Seq<T>, sep: T) -> Seq<T>
    decreases s.len(),
{
    let i = first_index_of(s, sep);
    if 0 <= i < s.len() {
        after_last(s.subrange(i + 1, s.len() as int), sep)
    } else {
        s
    }
}

/// `line` without one trailing `cr`, if it ends in one.
pub open spec fn strip_cr<T>(line: Seq<T>, cr: T) -> Seq<T> {
    if line.len() > 0 && line.last() == cr {
        line.drop_last()
    } else {
        line
    }
}

/// The lines of `s`: runs ended by `nl`, each without its `nl` and without a
/// `cr` directly before it. A last run without `nl` is a line if it is not
/// empty, and keeps a trailing `cr`.
pub open spec fn lines_of<T>(s: Seq<T>, nl: T, cr: T) -> Seq<Seq<T>>
    decreases s.len(),
{
    if s.len() == 0 {
        Seq::empty()
    } else {
        let i = first_index_of(s, nl);
        if 0 <= i < s.len() {
            seq![strip_cr(s.subrange(0, i), cr)] + lines_of(
                s.subrange(i + 1, s.len() as int),
                nl,
                cr,
            )
        } else {
            seq![s]
        }
    }
}

/// The parts one after another with `sep` between neighbours.
pub open spec fn join_with<T>(parts: Seq<Seq<T>>, sep: Seq<T>) -> Seq<T>
    decreases parts.len(),
{
    if parts.len() == 0 {
        Seq::empty()
    } else if parts.len() == 1 {
        parts[0]
    } else {
        join_with(parts.drop_last(), sep) + sep + parts.last()
    }
}

pub proof fn lemma_first_index_bounds<T>(s: Seq<T>, x: T)
    ensures
        0 <= first_index_of(s, x) <= s.len(),
        first_index_of(s, x) < s.len() ==> s[first_index_of(s, x)] == x,
        forall|j: int| 0 <= j < first_index_of(s, x) ==> s[j] != x,
    decreases s.len(),
{
    if s.len() > 0 && s[0] != x {
        let t = s.drop_first();
        lemma_first_index_bounds(t, x);
        assert forall|j: int| 0 <= j < first_index_of(s, x) implies s[j] != x by {
            if j > 0 {
                assert(s[j] == t[j - 1]);
            }
        }
    }
}

/// The first `k` where `s[k] == x` and nothing before it equals `x` is the
/// first index of `x`.
pub proof fn lemma_first_index_is<T>(s: Seq<T>, x: T, k: int)
    requires
        0 <= k <= s.len(),
        forall|j: int| 0 <= j < k ==> s[j] != x,
        k < s.len() ==> s[k] == x,
    ensures
        first_index_of(s, x) == k,
{
    lemma_first_index_bounds(s, x);
    let f = first_index_of(s, x);
    if f < k {
        assert(s[f] == x);
    }
}

fn matches_at_chars(hay: &[char], needle: &[char], i: usize) -> (r: bool)
    requires
        i + needle@.len() <= hay@.len(),
    ensures
        r == matches_at(hay@, needle@, i as int),
{
    let hay_len: usize = hay.len();
    let mut j: usize = 0;
    while j < needle.len()
        invariant
            j <= needle@.len(),
            i + needle@.len() <= hay@.len(),
            hay@.len() == hay_len,
            forall|k: int| 0 <= k < j ==> hay@[i + k] == needle@[k],
        decreases needle@.len() - j,
    {
        if hay[i + j] != needle[j] {
            proof {
                let sub = hay@.subrange(i as int, i + needle@.len());
                assert(sub[j as int] == hay@[i + j]);
            }
            return false;
        }
        j += 1;
    }
    assert(hay@.subrange(i as int, i + needle@.len()) =~= needle@);
    true
}

/// Whether `needle` occurs in `hay`.
pub fn contains_chars(hay: &[char], needle: &[char]) -> (r: bool)
    ensures
        r == has_subseq(hay@, needle@),
{
    if needle.len() > hay.len() {
        return false;
    }
    let last: usize = hay.len() - needle.len();
    let mut i: usize = 0;
    loop
        invariant
            last + needle@.len() == hay@.len(),
            i <= last,
            forall|k: int| 0 <= k < i ==> !matches_at(hay@, needle@, k),
        decreases last - i,
    {
        if matches_at_chars(hay, needle, i) {
            return true;
        }
        if i == last {
            return false;
        }
        i += 1;
    }
}

fn matches_at_bytes(hay: &[u8], needle: &[u8], i: usize) -> (r: bool)
    requires
        i + needle@.len() <= hay@.len(),
    ensures
        r == matches_at(hay@, needle@, i as int),
{
    let hay_len: usize = hay.len();
    let mut j: usize = 0;
    while j < needle.len()
        invariant
            j <= needle@.len(),
            i + needle@.len() <= hay@.len(),
            hay@.len() == hay_len,
            forall|k: int| 0 <= k < j ==> hay@[i + k] == needle@[k],
        decreases needle@.len() - j,
    {
        if hay[i + j] != needle[j] {
            proof {
                let sub = hay@.subrange(i as int, i + needle@.len());
                assert(sub[j as int] == hay@[i + j]);
            }
            return false;
        }
        j += 1;
    }
    assert(hay@.subrange(i as int, i + needle@.len()) =~= needle@);
    true
}

/// Whether `needle` occurs in `hay`.
pub fn contains_bytes(hay: &[u8], needle: &[u8]) -> (r: bool)
    ensures
        r == has_subseq(hay@, needle@),
{
    if needle.len() > hay.len() {
        return false;
    }
    let last: usize = hay.len() - needle.len();
    let mut i: usize = 0;
    loop
        invariant
            last + needle@.len() == hay@.len(),
            i <= last,
            forall|k: int| 0 <= k < i ==> !matches_at(hay@, needle@, k),
        decreases last - i,
    {
        if matches_at_bytes(hay, needle, i) {
            return true;
        }
        if i == last {
            return false;
        }
        i += 1;
    }
}

/// The characters of `s`, in order.
pub fn to_chars(s: &str) -> (out: Vec<char>)
    ensures
        out@ == s@,
{
    let mut out: Vec<char> = Vec::new();
    for c in it: s.chars()
        invariant
            out@ == it.seq().take(it.index() as int),
            it.seq() == s@,
    {
        out.push(c);
    }
    out
}

/// The string made of the characters of `v`, in order.
pub fn from_chars(v: &[char]) -> (out: String)
    ensures
        out@ == v@,
{
    let mut out = String::new();
    let mut i: usize = 0;
    while i < v.len()
        invariant
            i <= v@.len(),
            out@ == v@.subrange(0, i as int),
        decreases v@.len() - i,
    {
        out.push(v[i]);
        i += 1;
    }
    assert(v@.subrange(0, v@.len() as int) == v@);
    out
}

/// Whether `needle` occurs in `hay`, as `str::contains` decides it.
pub fn str_contains(hay: &str, needle: &str) -> (r: bool)
    ensures
        r == has_subseq(hay@, needle@),
{
    let h = to_chars(hay);
    let n = to_chars(needle);
    contains_chars(h.as_slice(), n.as_slice())
}

/// Appends `part` to `out`.
pub fn append_bytes(out: &mut Vec<u8>, part: &[u8])
    ensures
        final(out)@ == old(out)@ + part@,
{
    let mut i: usize = 0;
    while i < part.len()
        invariant
            i <= part@.len(),
            out@ == old(out)@ + part@.subrange(0, i as int),
        decreases part@.len() - i,
    {
        out.push(part[i]);
        i += 1;
    }
    assert(part@.subrange(0, part@.len() as int) == part@);
}

/// The views of the vectors of `v`, in order.
pub open spec fn views<T>(v: Seq<Vec<T>>) -> Seq<Seq<T>> {
    Seq::new(v.len(), |i: int| v[i]@)
}

pub proof fn lemma_views_push<T>(v: Seq<Vec<T>>, x: Vec<T>)
    ensures
        views(v.push(x)) == views(v).push(x@),
{
    assert(views(v.push(x)) =~= views(v).push(x@));
}

/// Splits `s` into its lines at line feeds; a carriage return directly
/// before a line feed goes with it.
pub fn split_lines_bytes(s: &[u8]) -> (out: Vec<Vec<u8>>)
    ensures
        views(out@) == lines_of(s@, 10u8, 13u8),
{
    let mut out: Vec<Vec<u8>> = Vec::new();
    let n: usize = s.len();
    let mut pos: usize = 0;
    proof {
        assert(s@.subrange(0, n as int) =~= s@);
        assert(views(out@) =~= Seq::<Seq<u8>>::empty());
        assert(views(out@) + lines_of(s@, 10u8, 13u8) =~= lines_of(s@, 10u8, 13u8));
    }
    while pos < n
        invariant
            pos <= n,
            n == s@.len(),
            views(out@) + lines_of(s@.subrange(pos as int, n as int), 10u8, 13u8) == lines_of(
                s@,
                10u8,
                13u8,
            ),
        decreases n - pos,
    {
        let ghost rest = s@.subrange(pos as int, n as int);
        let mut j: usize = pos;
        while j < n && s[j] != 10u8
            invariant
                pos <= j <= n,
                n == s@.len(),
                forall|k: int| pos <= k < j ==> s@[k] != 10u8,
            decreases n - j,
        {
            j += 1;
        }
        proof {
            assert forall|k: int| 0 <= k < j - pos implies rest[k] != 10u8 by {
                assert(rest[k] == s@[pos + k]);
            }
            lemma_first_index_is(rest, 10u8, j - pos);
        }
        if j < n {
            let end: usize = if j > pos && s[j - 1] == 13u8 {
                j - 1
            } else {
                j
            };
            let line = vstd::slice::slice_to_vec(vstd::slice::slice_subrange(s, pos, end));
            proof {
                let raw = rest.subrange(0, j - pos);
                assert(raw =~= s@.subrange(pos as int, j as int));
                if j > pos {
                    assert(raw.last() == s@[j - 1]);
                }
                assert(line@ =~= strip_cr(raw, 13u8));
                assert(rest.subrange(j - pos + 1, rest.len() as int) =~= s@.subrange(
                    j + 1,
                    n as int,
                ));
                lemma_views_push(out@, line);
                assert(views(out@).push(line@) + lines_of(
                    s@.subrange(j + 1, n as int),
                    10u8,
                    13u8,
                ) =~= views(out@) + (seq![line@] + lines_of(
                    s@.subrange(j + 1, n as int),
                    10u8,
                    13u8,
                )));
            }
            out.push(line);
            pos = j + 1;
        } else {
            let line = vstd::slice::slice_to_vec(vstd::slice::slice_subrange(s, pos, n));
            proof {
                assert(line@ =~= rest);
                lemma_views_push(out@, line);
                assert(s@.subrange(n as int, n as int) =~= Seq::<u8>::empty());
                assert(lines_of(Seq::<u8>::empty(), 10u8, 13u8) =~= Seq::<Seq<u8>>::empty());
                assert(views(out@).push(line@) + Seq::<Seq<u8>>::empty() =~= views(out@) + seq![
                    rest,
                ]);
            }
            out.push(line);
            pos = n;
        }
    }
    proof {
        assert(s@.subrange(n as int, n as int) =~= Seq::<u8>::empty());
        assert(lines_of(Seq::<u8>::empty(), 10u8, 13u8) =~= Seq::<Seq<u8>>::empty());
        assert(views(out@) + Seq::<Seq<u8>>::empty() =~= views(out@));
    }
    out
}

/// The parts one after another with `sep` between neighbours.
pub fn join_bytes(parts: &Vec<Vec<u8>>, sep: &[u8]) -> (out: Vec<u8>)
    ensures
        out@ == join_with(views(parts@), sep@),
{
    let mut out: Vec<u8> = Vec::new();
    let mut i: usize = 0;
    while i < parts.len()
        invariant
            i <= parts@.len(),
            out@ == join_with(views(parts@).subrange(0, i as int), sep@),
        decreases parts@.len() - i,
    {
        let ghost before = views(parts@).subrange(0, i as int);
        let ghost after = views(parts@).subrange(0, i + 1);
        proof {
            assert(after.drop_last() =~= before);
            assert(after.last() == parts@[i as int]@);
        }
        if i > 0 {
            append_bytes(&mut out, sep);
        }
        append_bytes(&mut out, parts[i].as_slice());
        proof {
            if i == 0 {
                assert(before =~= Seq::<Seq<u8>>::empty());
                assert(out@ =~= parts@[0]@);
            }
        }
        i += 1;
    }
    assert(views(parts@).subrange(0, parts@.len() as int) =~= views(parts@));
    out
}

/// Calls `core::str::from_utf8`. Trusted: it accepts exactly the byte
/// sequences that are well-formed UTF-8.
#[verifier::external_body]
pub(crate) fn is_utf8(bytes: &[u8]) -> (r: bool)
    ensures
        r == vstd::utf8::valid_utf8(bytes@),
{
    core::str::from_utf8(bytes).is_ok()
}

/// Unicode white space, as `char::is_whitespace` knows it.
pub open spec fn is_space(c: char) -> bool {
    let u = c as u32;
    (0x09 <= u && u <= 0x0d) || u == 0x20 || u == 0x85 || u == 0xa0 || u == 0x1680 || (0x2000
        <= u && u <= 0x200a) || u == 0x2028 || u == 0x2029 || u == 0x202f || u == 0x205f || u
        == 0x3000
}

/// Whether `c` is white space.
pub fn is_whitespace(c: char) -> (r: bool)
    ensures
        r == is_space(c),
{
    let u: u32 = c as u32;
    (0x09 <= u && u <= 0x0d) || u == 0x20 || u == 0x85 || u == 0xa0 || u == 0x1680 || (0x2000
        <= u && u <= 0x200a) || u == 0x2028 || u == 0x2029 || u == 0x202f || u == 0x205f || u
        == 0x3000
}

/// `s` without the white space at its start.
pub open spec fn trim_start_of(s: Seq<char>) -> Seq<char>
    decreases s.len(),
{
    if s.len() > 0 && is_space(s[0]) {
        trim_start_of(s.subrange(1, s.len() as int))
    } else {
        s
    }
}

/// `s` without the white space at its end.
pub open spec fn trim_end_of(s: Seq<char>) -> Seq<char>
    decreases s.len(),
{
    if s.len() > 0 && is_space(s.last()) {
        trim_end_of(s.subrange(0, s.len() - 1))
    } else {
        s
    }
}

/// `s` without the white space at its start and at its end.
pub open spec fn trim_of(s: Seq<char>) -> Seq<char> {
    trim_end_of(trim_start_of(s))
}

/// `s` without the white space at its start and at its end, as `str::trim`
/// gives it.
pub fn trim_chars(s: &[char]) -> (out: Vec<char>)
    ensures
        out@ == trim_of(s@),
{
    let n: usize = s.len();
    let mut a: usize = 0;
    assert(s@.subrange(0, n as int) =~= s@);
    while a < n && is_whitespace(s[a])
        invariant
            a <= n,
            n == s@.len(),
            trim_start_of(s@) == trim_start_of(s@.subrange(a as int, n as int)),
        decreases n - a,
    {
        proof {
            let rest = s@.subrange(a as int, n as int);
            assert(rest[0] == s@[a as int]);
            assert(rest.subrange(1, rest.len() as int) =~= s@.subrange(a + 1, n as int));
        }
        a += 1;
    }
    proof {
        let rest = s@.subrange(a as int, n as int);
        if a < n {
            assert(rest[0] == s@[a as int]);
        }
        assert(trim_start_of(s@) == rest);
    }
    let mut b: usize = n;
    while b > a && is_whitespace(s[b - 1])
        invariant
            a <= b <= n,
            n == s@.len(),
            trim_of(s@) == trim_end_of(s@.subrange(a as int, b as int)),
        decreases b - a,
    {
        proof {
            let rest = s@.subrange(a as int, b as int);
            assert(rest.last() == s@[b - 1]);
            assert(rest.subrange(0, rest.len() - 1) =~= s@.subrange(a as int, b - 1));
        }
        b -= 1;
    }
    proof {
        let rest = s@.subrange(a as int, b as int);
        if b > a {
            assert(rest.last() == s@[b - 1]);
        }
        assert(trim_of(s@) == rest);
    }
    vstd::slice::slice_to_vec(vstd::slice::slice_subrange(s, a, b))
}

/// Whether two texts are the same.
pub fn eq_chars(a: &[char], b: &[char]) -> (r: bool)
    ensures
        r == (a@ == b@),
{
    if a.len() != b.len() {
        return false;
    }
    let r = matches_at_chars(a, b, 0);
    proof {
        assert(a@.subrange(0, 0 + b@.len() as int) =~= a@);
    }
    r
}

/// Whether `s` starts with `p`.
pub fn starts_with_chars(s: &[char], p: &[char]) -> (r: bool)
    ensures
        r == is_prefix(p@, s@),
{
    if p.len() > s.len() {
        return false;
    }
    matches_at_chars(s, p, 0)
}

/// Whether `s` ends with `p`.
pub fn ends_with_chars(s: &[char], p: &[char]) -> (r: bool)
    ensures
        r == is_suffix(p@, s@),
{
    if p.len() > s.len() {
        return false;
    }
    matches_at_chars(s, p, s.len() - p.len())
}

/// `s` without every `p` at its end, one after another. An empty `p` is at
/// no end.
pub open spec fn strip_suffixes(s: Seq<char>, p: Seq<char>) -> Seq<char>
    decreases s.len(),
{
    if p.len() > 0 && is_suffix(p, s) {
        strip_suffixes(s.subrange(0, s.len() - p.len()), p)
    } else {
        s
    }
}

/// `s` without every `p` at its start, one after another. An empty `p` is at
/// no start.
pub open spec fn strip_prefixes(s: Seq<char>, p: Seq<char>) -> Seq<char>
    decreases s.len(),
{
    if p.len() > 0 && is_prefix(p, s) {
        strip_prefixes(s.subrange(p.len() as int, s.len() as int), p)
    } else {
        s
    }
}

/// `s` without every `p` at its end, as `str::trim_end_matches` gives it for
/// a pattern that is not empty.
pub fn trim_end_matches_chars(s: &[char], p: &[char]) -> (out: Vec<char>)
    ensures
        out@ == strip_suffixes(s@, p@),
{
    let m: usize = p.len();
    let mut b: usize = s.len();
    assert(s@.subrange(0, b as int) =~= s@);
    if m == 0 {
        return vstd::slice::slice_to_vec(s);
    }
    while b >= m && matches_at_chars(s, p, b - m)
        invariant
            b <= s@.len(),
            m == p@.len(),
            m > 0,
            strip_suffixes(s@, p@) == strip_suffixes(s@.subrange(0, b as int), p@),
        decreases b,
    {
        proof {
            let head = s@.subrange(0, b as int);
            assert(head.subrange(head.len() - m, head.len() as int) =~= s@.subrange(
                b - m,
                b - m + m,
            ));
            assert(head.subrange(0, head.len() - m) =~= s@.subrange(0, b - m));
        }
        b -= m;
    }
    proof {
        let head = s@.subrange(0, b as int);
        if b >= m {
            assert(head.subrange(head.len() - m, head.len() as int) =~= s@.subrange(
                b - m,
                b - m + m,
            ));
        }
        assert(strip_suffixes(head, p@) == head);
    }
    vstd::slice::slice_to_vec(vstd::slice::slice_subrange(s, 0, b))
}

/// `s` without every `p` at its start, as `str::trim_start_matches` gives it
/// for a pattern that is not empty.
pub fn trim_start_matches_chars(s: &[char], p: &[char]) -> (out: Vec<char>)
    ensures
        out@ == strip_prefixes(s@, p@),
{
    let m: usize = p.len();
    let n: usize = s.len();
    let mut a: usize = 0;
    assert(s@.subrange(0, n as int) =~= s@);
    if m == 0 {
        return vstd::slice::slice_to_vec(s);
    }
    while n - a >= m && matches_at_chars(s, p, a)
        invariant
            a <= n,
            n == s@.len(),
            m == p@.len(),
            m > 0,
            strip_prefixes(s@, p@) == strip_prefixes(s@.subrange(a as int, n as int), p@),
        decreases n - a,
    {
        proof {
            let rest = s@.subrange(a as int, n as int);
            assert(rest.subrange(0, m as int) =~= s@.subrange(a as int, a + m));
            assert(rest.subrange(m as int, rest.len() as int) =~= s@.subrange(a + m, n as int));
        }
        a += m;
    }
    proof {
        let rest = s@.subrange(a as int, n as int);
        if n - a >= m {
            assert(rest.subrange(0, m as int) =~= s@.subrange(a as int, a + m));
        }
        assert(strip_prefixes(rest, p@) == rest);
    }
    vstd::slice::slice_to_vec(vstd::slice::slice_subrange(s, a, n))
}

/// The part of `s` after its last `sep`, or all of `s` if it holds none: the
/// last piece that `str::split` gives.
pub fn after_last_char(s: &[char], sep: char) -> (out: Vec<char>)
    ensures
        out@ == after_last(s@, sep),
{
    let n: usize = s.len();
    let mut start: usize = 0;
    let mut j: usize = 0;
    assert(s@.subrange(0, n as int) =~= s@);
    while j < n
        invariant
            start <= j <= n,
            n == s@.len(),
            after_last(s@, sep) == after_last(s@.subrange(start as int, n as int), sep),
            forall|k: int| start <= k < j ==> s@[k] != sep,
        decreases n - j,
    {
        if s[j] == sep {
            proof {
                let rest = s@.subrange(start as int, n as int);
                assert forall|k: int| 0 <= k < j - start implies rest[k] != sep by {
                    assert(rest[k] == s@[start + k]);
                }
                assert(rest[j - start] == s@[j as int]);
                lemma_first_index_is(rest, sep, j - start);
                assert(rest.subrange(j - start + 1, rest.len() as int) =~= s@.subrange(
                    j + 1,
                    n as int,
                ));
            }
            start = j + 1;
        }
        j += 1;
    }
    proof {
        let rest = s@.subrange(start as int, n as int);
        assert forall|k: int| 0 <= k < rest.len() implies rest[k] != sep by {
            assert(rest[k] == s@[start + k]);
        }
        lemma_first_index_is(rest, sep, rest.len() as int);
    }
    vstd::slice::slice_to_vec(vstd::slice::slice_subrange(s, start, n))
}

/// The two parts of `s` around its first `sep`, if it holds one.
pub open spec fn split_once_of(s: Seq<char>, sep: char) -> Option<(Seq<char>, Seq<char>)> {
    let i = first_index_of(s, sep);
    if 0 <= i < s.len() {
        Some((s.subrange(0, i), s.subrange(i + 1, s.len() as int)))
    } else {
        None
    }
}

/// The two parts of `s` around its first `sep`, as `str::split_once` gives
/// them.
pub fn split_once_chars(s: &[char], sep: char) -> (out: Option<(Vec<char>, Vec<char>)>)
    ensures
        match out {
            Some(pair) => split_once_of(s@, sep) == Some((pair.0@, pair.1@)),
            None => split_once_of(s@, sep) is None,
        },
{
    let n: usize = s.len();
    let mut j: usize = 0;
    while j < n && s[j] != sep
        invariant
            j <= n,
            n == s@.len(),
            forall|k: int| 0 <= k < j ==> s@[k] != sep,
        decreases n - j,
    {
        j += 1;
    }
    proof {
        lemma_first_index_is(s@, sep, j as int);
    }
    if j < n {
        let head = vstd::slice::slice_to_vec(vstd::slice::slice_subrange(s, 0, j));
        let tail = vstd::slice::slice_to_vec(vstd::slice::slice_subrange(s, j + 1, n));
        Some((head, tail))
    } else {
        None
    }
}

/// Splits `s` into its lines at line feeds; a carriage return directly
/// before a line feed goes with it. These are the lines of `str::lines`.
pub fn split_lines_chars(s: &[char]) -> (out: Vec<Vec<char>>)
    ensures
        views(out@) == lines_of(s@, '\n', '\r'),
{
    let mut out: Vec<Vec<char>> = Vec::new();
    let n: usize = s.len();
    let mut pos: usize = 0;
    proof {
        assert(s@.subrange(0, n as int) =~= s@);
        assert(views(out@) =~= Seq::<Seq<char>>::empty());
        assert(views(out@) + lines_of(s@, '\n', '\r') =~= lines_of(s@, '\n', '\r'));
    }
    while pos < n
        invariant
            pos <= n,
            n == s@.len(),
            views(out@) + lines_of(s@.subrange(pos as int, n as int), '\n', '\r') == lines_of(
                s@,
                '\n',
                '\r',
            ),
        decreases n - pos,
    {
        let ghost rest = s@.subrange(pos as int, n as int);
        let mut j: usize = pos;
        while j < n && s[j] != '\n'
            invariant
                pos <= j <= n,
                n == s@.len(),
                forall|k: int| pos <= k < j ==> s@[k] != '\n',
            decreases n - j,
        {
            j += 1;
        }
        proof {
            assert forall|k: int| 0 <= k < j - pos implies rest[k] != '\n' by {
                assert(rest[k] == s@[pos + k]);
            }
            lemma_first_index_is(rest, '\n', j - pos);
        }
        if j < n {
            let end: usize = if j > pos && s[j - 1] == '\r' {
                j - 1
            } else {
                j
            };
            let line = vstd::slice::slice_to_vec(vstd::slice::slice_subrange(s, pos, end));
            proof {
                let raw = rest.subrange(0, j - pos);
                assert(raw =~= s@.subrange(pos as int, j as int));
                if j > pos {
                    assert(raw.last() == s@[j - 1]);
                }
                assert(line@ =~= strip_cr(raw, '\r'));
                assert(rest.subrange(j - pos + 1, rest.len() as int) =~= s@.subrange(
                    j + 1,
                    n as int,
                ));
                lemma_views_push(out@, line);
                assert(views(out@).push(line@) + lines_of(
                    s@.subrange(j + 1, n as int),
                    '\n',
                    '\r',
                ) =~= views(out@) + (seq![line@] + lines_of(
                    s@.subrange(j + 1, n as int),
                    '\n',
                    '\r',
                )));
            }
            out.push(line);
            pos = j + 1;
        } else {
            let line = vstd::slice::slice_to_vec(vstd::slice::slice_subrange(s, pos, n));
            proof {
                assert(line@ =~= rest);
                lemma_views_push(out@, line);
                assert(s@.subrange(n as int, n as int) =~= Seq::<char>::empty());
                assert(lines_of(Seq::<char>::empty(), '\n', '\r') =~= Seq::<Seq<char>>::empty());
                assert(views(out@).push(line@) + Seq::<Seq<char>>::empty() =~= views(out@) + seq![
                    rest,
                ]);
            }
            out.push(line);
            pos = n;
        }
    }
    proof {
        assert(s@.subrange(n as int, n as int) =~= Seq::<char>::empty());
        assert(lines_of(Seq::<char>::empty(), '\n', '\r') =~= Seq::<Seq<char>>::empty());
        assert(views(out@) + Seq::<Seq<char>>::empty() =~= views(out@));
    }
    out
}

/// The words read so far and the word that is being read, after the
/// characters of `s`.
pub open spec fn words_state(s: Seq<char>) -> (Seq<Seq<char>>, Seq<char>)
    decreases s.len(),
{
    if s.len() == 0 {
        (Seq::empty(), Seq::empty())
    } else {
        let before = words_state(s.drop_last());
        if is_space(s.last()) {
            if before.1.len() > 0 {
                (before.0.push(before.1), Seq::empty())
            } else {
                before
            }
        } else {
            (before.0, before.1.push(s.last()))
        }
    }
}

/// The words of `s`: its longest runs without white space, in order.
pub open spec fn words_of(s: Seq<char>) -> Seq<Seq<char>> {
    let state = words_state(s);
    if state.1.len() > 0 {
        state.0.push(state.1)
    } else {
        state.0
    }
}

/// The words of `s`, as `str::split_whitespace` gives them.
pub fn split_whitespace_chars(s: &[char]) -> (out: Vec<Vec<char>>)
    ensures
        views(out@) == words_of(s@),
{
    let mut out: Vec<Vec<char>> = Vec::new();
    let mut word: Vec<char> = Vec::new();
    let n: usize = s.len();
    let mut i: usize = 0;
    assert(views(out@) =~= Seq::<Seq<char>>::empty());
    while i < n
        invariant
            i <= n,
            n == s@.len(),
            (views(out@), word@) == words_state(s@.subrange(0, i as int)),
        decreases n - i,
    {
        proof {
            let done = s@.subrange(0, i + 1);
            assert(done.drop_last() =~= s@.subrange(0, i as int));
            assert(done.last() == s@[i as int]);
        }
        if is_whitespace(s[i]) {
            if word.len() > 0 {
                proof {
                    lemma_views_push(out@, word);
                }
                out.push(word);
                word = Vec::new();
            }
        } else {
            word.push(s[i]);
        }
        i += 1;
    }
    assert(s@.subrange(0, n as int) =~= s@);
    if word.len() > 0 {
        proof {
            lemma_views_push(out@, word);
        }
        out.push(word);
    }
    out
}

/// An ASCII digit.
pub open spec fn is_digit(c: char) -> bool {
    '0' <= c && c <= '9'
}

/// The value of an ASCII digit.
pub open spec fn digit_value(c: char) -> int {
    c as u32 as int - 48
}

/// Every character of `s` is an ASCII digit.
pub open spec fn all_digits(s: Seq<char>) -> bool {
    forall|i: int| 0 <= i < s.len() ==> is_digit(#[trigger] s[i])
}

/// The number that the digits of `s` write in base ten.
pub open spec fn digits_value(s: Seq<char>) -> int
    decreases s.len(),
{
    if s.len() == 0 {
        0
    } else {
        digits_value(s.drop_last()) * 10 + digit_value(s.last())
    }
}

/// The number that `s` writes: digits, with or without a sign before them.
pub open spec fn signed_value(s: Seq<char>) -> Option<int> {
    let negative = s.len() > 0 && s[0] == '-';
    let body = if s.len() > 0 && (s[0] == '-' || s[0] == '+') {
        s.subrange(1, s.len() as int)
    } else {
        s
    };
    if body.len() == 0 || !all_digits(body) {
        None
    } else if negative {
        Some(-digits_value(body))
    } else {
        Some(digits_value(body))
    }
}

/// The `i32` that `s` writes, if it writes one.
pub open spec fn parse_i32_of(s: Seq<char>) -> Option<i32> {
    match signed_value(s) {
        Some(v) => if i32::MIN <= v <= i32::MAX {
            Some(v as i32)
        } else {
            None
        },
        None => None,
    }
}

proof fn lemma_digits_grow(s: Seq<char>, k: int)
    requires
        all_digits(s),
        0 <= k <= s.len(),
    ensures
        0 <= digits_value(s.subrange(0, k)) <= digits_value(s),
    decreases s.len() - k,
{
    if k == s.len() {
        assert(s.subrange(0, k) =~= s);
        lemma_digits_nonnegative(s);
    } else {
        let front = s.drop_last();
        assert(all_digits(front)) by {
            assert forall|i: int| 0 <= i < front.len() implies is_digit(#[trigger] front[i]) by {
                assert(front[i] == s[i]);
            }
        }
        lemma_digits_grow(front, k);
        assert(front.subrange(0, k) =~= s.subrange(0, k));
        assert(is_digit(s[s.len() - 1]));
    }
}

proof fn lemma_digits_nonnegative(s: Seq<char>)
    requires
        all_digits(s),
    ensures
        0 <= digits_value(s),
    decreases s.len(),
{
    if s.len() > 0 {
        let front = s.drop_last();
        assert(all_digits(front)) by {
            assert forall|i: int| 0 <= i < front.len() implies is_digit(#[trigger] front[i]) by {
                assert(front[i] == s[i]);
            }
        }
        lemma_digits_nonnegative(front);
        assert(is_digit(s[s.len() - 1]));
    }
}

/// The `i32` that `s` writes, as `str::parse` reads it.
pub fn parse_i32_chars(s: &[char]) -> (out: Option<i32>)
    ensures
        out == parse_i32_of(s@),
{
    let n: usize = s.len();
    let negative = n > 0 && s[0] == '-';
    let start: usize = if n > 0 && (s[0] == '-' || s[0] == '+') {
        1
    } else {
        0
    };
    let ghost body = s@.subrange(start as int, n as int);
    proof {
        assert(s@.subrange(0, n as int) =~= s@);
    }
    if start == n {
        return None;
    }
    let mut acc: i64 = 0;
    let mut i: usize = start;
    assert(body.subrange(0, 0) =~= Seq::<char>::empty());
    while i < n
        invariant
            start <= i <= n,
            start < n,
            n == s@.len(),
            negative == (s@[0] == '-'),
            start == (if s@[0] == '-' || s@[0] == '+' {
                1int
            } else {
                0int
            }),
            s@.subrange(0, n as int) == s@,
            body == s@.subrange(start as int, n as int),
            all_digits(body.subrange(0, i - start)),
            acc == digits_value(body.subrange(0, i - start)),
            0 <= acc <= 2147483648,
        decreases n - i,
    {
        let c = s[i];
        let ghost done = body.subrange(0, i - start);
        let ghost more = body.subrange(0, i - start + 1);
        proof {
            assert(more.drop_last() =~= done);
            assert(more.last() == c);
        }
        if !('0' <= c && c <= '9') {
            proof {
                assert(body[i - start] == c);
                assert(!all_digits(body));
            }
            return None;
        }
        let d: i64 = (c as u32 - 48) as i64;
        let next: i64 = acc * 10 + d;
        proof {
            assert(all_digits(more)) by {
                assert forall|k: int| 0 <= k < more.len() implies is_digit(#[trigger] more[k]) by {
                    if k < done.len() {
                        assert(more[k] == done[k]);
                    }
                }
            }
            assert(next == digits_value(more));
        }
        if next > 2147483648 {
            proof {
                if all_digits(body) {
                    lemma_digits_grow(body, i - start + 1);
                }
            }
            return None;
        }
        acc = next;
        i += 1;
    }
    proof {
        assert(body.subrange(0, n - start) =~= body);
    }
    if negative {
        Some((-acc) as i32)
    } else if acc <= 2147483647 {
        Some(acc as i32)
    } else {
        None
    }
}

/// The character of a digit's value.
pub open spec fn digit_char(d: int) -> char {
    if d == 0 {
        '0'
    } else if d == 1 {
        '1'
    } else if d == 2 {
        '2'
    } else if d == 3 {
        '3'
    } else if d == 4 {
        '4'
    } else if d == 5 {
        '5'
    } else if d == 6 {
        '6'
    } else if d == 7 {
        '7'
    } else if d == 8 {
        '8'
    } else {
        '9'
    }
}

/// The digits that write `n` in base ten.
pub open spec fn digits_of(n: nat) -> Seq<char>
    decreases n,
{
    if n < 10 {
        seq![digit_char(n as int)]
    } else {
        digits_of(n / 10).push(digit_char((n % 10) as int))
    }
}

/// How `v` is written in base ten, with a minus sign if it is negative.
pub open spec fn decimal_of(v: int) -> Seq<char> {
    if v < 0 {
        seq!['-'] + digits_of((-v) as nat)
    } else {
        digits_of(v as nat)
    }
}

fn digit_to_char(d: u64) -> (c: char)
    requires
        d < 10,
    ensures
        c == digit_char(d as int),
{
    if d == 0 {
        '0'
    } else if d == 1 {
        '1'
    } else if d == 2 {
        '2'
    } else if d == 3 {
        '3'
    } else if d == 4 {
        '4'
    } else if d == 5 {
        '5'
    } else if d == 6 {
        '6'
    } else if d == 7 {
        '7'
    } else if d == 8 {
        '8'
    } else {
        '9'
    }
}

fn push_digits(out: &mut Vec<char>, n: u64)
    ensures
        final(out)@ == old(out)@ + digits_of(n as nat),
    decreases n,
{
    if n >= 10 {
        push_digits(out, n / 10);
    }
    out.push(digit_to_char(n % 10));
    proof {
        if n >= 10 {
            assert(final(out)@ =~= old(out)@ + digits_of(n as nat));
        } else {
            assert(final(out)@ =~= old(out)@ + digits_of(n as nat));
        }
    }
}

/// How `v` is written in base ten.
pub fn decimal_chars(v: i64) -> (out: Vec<char>)
    ensures
        out@ == decimal_of(v as int),
{
    let mut out: Vec<char> = Vec::new();
    if v < 0 {
        out.push('-');
        let size: u64 = ((-(v + 1)) as u64) + 1;
        push_digits(&mut out, size);
    } else {
        push_digits(&mut out, v as u64);
    }
    assert(out@ =~= decimal_of(v as int));
    out
}

/// The texts of the strings of `v`, in order.
pub open spec fn texts(v: Seq<String>) -> Seq<Seq<char>> {
    Seq::new(v.len(), |i: int| v[i]@)
}

pub proof fn lemma_texts_push(v: Seq<String>, x: String)
    ensures
        texts(v.push(x)) == texts(v).push(x@),
{
    assert(texts(v.push(x)) =~= texts(v).push(x@));
}

/// `s` without the white space at its start and at its end.
pub fn trim_str(s: &str) -> (out: String)
    ensures
        out@ == trim_of(s@),
{
    let chars = to_chars(s);
    let trimmed = trim_chars(chars.as_slice());
    from_chars(trimmed.as_slice())
}

/// Whether two strings hold the same text.
pub fn str_eq(a: &str, b: &str) -> (r: bool)
    ensures
        r == (a@ == b@),
{
    let x = to_chars(a);
    let y = to_chars(b);
    eq_chars(x.as_slice(), y.as_slice())
}

/// What occurs in a sequence occurs in the sequence with more after it.
pub proof fn lemma_subseq_extends<T>(a: Seq<T>, b: Seq<T>, needle: Seq<T>)
    requires
        has_subseq(a, needle),
    ensures
        has_subseq(a + b, needle),
{
    let i = choose|i: int| matches_at(a, needle, i);
    assert((a + b).subrange(i, i + needle.len()) =~= a.subrange(i, i + needle.len()));
    assert(matches_at(a + b, needle, i));
}

/// What occurs in a sequence occurs in the sequence with more before it.
pub proof fn lemma_subseq_shifts<T>(a: Seq<T>, b: Seq<T>, needle: Seq<T>)
    requires
        has_subseq(b, needle),
    ensures
        has_subseq(a + b, needle),
{
    let i = choose|i: int| matches_at(b, needle, i);
    assert((a + b).subrange(a.len() + i, a.len() + i + needle.len()) =~= b.subrange(
        i,
        i + needle.len(),
    ));
    assert(matches_at(a + b, needle, a.len() + i));
}

/// Every part occurs in what the parts are joined to.
pub proof fn lemma_join_holds_part<T>(parts: Seq<Seq<T>>, sep: Seq<T>, i: int)
    requires
        0 <= i < parts.len(),
    ensures
        has_subseq(join_with(parts, sep), parts[i]),
    decreases parts.len(),
{
    if parts.len() == 1 {
        assert(parts[0].subrange(0, 0 + parts[0].len() as int) =~= parts[0]);
        assert(matches_at(join_with(parts, sep), parts[i], 0));
    } else {
        let front = parts.drop_last();
        if i == parts.len() - 1 {
            assert(parts.last().subrange(0, 0 + parts.last().len() as int) =~= parts.last());
            assert(matches_at(parts.last(), parts.last(), 0));
            lemma_subseq_shifts(join_with(front, sep) + sep, parts.last(), parts[i]);
        } else {
            lemma_join_holds_part(front, sep, i);
            assert(front[i] == parts[i]);
            lemma_subseq_extends(join_with(front, sep), sep + parts.last(), parts[i]);
            assert(join_with(front, sep) + (sep + parts.last()) =~= join_with(parts, sep));
        }
    }
}

} // verus!
