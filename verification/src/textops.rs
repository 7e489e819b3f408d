//! Character-level text operations: trimming and separator splitting.
//!
//! Multi-value fields of a line (the target list and choice list of a menu)
//! are joined with the fixed two-character separator `||`; [`split`] takes
//! such a field apart. Expression strings are split on single spaces.

use vstd::prelude::*;

verus! {

/// Whether `c` is one of the characters with Unicode's White_Space property,
/// the set that trimming strips from the ends of a string.
pub open spec fn is_space_spec(c: char) -> bool {
    c == ' ' || c == '\t' || c == '\n' || c == '\r' || c == '\u{000B}' || c == '\u{000C}'
        || c == '\u{0085}' || c == '\u{00A0}' || c == '\u{1680}' || (0x2000 <= c as u32
        && c as u32 <= 0x200A) || c == '\u{2028}' || c == '\u{2029}' || c == '\u{202F}'
        || c == '\u{205F}' || c == '\u{3000}'
}

/// Whether `c` is a word character: an ASCII letter, an ASCII digit, or an
/// underscore. Word characters make up variable tokens.
pub open spec fn is_word_char_spec(c: char) -> bool {
    ('a' as u32 <= c as u32 && c as u32 <= 'z' as u32) || ('A' as u32 <= c as u32 && c as u32
        <= 'Z' as u32) || ('0' as u32 <= c as u32 && c as u32 <= '9' as u32) || c == '_'
}

pub(crate) fn is_space(c: char) -> (r: bool)
    ensures
        r == is_space_spec(c),
{
    c == ' ' || c == '\t' || c == '\n' || c == '\r' || c == '\u{000B}' || c == '\u{000C}'
        || c == '\u{0085}' || c == '\u{00A0}' || c == '\u{1680}' || (0x2000 <= c as u32
        && c as u32 <= 0x200A) || c == '\u{2028}' || c == '\u{2029}' || c == '\u{202F}'
        || c == '\u{205F}' || c == '\u{3000}'
}

pub(crate) fn is_word_char(c: char) -> (r: bool)
    ensures
        r == is_word_char_spec(c),
{
    ('a' <= c && c <= 'z') || ('A' <= c && c <= 'Z') || ('0' <= c && c <= '9') || c == '_'
}

/// The first position at or after `i` that does not hold white space.
pub open spec fn start_trim(s: Seq<char>, i: int) -> int
    decreases s.len() - i,
    when 0 <= i <= s.len()
{
    if i < s.len() && is_space_spec(s[i]) {
        start_trim(s, i + 1)
    } else {
        i
    }
}

/// The position just after the last character before `j` that does not hold
/// white space.
pub open spec fn end_trim(s: Seq<char>, j: int) -> int
    decreases j,
    when 0 <= j <= s.len()
{
    if j > 0 && is_space_spec(s[j - 1]) {
        end_trim(s, j - 1)
    } else {
        j
    }
}

/// `s` with leading and trailing white space removed.
pub open spec fn trim_spec(s: Seq<char>) -> Seq<char> {
    let a = start_trim(s, 0);
    let b = end_trim(s, s.len() as int);
    if a <= b {
        s.subrange(a, b)
    } else {
        Seq::empty()
    }
}

pub(crate) fn trim<'a>(s: &'a str) -> (r: &'a str)
    ensures
        r@ == trim_spec(s@),
{
    let n = s.unicode_len();
    let mut a: usize = 0;
    loop
        invariant
            0 <= a <= n,
            n == s@.len(),
            start_trim(s@, 0) == start_trim(s@, a as int),
        ensures
            a <= n,
            a as int == start_trim(s@, 0),
        decreases n - a,
    {
        if a < n && is_space(s.get_char(a)) {
            a = a + 1;
        } else {
            break ;
        }
    }
    let mut b: usize = n;
    loop
        invariant
            0 <= b <= n,
            n == s@.len(),
            end_trim(s@, n as int) == end_trim(s@, b as int),
        ensures
            b <= n,
            b as int == end_trim(s@, n as int),
        decreases b,
    {
        if b > 0 && is_space(s.get_char(b - 1)) {
            b = b - 1;
        } else {
            break ;
        }
    }
    if a <= b {
        s.substring_char(a, b)
    } else {
        proof {
            reveal_strlit("");
            assert(""@ =~= Seq::<char>::empty());
        }
        ""
    }
}

/// Whether the separator `sep` stands in `s` starting at position `k`.
pub open spec fn sep_at(s: Seq<char>, sep: Seq<char>, k: int) -> bool {
    0 <= k && k + sep.len() <= s.len() && s.subrange(k, k + sep.len() as int) == sep
}

/// The position of the first occurrence of `sep` at or after `i`, or the
/// length of `s` when there is none.
pub open spec fn piece_end(s: Seq<char>, sep: Seq<char>, i: int) -> int
    decreases s.len() - i,
    when 0 <= i <= s.len() && sep.len() >= 1
{
    if i + sep.len() > s.len() {
        s.len() as int
    } else if sep_at(s, sep, i) {
        i
    } else {
        piece_end(s, sep, i + 1)
    }
}

pub(crate) proof fn lemma_piece_end(s: Seq<char>, sep: Seq<char>, i: int)
    requires
        0 <= i <= s.len(),
        sep.len() >= 1,
    ensures
        i <= piece_end(s, sep, i) <= s.len(),
        piece_end(s, sep, i) < s.len() ==> sep_at(s, sep, piece_end(s, sep, i)),
        forall|k: int| i <= k < piece_end(s, sep, i) ==> !sep_at(s, sep, k),
    decreases s.len() - i,
{
    if i + sep.len() > s.len() {
    } else if sep_at(s, sep, i) {
    } else {
        lemma_piece_end(s, sep, i + 1);
    }
}

/// Where the first occurrence of `sep` at or after `i` is known to sit at
/// `e`, the scan for it stops exactly there.
pub(crate) proof fn lemma_piece_end_is(s: Seq<char>, sep: Seq<char>, i: int, e: int)
    requires
        0 <= i <= e,
        sep.len() >= 1,
        sep_at(s, sep, e),
        forall|k: int| i <= k < e ==> !sep_at(s, sep, k),
    ensures
        piece_end(s, sep, i) == e,
    decreases e - i,
{
    assert(e + sep.len() <= s.len());
    if i < e {
        lemma_piece_end_is(s, sep, i + 1, e);
    }
}

/// Where no occurrence of `sep` sits at or after `i`, the scan for one runs
/// to the end of `s`.
pub(crate) proof fn lemma_piece_end_none(s: Seq<char>, sep: Seq<char>, i: int)
    requires
        0 <= i <= s.len(),
        sep.len() >= 1,
        forall|k: int| i <= k < s.len() ==> !sep_at(s, sep, k),
    ensures
        piece_end(s, sep, i) == s.len(),
    decreases s.len() - i,
{
    if i + sep.len() > s.len() {
    } else if sep_at(s, sep, i) {
    } else {
        lemma_piece_end_none(s, sep, i + 1);
    }
}

/// The pieces of `s` from position `i` on, cut at each occurrence of `sep`.
/// Splitting never yields an empty sequence of pieces: a string without the
/// separator is one piece, possibly empty.
pub open spec fn split_from(s: Seq<char>, sep: Seq<char>, i: int) -> Seq<Seq<char>>
    decreases s.len() - i,
    when 0 <= i <= s.len() && sep.len() >= 1
    via split_from_decreases
{
    let e = piece_end(s, sep, i);
    if e < s.len() {
        seq![s.subrange(i, e)] + split_from(s, sep, e + sep.len() as int)
    } else {
        seq![s.subrange(i, s.len() as int)]
    }
}

#[via_fn]
proof fn split_from_decreases(s: Seq<char>, sep: Seq<char>, i: int) {
    lemma_piece_end(s, sep, i);
}

/// Whether `sep` stands in `s` at character position `k`.
pub(crate) fn sep_matches(s: &str, sep: &str, k: usize) -> (r: bool)
    requires
        k <= s@.len(),
        sep@.len() >= 1,
    ensures
        r == sep_at(s@, sep@, k as int),
{
    let n = s.unicode_len();
    let m = sep.unicode_len();
    if m > n - k {
        assert(!sep_at(s@, sep@, k as int));
        return false;
    }
    let mut t: usize = 0;
    while t < m
        invariant
            0 <= t <= m,
            k + m <= n,
            n == s@.len(),
            m == sep@.len(),
            forall|u: int| 0 <= u < t ==> s@[k + u] == sep@[u],
        decreases m - t,
    {
        if s.get_char(k + t) != sep.get_char(t) {
            assert(!sep_at(s@, sep@, k as int)) by {
                if sep_at(s@, sep@, k as int) {
                    assert(s@.subrange(k as int, k + sep@.len() as int)[t as int] == sep@[t as int]);
                }
            }
            return false;
        }
        t = t + 1;
    }
    assert(s@.subrange(k as int, k + sep@.len() as int) =~= sep@);
    true
}

/// The separator pattern of multi-value fields.
pub open spec fn split_pat() -> Seq<char> {
    seq!['|', '|']
}

/// Splits `s` on the separator into pieces.
///
/// The string is first trimmed of leading and trailing white space, then cut
/// at each occurrence of `||`. A string without the separator yields a single
/// piece; n separators yield n + 1 pieces, empty pieces included.
pub fn split(s: &str) -> (r: Vec<String>)
    ensures
        r.deep_view() == split_from(trim_spec(s@), split_pat(), 0),
{
    let t = trim(s);
    proof {
        reveal_strlit("||");
        assert("||"@ =~= split_pat());
    }
    split_sep(t, "||")
}

/// Splits `s` on `sep`, with no trimming.
pub(crate) fn split_sep(s: &str, sep: &str) -> (r: Vec<String>)
    requires
        sep@.len() >= 1,
    ensures
        r.deep_view() == split_from(s@, sep@, 0),
{
    let n = s.unicode_len();
    let m = sep.unicode_len();
    let mut out: Vec<String> = Vec::new();
    let mut start: usize = 0;
    let mut i: usize = 0;
    loop
        invariant
            0 <= start <= i <= n,
            n == s@.len(),
            m == sep@.len(),
            m >= 1,
            split_from(s@, sep@, 0) == out.deep_view() + split_from(s@, sep@, start as int),
            forall|k: int| start <= k < i ==> !sep_at(s@, sep@, k),
        ensures
            start <= n,
            n == s@.len(),
            split_from(s@, sep@, 0) == out.deep_view() + split_from(s@, sep@, start as int),
            forall|k: int| start <= k < n ==> !sep_at(s@, sep@, k),
        decreases n - i,
    {
        if i >= n {
            break ;
        }
        if sep_matches(s, sep, i) {
            let ghost prev = out.deep_view();
            out.push(s.substring_char(start, i).to_owned());
            proof {
                lemma_piece_end_is(s@, sep@, start as int, i as int);
                assert(out.deep_view() =~= prev.push(s@.subrange(start as int, i as int)));
                assert(out.deep_view() + split_from(s@, sep@, i + m) =~= split_from(s@, sep@, 0));
            }
            start = i + m;
            i = start;
        } else {
            i = i + 1;
        }
    }
    let ghost prev = out.deep_view();
    out.push(s.substring_char(start, n).to_owned());
    proof {
        lemma_piece_end_none(s@, sep@, start as int);
        assert(out.deep_view() =~= prev.push(s@.subrange(start as int, n as int)));
        assert(out.deep_view() =~= split_from(s@, sep@, 0));
    }
    out
}

} // verus!
