//! The text interpolator: substitutes variable values into displayed text.
//!
//! A variable token is two underscores followed by zero or more word
//! characters (ASCII letters, digits, underscore), matched anywhere in a
//! string. A token whose name (the token without the two leading
//! underscores) is bound in the variable store is replaced by the bound
//! value; a token with no binding is left verbatim. The scan walks the raw
//! string once and never rescans substituted text.

use vstd::prelude::*;

use crate::textops::is_word_char;
use crate::textops::is_word_char_spec;

verus! {

/// The number of consecutive word characters of `s` at and after position
/// `i`.
pub open spec fn word_run_len(s: Seq<char>, i: int) -> nat
    decreases s.len() - i,
    when 0 <= i <= s.len()
{
    if i >= s.len() || !is_word_char_spec(s[i]) {
        0
    } else {
        (1 + word_run_len(s, i + 1)) as nat
    }
}

/// Where the characters of `[a, e)` are word characters and `e` sits at the
/// end of `s` or before a character that is no word character, the word run
/// at `a` stretches exactly to `e`.
pub(crate) proof fn lemma_word_run_is(s: Seq<char>, a: int, e: int)
    requires
        0 <= a <= e <= s.len(),
        forall|k: int| a <= k < e ==> is_word_char_spec(s[k]),
        e < s.len() ==> !is_word_char_spec(s[e]),
    ensures
        a + word_run_len(s, a) == e,
    decreases e - a,
{
    if a < e {
        lemma_word_run_is(s, a + 1, e);
    }
}

/// Whether a variable token starts at position `i` of `s`: an underscore
/// followed by another underscore.
pub open spec fn token_start(s: Seq<char>, i: int) -> bool {
    0 <= i && i + 1 < s.len() && s[i] == '_' && s[i + 1] == '_'
}

/// The position just after the variable token starting at `i`: the two
/// underscores and the word run after them.
pub open spec fn token_end(s: Seq<char>, i: int) -> int {
    if i + 2 + word_run_len(s, i + 2) <= s.len() {
        i + 2 + word_run_len(s, i + 2)
    } else {
        s.len() as int
    }
}

/// `s` from position `i` on with every variable token whose name is bound in
/// `vars` replaced by the bound value. A token with no binding stays as it
/// is; substituted text is never rescanned.
pub open spec fn render_from(s: Seq<char>, vars: Map<Seq<char>, Seq<char>>, i: int) -> Seq<char>
    decreases s.len() - i,
    when 0 <= i <= s.len()
    via render_from_decreases
{
    if i >= s.len() {
        Seq::empty()
    } else if token_start(s, i) {
        let j = token_end(s, i);
        let name = s.subrange(i + 2, j);
        let rep = if vars.contains_key(name) {
            vars[name]
        } else {
            s.subrange(i, j)
        };
        rep + render_from(s, vars, j)
    } else {
        seq![s[i]] + render_from(s, vars, i + 1)
    }
}

#[via_fn]
proof fn render_from_decreases(s: Seq<char>, vars: Map<Seq<char>, Seq<char>>, i: int) {
    if 0 <= i && i < s.len() && token_start(s, i) {
        assert(i + 2 <= s.len());
        assert(token_end(s, i) > i);
        assert(token_end(s, i) <= s.len());
    }
}

/// Over a stretch without token starts, rendering copies the characters.
pub(crate) proof fn lemma_render_literal(
    s: Seq<char>,
    vars: Map<Seq<char>, Seq<char>>,
    a: int,
    b: int,
)
    requires
        0 <= a <= b <= s.len(),
        forall|k: int| a <= k < b ==> !token_start(s, k),
    ensures
        render_from(s, vars, a) == s.subrange(a, b) + render_from(s, vars, b),
    decreases b - a,
{
    if a == b {
        assert(s.subrange(a, b) =~= Seq::<char>::empty());
        assert(s.subrange(a, b) + render_from(s, vars, b) =~= render_from(s, vars, b));
    } else {
        lemma_render_literal(s, vars, a + 1, b);
        assert(render_from(s, vars, a) == seq![s[a]] + render_from(s, vars, a + 1));
        assert(seq![s[a]] + (s.subrange(a + 1, b) + render_from(s, vars, b)) =~= s.subrange(a, b)
            + render_from(s, vars, b));
    }
}

/// The value bound to `name` in the association sequence `vs`, taking the
/// latest binding where a name is bound more than once.
pub open spec fn assoc_last(vs: Seq<(Seq<char>, Seq<char>)>, name: Seq<char>) -> Option<Seq<char>>
    decreases vs.len(),
{
    if vs.len() == 0 {
        None
    } else if vs.last().0 == name {
        Some(vs.last().1)
    } else {
        assoc_last(vs.drop_last(), name)
    }
}

/// The ghost image of the variable store: each entry's name and value as
/// character sequences, in insertion order.
pub open spec fn store_view(vs: Seq<(String, String)>) -> Seq<(Seq<char>, Seq<char>)> {
    Seq::new(vs.len(), |i: int| (vs[i].0@, vs[i].1@))
}

/// The variable store as a map from name to current value.
pub open spec fn store_map(vs: Seq<(Seq<char>, Seq<char>)>) -> Map<Seq<char>, Seq<char>> {
    Map::new(|k: Seq<char>| assoc_last(vs, k) is Some, |k: Seq<char>| assoc_last(vs, k)->0)
}

/// Appending a binding to the store binds that name and leaves every other
/// name as it was.
pub(crate) proof fn lemma_store_push(vs: Seq<(Seq<char>, Seq<char>)>, name: Seq<char>, value: Seq<char>)
    ensures
        store_map(vs.push((name, value))) == store_map(vs).insert(name, value),
{
    let pushed = vs.push((name, value));
    assert(pushed.last() == (name, value));
    assert(pushed.drop_last() =~= vs);
    assert forall|k: Seq<char>| true implies assoc_last(pushed, k) == (if k == name {
        Some(value)
    } else {
        assoc_last(vs, k)
    }) by {
        assert(assoc_last(pushed, k) == if pushed.last().0 == k {
            Some(pushed.last().1)
        } else {
            assoc_last(pushed.drop_last(), k)
        });
    }
    assert(store_map(pushed) =~= store_map(vs).insert(name, value));
}

/// Whether the two strings hold the same characters.
pub(crate) fn str_eq(a: &str, b: &str) -> (r: bool)
    ensures
        r == (a@ == b@),
{
    let n = a.unicode_len();
    if n != b.unicode_len() {
        return false;
    }
    let mut t: usize = 0;
    while t < n
        invariant
            0 <= t <= n,
            n == a@.len(),
            n == b@.len(),
            forall|u: int| 0 <= u < t ==> a@[u] == b@[u],
        decreases n - t,
    {
        if a.get_char(t) != b.get_char(t) {
            return false;
        }
        t = t + 1;
    }
    assert(a@ =~= b@);
    true
}

/// Looks the name up in the store, newest binding first.
pub(crate) fn store_get(vars: &Vec<(String, String)>, name: &str) -> (r: Option<String>)
    ensures
        r is Some <==> assoc_last(store_view(vars@), name@) is Some,
        r is Some ==> r->0@ == assoc_last(store_view(vars@), name@)->0,
{
    let ghost sv = store_view(vars@);
    let mut k = vars.len();
    proof {
        assert(sv.take(vars@.len() as int) =~= sv);
    }
    loop
        invariant
            0 <= k <= vars.len(),
            sv == store_view(vars@),
            sv.len() == vars@.len(),
            assoc_last(sv, name@) == assoc_last(sv.take(k as int), name@),
        ensures
            k == 0,
            assoc_last(store_view(vars@), name@) is None,
        decreases k,
    {
        if k == 0 {
            assert(sv.take(0) =~= Seq::<(Seq<char>, Seq<char>)>::empty());
            break ;
        }
        k = k - 1;
        proof {
            assert(sv.take(k + 1).last() == sv[k as int]);
            assert(sv.take(k + 1).drop_last() =~= sv.take(k as int));
        }
        if str_eq(vars[k].0.as_str(), name) {
            assert(assoc_last(sv, name@) == Some(sv[k as int].1));
            return Some(vars[k].1.clone());
        }
    }
    None
}

/// Renders `s` against the variable store: every variable token with a bound
/// name becomes its value, anything else is copied.
pub(crate) fn render_str(s: &str, vars: &Vec<(String, String)>) -> (out: String)
    ensures
        out@ == render_from(s@, store_map(store_view(vars@)), 0),
{
    let ghost m = store_map(store_view(vars@));
    let n = s.unicode_len();
    let mut out = String::new();
    let mut seg: usize = 0;
    let mut i: usize = 0;
    loop
        invariant
            0 <= seg <= i <= n,
            n == s@.len(),
            m == store_map(store_view(vars@)),
            render_from(s@, m, 0) == out@ + render_from(s@, m, seg as int),
            forall|k: int| seg <= k < i ==> !token_start(s@, k),
        ensures
            i == n,
            seg <= n,
            render_from(s@, m, 0) == out@ + render_from(s@, m, seg as int),
            forall|k: int| seg <= k < n ==> !token_start(s@, k),
        decreases n - i,
    {
        if i >= n {
            break ;
        }
        if s.get_char(i) == '_' && i + 1 < n && s.get_char(i + 1) == '_' {
            assert(token_start(s@, i as int));
            // find the end of the word run after the two underscores
            let mut j: usize = i + 2;
            while j < n && is_word_char(s.get_char(j))
                invariant
                    i + 2 <= j <= n,
                    n == s@.len(),
                    forall|k: int| i + 2 <= k < j ==> is_word_char_spec(s@[k]),
                decreases n - j,
            {
                j = j + 1;
            }
            proof {
                lemma_word_run_is(s@, i + 2, j as int);
                assert(token_end(s@, i as int) == j as int);
                lemma_render_literal(s@, m, seg as int, i as int);
            }
            out.append(s.substring_char(seg, i));
            let name = s.substring_char(i + 2, j);
            let rep = store_get(vars, name);
            match rep {
                Some(v) => {
                    assert(m.contains_key(name@));
                    assert(m[name@] == v@);
                    out.append(v.as_str());
                },
                None => {
                    assert(!m.contains_key(name@));
                    out.append(s.substring_char(i, j));
                },
            }
            proof {
                assert(render_from(s@, m, i as int) == (if m.contains_key(s@.subrange(
                    i + 2,
                    j as int,
                )) {
                    m[s@.subrange(i + 2, j as int)]
                } else {
                    s@.subrange(i as int, j as int)
                }) + render_from(s@, m, j as int));
                assert(render_from(s@, m, 0) == out@ + render_from(s@, m, j as int));
            }
            seg = j;
            i = j;
        } else {
            assert(!token_start(s@, i as int));
            i = i + 1;
        }
    }
    proof {
        lemma_render_literal(s@, m, seg as int, n as int);
        assert(render_from(s@, m, n as int) == Seq::<char>::empty());
        assert(s@.subrange(seg as int, n as int) + Seq::<char>::empty() =~= s@.subrange(
            seg as int,
            n as int,
        ));
    }
    out.append(s.substring_char(seg, n));
    out
}

} // verus!
