//! The verified half of the expression evaluator.
//!
//! An expression is exactly three space-separated tokens: a numeric literal,
//! an operator, and a numeric literal, with no precedence and no nesting.
//! [`expr_parts`] trims the string, splits it on single spaces, checks the
//! token count and the operator, and hands the tokens out. Turning the
//! operand tokens into 64-bit floats and applying the operator is the host's
//! share of the work: floats stay outside the verified core.

use vstd::prelude::*;

use crate::textops::split_from;
use crate::textops::split_sep;
use crate::textops::trim;
use crate::textops::trim_spec;

verus! {

/// The single-space separator of expression tokens.
pub open spec fn space_pat() -> Seq<char> {
    seq![' ']
}

/// Whether `t` is one of the supported operator tokens:
/// `+  -  *  /  %  <  >  <=  >=  ==  !=`.
pub open spec fn is_op_spec(t: Seq<char>) -> bool {
    (t.len() == 1 && (t[0] == '+' || t[0] == '-' || t[0] == '*' || t[0] == '/' || t[0] == '%'
        || t[0] == '<' || t[0] == '>')) || (t.len() == 2 && t[1] == '=' && (t[0] == '<' || t[0]
        == '>' || t[0] == '=' || t[0] == '!'))
}

/// The tokens of the expression string `s`: trimmed, then cut at each single
/// space.
pub open spec fn expr_tokens(s: Seq<char>) -> Seq<Seq<char>> {
    split_from(trim_spec(s), space_pat(), 0)
}

/// Whether `s` has the shape of an expression: exactly three tokens, the
/// middle one a supported operator.
pub open spec fn expr_shaped(s: Seq<char>) -> bool {
    expr_tokens(s).len() == 3 && is_op_spec(expr_tokens(s)[1])
}

/// Whether `t` is a supported operator token.
pub(crate) fn is_op(t: &str) -> (r: bool)
    ensures
        r == is_op_spec(t@),
{
    let len = t.unicode_len();
    if len == 1 {
        let c = t.get_char(0);
        c == '+' || c == '-' || c == '*' || c == '/' || c == '%' || c == '<' || c == '>'
    } else if len == 2 {
        let c0 = t.get_char(0);
        let c1 = t.get_char(1);
        c1 == '=' && (c0 == '<' || c0 == '>' || c0 == '=' || c0 == '!')
    } else {
        false
    }
}

/// Takes an expression string apart.
///
/// Returns the left operand, the operator and the right operand when the
/// trimmed string splits on single spaces into exactly three tokens and the
/// middle token is a supported operator; otherwise nothing. Whether the
/// operand tokens parse as 64-bit float literals, and what value the
/// expression then has, is decided by the caller that owns the floats.
pub fn expr_parts(s: &str) -> (r: Option<(String, String, String)>)
    ensures
        r is Some <==> expr_shaped(s@),
        r is Some ==> (r->0).0@ == expr_tokens(s@)[0],
        r is Some ==> (r->0).1@ == expr_tokens(s@)[1],
        r is Some ==> (r->0).2@ == expr_tokens(s@)[2],
{
    proof {
        reveal_strlit(" ");
        assert(" "@ =~= space_pat());
    }
    let t = trim(s);
    let toks = split_sep(t, " ");
    assert(toks.deep_view() == expr_tokens(s@));
    assert(toks@.len() == toks.deep_view().len());
    if toks.len() == 3 {
        assert(toks@[1]@ == expr_tokens(s@)[1]);
        if is_op(toks[1].as_str()) {
            let first = toks[0].clone();
            let op = toks[1].clone();
            let second = toks[2].clone();
            return Some((first, op, second));
        }
    }
    None
}

} // verus!
