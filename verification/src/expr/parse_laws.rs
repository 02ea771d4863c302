//! Laws of the expression parser.

use vstd::prelude::*;

use crate::expr::tokenizer::{char_at_is, name_end, quote_pos, whitespace_end};
use crate::expr::xexpr::{SExpr, s_binary};
use crate::expr::xop::XBinaryOp;
use crate::expr::xparser::{
    binary_function,
    digit_end,
    peek_text,
    sp_additive,
    sp_additive_rest,
    sp_comparison,
    sp_comparison_rest,
    sp_expression,
    sp_function_call,
    sp_multiplicative,
    sp_multiplicative_rest,
    sp_parse,
    sp_postfix,
    sp_postfix_rest,
    sp_primary,
    sp_unary,
    spec_parse,
    unary_function,
    within,
    sp_add_op,
    sp_cmp_op,
    sp_identifier,
    sp_identifier_opt,
    sp_match_str,
    sp_mul_op,
    sp_number,
    sp_string_literal,
};
use crate::text::{spec_is_digit, spec_is_whitespace};

verus! {

/// The result `a` is the result `b` with its position moved `k` places on.
pub open spec fn moved<R>(a: (R, int), b: (R, int), k: nat) -> bool {
    a.0 == b.0 && a.1 == b.1 + k
}

/// Within `w + s`, the characters of `s` stand `w.len()` places further on.
pub(crate) proof fn lemma_index_shift(w: Seq<char>, s: Seq<char>, p: int)
    requires
        0 <= p < s.len(),
    ensures
        (w + s)[p + w.len()] == s[p],
{
}

/// A run of `s` is the same run of `w + s`, `w.len()` places further on.
pub(crate) proof fn lemma_subrange_shift(w: Seq<char>, s: Seq<char>, a: int, b: int)
    requires
        0 <= a <= b <= s.len(),
    ensures
        (w + s).subrange(a + w.len(), b + w.len()) == s.subrange(a, b),
{
    assert((w + s).subrange(a + w.len(), b + w.len()) =~= s.subrange(a, b));
}

pub(crate) proof fn lemma_char_at_shift(w: Seq<char>, s: Seq<char>, p: int, c: char)
    requires
        0 <= p,
    ensures
        char_at_is(w + s, p + w.len(), c) == char_at_is(s, p, c),
{
    if p < s.len() {
        lemma_index_shift(w, s, p);
    }
}

pub(crate) proof fn lemma_peek_shift(w: Seq<char>, s: Seq<char>, p: int)
    requires
        0 <= p,
    ensures
        peek_text(w + s, p + w.len()) == peek_text(s, p),
{
    if p < s.len() {
        lemma_index_shift(w, s, p);
    }
}

pub(crate) proof fn lemma_whitespace_shift(w: Seq<char>, s: Seq<char>, p: int)
    requires
        0 <= p,
    ensures
        whitespace_end(w + s, p + w.len()) == whitespace_end(s, p) + w.len(),
        whitespace_end(s, p) >= p,
    decreases s.len() - p,
{
    if p < s.len() {
        lemma_index_shift(w, s, p);
        if spec_is_whitespace(s[p]) {
            lemma_whitespace_shift(w, s, p + 1);
        }
    }
}

pub(crate) proof fn lemma_name_end_shift(w: Seq<char>, s: Seq<char>, p: int)
    requires
        0 <= p,
    ensures
        name_end(w + s, p + w.len()) == name_end(s, p) + w.len(),
        p <= name_end(s, p) <= (if p <= s.len() { s.len() as int } else { p }),
    decreases s.len() - p,
{
    if p < s.len() {
        lemma_index_shift(w, s, p);
        lemma_name_end_shift(w, s, p + 1);
    }
}

pub(crate) proof fn lemma_quote_pos_shift(w: Seq<char>, s: Seq<char>, p: int)
    requires
        0 <= p,
    ensures
        quote_pos(w + s, p + w.len()) == quote_pos(s, p) + w.len(),
        p <= quote_pos(s, p) <= (if p <= s.len() { s.len() as int } else { p }),
    decreases s.len() - p,
{
    if p < s.len() {
        lemma_index_shift(w, s, p);
        lemma_quote_pos_shift(w, s, p + 1);
    }
}

pub(crate) proof fn lemma_digit_end_shift(w: Seq<char>, s: Seq<char>, p: int)
    requires
        0 <= p,
    ensures
        digit_end(w + s, p + w.len()) == digit_end(s, p) + w.len(),
        p <= digit_end(s, p) <= (if p <= s.len() { s.len() as int } else { p }),
    decreases s.len() - p,
{
    if p < s.len() {
        lemma_index_shift(w, s, p);
        lemma_digit_end_shift(w, s, p + 1);
    }
}

pub(crate) proof fn lemma_number_shift(w: Seq<char>, s: Seq<char>, p: int)
    requires
        0 <= p <= s.len(),
    ensures
        moved(sp_number(w + s, p + w.len()), sp_number(s, p), w.len()),
        sp_number(s, p).1 >= p,
{

    lemma_digit_end_shift(w, s, p);
    let de = digit_end(s, p);
    lemma_char_at_shift(w, s, de, '.');
    lemma_subrange_shift(w, s, p, de);
    if char_at_is(s, de, '.') {
        lemma_digit_end_shift(w, s, de + 1);
        let e = digit_end(s, de + 1);
        lemma_subrange_shift(w, s, de + 1, e);
        lemma_subrange_shift(w, s, p, e);
    }
}

pub(crate) proof fn lemma_identifier_opt_shift(w: Seq<char>, s: Seq<char>, p: int)
    requires
        0 <= p,
    ensures
        moved(sp_identifier_opt(w + s, p + w.len()), sp_identifier_opt(s, p), w.len()),
        sp_identifier_opt(s, p).1 >= p,
{
    if p < s.len() {
        lemma_index_shift(w, s, p);
        lemma_name_end_shift(w, s, p + 1);
        lemma_subrange_shift(w, s, p, name_end(s, p + 1));
    }
}

pub(crate) proof fn lemma_identifier_shift(w: Seq<char>, s: Seq<char>, p: int)
    requires
        0 <= p,
    ensures
        moved(sp_identifier(w + s, p + w.len()), sp_identifier(s, p), w.len()),
        sp_identifier(s, p).1 >= p,
{
    lemma_identifier_opt_shift(w, s, p);
}

pub(crate) proof fn lemma_string_literal_shift(w: Seq<char>, s: Seq<char>, p: int)
    requires
        0 <= p,
    ensures
        moved(sp_string_literal(w + s, p + w.len()), sp_string_literal(s, p), w.len()),
        sp_string_literal(s, p).1 >= p,
{
    lemma_char_at_shift(w, s, p, '"');
    if char_at_is(s, p, '"') {
        lemma_quote_pos_shift(w, s, p + 1);
        let q = quote_pos(s, p + 1);
        if q < s.len() {
            lemma_subrange_shift(w, s, p + 1, q);
        }
    } else {
        lemma_identifier_shift(w, s, p);
    }
}

pub(crate) proof fn lemma_match_str_shift(w: Seq<char>, s: Seq<char>, p: int, lit: Seq<char>)
    requires
        0 <= p,
    ensures
        sp_match_str(w + s, p + w.len(), lit).0 == sp_match_str(s, p, lit).0,
{
    if p + lit.len() <= s.len() {
        lemma_subrange_shift(w, s, p, p + lit.len());
    }
}

/// The operator tables read the same text at shifted positions.
pub(crate) proof fn lemma_ops_shift(w: Seq<char>, s: Seq<char>, q: int)
    requires
        0 <= q,
    ensures
        sp_cmp_op(w + s, q + w.len()) == (match sp_cmp_op(s, q) {
            Some((op, q2)) => Some((op, q2 + w.len())),
            None => None,
        }),
        sp_add_op(w + s, q + w.len()) == (match sp_add_op(s, q) {
            Some((op, q2)) => Some((op, q2 + w.len())),
            None => None,
        }),
        sp_mul_op(w + s, q + w.len()) == (match sp_mul_op(s, q) {
            Some((op, q2)) => Some((op, q2 + w.len())),
            None => None,
        }),
        sp_cmp_op(s, q) matches Some((_, q2)) ==> q < q2,
        sp_add_op(s, q) matches Some((_, q2)) ==> q < q2,
        sp_mul_op(s, q) matches Some((_, q2)) ==> q < q2,
{
    lemma_match_str_shift(w, s, q, seq!['<', '=']);
    lemma_match_str_shift(w, s, q, seq!['>', '=']);
    lemma_match_str_shift(w, s, q, seq!['=', '=']);
    lemma_match_str_shift(w, s, q, seq!['!', '=']);
    lemma_char_at_shift(w, s, q, '<');
    lemma_char_at_shift(w, s, q, '>');
    lemma_char_at_shift(w, s, q, '+');
    lemma_char_at_shift(w, s, q, '-');
    lemma_char_at_shift(w, s, q, '*');
    lemma_char_at_shift(w, s, q, '/');
}


// Each parsing step reads only the text from its position on: on `w + s`, at a
// position `w.len()` places further on, it gives the same result, with its end
// position moved on as much; and it never ends before it started.

pub(crate) proof fn lemma_expression_shift(w: Seq<char>, s: Seq<char>, p: int)
    requires
        0 <= p,
    ensures
        moved(sp_expression(w + s, p + w.len()), sp_expression(s, p), w.len()),
        sp_expression(s, p).1 >= p,
    decreases s.len() - p, 10int,
{
    if within(s, p) {
        lemma_comparison_shift(w, s, p);
    }
}

pub(crate) proof fn lemma_comparison_shift(w: Seq<char>, s: Seq<char>, p: int)
    requires
        0 <= p,
    ensures
        moved(sp_comparison(w + s, p + w.len()), sp_comparison(s, p), w.len()),
        sp_comparison(s, p).1 >= p,
    decreases s.len() - p, 9int,
{
    if within(s, p) {
        lemma_additive_shift(w, s, p);
        match sp_additive(s, p) {
            (Ok(l), p1) => if p <= p1 <= s.len() {
                lemma_comparison_rest_shift(w, s, l, p1);
            },
            _ => {},
        }
    }
}

pub(crate) proof fn lemma_comparison_rest_shift(w: Seq<char>, s: Seq<char>, l: SExpr, p: int)
    requires
        0 <= p,
    ensures
        moved(sp_comparison_rest(w + s, l, p + w.len()), sp_comparison_rest(s, l, p), w.len()),
        sp_comparison_rest(s, l, p).1 >= p,
    decreases s.len() - p, 8int,
{
    lemma_whitespace_shift(w, s, p);
    let q = whitespace_end(s, p);
    lemma_ops_shift(w, s, q);
    match sp_cmp_op(s, q) {
        Some((op, q2)) => {
            lemma_whitespace_shift(w, s, q2);
            let r = whitespace_end(s, q2);
            if within(s, p) && p < r <= s.len() {
                lemma_additive_shift(w, s, r);
                match sp_additive(s, r) {
                    (Ok(right), p3) => if r <= p3 <= s.len() {
                        lemma_comparison_rest_shift(w, s, s_binary(l, op, right), p3);
                    },
                    _ => {},
                }
            }
        },
        None => {},
    }
}

pub(crate) proof fn lemma_additive_shift(w: Seq<char>, s: Seq<char>, p: int)
    requires
        0 <= p,
    ensures
        moved(sp_additive(w + s, p + w.len()), sp_additive(s, p), w.len()),
        sp_additive(s, p).1 >= p,
    decreases s.len() - p, 7int,
{
    if within(s, p) {
        lemma_multiplicative_shift(w, s, p);
        match sp_multiplicative(s, p) {
            (Ok(l), p1) => if p <= p1 <= s.len() {
                lemma_additive_rest_shift(w, s, l, p1);
            },
            _ => {},
        }
    }
}

pub(crate) proof fn lemma_additive_rest_shift(w: Seq<char>, s: Seq<char>, l: SExpr, p: int)
    requires
        0 <= p,
    ensures
        moved(sp_additive_rest(w + s, l, p + w.len()), sp_additive_rest(s, l, p), w.len()),
        sp_additive_rest(s, l, p).1 >= p,
    decreases s.len() - p, 6int,
{
    lemma_whitespace_shift(w, s, p);
    let q = whitespace_end(s, p);
    lemma_ops_shift(w, s, q);
    match sp_add_op(s, q) {
        Some((op, q2)) => {
            lemma_whitespace_shift(w, s, q2);
            let r = whitespace_end(s, q2);
            if within(s, p) && p < r <= s.len() {
                lemma_multiplicative_shift(w, s, r);
                match sp_multiplicative(s, r) {
                    (Ok(right), p3) => if r <= p3 <= s.len() {
                        lemma_additive_rest_shift(w, s, s_binary(l, op, right), p3);
                    },
                    _ => {},
                }
            }
        },
        None => {},
    }
}

pub(crate) proof fn lemma_multiplicative_shift(w: Seq<char>, s: Seq<char>, p: int)
    requires
        0 <= p,
    ensures
        moved(sp_multiplicative(w + s, p + w.len()), sp_multiplicative(s, p), w.len()),
        sp_multiplicative(s, p).1 >= p,
    decreases s.len() - p, 5int,
{
    if within(s, p) {
        lemma_unary_shift(w, s, p);
        match sp_unary(s, p) {
            (Ok(l), p1) => if p <= p1 <= s.len() {
                lemma_multiplicative_rest_shift(w, s, l, p1);
            },
            _ => {},
        }
    }
}

pub(crate) proof fn lemma_multiplicative_rest_shift(w: Seq<char>, s: Seq<char>, l: SExpr, p: int)
    requires
        0 <= p,
    ensures
        moved(
            sp_multiplicative_rest(w + s, l, p + w.len()),
            sp_multiplicative_rest(s, l, p),
            w.len(),
        ),
        sp_multiplicative_rest(s, l, p).1 >= p,
    decreases s.len() - p, 4int,
{
    lemma_whitespace_shift(w, s, p);
    let q = whitespace_end(s, p);
    lemma_ops_shift(w, s, q);
    match sp_mul_op(s, q) {
        Some((op, q2)) => {
            lemma_whitespace_shift(w, s, q2);
            let r = whitespace_end(s, q2);
            if within(s, p) && p < r <= s.len() {
                lemma_unary_shift(w, s, r);
                match sp_unary(s, r) {
                    (Ok(right), p3) => if r <= p3 <= s.len() {
                        lemma_multiplicative_rest_shift(w, s, s_binary(l, op, right), p3);
                    },
                    _ => {},
                }
            }
        },
        None => {},
    }
}

pub(crate) proof fn lemma_unary_shift(w: Seq<char>, s: Seq<char>, p: int)
    requires
        0 <= p,
    ensures
        moved(sp_unary(w + s, p + w.len()), sp_unary(s, p), w.len()),
        sp_unary(s, p).1 >= p,
    decreases s.len() - p, 3int,
{
    lemma_whitespace_shift(w, s, p);
    let q = whitespace_end(s, p);
    if within(s, p) && p <= q <= s.len() {
        lemma_char_at_shift(w, s, q, '-');
        if char_at_is(s, q, '-') {
            lemma_whitespace_shift(w, s, q + 1);
            let r = whitespace_end(s, q + 1);
            if p < r <= s.len() {
                lemma_unary_shift(w, s, r);
            }
        } else {
            lemma_postfix_shift(w, s, q);
        }
    }
}

pub(crate) proof fn lemma_postfix_shift(w: Seq<char>, s: Seq<char>, p: int)
    requires
        0 <= p,
    ensures
        moved(sp_postfix(w + s, p + w.len()), sp_postfix(s, p), w.len()),
        sp_postfix(s, p).1 >= p,
    decreases s.len() - p, 2int,
{
    if within(s, p) {
        lemma_primary_shift(w, s, p);
        match sp_primary(s, p) {
            (Ok(e), p1) => {
                lemma_postfix_rest_shift(w, s, e, p1);
            },
            _ => {},
        }
    }
}

pub(crate) proof fn lemma_postfix_rest_shift(w: Seq<char>, s: Seq<char>, e: SExpr, p: int)
    requires
        0 <= p,
    ensures
        moved(sp_postfix_rest(w + s, e, p + w.len()), sp_postfix_rest(s, e, p), w.len()),
        sp_postfix_rest(s, e, p).1 >= p,
    decreases s.len() - p,
{
    lemma_whitespace_shift(w, s, p);
    let q = whitespace_end(s, p);
    lemma_char_at_shift(w, s, q, '.');
    if char_at_is(s, q, '.') {
        if q + 1 < s.len() {
            lemma_index_shift(w, s, q + 1);
        }
        if !(q + 1 < s.len() && spec_is_digit(s[q + 1])) {
            lemma_identifier_shift(w, s, q + 1);
            match sp_identifier(s, q + 1) {
                (Ok(field), p2) => if 0 <= p < p2 <= s.len() {
                    lemma_postfix_rest_shift(w, s, s_binary(e, XBinaryOp::Dot, SExpr::Attr(field)), p2);
                },
                _ => {},
            }
        }
    }
}

#[verifier::spinoff_prover]
#[verifier::rlimit(50)]
pub(crate) proof fn lemma_primary_shift(w: Seq<char>, s: Seq<char>, p: int)
    requires
        0 <= p,
    ensures
        moved(sp_primary(w + s, p + w.len()), sp_primary(s, p), w.len()),
        sp_primary(s, p).1 >= p,
    decreases s.len() - p, 1int,
{
    lemma_whitespace_shift(w, s, p);
    let q = whitespace_end(s, p);
    if within(s, p) && p <= q <= s.len() {
        lemma_char_at_shift(w, s, q, '(');
        if char_at_is(s, q, '(') {
            lemma_expression_shift(w, s, q + 1);
            match sp_expression(s, q + 1) {
                (Ok(_), p1) => {
                    lemma_whitespace_shift(w, s, p1);
                    lemma_char_at_shift(w, s, whitespace_end(s, p1), ')');
                },
                _ => {},
            }
        } else {
            lemma_number_shift(w, s, q);
            match sp_number(s, q) {
                (Ok(None), _) => {
                    lemma_identifier_opt_shift(w, s, q);
                    match sp_identifier_opt(s, q) {
                        (Some(name), p2) => {
                            lemma_whitespace_shift(w, s, p2);
                            let p3 = whitespace_end(s, p2);
                            lemma_char_at_shift(w, s, p3, '(');
                            if char_at_is(s, p3, '(') && p < p3 + 1 <= s.len() {
                                lemma_function_call_shift(w, s, name, p3 + 1);
                            }
                        },
                        _ => {},
                    }
                },
                _ => {},
            }
        }
    }
}

/// The tail `(<expression> <close>` of a call, read from `p`: the shift of its
/// sub-results, given that the expression's result shifts.
pub(crate) proof fn lemma_argument_tail_shift(w: Seq<char>, s: Seq<char>, p1: int, c: char)
    requires
        0 <= p1,
    ensures
        whitespace_end(w + s, p1 + w.len()) == whitespace_end(s, p1) + w.len(),
        whitespace_end(s, p1) >= p1,
        char_at_is(w + s, whitespace_end(s, p1) + w.len(), c) == char_at_is(s, whitespace_end(s, p1), c),
        peek_text(w + s, whitespace_end(s, p1) + w.len()) == peek_text(s, whitespace_end(s, p1)),
{
    lemma_whitespace_shift(w, s, p1);
    lemma_char_at_shift(w, s, whitespace_end(s, p1), c);
    lemma_peek_shift(w, s, whitespace_end(s, p1));
}

pub(crate) proof fn lemma_function_call_shift(w: Seq<char>, s: Seq<char>, name: Seq<char>, p: int)
    requires
        0 <= p,
    ensures
        moved(sp_function_call(w + s, name, p + w.len()), sp_function_call(s, name, p), w.len()),
        sp_function_call(s, name, p).1 >= p,
    decreases s.len() - p, 12int,
{
    if !within(s, p) {
    } else if unary_function(name) is Some {
        lemma_unary_call_shift(w, s, name, p);
    } else if binary_function(name) is Some || name == "vec2"@ {
        lemma_pair_call_shift(w, s, name, p);
    } else if name == "vec3"@ {
        lemma_vec3_call_shift(w, s, name, p);
    } else if name == "attr"@ || name == "prop"@ {
        lemma_whitespace_shift(w, s, p);
        lemma_string_literal_shift(w, s, whitespace_end(s, p));
        let p1 = sp_string_literal(s, whitespace_end(s, p)).1;
        lemma_argument_tail_shift(w, s, p1, ')');
    }
}

pub(crate) proof fn lemma_unary_call_shift(w: Seq<char>, s: Seq<char>, name: Seq<char>, p: int)
    requires
        0 <= p,
        within(s, p),
        unary_function(name) is Some,
    ensures
        moved(sp_function_call(w + s, name, p + w.len()), sp_function_call(s, name, p), w.len()),
        sp_function_call(s, name, p).1 >= p,
    decreases s.len() - p, 11int,
{
    lemma_expression_shift(w, s, p);
    let p1 = sp_expression(s, p).1;
    lemma_argument_tail_shift(w, s, p1, ')');
}

#[verifier::spinoff_prover]
#[verifier::rlimit(80)]
pub(crate) proof fn lemma_pair_call_shift(w: Seq<char>, s: Seq<char>, name: Seq<char>, p: int)
    requires
        0 <= p,
        within(s, p),
        unary_function(name) is None,
        binary_function(name) is Some || name == "vec2"@,
    ensures
        moved(sp_function_call(w + s, name, p + w.len()), sp_function_call(s, name, p), w.len()),
        sp_function_call(s, name, p).1 >= p,
    decreases s.len() - p, 11int,
{
    lemma_expression_shift(w, s, p);
    let p1 = sp_expression(s, p).1;
    lemma_argument_tail_shift(w, s, p1, ',');
    let p2 = whitespace_end(s, p1);
    lemma_whitespace_shift(w, s, p2 + 1);
    let p3 = whitespace_end(s, p2 + 1);
    if p < p3 <= s.len() {
        lemma_expression_shift(w, s, p3);
        let p4 = sp_expression(s, p3).1;
        lemma_argument_tail_shift(w, s, p4, ')');
    }
}

#[verifier::spinoff_prover]
#[verifier::rlimit(100)]
pub(crate) proof fn lemma_vec3_call_shift(w: Seq<char>, s: Seq<char>, name: Seq<char>, p: int)
    requires
        0 <= p,
        within(s, p),
        unary_function(name) is None,
        binary_function(name) is None,
        name == "vec3"@,
    ensures
        moved(sp_function_call(w + s, name, p + w.len()), sp_function_call(s, name, p), w.len()),
        sp_function_call(s, name, p).1 >= p,
    decreases s.len() - p, 11int,
{
    reveal_strlit("vec2");
    reveal_strlit("vec3");
    assert(name != "vec2"@) by {
        assert(name[3] != "vec2"@[3]);
    }
    lemma_expression_shift(w, s, p);
    let p1 = sp_expression(s, p).1;
    lemma_argument_tail_shift(w, s, p1, ',');
    let p2 = whitespace_end(s, p1);
    lemma_whitespace_shift(w, s, p2 + 1);
    let p3 = whitespace_end(s, p2 + 1);
    if p < p3 <= s.len() {
        lemma_expression_shift(w, s, p3);
        let p4 = sp_expression(s, p3).1;
        lemma_argument_tail_shift(w, s, p4, ',');
        let p5 = whitespace_end(s, p4);
        lemma_whitespace_shift(w, s, p5 + 1);
        let p6 = whitespace_end(s, p5 + 1);
        if p < p6 <= s.len() {
            lemma_expression_shift(w, s, p6);
            let p7 = sp_expression(s, p6).1;
            lemma_argument_tail_shift(w, s, p7, ')');
        }
    }
}

/// Whitespace before an expression does not change what it parses to: for any
/// run `w` of whitespace characters, parsing `w + s` gives what parsing `s` gives.
pub proof fn lemma_parse_ignores_leading_whitespace(w: Seq<char>, s: Seq<char>)
    requires
        forall|i: int| 0 <= i < w.len() ==> spec_is_whitespace(#[trigger] w[i]),
    ensures
        spec_parse(w + s) == spec_parse(s),
{
    let t = w + s;

    lemma_whitespace_shift(w, s, 0);
    lemma_leading_whitespace_skipped(w, s, 0);
    let q = whitespace_end(s, 0);
    assert(whitespace_end(t, 0) == q + w.len());
    lemma_expression_shift(w, s, q);
    match sp_expression(s, q) {
        (Ok(_), p1) => {
            lemma_whitespace_shift(w, s, p1);
            let p2 = whitespace_end(s, p1);
            if 0 <= p2 < s.len() {
                lemma_index_shift(w, s, p2);
            }
        },
        _ => {},
    }
}

/// Skipping whitespace from inside a whitespace prefix `w` of `w + s` goes past all of `w`.
proof fn lemma_leading_whitespace_skipped(w: Seq<char>, s: Seq<char>, i: int)
    requires
        0 <= i <= w.len(),
        forall|j: int| 0 <= j < w.len() ==> spec_is_whitespace(#[trigger] w[j]),
    ensures
        whitespace_end(w + s, i) == whitespace_end(w + s, w.len() as int),
    decreases w.len() - i,
{
    if i < w.len() {
        assert((w + s)[i] == w[i]);
        lemma_leading_whitespace_skipped(w, s, i + 1);
    }
}

} // verus!
