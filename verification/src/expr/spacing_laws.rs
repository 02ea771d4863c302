//! Laws of whitespace between tokens: spaces between the tokens of an
//! expression do not change how it is read.

use vstd::prelude::*;

use crate::expr::parse_laws::{
    lemma_additive_rest_shift,
    lemma_additive_shift,
    lemma_comparison_rest_shift,
    lemma_comparison_shift,
    lemma_expression_shift,
    lemma_function_call_shift,
    lemma_identifier_opt_shift,
    lemma_multiplicative_rest_shift,
    lemma_multiplicative_shift,
    lemma_number_shift,
    lemma_ops_shift,
    lemma_postfix_rest_shift,
    lemma_postfix_shift,
    lemma_primary_shift,
    lemma_string_literal_shift,
    lemma_unary_shift,
    lemma_digit_end_shift,
    lemma_match_str_shift,
    lemma_name_end_shift,
    lemma_quote_pos_shift,
    lemma_whitespace_shift,
};
use crate::expr::tokenizer::{
    char_at_is,
    is_name_char,
    lemma_quote_pos,
    name_end,
    quote_pos,
    whitespace_end,
};
use crate::expr::xexpr::{SExpr, s_binary};
use crate::expr::xop::XBinaryOp;
use crate::expr::xparser::{
    binary_function,
    digit_end,
    peek_text,
    sp_add_op,
    sp_additive,
    sp_additive_rest,
    sp_cmp_op,
    sp_comparison,
    sp_comparison_rest,
    sp_expression,
    sp_function_call,
    sp_identifier,
    sp_identifier_opt,
    sp_match_str,
    sp_mul_op,
    sp_multiplicative,
    sp_multiplicative_rest,
    sp_number,
    sp_postfix,
    sp_postfix_rest,
    sp_primary,
    sp_string_literal,
    sp_unary,
    spec_parse,
    unary_function,
    within,
};
use crate::text::{spec_is_alphabetic, spec_is_digit, spec_is_whitespace};

verus! {

/// A character next to which whitespace may stand without joining or
/// splitting a token: a parenthesis, a comma, or an operator character.
pub open spec fn is_separator(c: char) -> bool {
    c == '(' || c == ')' || c == ',' || c == '+' || c == '-' || c == '*' || c == '/' || c == '<'
        || c == '>'
}

/// Whether `c` then `d` is one of the two-character comparisons.
pub open spec fn splits_comparison(c: char, d: char) -> bool {
    d == '=' && (c == '<' || c == '>' || c == '=' || c == '!')
}

/// The number of `"` in `s`.
pub open spec fn quote_count(s: Seq<char>) -> nat
    decreases s.len(),
{
    if s.len() == 0 {
        0
    } else {
        quote_count(s.drop_last()) + (if s.last() == '"' {
            1nat
        } else {
            0nat
        })
    }
}

/// Whether place `p` of `a + b` stands outside every quoted name: past `a`,
/// or after an even number of quotes.
pub open spec fn outside_quotes(a: Seq<char>, p: int) -> bool {
    p > a.len() || (0 <= p && quote_count(a.subrange(0, p)) % 2 == 0)
}

/// Whether the end of `a` stands outside every quoted name.
pub open spec fn ends_outside_quotes(a: Seq<char>) -> bool {
    outside_quotes(a, a.len() as int)
}

/// ASCII whitespace: tab, line feed, vertical tab, form feed, carriage return
/// and space.
pub open spec fn is_ascii_space(c: char) -> bool {
    spec_is_whitespace(c) && c <= '\u{7f}'
}

/// Whether the ASCII whitespace `w` may stand between `a` and `b` without
/// changing how `a + b` is read: at either end, or next to a separator, and
/// neither inside a two-character comparison nor inside a quoted name (after
/// an odd number of quotes).
pub open spec fn spacing_allowed(a: Seq<char>, w: Seq<char>, b: Seq<char>) -> bool {
    &&& forall|i: int| 0 <= i < w.len() ==> is_ascii_space(#[trigger] w[i])
    &&& (a.len() == 0 || b.len() == 0 || is_separator(a.last()) || is_separator(b[0]))
    &&& !(a.len() > 0 && b.len() > 0 && splits_comparison(a.last(), b[0]))
    &&& ends_outside_quotes(a)
}

/// Where a position of `a + b` stands in `a + w + b`.
pub open spec fn tpos(a: Seq<char>, w: Seq<char>, x: int) -> int {
    if x < a.len() {
        x
    } else {
        x + w.len()
    }
}

/// Whether positions `x1` of `a + b` and `x2` of `a + w + b` correspond: the
/// same place, where the boundary may also stand before `w`.
pub open spec fn corr(a: Seq<char>, w: Seq<char>, x1: int, x2: int) -> bool {
    x2 == tpos(a, w, x1) || (x1 == a.len() && x2 == a.len())
}

/// Two results that are the same, at corresponding positions.
pub open spec fn agree<R>(a: Seq<char>, w: Seq<char>, r1: (R, int), r2: (R, int)) -> bool {
    r1.0 == r2.0 && corr(a, w, r1.1, r2.1)
}

/// The characters at corresponding places are the same.
proof fn lemma_ins_index(a: Seq<char>, w: Seq<char>, b: Seq<char>, x: int)
    requires
        0 <= x,
    ensures
        x < (a + b).len() <==> tpos(a, w, x) < (a + w + b).len(),
        x <= (a + b).len() <==> tpos(a, w, x) <= (a + w + b).len(),
        x < (a + b).len() ==> (a + w + b)[tpos(a, w, x)] == (a + b)[x],
{
}

/// Text below the boundary is the same in both.
proof fn lemma_ins_prefix(a: Seq<char>, w: Seq<char>, b: Seq<char>, i: int, j: int)
    requires
        0 <= i <= j <= a.len(),
    ensures
        (a + w + b).subrange(i, j) == (a + b).subrange(i, j),
{
    assert((a + w + b).subrange(i, j) =~= (a + b).subrange(i, j));
}

/// Whitespace runs through `w`.
proof fn lemma_ins_skip(a: Seq<char>, w: Seq<char>, b: Seq<char>, i: int)
    requires
        a.len() <= i <= a.len() + w.len(),
        forall|j: int| 0 <= j < w.len() ==> is_ascii_space(#[trigger] w[j]),
    ensures
        whitespace_end(a + w + b, i) == whitespace_end(a + w + b, (a.len() + w.len()) as int),
        quote_pos(a + w + b, i) == quote_pos(a + w + b, (a.len() + w.len()) as int),
    decreases a.len() + w.len() - i,
{
    if i < a.len() + w.len() {
        assert((a + w + b)[i] == w[i - a.len()]);
        lemma_ins_skip(a, w, b, i + 1);
    }
}

/// A run of whitespace ends at corresponding places.
proof fn lemma_ins_ws(a: Seq<char>, w: Seq<char>, b: Seq<char>, x1: int, x2: int)
    requires
        0 <= x1,
        corr(a, w, x1, x2),
        forall|j: int| 0 <= j < w.len() ==> is_ascii_space(#[trigger] w[j]),
    ensures
        whitespace_end(a + w + b, x2) == tpos(a, w, whitespace_end(a + b, x1)),
        whitespace_end(a + b, x1) >= x1,
    decreases (a + b).len() - x1,
{
    let k = a.len() as int;
    if x1 >= k && x2 == x1 + w.len() {
        lemma_whitespace_shift(a, b, x1 - k);
        lemma_whitespace_shift(a + w, b, x1 - k);
        assert(a + w + b == (a + w) + b);
    } else if x1 == k && x2 == k {
        lemma_ins_skip(a, w, b, k);
        lemma_whitespace_shift(a, b, 0);
        lemma_whitespace_shift(a + w, b, 0);
        assert(a + w + b == (a + w) + b);
    } else {
        if x1 < (a + b).len() && spec_is_whitespace((a + b)[x1]) {
            lemma_ins_ws(a, w, b, x1 + 1, x1 + 1);
        }
    }
}

/// A run of digits ends at corresponding places, and below the boundary
/// where it starts below it.
proof fn lemma_ins_digits(a: Seq<char>, w: Seq<char>, b: Seq<char>, x1: int, x2: int)
    requires
        0 <= x1,
        spacing_allowed(a, w, b),
        w.len() >= 1,
        corr(a, w, x1, x2),
        x1 == a.len() && x2 == a.len() ==> (b.len() == 0 || !spec_is_digit(b[0])),
    ensures
        corr(a, w, digit_end(a + b, x1), digit_end(a + w + b, x2)),
        x1 < a.len() ==> digit_end(a + b, x1) <= a.len() && digit_end(a + w + b, x2) == digit_end(
            a + b,
            x1,
        ),
        x2 == a.len() ==> digit_end(a + w + b, x2) == a.len() && digit_end(a + b, x1) == a.len(),
        digit_end(a + b, x1) >= x1,
    decreases (a + b).len() - x1,
{
    let k = a.len() as int;
    let s1 = a + b;
    let s2 = a + w + b;
    if x1 >= k && x2 == x1 + w.len() {
        lemma_digit_end_shift(a, b, x1 - k);
        lemma_digit_end_shift(a + w, b, x1 - k);
        assert(s2 == (a + w) + b);
    } else if x1 == k && x2 == k {
        assert(s2[k] == w[0]);
    } else {
        if x1 < s1.len() && spec_is_digit(s1[x1]) {
            if x1 + 1 == k {
                assert(a.last() == s1[x1]);
                assert(s2[k] == w[0]);
            }
            lemma_ins_digits(a, w, b, x1 + 1, x1 + 1);
        }
    }
}

/// A name-start character is never a separator, nor is a digit or a `.`.
proof fn lemma_separator_chars(c: char)
    requires
        is_separator(c),
    ensures
        !spec_is_digit(c),
        !is_name_char(c),
        !spec_is_alphabetic(c),
        c != '_',
        c != '.',
        c != '"',
        !spec_is_whitespace(c),
{
}

/// ASCII whitespace continues no name, number or quoted text.
proof fn lemma_space_chars(c: char)
    requires
        is_ascii_space(c),
    ensures
        !spec_is_digit(c),
        !is_name_char(c),
        !spec_is_alphabetic(c),
        c != '_',
        c != '.',
        c != '"',
        c != '=',
{
}

/// A run of name characters ends at corresponding places, and below the
/// boundary where it starts below it.
proof fn lemma_ins_names(a: Seq<char>, w: Seq<char>, b: Seq<char>, x1: int, x2: int)
    requires
        0 <= x1,
        spacing_allowed(a, w, b),
        w.len() >= 1,
        corr(a, w, x1, x2),
        x1 == a.len() && x2 == a.len() ==> (b.len() == 0 || !is_name_char(b[0])),
    ensures
        corr(a, w, name_end(a + b, x1), name_end(a + w + b, x2)),
        x1 < a.len() ==> name_end(a + b, x1) <= a.len() && name_end(a + w + b, x2) == name_end(
            a + b,
            x1,
        ),
        name_end(a + b, x1) >= x1,
    decreases (a + b).len() - x1,
{
    let k = a.len() as int;
    let s1 = a + b;
    let s2 = a + w + b;
    lemma_space_chars(w[0]);
    if x1 >= k && x2 == x1 + w.len() {
        lemma_name_end_shift(a, b, x1 - k);
        lemma_name_end_shift(a + w, b, x1 - k);
        assert(s2 == (a + w) + b);
    } else if x1 == k && x2 == k {
        assert(s2[k] == w[0]);
    } else {
        if x1 < s1.len() && is_name_char(s1[x1]) {
            if x1 + 1 == k {
                assert(a.last() == s1[x1]);
                assert(s2[k] == w[0]);
                if b.len() > 0 {
                    if is_separator(b[0]) {
                        lemma_separator_chars(b[0]);
                    } else {
                        lemma_separator_chars(a.last());
                    }
                }
            }
            lemma_ins_names(a, w, b, x1 + 1, x1 + 1);
        }
    }
}

/// The next `"` stands at corresponding places.
proof fn lemma_ins_quote(a: Seq<char>, w: Seq<char>, b: Seq<char>, x1: int, x2: int)
    requires
        0 <= x1,
        corr(a, w, x1, x2),
        forall|j: int| 0 <= j < w.len() ==> is_ascii_space(#[trigger] w[j]),
    ensures
        quote_pos(a + w + b, x2) == tpos(a, w, quote_pos(a + b, x1)),
        quote_pos(a + b, x1) >= x1,
    decreases (a + b).len() - x1,
{
    let k = a.len() as int;
    if x1 >= k && x2 == x1 + w.len() {
        lemma_quote_pos_shift(a, b, x1 - k);
        lemma_quote_pos_shift(a + w, b, x1 - k);
        assert(a + w + b == (a + w) + b);
    } else if x1 == k && x2 == k {
        lemma_ins_skip(a, w, b, k);
        lemma_quote_pos_shift(a, b, 0);
        lemma_quote_pos_shift(a + w, b, 0);
        assert(a + w + b == (a + w) + b);
    } else {
        if x1 < (a + b).len() && (a + b)[x1] != '"' {
            lemma_ins_quote(a, w, b, x1 + 1, x1 + 1);
        }
    }
}

/// A two-character comparison is seen at corresponding places alike.
proof fn lemma_ins_match(a: Seq<char>, w: Seq<char>, b: Seq<char>, q: int, lit: Seq<char>)
    requires
        0 <= q,
        spacing_allowed(a, w, b),
        w.len() >= 1,
        lit.len() == 2,
        splits_comparison(lit[0], lit[1]),
    ensures
        sp_match_str(a + w + b, tpos(a, w, q), lit).0 == sp_match_str(a + b, q, lit).0,
        q + 1 == a.len() ==> !sp_match_str(a + b, q, lit).0,
{
    let k = a.len() as int;
    let s1 = a + b;
    let s2 = a + w + b;
    if q >= k {
        lemma_match_str_shift(a, b, q - k, lit);
        lemma_match_str_shift(a + w, b, q - k, lit);
        assert(s2 == (a + w) + b);
    } else if q + 2 <= k {
        lemma_ins_prefix(a, w, b, q, q + 2);
    } else {
        // The comparison would straddle the boundary.
        assert(q + 1 == k);
        lemma_space_chars(w[0]);
        if q + 2 <= s2.len() {
            assert(s2.subrange(q, q + 2)[1] == w[0]);
        }
        if q + 2 <= s1.len() && s1.subrange(q, q + 2) == lit {
            assert(s1.subrange(q, q + 2)[0] == a.last());
            assert(s1.subrange(q, q + 2)[1] == b[0]);
        }
    }
}


/// Two operator readings that are the same operator, ending at
/// corresponding places after `q`.
pub open spec fn ops_agree(
    a: Seq<char>,
    w: Seq<char>,
    q: int,
    o1: Option<(XBinaryOp, int)>,
    o2: Option<(XBinaryOp, int)>,
) -> bool {
    match (o1, o2) {
        (None, None) => true,
        (Some((x, e1)), Some((y, e2))) => x == y && corr(a, w, e1, e2) && e1 > q,
        _ => false,
    }
}

/// A run of digits that is not empty ends after a digit.
proof fn lemma_digit_end_last(s: Seq<char>, p: int)
    requires
        0 <= p,
    ensures
        digit_end(s, p) >= p,
        digit_end(s, p) > p ==> digit_end(s, p) <= s.len() && spec_is_digit(s[digit_end(s, p) - 1]),
    decreases s.len() - p,
{
    if 0 <= p < s.len() && spec_is_digit(s[p]) {
        lemma_digit_end_last(s, p + 1);
    }
}

/// A number is read alike from corresponding places.
proof fn lemma_ins_number(a: Seq<char>, w: Seq<char>, b: Seq<char>, q: int)
    requires
        0 <= q <= (a + b).len(),
        spacing_allowed(a, w, b),
        w.len() >= 1,
    ensures
        agree(a, w, sp_number(a + b, q), sp_number(a + w + b, tpos(a, w, q))),
        sp_number(a + b, q).1 >= q,
{
    let k = a.len() as int;
    let s1 = a + b;
    let s2 = a + w + b;
    lemma_space_chars(w[0]);
    if q >= k {
        lemma_number_shift(a, b, q - k);
        lemma_number_shift(a + w, b, q - k);
        assert(s2 == (a + w) + b);
    } else {
        lemma_ins_digits(a, w, b, q, q);
        let de = digit_end(s1, q);
        lemma_digit_end_last(s1, q);
        if de < k {
            lemma_ins_index(a, w, b, de);
        } else {
            assert(s2[k] == w[0]);
            if de > q && b.len() > 0 {
                assert(a.last() == s1[k - 1]);
                if is_separator(b[0]) {
                    lemma_separator_chars(b[0]);
                } else {
                    lemma_separator_chars(a.last());
                }
            }
        }
        if char_at_is(s1, de, '.') {
            assert(de < k);
            if de + 1 == k && b.len() > 0 {
                assert(a.last() == '.');
                if is_separator(b[0]) {
                    lemma_separator_chars(b[0]);
                } else {
                    lemma_separator_chars(a.last());
                }
            }
            lemma_ins_digits(a, w, b, de + 1, de + 1);
            let e = digit_end(s1, de + 1);
            lemma_ins_prefix(a, w, b, q, e);
            lemma_ins_prefix(a, w, b, q, de);
            lemma_ins_prefix(a, w, b, de + 1, e);
        } else {
            lemma_ins_prefix(a, w, b, q, de);
        }
    }
}

/// A name is read alike from corresponding places.
proof fn lemma_ins_identifier_opt(a: Seq<char>, w: Seq<char>, b: Seq<char>, q1: int, q2: int)
    requires
        0 <= q1,
        corr(a, w, q1, q2),
        q1 == a.len() && q2 == a.len() ==> (b.len() == 0 || is_separator(b[0])),
        spacing_allowed(a, w, b),
        w.len() >= 1,
    ensures
        agree(a, w, sp_identifier_opt(a + b, q1), sp_identifier_opt(a + w + b, q2)),
        agree(a, w, sp_identifier(a + b, q1), sp_identifier(a + w + b, q2)),
        sp_identifier_opt(a + b, q1).1 >= q1,
        sp_identifier_opt(a + w + b, q2).1 >= q2,
{
    let k = a.len() as int;
    let s1 = a + b;
    let s2 = a + w + b;
    lemma_space_chars(w[0]);
    if q1 >= k && q2 == q1 + w.len() {
        lemma_identifier_opt_shift(a, b, q1 - k);
        lemma_identifier_opt_shift(a + w, b, q1 - k);
        assert(s2 == (a + w) + b);
    } else if q1 == k && q2 == k {
        assert(s2[k] == w[0]);
        if b.len() > 0 {
            lemma_separator_chars(b[0]);
        }
    } else {
        if q1 < s1.len() {
            lemma_ins_index(a, w, b, q1);
        }
        if q1 < s1.len() && (spec_is_alphabetic(s1[q1]) || s1[q1] == '_') {
            if q1 + 1 == k && b.len() > 0 {
                assert(a.last() == s1[q1]);
                if is_separator(b[0]) {
                    lemma_separator_chars(b[0]);
                } else {
                    lemma_separator_chars(a.last());
                }
            }
            lemma_ins_names(a, w, b, q1 + 1, q1 + 1);
            lemma_ins_prefix(a, w, b, q1, name_end(s1, q1 + 1));
        }
    }
}

/// A character that closes something keeps a place outside quoted names.
proof fn lemma_outside_after(a: Seq<char>, b: Seq<char>, p: int, c: char)
    requires
        0 <= p,
        outside_quotes(a, p),
        ends_outside_quotes(a),
        c != '"',
    ensures
        char_at_is(a + b, p, c) ==> outside_quotes(a, p + 1),
{
    if char_at_is(a + b, p, c) {
        lemma_outside_step(a, b, p);
    }
}

/// An operator keeps a place outside quoted names.
proof fn lemma_outside_ops(a: Seq<char>, b: Seq<char>, q: int)
    requires
        0 <= q,
        outside_quotes(a, q),
        ends_outside_quotes(a),
    ensures
        sp_cmp_op(a + b, q) matches Some((_, e)) ==> outside_quotes(a, e),
        sp_add_op(a + b, q) matches Some((_, e)) ==> outside_quotes(a, e),
        sp_mul_op(a + b, q) matches Some((_, e)) ==> outside_quotes(a, e),
{
    let s1 = a + b;
    if q < s1.len() && s1[q] != '"' {
        lemma_outside_step(a, b, q);
        if q + 1 < s1.len() && s1[q + 1] == '=' {
            lemma_outside_step(a, b, q + 1);
        }
    }
    if q + 2 <= s1.len() {
        assert(s1.subrange(q, q + 2)[0] == s1[q]);
        assert(s1.subrange(q, q + 2)[1] == s1[q + 1]);
    }
}

/// One more character counts one more quote if it is one.
proof fn lemma_quote_count_step(a: Seq<char>, i: int)
    requires
        0 <= i < a.len(),
    ensures
        quote_count(a.subrange(0, i + 1)) == quote_count(a.subrange(0, i)) + (if a[i] == '"' {
            1nat
        } else {
            0nat
        }),
{
    assert(a.subrange(0, i + 1).drop_last() =~= a.subrange(0, i));
}

/// Past the end of `a`, every place is outside quoted names.
proof fn lemma_outside_past(a: Seq<char>, p: int)
    requires
        ends_outside_quotes(a),
        p >= a.len(),
    ensures
        outside_quotes(a, p),
{
}

/// Past a character that is no quote, a place stays outside quoted names.
proof fn lemma_outside_step(a: Seq<char>, b: Seq<char>, p: int)
    requires
        0 <= p,
        outside_quotes(a, p),
        ends_outside_quotes(a),
        p < (a + b).len() ==> (a + b)[p] != '"',
    ensures
        outside_quotes(a, p + 1),
{
    if p < a.len() {
        lemma_quote_count_step(a, p);
        assert((a + b)[p] == a[p]);
    }
}

/// A run of whitespace keeps a place outside quoted names.
proof fn lemma_outside_ws(a: Seq<char>, b: Seq<char>, p: int)
    requires
        0 <= p,
        outside_quotes(a, p),
        ends_outside_quotes(a),
    ensures
        outside_quotes(a, whitespace_end(a + b, p)),
    decreases (a + b).len() - p,
{
    if p < (a + b).len() && spec_is_whitespace((a + b)[p]) {
        lemma_outside_step(a, b, p);
        lemma_outside_ws(a, b, p + 1);
    }
}

/// A run of digits keeps a place outside quoted names.
proof fn lemma_outside_digits(a: Seq<char>, b: Seq<char>, p: int)
    requires
        0 <= p,
        outside_quotes(a, p),
        ends_outside_quotes(a),
    ensures
        outside_quotes(a, digit_end(a + b, p)),
    decreases (a + b).len() - p,
{
    if 0 <= p < (a + b).len() && spec_is_digit((a + b)[p]) {
        lemma_outside_step(a, b, p);
        lemma_outside_digits(a, b, p + 1);
    }
}

/// A run of name characters keeps a place outside quoted names.
proof fn lemma_outside_names(a: Seq<char>, b: Seq<char>, p: int)
    requires
        0 <= p,
        outside_quotes(a, p),
        ends_outside_quotes(a),
    ensures
        outside_quotes(a, name_end(a + b, p)),
    decreases (a + b).len() - p,
{
    if 0 <= p < (a + b).len() && is_name_char((a + b)[p]) {
        lemma_outside_step(a, b, p);
        lemma_outside_names(a, b, p + 1);
    }
}

/// A number or a name keeps a place outside quoted names.
proof fn lemma_outside_token(a: Seq<char>, b: Seq<char>, p: int)
    requires
        0 <= p,
        outside_quotes(a, p),
        ends_outside_quotes(a),
    ensures
        sp_number(a + b, p).0 is Ok ==> outside_quotes(a, sp_number(a + b, p).1),
        outside_quotes(a, sp_identifier_opt(a + b, p).1),
        outside_quotes(a, sp_identifier(a + b, p).1),
{
    let s1 = a + b;
    lemma_outside_digits(a, b, p);
    let de = digit_end(s1, p);
    if char_at_is(s1, de, '.') {
        lemma_outside_step(a, b, de);
        lemma_outside_digits(a, b, de + 1);
    }
    if p < s1.len() && (spec_is_alphabetic(s1[p]) || s1[p] == '_') {
        lemma_outside_step(a, b, p);
        lemma_outside_names(a, b, p + 1);
    }
}

/// No quote stands before the next one.
proof fn lemma_quote_run(s: Seq<char>, p: int)
    requires
        0 <= p,
    ensures
        forall|x: int| p <= x < quote_pos(s, p) ==> s[x] != '"',
    decreases s.len() - p,
{
    if 0 <= p < s.len() && s[p] != '"' {
        lemma_quote_run(s, p + 1);
    }
}

/// Quotes are counted alike over a run without quotes.
proof fn lemma_count_no_quotes(a: Seq<char>, i: int, j: int)
    requires
        0 <= i <= j <= a.len(),
        forall|x: int| i <= x < j ==> a[x] != '"',
    ensures
        quote_count(a.subrange(0, j)) == quote_count(a.subrange(0, i)),
    decreases j - i,
{
    if i < j {
        lemma_count_no_quotes(a, i, j - 1);
        lemma_quote_count_step(a, j - 1);
    }
}

/// A quoted name opened outside quoted names below the boundary closes below
/// it, and the place after it is outside quoted names again.
proof fn lemma_quoted_closes(a: Seq<char>, b: Seq<char>, q: int)
    requires
        0 <= q < a.len(),
        (a + b)[q] == '"',
        outside_quotes(a, q),
        ends_outside_quotes(a),
    ensures
        quote_pos(a + b, q + 1) < a.len(),
        outside_quotes(a, quote_pos(a + b, q + 1) + 1),
{
    let s1 = a + b;
    let qq = quote_pos(s1, q + 1);
    lemma_quote_pos(s1, q + 1);
    lemma_quote_run(s1, q + 1);
    lemma_quote_count_step(a, q);
    assert(a[q] == '"');
    if qq >= a.len() {
        assert forall|x: int| q + 1 <= x < a.len() implies a[x] != '"' by {
            assert(s1[x] == a[x]);
        }
        lemma_count_no_quotes(a, q + 1, a.len() as int);
        assert(a.subrange(0, a.len() as int) =~= a);
        assert(false);
    }
    assert forall|x: int| q + 1 <= x < qq implies a[x] != '"' by {
        assert(s1[x] == a[x]);
    }
    lemma_count_no_quotes(a, q + 1, qq);
    lemma_quote_count_step(a, qq);
    assert(s1[qq] == a[qq]);
}

/// A quoted name, or else a name, is read alike from corresponding places.
proof fn lemma_ins_string_literal(a: Seq<char>, w: Seq<char>, b: Seq<char>, q: int)
    requires
        0 <= q,
        spacing_allowed(a, w, b),
        w.len() >= 1,
        outside_quotes(a, q),
    ensures
        agree(a, w, sp_string_literal(a + b, q), sp_string_literal(a + w + b, tpos(a, w, q))),
        sp_string_literal(a + b, q).1 >= q,
        sp_string_literal(a + w + b, tpos(a, w, q)).1 >= tpos(a, w, q),
        sp_string_literal(a + b, q).0 is Ok ==> outside_quotes(a, sp_string_literal(a + b, q).1),
{
    lemma_outside_token(a, b, q);
    let k = a.len() as int;
    let s1 = a + b;
    let s2 = a + w + b;
    if q >= k {
        lemma_string_literal_shift(a, b, q - k);
        lemma_string_literal_shift(a + w, b, q - k);
        assert(s2 == (a + w) + b);
        lemma_outside_past(a, sp_string_literal(s1, q).1);
    } else {
        lemma_ins_index(a, w, b, q);
        if char_at_is(s1, q, '"') {
            lemma_ins_quote(a, w, b, q + 1, q + 1);
            let qq = quote_pos(s1, q + 1);
            lemma_quote_pos(s1, q + 1);
            lemma_quoted_closes(a, b, q);
            lemma_ins_prefix(a, w, b, q + 1, qq);
        } else {
            lemma_ins_identifier_opt(a, w, b, q, q);
        }
    }
}

/// The operator tables read alike at corresponding places.
proof fn lemma_ins_ops(a: Seq<char>, w: Seq<char>, b: Seq<char>, q: int)
    requires
        0 <= q,
        spacing_allowed(a, w, b),
        w.len() >= 1,
    ensures
        ops_agree(a, w, q, sp_cmp_op(a + b, q), sp_cmp_op(a + w + b, tpos(a, w, q))),
        ops_agree(a, w, q, sp_add_op(a + b, q), sp_add_op(a + w + b, tpos(a, w, q))),
        ops_agree(a, w, q, sp_mul_op(a + b, q), sp_mul_op(a + w + b, tpos(a, w, q))),
{
    let s1 = a + b;
    let s2 = a + w + b;
    if q >= a.len() {
        lemma_ops_shift(a, b, q - a.len());
        lemma_ops_shift(a + w, b, q - a.len());
        assert(s2 == (a + w) + b);
    } else {
        lemma_ins_index(a, w, b, q);
        lemma_ins_match(a, w, b, q, seq!['<', '=']);
        lemma_ins_match(a, w, b, q, seq!['>', '=']);
        lemma_ins_match(a, w, b, q, seq!['=', '=']);
        lemma_ins_match(a, w, b, q, seq!['!', '=']);
    }
}


/// An expression is read alike from corresponding places.
#[verifier::spinoff_prover]
#[verifier::rlimit(100)]
proof fn lemma_ins_expression(a: Seq<char>, w: Seq<char>, b: Seq<char>, p1: int, p2: int)
    requires
        0 <= p1,
        corr(a, w, p1, p2),
        spacing_allowed(a, w, b),
        w.len() >= 1,
        outside_quotes(a, p1),
    ensures
        sp_expression(a + b, p1).0 is Ok ==> outside_quotes(a, sp_expression(a + b, p1).1),
        agree(a, w, sp_expression(a + b, p1), sp_expression(a + w + b, p2)),
        sp_expression(a + b, p1).1 >= p1,
        sp_expression(a + w + b, p2).1 >= p2,
    decreases (a + b).len() - p1, 10int,
{
    let s1 = a + b;
    let s2 = a + w + b;
    if p1 >= a.len() && p2 == p1 + w.len() {
        lemma_expression_shift(a, b, p1 - a.len());
        lemma_expression_shift(a + w, b, p1 - a.len());
        assert(s2 == (a + w) + b);
        lemma_outside_past(a, sp_expression(s1, p1).1);
    } else {
        if within(s1, p1) {
            lemma_ins_comparison(a, w, b, p1, p2);
        }
    }
}

/// `comparison` is read alike from corresponding places.
#[verifier::spinoff_prover]
#[verifier::rlimit(100)]
proof fn lemma_ins_comparison(a: Seq<char>, w: Seq<char>, b: Seq<char>, p1: int, p2: int)
    requires
        0 <= p1,
        corr(a, w, p1, p2),
        spacing_allowed(a, w, b),
        w.len() >= 1,
        outside_quotes(a, p1),
    ensures
        sp_comparison(a + b, p1).0 is Ok ==> outside_quotes(a, sp_comparison(a + b, p1).1),
        agree(a, w, sp_comparison(a + b, p1), sp_comparison(a + w + b, p2)),
        sp_comparison(a + b, p1).1 >= p1,
        sp_comparison(a + w + b, p2).1 >= p2,
    decreases (a + b).len() - p1, 9int,
{
    let s1 = a + b;
    let s2 = a + w + b;
    if p1 >= a.len() && p2 == p1 + w.len() {
        lemma_comparison_shift(a, b, p1 - a.len());
        lemma_comparison_shift(a + w, b, p1 - a.len());
        assert(s2 == (a + w) + b);
        lemma_outside_past(a, sp_comparison(s1, p1).1);
    } else {
        if within(s1, p1) {
            lemma_ins_additive(a, w, b, p1, p2);
            match sp_additive(s1, p1) {
                (Ok(l), r1) => if p1 <= r1 <= s1.len() {
                    lemma_ins_comparison_rest(a, w, b, l, r1, sp_additive(s2, p2).1);
                },
                _ => {},
            }
        }
    }
}

/// `additive` is read alike from corresponding places.
#[verifier::spinoff_prover]
#[verifier::rlimit(100)]
proof fn lemma_ins_additive(a: Seq<char>, w: Seq<char>, b: Seq<char>, p1: int, p2: int)
    requires
        0 <= p1,
        corr(a, w, p1, p2),
        spacing_allowed(a, w, b),
        w.len() >= 1,
        outside_quotes(a, p1),
    ensures
        sp_additive(a + b, p1).0 is Ok ==> outside_quotes(a, sp_additive(a + b, p1).1),
        agree(a, w, sp_additive(a + b, p1), sp_additive(a + w + b, p2)),
        sp_additive(a + b, p1).1 >= p1,
        sp_additive(a + w + b, p2).1 >= p2,
    decreases (a + b).len() - p1, 7int,
{
    let s1 = a + b;
    let s2 = a + w + b;
    if p1 >= a.len() && p2 == p1 + w.len() {
        lemma_additive_shift(a, b, p1 - a.len());
        lemma_additive_shift(a + w, b, p1 - a.len());
        assert(s2 == (a + w) + b);
        lemma_outside_past(a, sp_additive(s1, p1).1);
    } else {
        if within(s1, p1) {
            lemma_ins_multiplicative(a, w, b, p1, p2);
            match sp_multiplicative(s1, p1) {
                (Ok(l), r1) => if p1 <= r1 <= s1.len() {
                    lemma_ins_additive_rest(a, w, b, l, r1, sp_multiplicative(s2, p2).1);
                },
                _ => {},
            }
        }
    }
}

/// `multiplicative` is read alike from corresponding places.
#[verifier::spinoff_prover]
#[verifier::rlimit(100)]
proof fn lemma_ins_multiplicative(a: Seq<char>, w: Seq<char>, b: Seq<char>, p1: int, p2: int)
    requires
        0 <= p1,
        corr(a, w, p1, p2),
        spacing_allowed(a, w, b),
        w.len() >= 1,
        outside_quotes(a, p1),
    ensures
        sp_multiplicative(a + b, p1).0 is Ok ==> outside_quotes(a, sp_multiplicative(a + b, p1).1),
        agree(a, w, sp_multiplicative(a + b, p1), sp_multiplicative(a + w + b, p2)),
        sp_multiplicative(a + b, p1).1 >= p1,
        sp_multiplicative(a + w + b, p2).1 >= p2,
    decreases (a + b).len() - p1, 5int,
{
    let s1 = a + b;
    let s2 = a + w + b;
    if p1 >= a.len() && p2 == p1 + w.len() {
        lemma_multiplicative_shift(a, b, p1 - a.len());
        lemma_multiplicative_shift(a + w, b, p1 - a.len());
        assert(s2 == (a + w) + b);
        lemma_outside_past(a, sp_multiplicative(s1, p1).1);
    } else {
        if within(s1, p1) {
            lemma_ins_unary(a, w, b, p1, p2);
            match sp_unary(s1, p1) {
                (Ok(l), r1) => if p1 <= r1 <= s1.len() {
                    lemma_ins_multiplicative_rest(a, w, b, l, r1, sp_unary(s2, p2).1);
                },
                _ => {},
            }
        }
    }
}

/// The operator loop of `comparison` goes alike from corresponding places.
#[verifier::spinoff_prover]
#[verifier::rlimit(100)]
proof fn lemma_ins_comparison_rest(a: Seq<char>, w: Seq<char>, b: Seq<char>, l: SExpr, p1: int, p2: int)
    requires
        0 <= p1,
        corr(a, w, p1, p2),
        spacing_allowed(a, w, b),
        w.len() >= 1,
        outside_quotes(a, p1),
    ensures
        sp_comparison_rest(a + b, l, p1).0 is Ok ==> outside_quotes(a, sp_comparison_rest(a + b, l, p1).1),
        agree(a, w, sp_comparison_rest(a + b, l, p1), sp_comparison_rest(a + w + b, l, p2)),
        sp_comparison_rest(a + b, l, p1).1 >= p1,
        sp_comparison_rest(a + w + b, l, p2).1 >= p2,
    decreases (a + b).len() - p1, 8int,
{
    let s1 = a + b;
    let s2 = a + w + b;
    if p1 >= a.len() && p2 == p1 + w.len() {
        lemma_comparison_rest_shift(a, b, l, p1 - a.len());
        lemma_comparison_rest_shift(a + w, b, l, p1 - a.len());
        assert(s2 == (a + w) + b);
        lemma_outside_past(a, sp_comparison_rest(s1, l, p1).1);
    } else {
        lemma_ins_ws(a, w, b, p1, p2);
        let q = whitespace_end(s1, p1);
        lemma_ins_ops(a, w, b, q);
        lemma_outside_ws(a, b, p1);
        lemma_outside_ops(a, b, q);
        match sp_cmp_op(s1, q) {
            Some((op, o1)) => {
                let o2 = sp_cmp_op(s2, tpos(a, w, q))->Some_0.1;
                lemma_ins_ws(a, w, b, o1, o2);
                let r = whitespace_end(s1, o1);
                lemma_outside_ws(a, b, o1);
                if within(s1, p1) && p1 < r <= s1.len() {
                    lemma_ins_additive(a, w, b, r, tpos(a, w, r));
                    match sp_additive(s1, r) {
                        (Ok(right), r3) => if r <= r3 <= s1.len() {
                            lemma_ins_comparison_rest(
                                a,
                                w,
                                b,
                                s_binary(l, op, right),
                                r3,
                                sp_additive(s2, tpos(a, w, r)).1,
                            );
                        },
                        _ => {},
                    }
                }
            },
            None => {},
        }
    }
}

/// The operator loop of `additive` goes alike from corresponding places.
#[verifier::spinoff_prover]
#[verifier::rlimit(100)]
proof fn lemma_ins_additive_rest(a: Seq<char>, w: Seq<char>, b: Seq<char>, l: SExpr, p1: int, p2: int)
    requires
        0 <= p1,
        corr(a, w, p1, p2),
        spacing_allowed(a, w, b),
        w.len() >= 1,
        outside_quotes(a, p1),
    ensures
        sp_additive_rest(a + b, l, p1).0 is Ok ==> outside_quotes(a, sp_additive_rest(a + b, l, p1).1),
        agree(a, w, sp_additive_rest(a + b, l, p1), sp_additive_rest(a + w + b, l, p2)),
        sp_additive_rest(a + b, l, p1).1 >= p1,
        sp_additive_rest(a + w + b, l, p2).1 >= p2,
    decreases (a + b).len() - p1, 6int,
{
    let s1 = a + b;
    let s2 = a + w + b;
    if p1 >= a.len() && p2 == p1 + w.len() {
        lemma_additive_rest_shift(a, b, l, p1 - a.len());
        lemma_additive_rest_shift(a + w, b, l, p1 - a.len());
        assert(s2 == (a + w) + b);
        lemma_outside_past(a, sp_additive_rest(s1, l, p1).1);
    } else {
        lemma_ins_ws(a, w, b, p1, p2);
        let q = whitespace_end(s1, p1);
        lemma_ins_ops(a, w, b, q);
        lemma_outside_ws(a, b, p1);
        lemma_outside_ops(a, b, q);
        match sp_add_op(s1, q) {
            Some((op, o1)) => {
                let o2 = sp_add_op(s2, tpos(a, w, q))->Some_0.1;
                lemma_ins_ws(a, w, b, o1, o2);
                let r = whitespace_end(s1, o1);
                lemma_outside_ws(a, b, o1);
                if within(s1, p1) && p1 < r <= s1.len() {
                    lemma_ins_multiplicative(a, w, b, r, tpos(a, w, r));
                    match sp_multiplicative(s1, r) {
                        (Ok(right), r3) => if r <= r3 <= s1.len() {
                            lemma_ins_additive_rest(
                                a,
                                w,
                                b,
                                s_binary(l, op, right),
                                r3,
                                sp_multiplicative(s2, tpos(a, w, r)).1,
                            );
                        },
                        _ => {},
                    }
                }
            },
            None => {},
        }
    }
}

/// The operator loop of `multiplicative` goes alike from corresponding places.
#[verifier::spinoff_prover]
#[verifier::rlimit(100)]
proof fn lemma_ins_multiplicative_rest(a: Seq<char>, w: Seq<char>, b: Seq<char>, l: SExpr, p1: int, p2: int)
    requires
        0 <= p1,
        corr(a, w, p1, p2),
        spacing_allowed(a, w, b),
        w.len() >= 1,
        outside_quotes(a, p1),
    ensures
        sp_multiplicative_rest(a + b, l, p1).0 is Ok ==> outside_quotes(a, sp_multiplicative_rest(a + b, l, p1).1),
        agree(a, w, sp_multiplicative_rest(a + b, l, p1), sp_multiplicative_rest(a + w + b, l, p2)),
        sp_multiplicative_rest(a + b, l, p1).1 >= p1,
        sp_multiplicative_rest(a + w + b, l, p2).1 >= p2,
    decreases (a + b).len() - p1, 4int,
{
    let s1 = a + b;
    let s2 = a + w + b;
    if p1 >= a.len() && p2 == p1 + w.len() {
        lemma_multiplicative_rest_shift(a, b, l, p1 - a.len());
        lemma_multiplicative_rest_shift(a + w, b, l, p1 - a.len());
        assert(s2 == (a + w) + b);
        lemma_outside_past(a, sp_multiplicative_rest(s1, l, p1).1);
    } else {
        lemma_ins_ws(a, w, b, p1, p2);
        let q = whitespace_end(s1, p1);
        lemma_ins_ops(a, w, b, q);
        lemma_outside_ws(a, b, p1);
        lemma_outside_ops(a, b, q);
        match sp_mul_op(s1, q) {
            Some((op, o1)) => {
                let o2 = sp_mul_op(s2, tpos(a, w, q))->Some_0.1;
                lemma_ins_ws(a, w, b, o1, o2);
                let r = whitespace_end(s1, o1);
                lemma_outside_ws(a, b, o1);
                if within(s1, p1) && p1 < r <= s1.len() {
                    lemma_ins_unary(a, w, b, r, tpos(a, w, r));
                    match sp_unary(s1, r) {
                        (Ok(right), r3) => if r <= r3 <= s1.len() {
                            lemma_ins_multiplicative_rest(
                                a,
                                w,
                                b,
                                s_binary(l, op, right),
                                r3,
                                sp_unary(s2, tpos(a, w, r)).1,
                            );
                        },
                        _ => {},
                    }
                }
            },
            None => {},
        }
    }
}

/// `unary` is read alike from corresponding places.
#[verifier::spinoff_prover]
#[verifier::rlimit(100)]
proof fn lemma_ins_unary(a: Seq<char>, w: Seq<char>, b: Seq<char>, p1: int, p2: int)
    requires
        0 <= p1,
        corr(a, w, p1, p2),
        spacing_allowed(a, w, b),
        w.len() >= 1,
        outside_quotes(a, p1),
    ensures
        sp_unary(a + b, p1).0 is Ok ==> outside_quotes(a, sp_unary(a + b, p1).1),
        agree(a, w, sp_unary(a + b, p1), sp_unary(a + w + b, p2)),
        sp_unary(a + b, p1).1 >= p1,
        sp_unary(a + w + b, p2).1 >= p2,
    decreases (a + b).len() - p1, 3int,
{
    let s1 = a + b;
    let s2 = a + w + b;
    if p1 >= a.len() && p2 == p1 + w.len() {
        lemma_unary_shift(a, b, p1 - a.len());
        lemma_unary_shift(a + w, b, p1 - a.len());
        assert(s2 == (a + w) + b);
        lemma_outside_past(a, sp_unary(s1, p1).1);
    } else {
        lemma_ins_ws(a, w, b, p1, p2);
        let q = whitespace_end(s1, p1);
        if within(s1, p1) && p1 <= q <= s1.len() {
            lemma_ins_index(a, w, b, q);
            lemma_outside_ws(a, b, p1);
            if char_at_is(s1, q, '-') {
                lemma_outside_after(a, b, q, '-');
                lemma_outside_ws(a, b, q + 1);
                lemma_ins_ws(a, w, b, q + 1, tpos(a, w, q) + 1);
                let r = whitespace_end(s1, q + 1);
                if p1 < r <= s1.len() {
                    lemma_ins_unary(a, w, b, r, tpos(a, w, r));
                }
            } else {
                lemma_ins_postfix(a, w, b, q, tpos(a, w, q));
            }
        }
    }
}

/// `postfix` is read alike from corresponding places.
#[verifier::spinoff_prover]
#[verifier::rlimit(100)]
proof fn lemma_ins_postfix(a: Seq<char>, w: Seq<char>, b: Seq<char>, p1: int, p2: int)
    requires
        0 <= p1,
        corr(a, w, p1, p2),
        spacing_allowed(a, w, b),
        w.len() >= 1,
        outside_quotes(a, p1),
    ensures
        sp_postfix(a + b, p1).0 is Ok ==> outside_quotes(a, sp_postfix(a + b, p1).1),
        agree(a, w, sp_postfix(a + b, p1), sp_postfix(a + w + b, p2)),
        sp_postfix(a + b, p1).1 >= p1,
        sp_postfix(a + w + b, p2).1 >= p2,
    decreases (a + b).len() - p1, 2int,
{
    let s1 = a + b;
    let s2 = a + w + b;
    if p1 >= a.len() && p2 == p1 + w.len() {
        lemma_postfix_shift(a, b, p1 - a.len());
        lemma_postfix_shift(a + w, b, p1 - a.len());
        assert(s2 == (a + w) + b);
        lemma_outside_past(a, sp_postfix(s1, p1).1);
    } else {
        if within(s1, p1) {
            lemma_ins_primary(a, w, b, p1, p2);
            match sp_primary(s1, p1) {
                (Ok(e), r1) => {
                    lemma_ins_postfix_rest(a, w, b, e, r1, sp_primary(s2, p2).1);
                },
                _ => {},
            }
        }
    }
}

/// Field accesses are read alike from corresponding places.
#[verifier::spinoff_prover]
#[verifier::rlimit(100)]
proof fn lemma_ins_postfix_rest(a: Seq<char>, w: Seq<char>, b: Seq<char>, e: SExpr, p1: int, p2: int)
    requires
        0 <= p1,
        corr(a, w, p1, p2),
        spacing_allowed(a, w, b),
        w.len() >= 1,
        outside_quotes(a, p1),
    ensures
        sp_postfix_rest(a + b, e, p1).0 is Ok ==> outside_quotes(a, sp_postfix_rest(a + b, e, p1).1),
        agree(a, w, sp_postfix_rest(a + b, e, p1), sp_postfix_rest(a + w + b, e, p2)),
        sp_postfix_rest(a + b, e, p1).1 >= p1,
        sp_postfix_rest(a + w + b, e, p2).1 >= p2,
    decreases (a + b).len() - p1,
{
    let s1 = a + b;
    let s2 = a + w + b;
    if p1 >= a.len() && p2 == p1 + w.len() {
        lemma_postfix_rest_shift(a, b, e, p1 - a.len());
        lemma_postfix_rest_shift(a + w, b, e, p1 - a.len());
        assert(s2 == (a + w) + b);
        lemma_outside_past(a, sp_postfix_rest(s1, e, p1).1);
    } else {
        lemma_ins_ws(a, w, b, p1, p2);
        let q = whitespace_end(s1, p1);
        lemma_ins_index(a, w, b, q);
        lemma_outside_ws(a, b, p1);
        if char_at_is(s1, q, '.') {
            lemma_outside_after(a, b, q, '.');
            lemma_outside_token(a, b, q + 1);
            let qt = tpos(a, w, q);
            lemma_space_chars(w[0]);
            if q + 1 == a.len() {
                assert(a.last() == '.');
                assert(s2[a.len() as int] == w[0]);
                if b.len() > 0 {
                    if is_separator(b[0]) {
                        lemma_separator_chars(b[0]);
                    } else {
                        lemma_separator_chars(a.last());
                    }
                }
            } else if q + 1 < s1.len() {
                lemma_ins_index(a, w, b, q + 1);
            }
            if !(q + 1 < s1.len() && spec_is_digit(s1[q + 1])) {
                lemma_ins_identifier_opt(a, w, b, q + 1, qt + 1);
                match sp_identifier(s1, q + 1) {
                    (Ok(field), r) => if 0 <= p1 < r <= s1.len() {
                        lemma_ins_postfix_rest(
                            a,
                            w,
                            b,
                            s_binary(e, XBinaryOp::Dot, SExpr::Attr(field)),
                            r,
                            sp_identifier(s2, qt + 1).1,
                        );
                    },
                    _ => {},
                }
            }
        }
    }
}

/// `primary` is read alike from corresponding places.
#[verifier::spinoff_prover]
#[verifier::rlimit(100)]
proof fn lemma_ins_primary(a: Seq<char>, w: Seq<char>, b: Seq<char>, p1: int, p2: int)
    requires
        0 <= p1,
        corr(a, w, p1, p2),
        spacing_allowed(a, w, b),
        w.len() >= 1,
        outside_quotes(a, p1),
    ensures
        sp_primary(a + b, p1).0 is Ok ==> outside_quotes(a, sp_primary(a + b, p1).1),
        agree(a, w, sp_primary(a + b, p1), sp_primary(a + w + b, p2)),
        sp_primary(a + b, p1).1 >= p1,
        sp_primary(a + w + b, p2).1 >= p2,
    decreases (a + b).len() - p1, 1int,
{
    let s1 = a + b;
    let s2 = a + w + b;
    if p1 >= a.len() && p2 == p1 + w.len() {
        lemma_primary_shift(a, b, p1 - a.len());
        lemma_primary_shift(a + w, b, p1 - a.len());
        assert(s2 == (a + w) + b);
        lemma_outside_past(a, sp_primary(s1, p1).1);
    } else {
        lemma_ins_ws(a, w, b, p1, p2);
        let q = whitespace_end(s1, p1);
        if within(s1, p1) && p1 <= q <= s1.len() {
            lemma_ins_index(a, w, b, q);
            lemma_outside_ws(a, b, p1);
            lemma_outside_token(a, b, q);
            if char_at_is(s1, q, '(') {
                lemma_outside_after(a, b, q, '(');
                lemma_ins_expression(a, w, b, q + 1, tpos(a, w, q) + 1);
                match sp_expression(s1, q + 1) {
                    (Ok(_), r) => {
                        lemma_ins_ws(a, w, b, r, sp_expression(s2, tpos(a, w, q) + 1).1);
                        lemma_ins_index(a, w, b, whitespace_end(s1, r));
                        lemma_outside_ws(a, b, r);
                        lemma_outside_after(a, b, whitespace_end(s1, r), ')');
                    },
                    _ => {},
                }
            } else {
                lemma_ins_number(a, w, b, q);
                match sp_number(s1, q) {
                    (Ok(None), _) => {
                        lemma_ins_identifier_opt(a, w, b, q, tpos(a, w, q));
                        match sp_identifier_opt(s1, q) {
                            (Some(name), e) => {
                                lemma_ins_ws(a, w, b, e, sp_identifier_opt(s2, tpos(a, w, q)).1);
                                let p3 = whitespace_end(s1, e);
                                lemma_outside_ws(a, b, e);
                                lemma_outside_after(a, b, p3, '(');
                                lemma_ins_index(a, w, b, p3);
                                if char_at_is(s1, p3, '(') && p1 < p3 + 1 <= s1.len() {
                                    lemma_ins_function_call(
                                        a,
                                        w,
                                        b,
                                        name,
                                        p3 + 1,
                                        tpos(a, w, p3) + 1,
                                    );
                                }
                            },
                            _ => {},
                        }
                    },
                    _ => {},
                }
            }
        }
    }
}

/// A call's arguments are read alike from corresponding places.
#[verifier::spinoff_prover]
#[verifier::rlimit(100)]
proof fn lemma_ins_function_call(a: Seq<char>, w: Seq<char>, b: Seq<char>, name: Seq<char>, p1: int, p2: int)
    requires
        0 <= p1,
        corr(a, w, p1, p2),
        spacing_allowed(a, w, b),
        w.len() >= 1,
        outside_quotes(a, p1),
    ensures
        sp_function_call(a + b, name, p1).0 is Ok ==> outside_quotes(a, sp_function_call(a + b, name, p1).1),
        agree(a, w, sp_function_call(a + b, name, p1), sp_function_call(a + w + b, name, p2)),
        sp_function_call(a + b, name, p1).1 >= p1,
        sp_function_call(a + w + b, name, p2).1 >= p2,
    decreases (a + b).len() - p1, 12int,
{
    let s1 = a + b;
    let s2 = a + w + b;
    if p1 >= a.len() && p2 == p1 + w.len() {
        lemma_ins_call_far(a, w, b, name, p1, p2);
    } else {
        if !within(s1, p1) {
        } else if unary_function(name) is Some {
            lemma_ins_unary_call(a, w, b, name, p1, p2);
        } else if binary_function(name) is Some || name == "vec2"@ {
            lemma_ins_pair_call(a, w, b, name, p1, p2);
        } else if name == "vec3"@ {
            lemma_ins_vec3_call(a, w, b, name, p1, p2);
        } else if name == "attr"@ || name == "prop"@ {
            lemma_ins_named_call(a, w, b, name, p1, p2);
        }
    }
}

/// The quoted name and `)` of `attr` and `prop` are read alike from
/// corresponding places.
#[verifier::spinoff_prover]
#[verifier::rlimit(100)]
proof fn lemma_ins_named_call(a: Seq<char>, w: Seq<char>, b: Seq<char>, name: Seq<char>, p1: int, p2: int)
    requires
        0 <= p1,
        corr(a, w, p1, p2),
        spacing_allowed(a, w, b),
        w.len() >= 1,
        outside_quotes(a, p1),
        within(a + b, p1),
        unary_function(name) is None,
        binary_function(name) is None,
        name != "vec2"@,
        name != "vec3"@,
        name == "attr"@ || name == "prop"@,
    ensures
        agree(a, w, sp_function_call(a + b, name, p1), sp_function_call(a + w + b, name, p2)),
        sp_function_call(a + b, name, p1).1 >= p1,
        sp_function_call(a + w + b, name, p2).1 >= p2,
        sp_function_call(a + b, name, p1).0 is Ok ==> outside_quotes(
            a,
            sp_function_call(a + b, name, p1).1,
        ),
    decreases (a + b).len() - p1, 11int,
{
    let s1 = a + b;
    let s2 = a + w + b;
    if p1 >= a.len() && p2 == p1 + w.len() {
        lemma_ins_call_far(a, w, b, name, p1, p2);
    } else {
        lemma_ins_ws(a, w, b, p1, p2);
        let q = whitespace_end(s1, p1);
        lemma_outside_ws(a, b, p1);
        lemma_ins_string_literal(a, w, b, q);
        let r = sp_string_literal(s1, q).1;
        lemma_ins_ws(a, w, b, r, sp_string_literal(s2, tpos(a, w, q)).1);
        lemma_ins_index(a, w, b, whitespace_end(s1, r));
        if sp_string_literal(s1, q).0 is Ok {
            lemma_outside_ws(a, b, r);
            lemma_outside_after(a, b, whitespace_end(s1, r), ')');
        }
    }
}

/// The argument and `)` of a one-argument call are read alike from
/// corresponding places.
#[verifier::spinoff_prover]
#[verifier::rlimit(100)]
proof fn lemma_ins_unary_call(a: Seq<char>, w: Seq<char>, b: Seq<char>, name: Seq<char>, p1: int, p2: int)
    requires
        0 <= p1,
        corr(a, w, p1, p2),
        spacing_allowed(a, w, b),
        w.len() >= 1,
        within(a + b, p1),
        unary_function(name) is Some,
        outside_quotes(a, p1),
    ensures
        sp_function_call(a + b, name, p1).0 is Ok ==> outside_quotes(a, sp_function_call(a + b, name, p1).1),
        agree(a, w, sp_function_call(a + b, name, p1), sp_function_call(a + w + b, name, p2)),
        sp_function_call(a + b, name, p1).1 >= p1,
        sp_function_call(a + w + b, name, p2).1 >= p2,
    decreases (a + b).len() - p1, 11int,
{
    let s1 = a + b;
    let s2 = a + w + b;
    if p1 >= a.len() && p2 == p1 + w.len() {
        lemma_ins_call_far(a, w, b, name, p1, p2);
    } else {
        lemma_ins_expression(a, w, b, p1, p2);
        let r1 = sp_expression(s1, p1).1;
        lemma_ins_ws(a, w, b, r1, sp_expression(s2, p2).1);
        lemma_ins_index(a, w, b, whitespace_end(s1, r1));
        if sp_expression(s1, p1).0 is Ok {
            lemma_outside_ws(a, b, r1);
            lemma_outside_after(a, b, whitespace_end(s1, r1), ')');
        }
    }
}

/// Past the boundary, a call's arguments read as on the text after it.
#[verifier::spinoff_prover]
#[verifier::rlimit(100)]
proof fn lemma_ins_call_far(a: Seq<char>, w: Seq<char>, b: Seq<char>, name: Seq<char>, p1: int, p2: int)
    requires
        a.len() <= p1,
        p2 == p1 + w.len(),
        ends_outside_quotes(a),
    ensures
        agree(a, w, sp_function_call(a + b, name, p1), sp_function_call(a + w + b, name, p2)),
        sp_function_call(a + b, name, p1).1 >= p1,
        sp_function_call(a + w + b, name, p2).1 >= p2,
        outside_quotes(a, sp_function_call(a + b, name, p1).1),
{
    assert(a + w + b == (a + w) + b);
    lemma_function_call_shift(a, b, name, p1 - a.len());
    lemma_function_call_shift(a + w, b, name, p1 - a.len());
    lemma_far_agree(
        a,
        w,
        sp_function_call(a + b, name, p1),
        sp_function_call(a + w + b, name, p2),
        sp_function_call(b, name, p1 - a.len()),
        p1 - a.len(),
    );
}

/// Results read past the boundary, as on the text after it, agree.
proof fn lemma_far_agree<R>(a: Seq<char>, w: Seq<char>, r1: (R, int), r2: (R, int), rb: (R, int), x: int)
    requires
        0 <= x <= rb.1,
        r1.0 == rb.0 && r1.1 == rb.1 + a.len(),
        r2.0 == rb.0 && r2.1 == rb.1 + a.len() + w.len(),
        ends_outside_quotes(a),
    ensures
        agree(a, w, r1, r2),
        r1.1 >= x + a.len(),
        r2.1 >= x + a.len() + w.len(),
        outside_quotes(a, r1.1),
{
    lemma_outside_past(a, r1.1);
}

/// The arguments and `)` of a two-argument call are read alike from
/// corresponding places.
#[verifier::spinoff_prover]
#[verifier::rlimit(100)]
proof fn lemma_ins_pair_call(a: Seq<char>, w: Seq<char>, b: Seq<char>, name: Seq<char>, p1: int, p2: int)
    requires
        0 <= p1,
        corr(a, w, p1, p2),
        spacing_allowed(a, w, b),
        w.len() >= 1,
        within(a + b, p1),
        unary_function(name) is None,
        binary_function(name) is Some || name == "vec2"@,
        outside_quotes(a, p1),
    ensures
        sp_function_call(a + b, name, p1).0 is Ok ==> outside_quotes(a, sp_function_call(a + b, name, p1).1),
        agree(a, w, sp_function_call(a + b, name, p1), sp_function_call(a + w + b, name, p2)),
        sp_function_call(a + b, name, p1).1 >= p1,
        sp_function_call(a + w + b, name, p2).1 >= p2,
    decreases (a + b).len() - p1, 11int,
{
    let s1 = a + b;
    let s2 = a + w + b;
    if p1 >= a.len() && p2 == p1 + w.len() {
        lemma_ins_call_far(a, w, b, name, p1, p2);
    } else {
        lemma_ins_expression(a, w, b, p1, p2);
        match sp_expression(s1, p1) {
            (Err(_), _) => {},
            (Ok(_), r1) => {
                let r2 = sp_expression(s2, p2).1;
                lemma_ins_ws(a, w, b, r1, r2);
                let c1 = whitespace_end(s1, r1);
                let c2 = whitespace_end(s2, r2);
                assert(c2 == tpos(a, w, c1));
                lemma_ins_index(a, w, b, c1);
                lemma_outside_ws(a, b, r1);
                lemma_outside_after(a, b, c1, ',');
                assert(char_at_is(s2, c2, ',') == char_at_is(s1, c1, ','));
                assert(peek_text(s2, c2) == peek_text(s1, c1));
                if char_at_is(s1, c1, ',') {
                    lemma_ins_ws(a, w, b, c1 + 1, c2 + 1);
                    lemma_outside_ws(a, b, c1 + 1);
                    let d1 = whitespace_end(s1, c1 + 1);
                    let d2 = whitespace_end(s2, c2 + 1);
                    assert(d2 == tpos(a, w, d1));
                    if p1 < d1 <= s1.len() {
                        assert(p2 < d2 <= s2.len());
                        lemma_ins_expression(a, w, b, d1, d2);
                        match sp_expression(s1, d1) {
                            (Err(_), _) => {},
                            (Ok(_), r4) => {
                                let r5 = sp_expression(s2, d2).1;
                                lemma_ins_ws(a, w, b, r4, r5);
                                lemma_ins_index(a, w, b, whitespace_end(s1, r4));
                                lemma_outside_ws(a, b, r4);
                                lemma_outside_after(a, b, whitespace_end(s1, r4), ')');
                            },
                        }
                    } else {
                        assert(!(p2 < d2 <= s2.len()));
                    }
                }
            },
        }
    }
}

/// The arguments and `)` of `vec3` are read alike from corresponding places.
#[verifier::spinoff_prover]
#[verifier::rlimit(100)]
proof fn lemma_ins_vec3_call(a: Seq<char>, w: Seq<char>, b: Seq<char>, name: Seq<char>, p1: int, p2: int)
    requires
        0 <= p1,
        corr(a, w, p1, p2),
        spacing_allowed(a, w, b),
        w.len() >= 1,
        within(a + b, p1),
        unary_function(name) is None,
        binary_function(name) is None,
        name == "vec3"@,
        outside_quotes(a, p1),
    ensures
        sp_function_call(a + b, name, p1).0 is Ok ==> outside_quotes(a, sp_function_call(a + b, name, p1).1),
        agree(a, w, sp_function_call(a + b, name, p1), sp_function_call(a + w + b, name, p2)),
        sp_function_call(a + b, name, p1).1 >= p1,
        sp_function_call(a + w + b, name, p2).1 >= p2,
    decreases (a + b).len() - p1, 11int,
{
    let s1 = a + b;
    let s2 = a + w + b;
    reveal_strlit("vec2");
    reveal_strlit("vec3");
    assert(name != "vec2"@) by {
        assert(name[3] != "vec2"@[3]);
    }
    if p1 >= a.len() && p2 == p1 + w.len() {
        lemma_ins_call_far(a, w, b, name, p1, p2);
    } else {
        lemma_ins_expression(a, w, b, p1, p2);
        let r1 = sp_expression(s1, p1).1;
        lemma_ins_ws(a, w, b, r1, sp_expression(s2, p2).1);
        let c1 = whitespace_end(s1, r1);
        lemma_ins_index(a, w, b, c1);
        lemma_ins_ws(a, w, b, c1 + 1, tpos(a, w, c1) + 1);
        if sp_expression(s1, p1).0 is Ok {
            lemma_outside_ws(a, b, r1);
            lemma_outside_after(a, b, c1, ',');
            if char_at_is(s1, c1, ',') {
                lemma_outside_ws(a, b, c1 + 1);
            }
        }
        let d1 = whitespace_end(s1, c1 + 1);
        if sp_expression(s1, p1).0 is Ok && char_at_is(s1, c1, ',') && p1 < d1 <= s1.len() {
            lemma_ins_expression(a, w, b, d1, tpos(a, w, d1));
            let r4 = sp_expression(s1, d1).1;
            lemma_ins_ws(a, w, b, r4, sp_expression(s2, tpos(a, w, d1)).1);
            let c2 = whitespace_end(s1, r4);
            lemma_ins_index(a, w, b, c2);
            lemma_ins_ws(a, w, b, c2 + 1, tpos(a, w, c2) + 1);
            if sp_expression(s1, d1).0 is Ok {
                lemma_outside_ws(a, b, r4);
                lemma_outside_after(a, b, c2, ',');
                if char_at_is(s1, c2, ',') {
                    lemma_outside_ws(a, b, c2 + 1);
                }
            }
            let d2 = whitespace_end(s1, c2 + 1);
            if sp_expression(s1, d1).0 is Ok && char_at_is(s1, c2, ',') && p1 < d2 <= s1.len() {
                lemma_ins_expression(a, w, b, d2, tpos(a, w, d2));
                let r7 = sp_expression(s1, d2).1;
                lemma_ins_ws(a, w, b, r7, sp_expression(s2, tpos(a, w, d2)).1);
                lemma_ins_index(a, w, b, whitespace_end(s1, r7));
                if sp_expression(s1, d2).0 is Ok {
                    lemma_outside_ws(a, b, r7);
                    lemma_outside_after(a, b, whitespace_end(s1, r7), ')');
                }
            }
        }
    }
}

/// Whitespace between tokens does not change what an input reads as: ASCII
/// whitespace `w` put between `a` and `b`, at either end or next to a
/// parenthesis, a comma or an operator character, but not inside a
/// two-character comparison and not inside a quoted name (after an odd
/// number of quotes), leaves the parse of `a + b` as it is, whether it
/// succeeds or fails.
pub proof fn lemma_spacing_keeps_parse(a: Seq<char>, w: Seq<char>, b: Seq<char>)
    requires
        spacing_allowed(a, w, b),
    ensures
        spec_parse(a + w + b) == spec_parse(a + b),
{
    let s1 = a + b;
    let s2 = a + w + b;
    if w.len() == 0 {
        assert(s2 =~= s1);
    } else {
        lemma_ins_ws(a, w, b, 0, 0);
        let q = whitespace_end(s1, 0);
        assert(a.subrange(0, 0) =~= Seq::<char>::empty());
        lemma_outside_ws(a, b, 0);
        lemma_ins_expression(a, w, b, q, tpos(a, w, q));
        match sp_expression(s1, q) {
            (Ok(_), r) => {
                lemma_ins_ws(a, w, b, r, sp_expression(s2, tpos(a, w, q)).1);
                lemma_ins_index(a, w, b, whitespace_end(s1, r));
            },
            _ => {},
        }
    }
}

} // verus!
