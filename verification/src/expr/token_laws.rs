//! Laws of the tokenizer: what the text of each kind of token looks like.

use vstd::prelude::*;

use crate::expr::tokenizer::{
    SToken,
    TokenKind,
    lemma_scan_progress,
    name_kind,
    number_end,
    scan_at,
    spec_tokenize,
    tokens_from,
    whitespace_end,
};
use crate::expr::xop::XBinaryOp;
use crate::expr::xval::all_digits;
use crate::text::{spec_is_alphabetic, spec_is_digit, spec_is_whitespace};

verus! {

/// A number with a decimal point: digits, a `.`, and at least one digit.
pub open spec fn is_float_text(t: Seq<char>) -> bool {
    exists|d: int|
        0 <= d && d + 1 < t.len() && #[trigger] t[d] == '.' && all_digits(t.subrange(0, d))
            && all_digits(t.subrange(d + 1, t.len() as int))
}

/// Every character of `t` is whitespace.
pub open spec fn all_whitespace(t: Seq<char>) -> bool {
    forall|i: int| 0 <= i < t.len() ==> #[trigger] spec_is_whitespace(t[i])
}

/// The text of a token fits its kind: it is not empty; an integer is digits; a
/// real number is digits, a point and digits; a whitespace token is exactly a
/// token of whitespace; a name is a function, a built-in or an identifier as
/// its text says; and a token that starts with `_` or with an alphabetic
/// character that is not whitespace (every ASCII letter) is a name.
#[verifier::opaque]
pub open spec fn token_fits(t: SToken) -> bool {
    &&& t.text.len() > 0
    &&& t.kind == TokenKind::Integer ==> all_digits(t.text)
    &&& t.kind == TokenKind::Float ==> is_float_text(t.text)
    &&& (t.kind == TokenKind::Whitespace <==> all_whitespace(t.text))
    &&& (t.kind is Function || t.kind is BuiltIn || t.kind is Identifier) ==> t.kind == name_kind(t.text)
    &&& (t.text[0] == '_' || (spec_is_alphabetic(t.text[0]) && !spec_is_whitespace(t.text[0])))
        ==> t.kind == name_kind(t.text)
    &&& symbol_fits(t)
}

/// The text of a punctuation or operator token is its symbol, and each
/// symbol is read as its own kind: `(` `)` `,` `.` as punctuation, `+` `-`
/// `*` `/` as addition, subtraction, multiplication and division, `<` `<=`
/// `>` `>=` `==` `!=` as the comparisons.
pub open spec fn symbol_fits(t: SToken) -> bool {
    &&& (t.kind == TokenKind::LeftParen <==> t.text == seq!['('])
    &&& (t.kind == TokenKind::RightParen <==> t.text == seq![')'])
    &&& (t.kind == TokenKind::Comma <==> t.text == seq![','])
    &&& (t.kind == TokenKind::Dot <==> t.text == seq!['.'])
    &&& (t.kind == TokenKind::BinaryOp(XBinaryOp::Add) <==> t.text == seq!['+'])
    &&& (t.kind == TokenKind::BinaryOp(XBinaryOp::Sub) <==> t.text == seq!['-'])
    &&& (t.kind == TokenKind::BinaryOp(XBinaryOp::Mul) <==> t.text == seq!['*'])
    &&& (t.kind == TokenKind::BinaryOp(XBinaryOp::Div) <==> t.text == seq!['/'])
    &&& (t.kind == TokenKind::BinaryOp(XBinaryOp::Lt) <==> t.text == seq!['<'])
    &&& (t.kind == TokenKind::BinaryOp(XBinaryOp::Lte) <==> t.text == seq!['<', '='])
    &&& (t.kind == TokenKind::BinaryOp(XBinaryOp::Ge) <==> t.text == seq!['>'])
    &&& (t.kind == TokenKind::BinaryOp(XBinaryOp::Gte) <==> t.text == seq!['>', '='])
    &&& (t.kind == TokenKind::BinaryOp(XBinaryOp::Eq) <==> t.text == seq!['=', '='])
    &&& (t.kind == TokenKind::BinaryOp(XBinaryOp::Neq) <==> t.text == seq!['!', '='])
}

/// The digits of `s[p..q]`, all of them.
spec fn digits_in(s: Seq<char>, a: int, b: int) -> bool {
    forall|i: int| a <= i < b ==> #[trigger] spec_is_digit(s[i])
}

/// A number scan from `q` keeps the text from `p` a number; returns where its
/// point is, when it has one.
proof fn lemma_number_shape(s: Seq<char>, p: int, q: int, has_dot: bool, d: int) -> (dd: int)
    requires
        0 <= p <= q <= s.len(),
        !has_dot ==> digits_in(s, p, q),
        has_dot ==> p <= d < q && s[d] == '.' && digits_in(s, p, d) && digits_in(s, d + 1, q) && (d
            + 1 < q || (q < s.len() && spec_is_digit(s[q]))),
    ensures
        !number_end(s, q, has_dot).1 ==> digits_in(s, p, number_end(s, q, has_dot).0),
        number_end(s, q, has_dot).1 ==> p <= dd && dd + 1 < number_end(s, q, has_dot).0 && s[dd]
            == '.' && digits_in(s, p, dd) && digits_in(s, dd + 1, number_end(s, q, has_dot).0),
    decreases s.len() - q,
{
    if q < s.len() {
        if spec_is_digit(s[q]) {
            lemma_number_shape(s, p, q + 1, has_dot, d)
        } else if s[q] == '.' && !has_dot && q + 1 < s.len() && spec_is_digit(s[q + 1]) {
            lemma_number_shape(s, p, q + 1, true, q)
        } else {
            d
        }
    } else {
        d
    }
}

proof fn lemma_whitespace_run(s: Seq<char>, p: int)
    requires
        0 <= p <= s.len(),
    ensures
        p <= whitespace_end(s, p) <= s.len(),
        forall|i: int| p <= i < whitespace_end(s, p) ==> #[trigger] spec_is_whitespace(s[i]),
        whitespace_end(s, p) < s.len() ==> !spec_is_whitespace(s[whitespace_end(s, p)]),
    decreases s.len() - p,
{
    if p < s.len() && spec_is_whitespace(s[p]) {
        lemma_whitespace_run(s, p + 1);
    }
}

/// The token scanned at `p` fits its text; a whitespace token starts with
/// whitespace and is followed by none.
proof fn lemma_scan_fits(s: Seq<char>, p: int)
    requires
        0 <= p < s.len(),
    ensures
        token_fits(
            SToken {
                kind: scan_at(s, p).0,
                text: s.subrange(p, scan_at(s, p).1),
                start: p,
                end: scan_at(s, p).1,
            },
        ),
        scan_at(s, p).0 == TokenKind::Whitespace ==> spec_is_whitespace(s[p]) && (scan_at(s, p).1
            == s.len() || !spec_is_whitespace(s[scan_at(s, p).1])),
{
    reveal(token_fits);
    lemma_scan_progress(s, p);
    let (k, e) = scan_at(s, p);
    let t = s.subrange(p, e);
    let c = s[p];
    assert(t[0] == c);
    if e == p + 1 {
        assert(t =~= seq![c]);
    }
    if e == p + 2 {
        assert(t =~= seq![c, s[p + 1]]);
    }
    if t.len() == 1 {
        assert(t =~= seq![c]);
    }
    if t.len() == 2 {
        assert(t =~= seq![c, s[p + 1]]);
    }
    if spec_is_whitespace(c) {
        lemma_whitespace_run(s, p + 1);
        assert forall|i: int| 0 <= i < t.len() implies #[trigger] spec_is_whitespace(t[i]) by {
            assert(t[i] == s[p + i]);
        }
    } else {
        assert(!all_whitespace(t));
        if spec_is_digit(c) || (c == '.' && p + 1 < s.len() && spec_is_digit(s[p + 1])) {
            let dd = lemma_number_shape(s, p, p, false, p);
            if k == TokenKind::Integer {
                assert forall|i: int| 0 <= i < t.len() implies #[trigger] spec_is_digit(t[i]) by {
                    assert(t[i] == s[p + i]);
                }
            }
            if k == TokenKind::Float {
                let d = dd - p;
                assert(t[d] == '.');
                assert forall|i: int| 0 <= i < d implies #[trigger] spec_is_digit(t.subrange(0, d)[i]) by {
                    assert(t.subrange(0, d)[i] == s[p + i]);
                }
                assert forall|i: int| 0 <= i < t.len() - (d + 1) implies #[trigger] spec_is_digit(
                    t.subrange(d + 1, t.len() as int)[i],
                ) by {
                    assert(t.subrange(d + 1, t.len() as int)[i] == s[dd + 1 + i]);
                }
            }
        }
    }
}

/// Every token of `s` from `p` on fits its text, no two whitespace tokens are
/// next to each other, and a first whitespace token starts with whitespace.
#[verifier::spinoff_prover]
proof fn lemma_tokens_fit(s: Seq<char>, p: int)
    requires
        0 <= p,
    ensures
        forall|k: int| 0 <= k < tokens_from(s, p).len() ==> token_fits(#[trigger] tokens_from(s, p)[k]),
        forall|k: int|
            0 <= k && k + 1 < tokens_from(s, p).len() ==> !(#[trigger] tokens_from(s, p)[k].kind
                == TokenKind::Whitespace && tokens_from(s, p)[k + 1].kind == TokenKind::Whitespace),
        tokens_from(s, p).len() > 0 && tokens_from(s, p)[0].kind == TokenKind::Whitespace
            ==> spec_is_whitespace(s[p]),
    decreases s.len() - p,
{
    if p < s.len() {
        lemma_scan_progress(s, p);
        lemma_scan_fits(s, p);
        let (k, e) = scan_at(s, p);
        lemma_tokens_fit(s, e);
        let first = SToken { kind: k, text: s.subrange(p, e), start: p, end: e };
        let rest = tokens_from(s, e);
        let all = tokens_from(s, p);
        assert(all == seq![first] + rest);
        assert forall|j: int| 0 <= j < all.len() implies token_fits(#[trigger] all[j]) by {
            if j > 0 {
                assert(all[j] == rest[j - 1]);
            }
        }
        assert forall|j: int| 0 <= j && j + 1 < all.len() implies !(#[trigger] all[j].kind
            == TokenKind::Whitespace && all[j + 1].kind == TokenKind::Whitespace) by {
            if j > 0 {
                assert(all[j] == rest[j - 1] && all[j + 1] == rest[j]);
            } else {
                assert(all[1] == rest[0]);
            }
        }
    }
}

/// The tokens of any input fit their texts: integers are digits, real numbers
/// are digits around a point, whitespace tokens are exactly the runs of
/// whitespace, names are classed as functions, built-ins or identifiers by
/// their text, and a token that starts with `_` or a letter (an alphabetic
/// character that is not whitespace) is such a name; punctuation and
/// operators are read by their symbols; and no two whitespace tokens are next
/// to each other.
pub proof fn lemma_token_kinds(s: Seq<char>)
    ensures
        forall|k: int| 0 <= k < spec_tokenize(s).len() ==> token_fits(#[trigger] spec_tokenize(s)[k]),
        forall|k: int|
            0 <= k && k + 1 < spec_tokenize(s).len() ==> !(#[trigger] spec_tokenize(s)[k].kind
                == TokenKind::Whitespace && spec_tokenize(s)[k + 1].kind == TokenKind::Whitespace),
{
    lemma_tokens_fit(s, 0);
}

} // verus!
