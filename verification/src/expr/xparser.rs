//! Recursive-descent parser for the expression language.
//!
//! Grammar, loosest binding first (whitespace may stand between any two parts):
//!
//! ```text
//! expression     := comparison
//! comparison     := additive (("<=" | ">=" | "==" | "!=" | "<" | ">") additive)*
//! additive       := multiplicative (("+" | "-") multiplicative)*
//! multiplicative := unary (("*" | "/") unary)*
//! unary          := "-" unary | postfix
//! postfix        := primary ("." identifier)*
//! primary        := "(" expression ")" | number | identifier "(" arguments ")"
//!                 | built-in | identifier
//! ```
//!
//! Each parsing function below is specified by a spec function of the same
//! shape, which gives the result and the position reached, errors included.

use vstd::prelude::*;

use crate::expr::tokenizer::{char_at_is, name_end, quote_pos, whitespace_end};
use crate::expr::xexpr::{SExpr, XExpr, s_binary, s_unary, scalar_literal};
use crate::expr::xop::{XBinaryOp, XBuiltInOp, XUnaryOp, spec_builtin_from_name};
use crate::expr::xval::{
    SFloat,
    SValue,
    XFloat,
    XValue,
    all_digits,
    digit_value,
    digits_value,
    strip_leading_zeros,
    strip_trailing_zeros,
};
use crate::text::{
    chars_of,
    is_alphabetic,
    is_alphanumeric,
    is_ascii_digit,
    is_whitespace,
    push_char,
    spec_is_alphabetic,
    spec_is_digit,
    str_eq,
    string_of,
};

verus! {

broadcast use vstd::string::group_string_axioms;

/// Why an input is not an expression.
#[derive(Debug, Clone, PartialEq)]
pub enum XParseError {
    UnexpectedToken(String),
    UnexpectedEndOfInput,
    InvalidNumber(String),
    InvalidIdentifier(String),
    UnmatchedParenthesis,
    UnknownFunction(String),
    InvalidVectorLiteral,
}

/// A parse error as the specification sees it.
pub enum SParseError {
    UnexpectedToken(Seq<char>),
    UnexpectedEndOfInput,
    InvalidNumber(Seq<char>),
    InvalidIdentifier(Seq<char>),
    UnmatchedParenthesis,
    UnknownFunction(Seq<char>),
    InvalidVectorLiteral,
}

impl View for XParseError {
    type V = SParseError;

    open spec fn view(&self) -> SParseError {
        match self {
            XParseError::UnexpectedToken(t) => SParseError::UnexpectedToken(t@),
            XParseError::UnexpectedEndOfInput => SParseError::UnexpectedEndOfInput,
            XParseError::InvalidNumber(t) => SParseError::InvalidNumber(t@),
            XParseError::InvalidIdentifier(t) => SParseError::InvalidIdentifier(t@),
            XParseError::UnmatchedParenthesis => SParseError::UnmatchedParenthesis,
            XParseError::UnknownFunction(t) => SParseError::UnknownFunction(t@),
            XParseError::InvalidVectorLiteral => SParseError::InvalidVectorLiteral,
        }
    }
}

/// The message an error is shown with.
pub open spec fn spec_error_message(e: SParseError) -> Seq<char> {
    match e {
        SParseError::UnexpectedToken(t) => "Unexpected token: '"@ + t + "'"@,
        SParseError::UnexpectedEndOfInput => "Unexpected end of input"@,
        SParseError::InvalidNumber(t) => "Invalid number: '"@ + t + "'"@,
        SParseError::InvalidIdentifier(t) => "Invalid identifier: '"@ + t + "'"@,
        SParseError::UnmatchedParenthesis => "Unmatched parenthesis"@,
        SParseError::UnknownFunction(t) => "Unknown function: '"@ + t + "'"@,
        SParseError::InvalidVectorLiteral => "Invalid vector literal"@,
    }
}

impl XParseError {
    /// The message this error is shown with.
    pub fn to_string(&self) -> (s: String)
        ensures
            s@ == spec_error_message(self@),
    {
        let mut s = String::new();
        match self {
            XParseError::UnexpectedToken(t) => {
                s.append("Unexpected token: '");
                s.append(t.as_str());
                s.append("'");
            },
            XParseError::UnexpectedEndOfInput => s.append("Unexpected end of input"),
            XParseError::InvalidNumber(t) => {
                s.append("Invalid number: '");
                s.append(t.as_str());
                s.append("'");
            },
            XParseError::InvalidIdentifier(t) => {
                s.append("Invalid identifier: '");
                s.append(t.as_str());
                s.append("'");
            },
            XParseError::UnmatchedParenthesis => s.append("Unmatched parenthesis"),
            XParseError::UnknownFunction(t) => {
                s.append("Unknown function: '");
                s.append(t.as_str());
                s.append("'");
            },
            XParseError::InvalidVectorLiteral => s.append("Invalid vector literal"),
        }
        assert(s@ =~= spec_error_message(self@));
        s
    }
}

/// The view of a parse result.
pub open spec fn result_view(r: Result<XExpr, XParseError>) -> Result<SExpr, SParseError> {
    match r {
        Ok(e) => Ok(e@),
        Err(e) => Err(e@),
    }
}

// ====================
// The grammar, as spec functions.
// ====================

/// The end of the run of ASCII digits starting at `p`.
pub open spec fn digit_end(s: Seq<char>, p: int) -> int
    decreases s.len() - p,
{
    if 0 <= p < s.len() && spec_is_digit(s[p]) {
        digit_end(s, p + 1)
    } else {
        p
    }
}

/// A number literal at `p`: digits, optionally a `.` and more digits.
/// `Ok(None)` when there is none; a lone `.` and an integer above `i32::MAX`
/// are invalid numbers.
pub open spec fn sp_number(s: Seq<char>, p: int) -> (Result<Option<SValue>, SParseError>, int) {
    let de = digit_end(s, p);
    if char_at_is(s, de, '.') {
        let e = digit_end(s, de + 1);
        if e - p >= 2 {
            (
                Ok(
                    Some(
                        SValue::Float(
                            SFloat {
                                negative: false,
                                whole: strip_leading_zeros(s.subrange(p, de)),
                                frac: strip_trailing_zeros(s.subrange(de + 1, e)),
                            },
                        ),
                    ),
                ),
                e,
            )
        } else {
            (Err(SParseError::InvalidNumber(s.subrange(p, e))), e)
        }
    } else if de == p {
        (Ok(None), p)
    } else if digits_value(s.subrange(p, de)) <= i32::MAX {
        (Ok(Some(SValue::Integer(digits_value(s.subrange(p, de)) as i32))), de)
    } else {
        (Err(SParseError::InvalidNumber(s.subrange(p, de))), de)
    }
}

/// A name at `p`: a letter or `_`, then letters, digits and `_`.
pub open spec fn sp_identifier_opt(s: Seq<char>, p: int) -> (Option<Seq<char>>, int) {
    if 0 <= p < s.len() && (spec_is_alphabetic(s[p]) || s[p] == '_') {
        let e = name_end(s, p + 1);
        (Some(s.subrange(p, e)), e)
    } else {
        (None, p)
    }
}

/// A required name at `p`.
pub open spec fn sp_identifier(s: Seq<char>, p: int) -> (Result<Seq<char>, SParseError>, int) {
    match sp_identifier_opt(s, p) {
        (Some(n), e) => (Ok(n), e),
        (None, e) => (Err(SParseError::InvalidIdentifier(Seq::empty())), e),
    }
}

/// A quoted string at `p`, or else a name.
pub open spec fn sp_string_literal(s: Seq<char>, p: int) -> (Result<Seq<char>, SParseError>, int) {
    if char_at_is(s, p, '"') {
        let q = quote_pos(s, p + 1);
        if q < s.len() {
            (Ok(s.subrange(p + 1, q)), q + 1)
        } else {
            (Err(SParseError::UnmatchedParenthesis), q)
        }
    } else {
        sp_identifier(s, p)
    }
}

/// The built-in a name denotes, or an invalid-identifier error.
pub open spec fn sp_builtin(name: Seq<char>) -> Result<XBuiltInOp, SParseError> {
    match spec_builtin_from_name(name) {
        Some(b) => Ok(b),
        None => Err(SParseError::InvalidIdentifier(name)),
    }
}

/// Whether the text `t` stands at `p`, and the position after it.
pub open spec fn sp_match_str(s: Seq<char>, p: int, t: Seq<char>) -> (bool, int) {
    if 0 <= p && p + t.len() <= s.len() && s.subrange(p, p + t.len()) == t {
        (true, p + t.len())
    } else {
        (false, p)
    }
}

/// The comparison operator at `q`, tried in the order `<= >= == != < >`.
pub open spec fn sp_cmp_op(s: Seq<char>, q: int) -> Option<(XBinaryOp, int)> {
    if sp_match_str(s, q, seq!['<', '=']).0 {
        Some((XBinaryOp::Lte, q + 2))
    } else if sp_match_str(s, q, seq!['>', '=']).0 {
        Some((XBinaryOp::Gte, q + 2))
    } else if sp_match_str(s, q, seq!['=', '=']).0 {
        Some((XBinaryOp::Eq, q + 2))
    } else if sp_match_str(s, q, seq!['!', '=']).0 {
        Some((XBinaryOp::Neq, q + 2))
    } else if char_at_is(s, q, '<') {
        Some((XBinaryOp::Lt, q + 1))
    } else if char_at_is(s, q, '>') {
        Some((XBinaryOp::Ge, q + 1))
    } else {
        None
    }
}

/// The additive operator at `q`.
pub open spec fn sp_add_op(s: Seq<char>, q: int) -> Option<(XBinaryOp, int)> {
    if char_at_is(s, q, '+') {
        Some((XBinaryOp::Add, q + 1))
    } else if char_at_is(s, q, '-') {
        Some((XBinaryOp::Sub, q + 1))
    } else {
        None
    }
}

/// The multiplicative operator at `q`.
pub open spec fn sp_mul_op(s: Seq<char>, q: int) -> Option<(XBinaryOp, int)> {
    if char_at_is(s, q, '*') {
        Some((XBinaryOp::Mul, q + 1))
    } else if char_at_is(s, q, '/') {
        Some((XBinaryOp::Div, q + 1))
    } else {
        None
    }
}

/// The one-argument function a name denotes.
pub open spec fn unary_function(name: Seq<char>) -> Option<XUnaryOp> {
    if name == "sin"@ {
        Some(XUnaryOp::Sin)
    } else if name == "cos"@ {
        Some(XUnaryOp::Cos)
    } else if name == "abs"@ {
        Some(XUnaryOp::Abs)
    } else if name == "norm"@ {
        Some(XUnaryOp::Norm)
    } else if name == "all"@ {
        Some(XUnaryOp::All)
    } else if name == "any"@ {
        Some(XUnaryOp::Any)
    } else {
        None
    }
}

/// The two-argument function a name denotes (vector constructors aside).
pub open spec fn binary_function(name: Seq<char>) -> Option<XBinaryOp> {
    if name == "dot"@ {
        Some(XBinaryOp::Dot)
    } else if name == "cross"@ {
        Some(XBinaryOp::Cross)
    } else if name == "min"@ {
        Some(XBinaryOp::Min)
    } else if name == "max"@ {
        Some(XBinaryOp::Max)
    } else {
        None
    }
}

/// `vec2(x, y)`: a vector literal when both parts are real literals, else a
/// vector construction.
pub open spec fn make_vec2(x: SExpr, y: SExpr) -> SExpr {
    match (scalar_literal(x), scalar_literal(y)) {
        (Some(a), Some(b)) => SExpr::Lit(SValue::Vec2(a, b)),
        _ => s_binary(x, XBinaryOp::Vec2, y),
    }
}

/// `vec3(x, y, z)`: a vector literal when all parts are real literals, else
/// `vec3(vec2(x, y), z)`.
pub open spec fn make_vec3(x: SExpr, y: SExpr, z: SExpr) -> SExpr {
    match (scalar_literal(x), scalar_literal(y), scalar_literal(z)) {
        (Some(a), Some(b), Some(c)) => SExpr::Lit(SValue::Vec3(a, b, c)),
        _ => s_binary(s_binary(x, XBinaryOp::Vec2, y), XBinaryOp::Vec3, z),
    }
}

/// The character at `p` as text, or `"\0"` at the end.
pub open spec fn peek_text(s: Seq<char>, p: int) -> Seq<char> {
    if 0 <= p < s.len() {
        seq![s[p]]
    } else {
        seq!['\0']
    }
}

/// The result of an expression parse that went wrong at `p`; never reached.
pub open spec fn stuck(p: int) -> (Result<SExpr, SParseError>, int) {
    (Err(SParseError::UnexpectedEndOfInput), p)
}

/// Whether `p` is a position of `s`.
pub open spec fn within(s: Seq<char>, p: int) -> bool {
    0 <= p <= s.len()
}

/// `expression` at `p`.
pub open spec fn sp_expression(s: Seq<char>, p: int) -> (Result<SExpr, SParseError>, int)
    decreases s.len() - p, 10int,
{
    if within(s, p) {
        sp_comparison(s, p)
    } else {
        stuck(p)
    }
}

/// `comparison` at `p`.
pub open spec fn sp_comparison(s: Seq<char>, p: int) -> (Result<SExpr, SParseError>, int)
    decreases s.len() - p, 9int,
{
    if within(s, p) {
        match sp_additive(s, p) {
            (Err(e), p1) => (Err(e), p1),
            (Ok(l), p1) => if p <= p1 <= s.len() {
                sp_comparison_rest(s, l, p1)
            } else {
                stuck(p1)
            },
        }
    } else {
        stuck(p)
    }
}

/// The rest of a comparison chain whose left side `l` ends at `p`.
pub open spec fn sp_comparison_rest(s: Seq<char>, l: SExpr, p: int) -> (
    Result<SExpr, SParseError>,
    int,
)
    decreases s.len() - p, 8int,
{
    let q = whitespace_end(s, p);
    match sp_cmp_op(s, q) {
        None => (Ok(l), q),
        Some((op, q2)) => {
            let r = whitespace_end(s, q2);
            if within(s, p) && p < r <= s.len() {
                match sp_additive(s, r) {
                    (Err(e), p3) => (Err(e), p3),
                    (Ok(right), p3) => if r <= p3 <= s.len() {
                        sp_comparison_rest(s, s_binary(l, op, right), p3)
                    } else {
                        stuck(p3)
                    },
                }
            } else {
                stuck(r)
            }
        },
    }
}

/// `additive` at `p`.
pub open spec fn sp_additive(s: Seq<char>, p: int) -> (Result<SExpr, SParseError>, int)
    decreases s.len() - p, 7int,
{
    if within(s, p) {
        match sp_multiplicative(s, p) {
            (Err(e), p1) => (Err(e), p1),
            (Ok(l), p1) => if p <= p1 <= s.len() {
                sp_additive_rest(s, l, p1)
            } else {
                stuck(p1)
            },
        }
    } else {
        stuck(p)
    }
}

/// The rest of a sum whose left side `l` ends at `p`.
pub open spec fn sp_additive_rest(s: Seq<char>, l: SExpr, p: int) -> (
    Result<SExpr, SParseError>,
    int,
)
    decreases s.len() - p, 6int,
{
    let q = whitespace_end(s, p);
    match sp_add_op(s, q) {
        None => (Ok(l), q),
        Some((op, q2)) => {
            let r = whitespace_end(s, q2);
            if within(s, p) && p < r <= s.len() {
                match sp_multiplicative(s, r) {
                    (Err(e), p3) => (Err(e), p3),
                    (Ok(right), p3) => if r <= p3 <= s.len() {
                        sp_additive_rest(s, s_binary(l, op, right), p3)
                    } else {
                        stuck(p3)
                    },
                }
            } else {
                stuck(r)
            }
        },
    }
}

/// `multiplicative` at `p`.
pub open spec fn sp_multiplicative(s: Seq<char>, p: int) -> (Result<SExpr, SParseError>, int)
    decreases s.len() - p, 5int,
{
    if within(s, p) {
        match sp_unary(s, p) {
            (Err(e), p1) => (Err(e), p1),
            (Ok(l), p1) => if p <= p1 <= s.len() {
                sp_multiplicative_rest(s, l, p1)
            } else {
                stuck(p1)
            },
        }
    } else {
        stuck(p)
    }
}

/// The rest of a product whose left side `l` ends at `p`.
pub open spec fn sp_multiplicative_rest(s: Seq<char>, l: SExpr, p: int) -> (
    Result<SExpr, SParseError>,
    int,
)
    decreases s.len() - p, 4int,
{
    let q = whitespace_end(s, p);
    match sp_mul_op(s, q) {
        None => (Ok(l), q),
        Some((op, q2)) => {
            let r = whitespace_end(s, q2);
            if within(s, p) && p < r <= s.len() {
                match sp_unary(s, r) {
                    (Err(e), p3) => (Err(e), p3),
                    (Ok(right), p3) => if r <= p3 <= s.len() {
                        sp_multiplicative_rest(s, s_binary(l, op, right), p3)
                    } else {
                        stuck(p3)
                    },
                }
            } else {
                stuck(r)
            }
        },
    }
}

/// `unary` at `p`.
pub open spec fn sp_unary(s: Seq<char>, p: int) -> (Result<SExpr, SParseError>, int)
    decreases s.len() - p, 3int,
{
    let q = whitespace_end(s, p);
    if within(s, p) && p <= q <= s.len() {
        if char_at_is(s, q, '-') {
            let r = whitespace_end(s, q + 1);
            if p < r <= s.len() {
                match sp_unary(s, r) {
                    (Err(e), p2) => (Err(e), p2),
                    (Ok(e), p2) => (Ok(s_unary(XUnaryOp::Neg, e)), p2),
                }
            } else {
                stuck(r)
            }
        } else {
            sp_postfix(s, q)
        }
    } else {
        stuck(q)
    }
}

/// `postfix` at `p`.
pub open spec fn sp_postfix(s: Seq<char>, p: int) -> (Result<SExpr, SParseError>, int)
    decreases s.len() - p, 2int,
{
    if within(s, p) {
        match sp_primary(s, p) {
            (Err(e), p1) => (Err(e), p1),
            (Ok(e), p1) => sp_postfix_rest(s, e, p1),
        }
    } else {
        stuck(p)
    }
}

/// The field accesses after an expression `e` that ends at `p`.
pub open spec fn sp_postfix_rest(s: Seq<char>, e: SExpr, p: int) -> (
    Result<SExpr, SParseError>,
    int,
)
    decreases s.len() - p,
{
    let q = whitespace_end(s, p);
    if char_at_is(s, q, '.') {
        if q + 1 < s.len() && spec_is_digit(s[q + 1]) {
            (Err(SParseError::UnexpectedToken(seq!['.'])), q + 1)
        } else {
            match sp_identifier(s, q + 1) {
                (Err(err), p2) => (Err(err), p2),
                (Ok(field), p2) => if 0 <= p < p2 <= s.len() {
                    sp_postfix_rest(s, s_binary(e, XBinaryOp::Dot, SExpr::Attr(field)), p2)
                } else {
                    stuck(p2)
                },
            }
        }
    } else {
        (Ok(e), q)
    }
}

/// `primary` at `p`.
pub open spec fn sp_primary(s: Seq<char>, p: int) -> (Result<SExpr, SParseError>, int)
    decreases s.len() - p, 1int,
{
    let q = whitespace_end(s, p);
    if within(s, p) && p <= q <= s.len() {
        if char_at_is(s, q, '(') {
            match sp_expression(s, q + 1) {
                (Err(e), p1) => (Err(e), p1),
                (Ok(e), p1) => {
                    let p2 = whitespace_end(s, p1);
                    if char_at_is(s, p2, ')') {
                        (Ok(e), p2 + 1)
                    } else {
                        (Err(SParseError::UnmatchedParenthesis), p2)
                    }
                },
            }
        } else {
            match sp_number(s, q) {
                (Err(e), p1) => (Err(e), p1),
                (Ok(Some(v)), p1) => (Ok(SExpr::Lit(v)), p1),
                (Ok(None), _) => match sp_identifier_opt(s, q) {
                    (None, p2) => (Err(SParseError::UnexpectedEndOfInput), p2),
                    (Some(name), p2) => {
                        let p3 = whitespace_end(s, p2);
                        if char_at_is(s, p3, '(') {
                            if p < p3 + 1 <= s.len() {
                                sp_function_call(s, name, p3 + 1)
                            } else {
                                stuck(p3)
                            }
                        } else {
                            match spec_builtin_from_name(name) {
                                Some(b) => (Ok(SExpr::BuiltIn(b)), p3),
                                None => (Ok(SExpr::Attr(name)), p3),
                            }
                        }
                    },
                },
            }
        }
    } else {
        stuck(q)
    }
}

/// The arguments and closing parenthesis of a call of `name`, from `p`.
pub open spec fn sp_function_call(s: Seq<char>, name: Seq<char>, p: int) -> (
    Result<SExpr, SParseError>,
    int,
)
    decreases s.len() - p, 11int,
{
    if !within(s, p) {
        stuck(p)
    } else if unary_function(name) is Some {
        match sp_expression(s, p) {
            (Err(e), p1) => (Err(e), p1),
            (Ok(a), p1) => {
                let p2 = whitespace_end(s, p1);
                if char_at_is(s, p2, ')') {
                    (Ok(s_unary(unary_function(name)->0, a)), p2 + 1)
                } else {
                    (Err(SParseError::UnmatchedParenthesis), p2)
                }
            },
        }
    } else if binary_function(name) is Some || name == "vec2"@ {
        match sp_expression(s, p) {
            (Err(e), p1) => (Err(e), p1),
            (Ok(a), p1) => {
                let p2 = whitespace_end(s, p1);
                if !char_at_is(s, p2, ',') {
                    (
                        Err(
                            if binary_function(name) is Some {
                                SParseError::UnexpectedToken(peek_text(s, p2))
                            } else {
                                SParseError::InvalidVectorLiteral
                            },
                        ),
                        p2,
                    )
                } else {
                    let p3 = whitespace_end(s, p2 + 1);
                    if p < p3 <= s.len() {
                        match sp_expression(s, p3) {
                            (Err(e), p4) => (Err(e), p4),
                            (Ok(b), p4) => {
                                let p5 = whitespace_end(s, p4);
                                if char_at_is(s, p5, ')') {
                                    (
                                        Ok(
                                            if binary_function(name) is Some {
                                                s_binary(a, binary_function(name)->0, b)
                                            } else {
                                                make_vec2(a, b)
                                            },
                                        ),
                                        p5 + 1,
                                    )
                                } else {
                                    (Err(SParseError::UnmatchedParenthesis), p5)
                                }
                            },
                        }
                    } else {
                        stuck(p3)
                    }
                }
            },
        }
    } else if name == "vec3"@ {
        match sp_expression(s, p) {
            (Err(e), p1) => (Err(e), p1),
            (Ok(a), p1) => {
                let p2 = whitespace_end(s, p1);
                if !char_at_is(s, p2, ',') {
                    (Err(SParseError::InvalidVectorLiteral), p2)
                } else {
                    let p3 = whitespace_end(s, p2 + 1);
                    if p < p3 <= s.len() {
                        match sp_expression(s, p3) {
                            (Err(e), p4) => (Err(e), p4),
                            (Ok(b), p4) => {
                                let p5 = whitespace_end(s, p4);
                                if !char_at_is(s, p5, ',') {
                                    (Err(SParseError::InvalidVectorLiteral), p5)
                                } else {
                                    let p6 = whitespace_end(s, p5 + 1);
                                    if p < p6 <= s.len() {
                                        match sp_expression(s, p6) {
                                            (Err(e), p7) => (Err(e), p7),
                                            (Ok(c), p7) => {
                                                let p8 = whitespace_end(s, p7);
                                                if char_at_is(s, p8, ')') {
                                                    (Ok(make_vec3(a, b, c)), p8 + 1)
                                                } else {
                                                    (Err(SParseError::UnmatchedParenthesis), p8)
                                                }
                                            },
                                        }
                                    } else {
                                        stuck(p6)
                                    }
                                }
                            },
                        }
                    } else {
                        stuck(p3)
                    }
                }
            },
        }
    } else if name == "attr"@ || name == "prop"@ {
        match sp_string_literal(s, whitespace_end(s, p)) {
            (Err(e), p1) => (Err(e), p1),
            (Ok(n), p1) => {
                let p2 = whitespace_end(s, p1);
                if char_at_is(s, p2, ')') {
                    (
                        Ok(
                            if name == "attr"@ {
                                SExpr::Attr(n)
                            } else {
                                SExpr::Prop(n)
                            },
                        ),
                        p2 + 1,
                    )
                } else {
                    (Err(SParseError::UnmatchedParenthesis), p2)
                }
            },
        }
    } else {
        (Err(SParseError::UnknownFunction(name)), p)
    }
}

/// A whole input from `p`: an expression with nothing but whitespace after it.
pub open spec fn sp_parse(s: Seq<char>, p: int) -> (Result<SExpr, SParseError>, int) {
    let q = whitespace_end(s, p);
    match sp_expression(s, q) {
        (Err(e), p1) => (Err(e), p1),
        (Ok(e), p1) => {
            let p2 = whitespace_end(s, p1);
            if 0 <= p2 < s.len() {
                (Err(SParseError::UnexpectedToken(seq![s[p2]])), p2)
            } else {
                (Ok(e), p2)
            }
        },
    }
}

/// What parsing the whole of `s` gives.
pub open spec fn spec_parse(s: Seq<char>) -> Result<SExpr, SParseError> {
    sp_parse(s, 0).0
}

// ====================
// The parser.
// ====================

/// Parses an input string, keeping a position in it.
pub struct Parser {
    input: Vec<char>,
    pos: usize,
}

impl Parser {
    #[verifier::type_invariant]
    spec fn position_within(&self) -> bool {
        self.pos <= self.input.len()
    }

    /// The characters being parsed.
    pub closed spec fn source(&self) -> Seq<char> {
        self.input@
    }

    /// Where parsing stands.
    pub closed spec fn position(&self) -> int {
        self.pos as int
    }

    /// A parser at the start of `input`.
    pub fn new(input: &str) -> (r: Parser)
        ensures
            r.source() == input@,
            r.position() == 0,
    {
        Parser { input: chars_of(input), pos: 0 }
    }

    /// The current character, if any. (The position always lies within the
    /// input, as this also states.)
    pub fn peek(&self) -> (r: Option<char>)
        ensures
            0 <= self.position() <= self.source().len(),
            r == (if self.position() < self.source().len() {
                Some(self.source()[self.position()])
            } else {
                None::<char>
            }),
    {
        proof {
            use_type_invariant(self);
        }
        if self.pos < self.input.len() {
            Some(self.input[self.pos])
        } else {
            None
        }
    }

    /// Moves past the current character; at the end of the input it stays.
    pub fn advance(&mut self)
        ensures
            final(self).source() == old(self).source(),
            final(self).position() == (if old(self).position() < old(self).source().len() {
                old(self).position() + 1
            } else {
                old(self).position()
            }),
    {
        proof {
            use_type_invariant(&*self);
        }
        if self.pos < self.input.len() {
            self.pos = self.pos + 1;
        }
    }

    /// Moves past the current character when it is `expected`.
    pub fn match_char(&mut self, expected: char) -> (b: bool)
        ensures
            final(self).source() == old(self).source(),
            b == char_at_is(old(self).source(), old(self).position(), expected),
            final(self).position() == (if b {
                old(self).position() + 1
            } else {
                old(self).position()
            }),
    {
        if self.peek() == Some(expected) {
            self.advance();
            true
        } else {
            false
        }
    }

    /// Moves past the text `expected` when it stands at the current position.
    pub fn match_str(&mut self, expected: &str) -> (b: bool)
        ensures
            final(self).source() == old(self).source(),
            (b, final(self).position()) == sp_match_str(
                old(self).source(),
                old(self).position(),
                expected@,
            ),
    {
        proof {
            use_type_invariant(&*self);
        }
        let chars = chars_of(expected);
        if chars.len() > self.input.len() - self.pos {
            return false;
        }
        let mut i: usize = 0;
        while i < chars.len()
            invariant
                chars@ == expected@,
                self.pos + chars.len() <= self.input.len(),
                i <= chars.len(),
                forall|k: int| 0 <= k < i ==> self.input@[self.pos + k] == chars@[k],
            decreases chars.len() - i,
        {
            if self.input[self.pos + i] != chars[i] {
                assert(self.input@.subrange(self.pos as int, self.pos + chars.len())[i as int]
                    != chars@[i as int]);
                return false;
            }
            i = i + 1;
        }
        assert(self.input@.subrange(self.pos as int, self.pos + chars.len()) =~= chars@);
        self.pos = self.pos + chars.len();
        true
    }

    /// Moves past the whitespace at the current position.
    pub fn skip_whitespace(&mut self)
        ensures
            final(self).source() == old(self).source(),
            final(self).position() == whitespace_end(old(self).source(), old(self).position()),
            old(self).position() <= final(self).position() <= final(self).source().len(),
    {
        proof {
            use_type_invariant(&*self);
        }
        let ghost p0 = self.pos as int;
        loop
            invariant
                self.input@ == old(self).input@,
                p0 <= self.pos <= self.input.len(),
                whitespace_end(self.input@, p0) == whitespace_end(self.input@, self.pos as int),
            ensures
                self.input@ == old(self).input@,
                p0 <= self.pos <= self.input.len(),
                whitespace_end(self.input@, p0) == self.pos as int,
            decreases self.input.len() - self.pos,
        {
            match self.peek() {
                Some(ch) => {
                    if is_whitespace(ch) {
                        self.advance();
                    } else {
                        break;
                    }
                },
                None => break,
            }
        }
    }

    /// The built-in named `name`, or an invalid-identifier error.
    pub fn parse_builtin(&self, name: &str) -> (r: Result<XBuiltInOp, XParseError>)
        ensures
            match (r, sp_builtin(name@)) {
                (Ok(a), Ok(b)) => a == b,
                (Err(a), Err(b)) => a@ == b,
                _ => false,
            },
    {
        match XBuiltInOp::from_name(name) {
            Ok(b) => Ok(b),
            Err(_) => Err(XParseError::InvalidIdentifier(name.to_owned())),
        }
    }

    /// A name at the current position, if one starts there.
    pub fn parse_identifier_opt(&mut self) -> (r: Option<String>)
        ensures
            final(self).source() == old(self).source(),
            (match r {
                Some(n) => Some(n@),
                None => None,
            }, final(self).position()) == sp_identifier_opt(
                old(self).source(),
                old(self).position(),
            ),
            old(self).position() <= final(self).position() <= final(self).source().len(),
            r is Some ==> old(self).position() < final(self).position(),
    {
        proof {
            use_type_invariant(&*self);
        }
        let start = self.pos;
        match self.peek() {
            Some(ch) => {
                if !is_alphabetic(ch) && ch != '_' {
                    return None;
                }
                self.advance();
            },
            None => {
                return None;
            },
        }
        let ghost s = self.input@;
        loop
            invariant
                self.input@ == s,
                start < self.pos <= s.len(),
                name_end(s, start + 1) == name_end(s, self.pos as int),
            ensures
                self.input@ == s,
                start < self.pos <= s.len(),
                name_end(s, start + 1) == self.pos as int,
            decreases s.len() - self.pos,
        {
            match self.peek() {
                Some(ch) => {
                    if is_alphanumeric(ch) || ch == '_' {
                        self.advance();
                    } else {
                        break;
                    }
                },
                None => break,
            }
        }
        Some(string_of(&self.input, start, self.pos))
    }

    /// A required name at the current position.
    pub fn parse_identifier(&mut self) -> (r: Result<String, XParseError>)
        ensures
            final(self).source() == old(self).source(),
            (match r {
                Ok(n) => Ok(n@),
                Err(e) => Err(e@),
            }, final(self).position()) == sp_identifier(old(self).source(), old(self).position()),
            old(self).position() <= final(self).position() <= final(self).source().len(),
    {
        match self.parse_identifier_opt() {
            Some(ident) => Ok(ident),
            None => Err(XParseError::InvalidIdentifier(String::new())),
        }
    }

    /// A quoted string at the current position (its contents), or else a name.
    pub fn parse_string_literal(&mut self) -> (r: Result<String, XParseError>)
        ensures
            final(self).source() == old(self).source(),
            (match r {
                Ok(n) => Ok(n@),
                Err(e) => Err(e@),
            }, final(self).position()) == sp_string_literal(
                old(self).source(),
                old(self).position(),
            ),
            old(self).position() <= final(self).position() <= final(self).source().len(),
    {
        proof {
            use_type_invariant(&*self);
        }
        if !self.match_char('"') {
            return self.parse_identifier();
        }
        let ghost s = self.input@;
        let start = self.pos;
        loop
            invariant
                self.input@ == s,
                1 <= start <= self.pos <= s.len(),
                quote_pos(s, start as int) == quote_pos(s, self.pos as int),
            ensures
                self.input@ == s,
                1 <= start <= self.pos <= s.len(),
                quote_pos(s, start as int) == self.pos as int,
            decreases s.len() - self.pos,
        {
            match self.peek() {
                Some(ch) => {
                    if ch == '"' {
                        break;
                    }
                    self.advance();
                },
                None => break,
            }
        }
        if self.pos < self.input.len() {
            let result = string_of(&self.input, start, self.pos);
            self.advance();
            Ok(result)
        } else {
            Err(XParseError::UnmatchedParenthesis)
        }
    }

    /// Moves past the digits at the current position.
    fn skip_digits(&mut self)
        ensures
            final(self).source() == old(self).source(),
            final(self).position() == digit_end(old(self).source(), old(self).position()),
            old(self).position() <= final(self).position() <= final(self).source().len(),
            all_digits(
                old(self).source().subrange(old(self).position(), final(self).position()),
            ),
    {
        proof {
            use_type_invariant(&*self);
        }
        let ghost s = self.input@;
        let ghost p0 = self.pos as int;
        loop
            invariant
                self.input@ == s,
                p0 <= self.pos <= s.len(),
                digit_end(s, p0) == digit_end(s, self.pos as int),
                forall|k: int| p0 <= k < self.pos ==> #[trigger] spec_is_digit(s[k]),
            ensures
                self.input@ == s,
                p0 <= self.pos <= s.len(),
                digit_end(s, p0) == self.pos as int,
                forall|k: int| p0 <= k < self.pos ==> #[trigger] spec_is_digit(s[k]),
            decreases s.len() - self.pos,
        {
            match self.peek() {
                Some(ch) => {
                    if is_ascii_digit(ch) {
                        self.advance();
                    } else {
                        break;
                    }
                },
                None => break,
            }
        }
        assert forall|i: int| 0 <= i < s.subrange(p0, self.pos as int).len() implies #[trigger] spec_is_digit(
            s.subrange(p0, self.pos as int)[i],
        ) by {
            assert(s.subrange(p0, self.pos as int)[i] == s[p0 + i]);
        }
    }
}

/// `parser` moved from `before` to `after` over the same input, giving `r`,
/// which with the position reached is `expected`.
pub open spec fn parse_step(
    before: Parser,
    after: Parser,
    r: Result<XExpr, XParseError>,
    expected: (Result<SExpr, SParseError>, int),
) -> bool {
    &&& after.source() == before.source()
    &&& (result_view(r), after.position()) == expected
    &&& before.position() <= after.position() <= after.source().len()
}

/// The one-argument function named `name`, if any.
fn unary_function_of(name: &str) -> (r: Option<XUnaryOp>)
    ensures
        r == unary_function(name@),
{
    if str_eq(name, "sin") {
        Some(XUnaryOp::Sin)
    } else if str_eq(name, "cos") {
        Some(XUnaryOp::Cos)
    } else if str_eq(name, "abs") {
        Some(XUnaryOp::Abs)
    } else if str_eq(name, "norm") {
        Some(XUnaryOp::Norm)
    } else if str_eq(name, "all") {
        Some(XUnaryOp::All)
    } else if str_eq(name, "any") {
        Some(XUnaryOp::Any)
    } else {
        None
    }
}

/// The two-argument function named `name`, if any (vector constructors aside).
fn binary_function_of(name: &str) -> (r: Option<XBinaryOp>)
    ensures
        r == binary_function(name@),
{
    if str_eq(name, "dot") {
        Some(XBinaryOp::Dot)
    } else if str_eq(name, "cross") {
        Some(XBinaryOp::Cross)
    } else if str_eq(name, "min") {
        Some(XBinaryOp::Min)
    } else if str_eq(name, "max") {
        Some(XBinaryOp::Max)
    } else {
        None
    }
}

/// `vec2(x, y)`, as a literal when both parts are real literals.
fn build_vec2(x: XExpr, y: XExpr) -> (r: XExpr)
    ensures
        r@ == make_vec2(x@, y@),
{
    match (x.scalar_literal(), y.scalar_literal()) {
        (Some(a), Some(b)) => XExpr::lit(XValue::Vec2(a, b)),
        _ => XExpr::binary(x, XBinaryOp::Vec2, y),
    }
}

/// `vec3(x, y, z)`, as a literal when all parts are real literals.
fn build_vec3(x: XExpr, y: XExpr, z: XExpr) -> (r: XExpr)
    ensures
        r@ == make_vec3(x@, y@, z@),
{
    match (x.scalar_literal(), y.scalar_literal(), z.scalar_literal()) {
        (Some(a), Some(b), Some(c)) => XExpr::lit(XValue::Vec3(a, b, c)),
        _ => XExpr::binary(XExpr::binary(x, XBinaryOp::Vec2, y), XBinaryOp::Vec3, z),
    }
}

impl Parser {
    /// A number literal at the current position, `Ok(None)` when none starts there.
    pub fn parse_number(&mut self) -> (r: Result<Option<XValue>, XParseError>)
        ensures
            final(self).source() == old(self).source(),
            (match r {
                Ok(Some(v)) => Ok(Some(v@)),
                Ok(None) => Ok(None),
                Err(e) => Err(e@),
            }, final(self).position()) == sp_number(old(self).source(), old(self).position()),
            old(self).position() <= final(self).position() <= final(self).source().len(),
    {
        proof {
            use_type_invariant(&*self);
        }
        let ghost s = self.input@;
        let start = self.pos;
        self.skip_digits();
        let de = self.pos;
        if self.peek() == Some('.') {
            self.advance();
            let fs = self.pos;
            self.skip_digits();
            let e = self.pos;
            if e - start >= 2 {
                let f = XFloat::from_digit_ranges(false, &self.input, start, de, fs, e);
                Ok(Some(XValue::Float(f)))
            } else {
                Err(XParseError::InvalidNumber(string_of(&self.input, start, e)))
            }
        } else if de == start {
            Ok(None)
        } else {
            match integer_value(&self.input, start, de) {
                Some(v) => Ok(Some(XValue::Integer(v))),
                None => Err(XParseError::InvalidNumber(string_of(&self.input, start, de))),
            }
        }
    }

    /// A whole input: an expression with only whitespace around it.
    pub fn parse(&mut self) -> (r: Result<XExpr, XParseError>)
        ensures
            parse_step(
                *old(self),
                *final(self),
                r,
                sp_parse(old(self).source(), old(self).position()),
            ),
    {
        proof {
            use_type_invariant(&*self);
        }
        self.skip_whitespace();
        let expr = match self.parse_expression() {
            Ok(e) => e,
            Err(e) => return Err(e),
        };
        self.skip_whitespace();
        if self.pos < self.input.len() {
            let mut t = String::new();
            push_char(&mut t, self.input[self.pos]);
            return Err(XParseError::UnexpectedToken(t));
        }
        Ok(expr)
    }

    /// `expression` at the current position.
    pub fn parse_expression(&mut self) -> (r: Result<XExpr, XParseError>)
        ensures
            parse_step(
                *old(self),
                *final(self),
                r,
                sp_expression(old(self).source(), old(self).position()),
            ),
        decreases old(self).source().len() - old(self).position(), 10int,
    {
        proof {
            use_type_invariant(&*self);
        }
        self.parse_comparison()
    }

    /// The comparison operator at the current position, if any.
    fn comparison_op(&mut self) -> (r: Option<XBinaryOp>)
        ensures
            final(self).source() == old(self).source(),
            match sp_cmp_op(old(self).source(), old(self).position()) {
                None => r is None && final(self).position() == old(self).position(),
                Some((op, q)) => r == Some(op) && final(self).position() == q,
            },
    {
        proof {
            reveal_strlit("<=");
            reveal_strlit(">=");
            reveal_strlit("==");
            reveal_strlit("!=");
            assert("<="@ =~= seq!['<', '=']);
            assert(">="@ =~= seq!['>', '=']);
            assert("=="@ =~= seq!['=', '=']);
            assert("!="@ =~= seq!['!', '=']);
        }
        if self.match_str("<=") {
            Some(XBinaryOp::Lte)
        } else if self.match_str(">=") {
            Some(XBinaryOp::Gte)
        } else if self.match_str("==") {
            Some(XBinaryOp::Eq)
        } else if self.match_str("!=") {
            Some(XBinaryOp::Neq)
        } else if self.match_char('<') {
            Some(XBinaryOp::Lt)
        } else if self.match_char('>') {
            Some(XBinaryOp::Ge)
        } else {
            None
        }
    }

    /// The additive operator at the current position, if any.
    fn additive_op(&mut self) -> (r: Option<XBinaryOp>)
        ensures
            final(self).source() == old(self).source(),
            match sp_add_op(old(self).source(), old(self).position()) {
                None => r is None && final(self).position() == old(self).position(),
                Some((op, q)) => r == Some(op) && final(self).position() == q,
            },
    {
        if self.match_char('+') {
            Some(XBinaryOp::Add)
        } else if self.match_char('-') {
            Some(XBinaryOp::Sub)
        } else {
            None
        }
    }

    /// The multiplicative operator at the current position, if any.
    fn multiplicative_op(&mut self) -> (r: Option<XBinaryOp>)
        ensures
            final(self).source() == old(self).source(),
            match sp_mul_op(old(self).source(), old(self).position()) {
                None => r is None && final(self).position() == old(self).position(),
                Some((op, q)) => r == Some(op) && final(self).position() == q,
            },
    {
        if self.match_char('*') {
            Some(XBinaryOp::Mul)
        } else if self.match_char('/') {
            Some(XBinaryOp::Div)
        } else {
            None
        }
    }

    /// `comparison` at the current position.
    pub fn parse_comparison(&mut self) -> (r: Result<XExpr, XParseError>)
        ensures
            parse_step(
                *old(self),
                *final(self),
                r,
                sp_comparison(old(self).source(), old(self).position()),
            ),
        decreases old(self).source().len() - old(self).position(), 9int,
    {
        proof {
            use_type_invariant(&*self);
        }
        let left = match self.parse_additive() {
            Ok(e) => e,
            Err(e) => return Err(e),
        };
        self.parse_comparison_rest(left)
    }

    /// The rest of a comparison chain whose left side `left` ends at the current position.
    fn parse_comparison_rest(&mut self, left: XExpr) -> (r: Result<XExpr, XParseError>)
        ensures
            parse_step(
                *old(self),
                *final(self),
                r,
                sp_comparison_rest(old(self).source(), left@, old(self).position()),
            ),
        decreases old(self).source().len() - old(self).position(), 8int,
    {
        proof {
            use_type_invariant(&*self);
        }
        self.skip_whitespace();
        match self.comparison_op() {
            None => Ok(left),
            Some(op) => {
                self.skip_whitespace();
                let right = match self.parse_additive() {
                    Ok(e) => e,
                    Err(e) => return Err(e),
                };
                self.parse_comparison_rest(XExpr::binary(left, op, right))
            },
        }
    }

    /// `additive` at the current position.
    pub fn parse_additive(&mut self) -> (r: Result<XExpr, XParseError>)
        ensures
            parse_step(
                *old(self),
                *final(self),
                r,
                sp_additive(old(self).source(), old(self).position()),
            ),
        decreases old(self).source().len() - old(self).position(), 7int,
    {
        proof {
            use_type_invariant(&*self);
        }
        let left = match self.parse_multiplicative() {
            Ok(e) => e,
            Err(e) => return Err(e),
        };
        self.parse_additive_rest(left)
    }

    /// The rest of a sum whose left side `left` ends at the current position.
    fn parse_additive_rest(&mut self, left: XExpr) -> (r: Result<XExpr, XParseError>)
        ensures
            parse_step(
                *old(self),
                *final(self),
                r,
                sp_additive_rest(old(self).source(), left@, old(self).position()),
            ),
        decreases old(self).source().len() - old(self).position(), 6int,
    {
        proof {
            use_type_invariant(&*self);
        }
        self.skip_whitespace();
        match self.additive_op() {
            None => Ok(left),
            Some(op) => {
                self.skip_whitespace();
                let right = match self.parse_multiplicative() {
                    Ok(e) => e,
                    Err(e) => return Err(e),
                };
                self.parse_additive_rest(XExpr::binary(left, op, right))
            },
        }
    }

    /// `multiplicative` at the current position.
    pub fn parse_multiplicative(&mut self) -> (r: Result<XExpr, XParseError>)
        ensures
            parse_step(
                *old(self),
                *final(self),
                r,
                sp_multiplicative(old(self).source(), old(self).position()),
            ),
        decreases old(self).source().len() - old(self).position(), 5int,
    {
        proof {
            use_type_invariant(&*self);
        }
        let left = match self.parse_unary() {
            Ok(e) => e,
            Err(e) => return Err(e),
        };
        self.parse_multiplicative_rest(left)
    }

    /// The rest of a product whose left side `left` ends at the current position.
    fn parse_multiplicative_rest(&mut self, left: XExpr) -> (r: Result<XExpr, XParseError>)
        ensures
            parse_step(
                *old(self),
                *final(self),
                r,
                sp_multiplicative_rest(old(self).source(), left@, old(self).position()),
            ),
        decreases old(self).source().len() - old(self).position(), 4int,
    {
        proof {
            use_type_invariant(&*self);
        }
        self.skip_whitespace();
        match self.multiplicative_op() {
            None => Ok(left),
            Some(op) => {
                self.skip_whitespace();
                let right = match self.parse_unary() {
                    Ok(e) => e,
                    Err(e) => return Err(e),
                };
                self.parse_multiplicative_rest(XExpr::binary(left, op, right))
            },
        }
    }

    /// `unary` at the current position.
    pub fn parse_unary(&mut self) -> (r: Result<XExpr, XParseError>)
        ensures
            parse_step(
                *old(self),
                *final(self),
                r,
                sp_unary(old(self).source(), old(self).position()),
            ),
        decreases old(self).source().len() - old(self).position(), 3int,
    {
        proof {
            use_type_invariant(&*self);
        }
        self.skip_whitespace();
        if self.match_char('-') {
            self.skip_whitespace();
            let expr = match self.parse_unary() {
                Ok(e) => e,
                Err(e) => return Err(e),
            };
            return Ok(XExpr::unary(XUnaryOp::Neg, expr));
        }
        self.parse_postfix()
    }

    /// `postfix` at the current position.
    pub fn parse_postfix(&mut self) -> (r: Result<XExpr, XParseError>)
        ensures
            parse_step(
                *old(self),
                *final(self),
                r,
                sp_postfix(old(self).source(), old(self).position()),
            ),
        decreases old(self).source().len() - old(self).position(), 2int,
    {
        proof {
            use_type_invariant(&*self);
        }
        let expr = match self.parse_primary() {
            Ok(e) => e,
            Err(e) => return Err(e),
        };
        self.parse_postfix_rest(expr)
    }

    /// The field accesses after `expr`, which ends at the current position.
    fn parse_postfix_rest(&mut self, expr: XExpr) -> (r: Result<XExpr, XParseError>)
        ensures
            parse_step(
                *old(self),
                *final(self),
                r,
                sp_postfix_rest(old(self).source(), expr@, old(self).position()),
            ),
        decreases old(self).source().len() - old(self).position(),
    {
        proof {
            use_type_invariant(&*self);
        }
        self.skip_whitespace();
        if self.match_char('.') {
            let next_is_digit = match self.peek() {
                Some(c) => is_ascii_digit(c),
                None => false,
            };
            if next_is_digit {
                let mut t = String::new();
                push_char(&mut t, '.');
                return Err(XParseError::UnexpectedToken(t));
            }
            let field = match self.parse_identifier() {
                Ok(f) => f,
                Err(e) => return Err(e),
            };
            self.parse_postfix_rest(XExpr::binary(expr, XBinaryOp::Dot, XExpr::Attr(field)))
        } else {
            Ok(expr)
        }
    }

    /// `primary` at the current position.
    pub fn parse_primary(&mut self) -> (r: Result<XExpr, XParseError>)
        ensures
            parse_step(
                *old(self),
                *final(self),
                r,
                sp_primary(old(self).source(), old(self).position()),
            ),
        decreases old(self).source().len() - old(self).position(), 1int,
    {
        proof {
            use_type_invariant(&*self);
        }
        self.skip_whitespace();
        if self.match_char('(') {
            let expr = match self.parse_expression() {
                Ok(e) => e,
                Err(e) => return Err(e),
            };
            self.skip_whitespace();
            if !self.match_char(')') {
                return Err(XParseError::UnmatchedParenthesis);
            }
            return Ok(expr);
        }
        match self.parse_number() {
            Err(e) => return Err(e),
            Ok(Some(num)) => return Ok(XExpr::lit(num)),
            Ok(None) => {},
        }
        match self.parse_identifier_opt() {
            Some(ident) => {
                self.skip_whitespace();
                if self.match_char('(') {
                    return self.parse_function_call(ident.as_str());
                }
                match self.parse_builtin(ident.as_str()) {
                    Ok(builtin) => Ok(XExpr::builtin(builtin)),
                    Err(_) => Ok(XExpr::Attr(ident)),
                }
            },
            None => Err(XParseError::UnexpectedEndOfInput),
        }
    }

    /// The arguments and closing parenthesis of a call of `name`.
    pub fn parse_function_call(&mut self, name: &str) -> (r: Result<XExpr, XParseError>)
        ensures
            parse_step(
                *old(self),
                *final(self),
                r,
                sp_function_call(old(self).source(), name@, old(self).position()),
            ),
        decreases old(self).source().len() - old(self).position(), 11int,
    {
        proof {
            use_type_invariant(&*self);
            reveal_strlit("vec2");
            reveal_strlit("vec3");
            reveal_strlit("attr");
            reveal_strlit("prop");
        }
        if let Some(op) = unary_function_of(name) {
            let arg = match self.parse_expression() {
                Ok(e) => e,
                Err(e) => return Err(e),
            };
            self.skip_whitespace();
            if !self.match_char(')') {
                return Err(XParseError::UnmatchedParenthesis);
            }
            Ok(XExpr::unary(op, arg))
        } else if binary_function_of(name).is_some() || str_eq(name, "vec2") {
            let bop = binary_function_of(name);
            let left = match self.parse_expression() {
                Ok(e) => e,
                Err(e) => return Err(e),
            };
            self.skip_whitespace();
            if !self.match_char(',') {
                match bop {
                    Some(_) => {
                        let mut t = String::new();
                        match self.peek() {
                            Some(c) => push_char(&mut t, c),
                            None => push_char(&mut t, '\0'),
                        }
                        return Err(XParseError::UnexpectedToken(t));
                    },
                    None => return Err(XParseError::InvalidVectorLiteral),
                }
            }
            self.skip_whitespace();
            let right = match self.parse_expression() {
                Ok(e) => e,
                Err(e) => return Err(e),
            };
            self.skip_whitespace();
            if !self.match_char(')') {
                return Err(XParseError::UnmatchedParenthesis);
            }
            match bop {
                Some(op) => Ok(XExpr::binary(left, op, right)),
                None => Ok(build_vec2(left, right)),
            }
        } else if str_eq(name, "vec3") {
            let x = match self.parse_expression() {
                Ok(e) => e,
                Err(e) => return Err(e),
            };
            self.skip_whitespace();
            if !self.match_char(',') {
                return Err(XParseError::InvalidVectorLiteral);
            }
            self.skip_whitespace();
            let y = match self.parse_expression() {
                Ok(e) => e,
                Err(e) => return Err(e),
            };
            self.skip_whitespace();
            if !self.match_char(',') {
                return Err(XParseError::InvalidVectorLiteral);
            }
            self.skip_whitespace();
            let z = match self.parse_expression() {
                Ok(e) => e,
                Err(e) => return Err(e),
            };
            self.skip_whitespace();
            if !self.match_char(')') {
                return Err(XParseError::UnmatchedParenthesis);
            }
            Ok(build_vec3(x, y, z))
        } else if str_eq(name, "attr") || str_eq(name, "prop") {
            let is_attr = str_eq(name, "attr");
            self.skip_whitespace();
            let arg = match self.parse_string_literal() {
                Ok(n) => n,
                Err(e) => return Err(e),
            };
            self.skip_whitespace();
            if !self.match_char(')') {
                return Err(XParseError::UnmatchedParenthesis);
            }
            if is_attr {
                Ok(XExpr::Attr(arg))
            } else {
                Ok(XExpr::Prop(arg))
            }
        } else {
            Err(XParseError::UnknownFunction(name.to_owned()))
        }
    }
}

/// The value of the digit string `s[start..end]`, or `None` above `i32::MAX`.
fn integer_value(s: &Vec<char>, start: usize, end: usize) -> (r: Option<i32>)
    requires
        start <= end <= s.len(),
        all_digits(s@.subrange(start as int, end as int)),
    ensures
        match r {
            Some(v) => digits_value(s@.subrange(start as int, end as int)) <= i32::MAX && v
                == digits_value(s@.subrange(start as int, end as int)),
            None => digits_value(s@.subrange(start as int, end as int)) > i32::MAX,
        },
{
    let mut acc: u64 = 0;
    let mut over = false;
    let mut i = start;
    while i < end
        invariant
            start <= i <= end <= s.len(),
            all_digits(s@.subrange(start as int, end as int)),
            over == (digits_value(s@.subrange(start as int, i as int)) > i32::MAX),
            !over ==> acc == digits_value(s@.subrange(start as int, i as int)),
        decreases end - i,
    {
        let ghost prev = s@.subrange(start as int, i as int);
        let ghost next = s@.subrange(start as int, i + 1);
        assert(next.drop_last() == prev);
        assert(next.last() == s@[i as int]);
        assert(s@[i as int] == s@.subrange(start as int, end as int)[i - start]);
        assert(spec_is_digit(s@[i as int]));
        let d: u64 = (s[i] as u32 - '0' as u32) as u64;
        assert(d == digit_value(s@[i as int]));
        if !over {
            acc = acc * 10 + d;
            if acc > 2147483647 {
                over = true;
            }
        }
        i = i + 1;
    }
    if over {
        None
    } else {
        Some(acc as i32)
    }
}

} // verus!

verus! {

impl XExpr {
    /// Parses `input` as a whole expression.
    pub fn parse(input: &str) -> (r: Result<XExpr, XParseError>)
        ensures
            result_view(r) == spec_parse(input@),
    {
        let mut parser = Parser::new(input);
        parser.parse()
    }
}

} // verus!
