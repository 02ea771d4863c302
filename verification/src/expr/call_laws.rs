//! Laws of function calls in the expression language: how many arguments each
//! function takes.

use vstd::prelude::*;

use crate::expr::tokenizer::{
    FunctionKind,
    lemma_whitespace_end,
    spec_arity,
    spec_function_kind,
    whitespace_end,
};
use crate::expr::xparser::{
    binary_function,
    peek_text,
    digit_end,
    sp_additive,
    sp_additive_rest,
    sp_comparison,
    sp_comparison_rest,
    sp_expression,
    SParseError,
    sp_function_call,
    sp_multiplicative,
    sp_multiplicative_rest,
    sp_number,
    sp_postfix,
    sp_postfix_rest,
    sp_primary,
    sp_unary,
    unary_function,
};
use crate::expr::xexpr::SExpr;
use crate::expr::xval::{digit_value, digits_value};
use crate::text::spec_is_digit;

verus! {

/// The argument text `d1,d2,...,dn)` of a call whose arguments are the single
/// digits `ds`.
pub open spec fn digit_args(ds: Seq<char>) -> Seq<char> {
    Seq::new(
        2 * ds.len(),
        |j: int|
            if j % 2 == 0 {
                ds[j / 2]
            } else if j == 2 * ds.len() - 1 {
                ')'
            } else {
                ','
            },
    )
}

/// At a `,` or a `)`, every operator loop stops where it is.
proof fn lemma_rest_stops(t: Seq<char>, e: SExpr, r: int)
    requires
        0 <= r < t.len(),
        t[r] == ',' || t[r] == ')',
    ensures
        sp_postfix_rest(t, e, r) == (Ok::<SExpr, SParseError>(e), r),
        sp_multiplicative_rest(t, e, r) == (Ok::<SExpr, SParseError>(e), r),
        sp_additive_rest(t, e, r) == (Ok::<SExpr, SParseError>(e), r),
        sp_comparison_rest(t, e, r) == (Ok::<SExpr, SParseError>(e), r),
{
    assert(whitespace_end(t, r) == r);
    if r + 2 <= t.len() {
        assert(t.subrange(r, r + 2)[0] == t[r]);
        assert(t.subrange(r, r + 2) != seq!['<', '=']);
        assert(t.subrange(r, r + 2) != seq!['>', '=']);
        assert(t.subrange(r, r + 2) != seq!['=', '=']);
        assert(t.subrange(r, r + 2) != seq!['!', '=']);
    }
}

/// A single digit followed by `,` or `)` is a whole primary expression.
proof fn lemma_digit_primary(t: Seq<char>, q: int)
    requires
        0 <= q,
        q + 1 < t.len(),
        spec_is_digit(t[q]),
        t[q + 1] == ',' || t[q + 1] == ')',
    ensures
        sp_primary(t, q).0 is Ok,
        sp_primary(t, q).1 == q + 1,
{
    assert(whitespace_end(t, q) == q);
    assert(digit_end(t, q + 1) == q + 1);
    assert(digit_end(t, q) == q + 1);
    let one = t.subrange(q, q + 1);
    assert(one.drop_last() =~= Seq::<char>::empty());
    assert(one.last() == t[q]);
    assert(digits_value(one.drop_last()) == 0);
    assert(digits_value(one) == digit_value(t[q]));
    assert(sp_number(t, q).1 == q + 1);
}

/// A single digit followed by `,` or `)` is a whole expression, which ends there.
proof fn lemma_digit_expression(t: Seq<char>, q: int)
    requires
        0 <= q,
        q + 1 < t.len(),
        spec_is_digit(t[q]),
        t[q + 1] == ',' || t[q + 1] == ')',
    ensures
        sp_expression(t, q).0 is Ok,
        sp_expression(t, q).1 == q + 1,
{
    lemma_digit_primary(t, q);
    let e = sp_primary(t, q).0->Ok_0;
    lemma_rest_stops(t, e, q + 1);
    assert(sp_postfix(t, q) == (Ok::<SExpr, SParseError>(e), q + 1));
    assert(whitespace_end(t, q) == q);
    assert(sp_unary(t, q) == (Ok::<SExpr, SParseError>(e), q + 1));
    assert(sp_multiplicative(t, q) == (Ok::<SExpr, SParseError>(e), q + 1));
    assert(sp_additive(t, q) == (Ok::<SExpr, SParseError>(e), q + 1));
    assert(sp_comparison(t, q) == (Ok::<SExpr, SParseError>(e), q + 1));
}

/// The characters of the argument text: digit `i` at `2i`, then `,` or, after
/// the last, `)`.
proof fn lemma_digit_args_at(ds: Seq<char>, i: int)
    requires
        0 <= i < ds.len(),
    ensures
        digit_args(ds).len() == 2 * ds.len(),
        digit_args(ds)[2 * i] == ds[i],
        digit_args(ds)[2 * i + 1] == (if i == ds.len() - 1 {
            ')'
        } else {
            ','
        }),
{
}

/// The function kind of a name, as the parser reads the name.
proof fn lemma_kind_functions(name: Seq<char>)
    requires
        spec_function_kind(name) is Some,
    ensures
        unary_function(name) is Some <==> spec_arity(spec_function_kind(name)->0) == 1
            && spec_function_kind(name) != Some(FunctionKind::Attr) && spec_function_kind(name)
            != Some(FunctionKind::Prop),
        binary_function(name) is Some <==> (spec_function_kind(name) == Some(FunctionKind::Dot)
            || spec_function_kind(name) == Some(FunctionKind::Cross) || spec_function_kind(name)
            == Some(FunctionKind::Min) || spec_function_kind(name) == Some(FunctionKind::Max)),
        name == "vec2"@ <==> spec_function_kind(name) == Some(FunctionKind::Vec2),
        name == "vec3"@ <==> spec_function_kind(name) == Some(FunctionKind::Vec3),
{
    reveal_strlit("sin");
    reveal_strlit("cos");
    reveal_strlit("abs");
    reveal_strlit("norm");
    reveal_strlit("all");
    reveal_strlit("any");
    reveal_strlit("dot");
    reveal_strlit("cross");
    reveal_strlit("min");
    reveal_strlit("max");
    reveal_strlit("vec2");
    reveal_strlit("vec3");
    reveal_strlit("attr");
    reveal_strlit("prop");
    let k = spec_function_kind(name)->0;
    if k == FunctionKind::Sin {
        assert(name == "sin"@);
    }
    if k == FunctionKind::Cos {
        assert(name == "cos"@);
    }
    if k == FunctionKind::Abs {
        assert(name == "abs"@);
    }
    if k == FunctionKind::Norm {
        assert(name == "norm"@);
    }
    if k == FunctionKind::All {
        assert(name == "all"@);
    }
    if k == FunctionKind::Any {
        assert(name == "any"@);
    }
    if k == FunctionKind::Dot {
        assert(name == "dot"@);
    }
    if k == FunctionKind::Cross {
        assert(name == "cross"@);
    }
    if k == FunctionKind::Min {
        assert(name == "min"@);
    }
    if k == FunctionKind::Max {
        assert(name == "max"@);
    }
    if k == FunctionKind::Vec2 {
        assert(name == "vec2"@);
    }
    if k == FunctionKind::Vec3 {
        assert(name == "vec3"@);
    }
    if k == FunctionKind::Attr {
        assert(name == "attr"@);
    }
    if k == FunctionKind::Prop {
        assert(name == "prop"@);
    }
    // Names of the same length differ in one character.
    assert("sin"@[0] != "cos"@[0]);
    assert("sin"@[0] != "abs"@[0]);
    assert("sin"@[0] != "all"@[0]);
    assert("sin"@[0] != "any"@[0]);
    assert("sin"@[0] != "dot"@[0]);
    assert("sin"@[0] != "min"@[0]);
    assert("sin"@[0] != "max"@[0]);
    assert("cos"@[0] != "abs"@[0]);
    assert("cos"@[0] != "all"@[0]);
    assert("cos"@[0] != "any"@[0]);
    assert("cos"@[0] != "dot"@[0]);
    assert("cos"@[0] != "min"@[0]);
    assert("cos"@[0] != "max"@[0]);
    assert("abs"@[1] != "all"@[1]);
    assert("abs"@[1] != "any"@[1]);
    assert("abs"@[0] != "dot"@[0]);
    assert("abs"@[0] != "min"@[0]);
    assert("abs"@[0] != "max"@[0]);
    assert("norm"@[0] != "vec2"@[0]);
    assert("norm"@[0] != "vec3"@[0]);
    assert("norm"@[0] != "attr"@[0]);
    assert("norm"@[0] != "prop"@[0]);
    assert("all"@[1] != "any"@[1]);
    assert("all"@[0] != "dot"@[0]);
    assert("all"@[0] != "min"@[0]);
    assert("all"@[0] != "max"@[0]);
    assert("any"@[0] != "dot"@[0]);
    assert("any"@[0] != "min"@[0]);
    assert("any"@[0] != "max"@[0]);
    assert("dot"@[0] != "min"@[0]);
    assert("dot"@[0] != "max"@[0]);
    assert("min"@[1] != "max"@[1]);
    assert("vec2"@[3] != "vec3"@[3]);
    assert("vec2"@[0] != "attr"@[0]);
    assert("vec2"@[0] != "prop"@[0]);
    assert("vec3"@[0] != "attr"@[0]);
    assert("vec3"@[0] != "prop"@[0]);
    assert("attr"@[0] != "prop"@[0]);
}

/// A call of a known function (other than `attr` and `prop`, whose argument is
/// a name) with `n >= 1` single-digit arguments succeeds exactly when `n` is
/// the function's number of arguments.
pub proof fn lemma_call_arity(name: Seq<char>, ds: Seq<char>)
    requires
        ds.len() >= 1,
        forall|i: int| 0 <= i < ds.len() ==> spec_is_digit(#[trigger] ds[i]),
        spec_function_kind(name) is Some,
        spec_function_kind(name) != Some(FunctionKind::Attr),
        spec_function_kind(name) != Some(FunctionKind::Prop),
    ensures
        sp_function_call(digit_args(ds), name, 0).0 is Ok <==> ds.len() == spec_arity(
            spec_function_kind(name)->0,
        ),
{
    let t = digit_args(ds);
    let n = ds.len() as int;
    lemma_kind_functions(name);
    lemma_digit_args_at(ds, 0);
    lemma_digit_expression(t, 0);
    assert(whitespace_end(t, 1) == 1);
    if n >= 2 {
        lemma_digit_args_at(ds, 1);
        assert(whitespace_end(t, 2) == 2);
        lemma_digit_expression(t, 2);
        assert(whitespace_end(t, 3) == 3);
        if n >= 3 {
            lemma_digit_args_at(ds, 2);
            assert(whitespace_end(t, 4) == 4);
            lemma_digit_expression(t, 4);
            assert(whitespace_end(t, 5) == 5);
        }
    }
}


/// The arguments of a call read from `p`: argument `i` starts at `b[i]` and is
/// an expression; past it and any whitespace stands, at `e[i]`, a `,` after
/// every argument but the last and a `)` after the last; the next argument
/// starts past that `,` and any whitespace.
#[verifier::opaque]
pub open spec fn call_arguments(t: Seq<char>, p: int, b: Seq<int>, e: Seq<int>) -> bool {
    &&& b.len() >= 1
    &&& e.len() == b.len()
    &&& b[0] == p
    &&& forall|i: int|
        0 <= i < b.len() ==> {
            &&& p <= #[trigger] b[i] <= e[i] < t.len()
            &&& sp_expression(t, b[i]).0 is Ok
            &&& e[i] == whitespace_end(t, sp_expression(t, b[i]).1)
            &&& t[e[i]] == (if i == b.len() - 1 {
                ')'
            } else {
                ','
            })
        }
    &&& forall|i: int| 0 <= i < b.len() - 1 ==> #[trigger] b[i + 1] == whitespace_end(t, e[i] + 1)
}

/// What `call_arguments` says of the whole list.
proof fn lemma_arguments_shape(t: Seq<char>, p: int, b: Seq<int>, e: Seq<int>)
    requires
        call_arguments(t, p, b, e),
    ensures
        b.len() >= 1,
        e.len() == b.len(),
        b[0] == p,
{
    reveal(call_arguments);
}

/// What `call_arguments` says of argument `i`.
proof fn lemma_argument(t: Seq<char>, p: int, b: Seq<int>, e: Seq<int>, i: int)
    requires
        0 <= p <= t.len(),
        call_arguments(t, p, b, e),
        0 <= i < b.len(),
    ensures
        p <= b[i] <= e[i] < t.len(),
        sp_expression(t, b[i]).0 is Ok,
        e[i] == whitespace_end(t, sp_expression(t, b[i]).1),
        t[e[i]] == (if i == b.len() - 1 {
            ')'
        } else {
            ','
        }),
        i < b.len() - 1 ==> b[i + 1] == whitespace_end(t, e[i] + 1),
        i < b.len() - 1 ==> p < b[i + 1] <= t.len(),
{
    reveal(call_arguments);
    assert(p <= b[i]);
    if i < b.len() - 1 {
        assert(b[i + 1] == whitespace_end(t, e[i] + 1));
        lemma_whitespace_end(t, e[i] + 1);
    }
}

/// The arity law for the one-argument functions.
proof fn lemma_unary_call_arity(t: Seq<char>, name: Seq<char>, p: int, b: Seq<int>, e: Seq<int>)
    requires
        0 <= p <= t.len(),
        call_arguments(t, p, b, e),
        unary_function(name) is Some,
    ensures
        sp_function_call(t, name, p).0 is Ok <==> b.len() == 1,
        b.len() > 1 ==> sp_function_call(t, name, p).0 == Err::<SExpr, SParseError>(
            SParseError::UnmatchedParenthesis,
        ),
{
    lemma_arguments_shape(t, p, b, e);
    lemma_argument(t, p, b, e, 0);
}

/// The arity law for the two-argument functions and `vec2`.
#[verifier::spinoff_prover]
proof fn lemma_pair_call_arity(t: Seq<char>, name: Seq<char>, p: int, b: Seq<int>, e: Seq<int>)
    requires
        0 <= p <= t.len(),
        call_arguments(t, p, b, e),
        unary_function(name) is None,
        binary_function(name) is Some || name == "vec2"@,
    ensures
        sp_function_call(t, name, p).0 is Ok <==> b.len() == 2,
        b.len() > 2 ==> sp_function_call(t, name, p).0 == Err::<SExpr, SParseError>(
            SParseError::UnmatchedParenthesis,
        ),
        b.len() < 2 ==> sp_function_call(t, name, p).0 == Err::<SExpr, SParseError>(
            if binary_function(name) is Some {
                SParseError::UnexpectedToken(seq![')'])
            } else {
                SParseError::InvalidVectorLiteral
            },
        ),
{
    lemma_arguments_shape(t, p, b, e);
    lemma_argument(t, p, b, e, 0);
    if b.len() >= 2 {
        lemma_argument(t, p, b, e, 1);
    } else {
        assert(peek_text(t, e[0]) == seq![')']);
    }
}

/// The arity law for `vec3`.
#[verifier::spinoff_prover]
proof fn lemma_vec3_call_arity(t: Seq<char>, name: Seq<char>, p: int, b: Seq<int>, e: Seq<int>)
    requires
        0 <= p <= t.len(),
        call_arguments(t, p, b, e),
        unary_function(name) is None,
        binary_function(name) is None,
        name != "vec2"@,
        name == "vec3"@,
    ensures
        sp_function_call(t, name, p).0 is Ok <==> b.len() == 3,
        b.len() > 3 ==> sp_function_call(t, name, p).0 == Err::<SExpr, SParseError>(
            SParseError::UnmatchedParenthesis,
        ),
        b.len() < 3 ==> sp_function_call(t, name, p).0 == Err::<SExpr, SParseError>(
            SParseError::InvalidVectorLiteral,
        ),
{
    lemma_arguments_shape(t, p, b, e);
    lemma_argument(t, p, b, e, 0);
    if b.len() >= 2 {
        lemma_argument(t, p, b, e, 1);
        if b.len() >= 3 {
            lemma_argument(t, p, b, e, 2);
        }
    }
}

/// A call of a known function other than `attr` and `prop` whose arguments are
/// expressions succeeds exactly when it has the function's number of
/// arguments; with too few, a vector constructor reports an invalid vector
/// literal and another two-argument function the unexpected `)`; with too
/// many, the `)` is reported missing.
pub proof fn lemma_call_arguments_arity(t: Seq<char>, name: Seq<char>, p: int, b: Seq<int>, e: Seq<int>)
    requires
        0 <= p <= t.len(),
        call_arguments(t, p, b, e),
        spec_function_kind(name) is Some,
        spec_function_kind(name) != Some(FunctionKind::Attr),
        spec_function_kind(name) != Some(FunctionKind::Prop),
    ensures
        sp_function_call(t, name, p).0 is Ok <==> b.len() == spec_arity(spec_function_kind(name)->0),
        b.len() > spec_arity(spec_function_kind(name)->0) ==> sp_function_call(t, name, p).0
            == Err::<SExpr, SParseError>(SParseError::UnmatchedParenthesis),
        b.len() < spec_arity(spec_function_kind(name)->0) ==> sp_function_call(t, name, p).0
            == Err::<SExpr, SParseError>(
            if name == "vec2"@ || name == "vec3"@ {
                SParseError::InvalidVectorLiteral
            } else {
                SParseError::UnexpectedToken(seq![')'])
            },
        ),
{
    lemma_kind_functions(name);
    reveal_strlit("vec2");
    reveal_strlit("vec3");
    assert("vec2"@[3] != "vec3"@[3]);
    lemma_arguments_shape(t, p, b, e);
    if unary_function(name) is Some {
        lemma_unary_call_arity(t, name, p, b, e);
    } else if binary_function(name) is Some || name == "vec2"@ {
        lemma_pair_call_arity(t, name, p, b, e);
    } else {
        lemma_vec3_call_arity(t, name, p, b, e);
    }
}

/// A call of a name that is no function of the language fails with
/// `UnknownFunction(name)`, where the arguments would start.
pub proof fn lemma_unknown_function(t: Seq<char>, name: Seq<char>, p: int)
    requires
        0 <= p <= t.len(),
        spec_function_kind(name) is None,
    ensures
        sp_function_call(t, name, p) == (Err::<SExpr, SParseError>(SParseError::UnknownFunction(name)), p),
{
}

} // verus!
