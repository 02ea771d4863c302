//! Laws of showing expressions: what is shown reads back as the expression.

use vstd::prelude::*;

use crate::expr::tokenizer::{char_at_is, name_end, whitespace_end};
use crate::expr::xop::lemma_builtin_name_roundtrip;
use crate::expr::xexpr::{
    SExpr,
    expr_text,
    is_call_like,
    precedence,
    s_binary,
    s_unary,
    scalar_literal,
    spec_to_string,
};
use crate::expr::xop::{
    XBinaryOp,
    XBuiltInOp,
    XUnaryOp,
    spec_binary_symbol,
    spec_builtin_name,
    spec_unary_symbol,
};
use crate::expr::xparser::{
    SParseError,
    binary_function,
    digit_end,
    make_vec2,
    make_vec3,
    sp_additive,
    sp_additive_rest,
    sp_add_op,
    sp_cmp_op,
    sp_comparison,
    sp_comparison_rest,
    sp_expression,
    sp_function_call,
    sp_identifier_opt,
    sp_mul_op,
    sp_multiplicative,
    sp_multiplicative_rest,
    sp_number,
    sp_primary,
    sp_string_literal,
    sp_unary,
    spec_parse,
    unary_function,
};
use crate::expr::xval::{
    SFloat,
    SValue,
    all_digits,
    digit_char,
    digit_value,
    digits_value,
    float_text,
    float_wf,
    int_text,
    nat_digits,
    nat_text,
    strip_leading_zeros,
    strip_trailing_zeros,
};
use crate::text::{spec_is_ascii_letter, spec_is_digit, spec_is_whitespace};

verus! {

/// A name written in ASCII: a letter or `_`, then letters, digits and `_`.
pub open spec fn is_ascii_name(n: Seq<char>) -> bool {
    &&& n.len() >= 1
    &&& (spec_is_ascii_letter(n[0]) || n[0] == '_')
    &&& forall|i: int|
        0 <= i < n.len() ==> spec_is_ascii_letter(#[trigger] n[i]) || spec_is_digit(n[i]) || n[i]
            == '_'
}

/// The expressions whose shown text reads back as themselves: literals are
/// non-negative (a negative number is shown with a `-`, which reads back as a
/// negation) and in canonical form, attribute and property names are ASCII
/// names (they are shown unquoted), and no vector construction is shown like
/// a vector literal (`vec2` of two real literals) or with a nested `vec2`
/// (`vec3`, which is shown with two arguments).
pub open spec fn displayable(e: SExpr) -> bool
    decreases e,
{
    match e {
        SExpr::Lit(v) => match v {
            SValue::Float(f) => float_wf(f) && !f.negative,
            SValue::Integer(i) => i >= 0,
            SValue::Vec2(x, y) => float_wf(x) && float_wf(y),
            SValue::Vec3(x, y, z) => float_wf(x) && float_wf(y) && float_wf(z),
        },
        SExpr::Attr(n) => is_ascii_name(n),
        SExpr::Prop(n) => is_ascii_name(n),
        SExpr::BuiltIn(_) => true,
        SExpr::Unary { op, expr } => displayable(*expr),
        SExpr::Binary { left, op, right } => {
            &&& displayable(*left)
            &&& displayable(*right)
            &&& op != XBinaryOp::Vec3
            &&& (op == XBinaryOp::Vec2 ==> !(scalar_literal(*left) is Some && scalar_literal(
                *right,
            ) is Some))
        },
    }
}

/// The grammar level an operator character starts: 3 for `*` and `/`, 2 for
/// `+` and `-`, 1 for the comparisons, 0 for any other character.
pub open spec fn op_level(c: char) -> int {
    if c == '*' || c == '/' {
        3
    } else if c == '+' || c == '-' {
        2
    } else if c == '<' || c == '>' || c == '=' || c == '!' {
        1
    } else {
        0
    }
}

/// What may follow a shown operand at `q` when it is read at grammar level
/// `l`: the end, `)`, `,`, or a space and an operator of a looser level.
pub open spec fn ends_operand(t: Seq<char>, q: int, l: int) -> bool {
    &&& 0 <= q <= t.len()
    &&& (q == t.len() || t[q] == ')' || t[q] == ',' || (t[q] == ' ' && q + 1 < t.len() && 1
        <= op_level(t[q + 1]) < l))
}

/// A run of whitespace ends at once where there is none.
proof fn lemma_ws_none(t: Seq<char>, x: int)
    requires
        0 <= x <= t.len(),
        x == t.len() || !spec_is_whitespace(t[x]),
    ensures
        whitespace_end(t, x) == x,
{
}

/// A single space before a non-space.
proof fn lemma_ws_one(t: Seq<char>, x: int)
    requires
        0 <= x,
        x + 1 < t.len(),
        t[x] == ' ',
        !spec_is_whitespace(t[x + 1]),
    ensures
        whitespace_end(t, x) == x + 1,
{
    lemma_ws_none(t, x + 1);
}

/// Where an operand ends, the whitespace after it is at most one space, and
/// what stands after that.
proof fn lemma_after_operand(t: Seq<char>, q: int, l: int)
    requires
        ends_operand(t, q, l),
    ensures
        q <= whitespace_end(t, q) <= t.len(),
        whitespace_end(t, whitespace_end(t, q)) == whitespace_end(t, q),
        whitespace_end(t, q) < t.len() ==> {
            let c = t[whitespace_end(t, q)];
            (c == ')' || c == ',' || (1 <= op_level(c) < l))
        },
        whitespace_end(t, q) < t.len() && t[q] != ' ' ==> whitespace_end(t, q) == q,
{
    if q < t.len() && t[q] == ' ' {
        lemma_ws_one(t, q);
        lemma_ws_none(t, q + 1);
    } else {
        lemma_ws_none(t, q);
    }
}

/// A run of digits from `p` to `q`.
proof fn lemma_digit_run(t: Seq<char>, p: int, q: int)
    requires
        0 <= p <= q <= t.len(),
        forall|i: int| p <= i < q ==> spec_is_digit(#[trigger] t[i]),
        q == t.len() || !spec_is_digit(t[q]),
    ensures
        digit_end(t, p) == q,
    decreases q - p,
{
    if p < q {
        lemma_digit_run(t, p + 1, q);
    }
}

/// A run of name characters from `p` to `q`.
proof fn lemma_name_run(t: Seq<char>, p: int, q: int)
    requires
        0 <= p <= q <= t.len(),
        forall|i: int|
            p <= i < q ==> spec_is_ascii_letter(#[trigger] t[i]) || spec_is_digit(t[i]) || t[i]
                == '_',
        q == t.len() || t[q] == ' ' || t[q] == ')' || t[q] == ',' || t[q] == '(',
    ensures
        name_end(t, p) == q,
    decreases q - p,
{
    if p < q {
        lemma_name_run(t, p + 1, q);
    }
}

/// The decimal text of `n` reads back as `n`.
proof fn lemma_nat_digits_value(n: nat)
    ensures
        digits_value(nat_digits(n)) == n,
    decreases n,
{
    if n > 0 {
        lemma_nat_digits_value(n / 10);
        let s = nat_digits(n);
        assert(s.drop_last() =~= nat_digits(n / 10));
        let d = n % 10;
        assert(digit_value(digit_char(d)) == d) by {
            if d == 0 {
            } else if d == 1 {
            } else if d == 2 {
            } else if d == 3 {
            } else if d == 4 {
            } else if d == 5 {
            } else if d == 6 {
            } else if d == 7 {
            } else if d == 8 {
            } else {
                assert(d == 9);
            }
        }
    }
}

/// How `n` is shown reads back as `n`.
proof fn lemma_nat_text_value(n: nat)
    ensures
        digits_value(nat_text(n)) == n,
        nat_text(n).len() >= 1,
        all_digits(nat_text(n)),
{
    if n == 0 {
        let z = seq!['0'];
        assert(z.drop_last() =~= Seq::<char>::empty());
        assert(digits_value(z.drop_last()) == 0);
        assert(digit_value(z.last()) == 0);
        assert(digits_value(z) == 0);
        assert(nat_text(n) == z);
    } else {
        lemma_nat_digits_value(n);
        crate::expr::xval::lemma_nat_digits_wf(n);
    }
}

/// The whole part of a canonical decimal, as shown, loses its shown `0`.
proof fn lemma_whole_back(w: Seq<char>)
    requires
        w.len() == 0 || w[0] != '0',
    ensures
        strip_leading_zeros(if w.len() == 0 {
            seq!['0']
        } else {
            w
        }) == w,
{
    if w.len() == 0 {
        let z = seq!['0'];
        assert(z.drop_first() =~= Seq::<char>::empty());
        assert(strip_leading_zeros(z.drop_first()) == Seq::<char>::empty());
        assert(strip_leading_zeros(z) == Seq::<char>::empty());
        assert(w =~= Seq::<char>::empty());
    }
}

/// The fraction of a canonical decimal, as shown, loses its shown `0`.
proof fn lemma_frac_back(f: Seq<char>)
    requires
        f.len() == 0 || f.last() != '0',
    ensures
        strip_trailing_zeros(if f.len() == 0 {
            seq!['0']
        } else {
            f
        }) == f,
{
    if f.len() == 0 {
        let z = seq!['0'];
        assert(z.drop_last() =~= Seq::<char>::empty());
        assert(strip_trailing_zeros(z.drop_last()) == Seq::<char>::empty());
        assert(strip_trailing_zeros(z) == Seq::<char>::empty());
        assert(f =~= Seq::<char>::empty());
    }
}


/// The size of an expression, counting a vector literal as one more than
/// its parts.
pub open spec fn depth(e: SExpr) -> nat
    decreases e,
{
    match e {
        SExpr::Lit(v) => match v {
            SValue::Vec2(_, _) => 6,
            SValue::Vec3(_, _, _) => 8,
            _ => 1,
        },
        SExpr::Unary { op, expr } => 1 + depth(*expr),
        SExpr::Binary { left, op, right } => 1 + depth(*left) + depth(*right),
        _ => 1,
    }
}

/// Whether an expression is an infix operation.
pub open spec fn is_infix(e: SExpr) -> bool {
    match e {
        SExpr::Binary { op, .. } => !is_call_like(op),
        _ => false,
    }
}

/// The expression a part of a vector literal is read as: a literal, negated
/// where the part is negative.
pub open spec fn part_expr(x: SFloat) -> SExpr {
    if x.negative {
        s_unary(XUnaryOp::Neg, SExpr::Lit(SValue::Float(SFloat { negative: false, ..x })))
    } else {
        SExpr::Lit(SValue::Float(x))
    }
}

/// A part of a vector literal is shown as its own expression is, and reads
/// back as the same real literal.
proof fn lemma_part_expr(x: SFloat, k: u8)
    requires
        float_wf(x),
    ensures
        displayable(part_expr(x)),
        depth(part_expr(x)) <= 2,
        expr_text(part_expr(x), Some(k)) == float_text(x),
        scalar_literal(part_expr(x)) == Some(x),
        !is_infix(part_expr(x)),
{
    let y = SFloat { negative: false, ..x };
    let ly = SExpr::Lit(SValue::Float(y));
    assert(displayable(ly));
    assert(depth(ly) == 1);
    assert(scalar_literal(ly) == Some(y));
    if x.negative {
        assert(SFloat { negative: !y.negative, ..y } == x);
    }
    assert(float_text(x) =~= seq!['-'] + float_text(y) || !x.negative);
    if x.negative {
        assert(expr_text(part_expr(x), Some(k)) == "-"@ + expr_text(
            SExpr::Lit(SValue::Float(y)),
            Some(100u8),
        ));
        reveal_strlit("-");
        assert("-"@ =~= seq!['-']);
    }
}

/// The text of an expression does not depend on its context where the
/// parentheses do not.
proof fn lemma_text_context(e: SExpr, k1: u8, k2: u8)
    requires
        is_infix(e) ==> ((precedence(e) < k1) == (precedence(e) < k2)),
    ensures
        expr_text(e, Some(k1)) == expr_text(e, Some(k2)),
{
}

/// At the top, or in a call's parentheses, an expression is shown as in the
/// loosest context.
proof fn lemma_text_top(e: SExpr)
    ensures
        expr_text(e, None) == expr_text(e, Some(1u8)),
{
}

/// The names of the language are ASCII names starting with a letter.
proof fn lemma_name_chars()
    ensures
        forall|op: XUnaryOp|
            op != XUnaryOp::Neg ==> is_ascii_name(#[trigger] spec_unary_symbol(op))
                && spec_is_ascii_letter(spec_unary_symbol(op)[0]),
        forall|op: XBinaryOp|
            is_call_like(op) ==> is_ascii_name(#[trigger] spec_binary_symbol(op))
                && spec_is_ascii_letter(spec_binary_symbol(op)[0]),
        forall|op: XBuiltInOp|
            is_ascii_name(#[trigger] spec_builtin_name(op)) && spec_is_ascii_letter(
                spec_builtin_name(op)[0],
            ),
        is_ascii_name("attr"@) && spec_is_ascii_letter("attr"@[0]),
        is_ascii_name("prop"@) && spec_is_ascii_letter("prop"@[0]),
{
    reveal_strlit("sin");
    reveal_strlit("cos");
    reveal_strlit("abs");
    reveal_strlit("norm");
    reveal_strlit("all");
    reveal_strlit("any");
    reveal_strlit("dot");
    reveal_strlit("cross");
    reveal_strlit("min");
    reveal_strlit("max");
    reveal_strlit("vec2");
    reveal_strlit("vec3");
    reveal_strlit("attr");
    reveal_strlit("prop");
    reveal_strlit("time");
    reveal_strlit("delta_time");
    reveal_strlit("rand");
    reveal_strlit("alpha_cutoff");
    reveal_strlit("particle_id");
}


/// The names the parser reads as calls, and what it reads them as.
proof fn lemma_call_names()
    ensures
        forall|op: XUnaryOp|
            op != XUnaryOp::Neg ==> unary_function(#[trigger] spec_unary_symbol(op)) == Some(op),
        forall|op: XBinaryOp|
            is_call_like(op) && op != XBinaryOp::Vec2 && op != XBinaryOp::Vec3 ==> unary_function(
                #[trigger] spec_binary_symbol(op),
            ) is None && binary_function(spec_binary_symbol(op)) == Some(op),
        unary_function("vec2"@) is None && binary_function("vec2"@) is None,
        unary_function("vec3"@) is None && binary_function("vec3"@) is None,
        "vec3"@ != "vec2"@,
        unary_function("attr"@) is None && binary_function("attr"@) is None,
        unary_function("prop"@) is None && binary_function("prop"@) is None,
        "attr"@ != "vec2"@ && "attr"@ != "vec3"@,
        "prop"@ != "vec2"@ && "prop"@ != "vec3"@ && "prop"@ != "attr"@,
{
    reveal_strlit("sin");
    reveal_strlit("cos");
    reveal_strlit("abs");
    reveal_strlit("norm");
    reveal_strlit("all");
    reveal_strlit("any");
    reveal_strlit("dot");
    reveal_strlit("cross");
    reveal_strlit("min");
    reveal_strlit("max");
    reveal_strlit("vec2");
    reveal_strlit("vec3");
    reveal_strlit("attr");
    reveal_strlit("prop");
    assert("sin"@[0] != "cos"@[0] && "sin"@[0] != "abs"@[0] && "sin"@[0] != "all"@[0]);
    assert("sin"@[0] != "any"@[0] && "sin"@[0] != "dot"@[0] && "sin"@[0] != "min"@[0]);
    assert("sin"@[0] != "max"@[0] && "cos"@[0] != "abs"@[0] && "cos"@[0] != "all"@[0]);
    assert("cos"@[0] != "any"@[0] && "cos"@[0] != "dot"@[0] && "cos"@[0] != "min"@[0]);
    assert("cos"@[0] != "max"@[0] && "abs"@[1] != "all"@[1] && "abs"@[1] != "any"@[1]);
    assert("abs"@[0] != "dot"@[0] && "abs"@[0] != "min"@[0] && "abs"@[0] != "max"@[0]);
    assert("all"@[1] != "any"@[1] && "all"@[0] != "dot"@[0] && "all"@[0] != "min"@[0]);
    assert("all"@[0] != "max"@[0] && "any"@[0] != "dot"@[0] && "any"@[0] != "min"@[0]);
    assert("any"@[0] != "max"@[0] && "dot"@[0] != "min"@[0] && "dot"@[0] != "max"@[0]);
    assert("min"@[1] != "max"@[1] && "norm"@[0] != "vec2"@[0] && "norm"@[0] != "vec3"@[0]);
    assert("norm"@[0] != "attr"@[0] && "norm"@[0] != "prop"@[0] && "vec2"@[3] != "vec3"@[3]);
    assert("vec2"@[0] != "attr"@[0] && "vec2"@[0] != "prop"@[0] && "vec3"@[0] != "attr"@[0]);
    assert("vec3"@[0] != "prop"@[0] && "attr"@[0] != "prop"@[0]);
    assert forall|op: XBinaryOp|
        is_call_like(op) && op != XBinaryOp::Vec2 && op != XBinaryOp::Vec3 implies unary_function(
            #[trigger] spec_binary_symbol(op),
        ) is None && binary_function(spec_binary_symbol(op)) == Some(op) by {
        match op {
            XBinaryOp::Dot => {
                assert(unary_function("dot"@) is None);
                assert(binary_function("dot"@) == Some(XBinaryOp::Dot));
            },
            XBinaryOp::Cross => {
                assert("cross"@.len() == 5 && "norm"@.len() == 4 && "sin"@.len() == 3);
                assert("cos"@.len() == 3 && "abs"@.len() == 3 && "all"@.len() == 3);
                assert("any"@.len() == 3 && "dot"@.len() == 3);
                assert(unary_function("cross"@) is None);
                assert(binary_function("cross"@) == Some(XBinaryOp::Cross));
            },
            XBinaryOp::Min => {
                assert(unary_function("min"@) is None);
                assert(binary_function("min"@) == Some(XBinaryOp::Min));
            },
            XBinaryOp::Max => {
                assert(unary_function("max"@) is None);
                assert(binary_function("max"@) == Some(XBinaryOp::Max));
            },
            _ => {},
        }
    }
}

/// The characters of a text that stands at `p`.
proof fn lemma_char_at(t: Seq<char>, p: int, q: int, a: Seq<char>, i: int)
    requires
        0 <= p <= q <= t.len(),
        t.subrange(p, q) == a,
        0 <= i < a.len(),
    ensures
        t[p + i] == a[i],
{
    assert(t.subrange(p, q)[i] == t[p + i]);
}

/// The two parts of a text that stands at `p`.
proof fn lemma_split(t: Seq<char>, p: int, q: int, a: Seq<char>, b: Seq<char>)
    requires
        0 <= p <= q <= t.len(),
        t.subrange(p, q) == a + b,
    ensures
        q == p + a.len() + b.len(),
        t.subrange(p, p + a.len()) == a,
        t.subrange(p + a.len(), q) == b,
{
    assert(t.subrange(p, q).len() == a.len() + b.len());
    assert forall|i: int| 0 <= i < a.len() implies t.subrange(p, p + a.len())[i] == a[i] by {
        assert(t.subrange(p, q)[i] == (a + b)[i]);
    }
    assert forall|i: int| 0 <= i < b.len() implies t.subrange(p + a.len(), q)[i] == b[i] by {
        assert(t.subrange(p, q)[a.len() + i] == (a + b)[a.len() + i]);
        assert(t.subrange(p, q)[a.len() + i] == t[p + a.len() + i]);
        assert(t.subrange(p + a.len(), q)[i] == t[p + a.len() + i]);
    }
    assert(t.subrange(p, p + a.len()) =~= a);
    assert(t.subrange(p + a.len(), q) =~= b);
}

/// A name followed by `(` is read as a call of that name.
proof fn lemma_name_call(t: Seq<char>, p: int, name: Seq<char>)
    requires
        0 <= p,
        p + name.len() < t.len(),
        t.subrange(p, p + name.len()) == name,
        t[p + name.len()] == '(',
        is_ascii_name(name),
        spec_is_ascii_letter(name[0]),
    ensures
        sp_primary(t, p) == sp_function_call(t, name, p + name.len() + 1),
{
    let n = name.len() as int;
    lemma_char_at(t, p, p + n, name, 0);
    lemma_ws_none(t, p);
    lemma_digit_run(t, p, p);
    assert forall|i: int| p + 1 <= i < p + n implies spec_is_ascii_letter(#[trigger] t[i])
        || spec_is_digit(t[i]) || t[i] == '_' by {
        lemma_char_at(t, p, p + n, name, i - p);
    }
    lemma_name_run(t, p + 1, p + n);
    lemma_ws_none(t, p + n);
    assert(sp_number(t, p) == (Ok::<Option<SValue>, SParseError>(None), p));
    assert(sp_identifier_opt(t, p) == (Some(name), p + n));
}

/// A built-in's name, where an operand ends, is read as the built-in.
proof fn lemma_builtin_reads(t: Seq<char>, p: int, q: int, op: XBuiltInOp)
    requires
        0 <= p <= q <= t.len(),
        t.subrange(p, q) == spec_builtin_name(op),
        ends_operand(t, q, 4),
    ensures
        sp_primary(t, p) == (Ok::<SExpr, SParseError>(SExpr::BuiltIn(op)), whitespace_end(t, q)),
{
    let name = spec_builtin_name(op);
    lemma_name_chars();
    lemma_builtin_name_roundtrip(op);
    lemma_char_at(t, p, q, name, 0);
    lemma_ws_none(t, p);
    lemma_digit_run(t, p, p);
    assert forall|i: int| p + 1 <= i < q implies spec_is_ascii_letter(#[trigger] t[i])
        || spec_is_digit(t[i]) || t[i] == '_' by {
        lemma_char_at(t, p, q, name, i - p);
    }
    lemma_name_run(t, p + 1, q);
    lemma_after_operand(t, q, 4);
    assert(sp_number(t, p) == (Ok::<Option<SValue>, SParseError>(None), p));
    assert(sp_identifier_opt(t, p) == (Some(name), q));
    assert(!char_at_is(t, whitespace_end(t, q), '('));
}

/// A non-negative decimal, where an operand ends, is read as itself.
proof fn lemma_float_reads(t: Seq<char>, p: int, q: int, f: SFloat)
    requires
        0 <= p <= q <= t.len(),
        float_wf(f),
        !f.negative,
        t.subrange(p, q) == float_text(f),
        ends_operand(t, q, 4),
    ensures
        sp_primary(t, p) == (Ok::<SExpr, SParseError>(SExpr::Lit(SValue::Float(f))), q),
{
    let w = if f.whole.len() == 0 {
        seq!['0']
    } else {
        f.whole
    };
    let fr = if f.frac.len() == 0 {
        seq!['0']
    } else {
        f.frac
    };
    assert(float_text(f) =~= w + (seq!['.'] + fr));
    lemma_split(t, p, q, w, seq!['.'] + fr);
    let d = p + w.len();
    lemma_split(t, d, q, seq!['.'], fr);
    assert forall|i: int| p <= i < d implies spec_is_digit(#[trigger] t[i]) by {
        lemma_char_at(t, p, d, w, i - p);
    }
    assert forall|i: int| d + 1 <= i < q implies spec_is_digit(#[trigger] t[i]) by {
        lemma_char_at(t, d + 1, q, fr, i - d - 1);
    }
    lemma_char_at(t, d, d + 1, seq!['.'], 0);
    lemma_char_at(t, p, d, w, 0);
    lemma_digit_run(t, p, d);
    lemma_digit_run(t, d + 1, q);
    lemma_ws_none(t, p);
    lemma_whole_back(f.whole);
    lemma_frac_back(f.frac);
    assert(sp_number(t, p) == (
        Ok::<Option<SValue>, SParseError>(Some(SValue::Float(f))),
        q,
    ));
}

/// A non-negative integer, where an operand ends, is read as itself.
proof fn lemma_int_reads(t: Seq<char>, p: int, q: int, i: i32)
    requires
        0 <= p <= q <= t.len(),
        i >= 0,
        t.subrange(p, q) == int_text(i as int),
        ends_operand(t, q, 4),
    ensures
        sp_primary(t, p) == (Ok::<SExpr, SParseError>(SExpr::Lit(SValue::Integer(i))), q),
{
    let n = i as nat;
    lemma_nat_text_value(n);
    assert(int_text(i as int) == nat_text(n));
    assert forall|j: int| p <= j < q implies spec_is_digit(#[trigger] t[j]) by {
        lemma_char_at(t, p, q, nat_text(n), j - p);
    }
    lemma_char_at(t, p, q, nat_text(n), 0);
    lemma_digit_run(t, p, q);
    lemma_ws_none(t, p);
    assert(sp_number(t, p) == (
        Ok::<Option<SValue>, SParseError>(Some(SValue::Integer(i))),
        q,
    ));
}

/// `attr(name)` and `prop(name)` with an ASCII name are read back.
#[verifier::spinoff_prover]
#[verifier::rlimit(50)]
proof fn lemma_named_reads(t: Seq<char>, p: int, q: int, n: Seq<char>, is_attr: bool)
    requires
        0 <= p <= q <= t.len(),
        is_ascii_name(n),
        t.subrange(p, q) == (if is_attr {
            "attr("@
        } else {
            "prop("@
        }) + n + ")"@,
    ensures
        sp_primary(t, p) == (
            Ok::<SExpr, SParseError>(
                if is_attr {
                    SExpr::Attr(n)
                } else {
                    SExpr::Prop(n)
                },
            ),
            q,
        ),
{
    reveal_strlit("attr(");
    reveal_strlit("prop(");
    reveal_strlit("attr");
    reveal_strlit("prop");
    reveal_strlit(")");
    let kw = if is_attr {
        "attr"@
    } else {
        "prop"@
    };
    assert((if is_attr {
        "attr("@
    } else {
        "prop("@
    }) + n + ")"@ =~= kw + (seq!['('] + (n + seq![')'])));
    lemma_split(t, p, q, kw, seq!['('] + (n + seq![')']));
    let s0 = p + 5;
    lemma_split(t, p + 4, q, seq!['('], n + seq![')']);
    lemma_split(t, s0, q, n, seq![')']);
    lemma_char_at(t, p + 4, s0, seq!['('], 0);
    lemma_char_at(t, q - 1, q, seq![')'], 0);
    lemma_name_chars();
    lemma_call_names();
    lemma_name_call(t, p, kw);
    lemma_char_at(t, s0, q - 1, n, 0);
    lemma_ws_none(t, s0);
    assert forall|i: int| s0 + 1 <= i < q - 1 implies spec_is_ascii_letter(#[trigger] t[i])
        || spec_is_digit(t[i]) || t[i] == '_' by {
        lemma_char_at(t, s0, q - 1, n, i - s0);
    }
    lemma_name_run(t, s0 + 1, q - 1);
    lemma_ws_none(t, q - 1);
    assert(sp_identifier_opt(t, s0) == (Some(n), q - 1));
    assert(sp_string_literal(t, s0) == (Ok::<Seq<char>, SParseError>(n), q - 1));
}


/// Whether an expression is a negation.
pub open spec fn is_neg(e: SExpr) -> bool {
    match e {
        SExpr::Unary { op, .. } => op == XUnaryOp::Neg,
        _ => false,
    }
}

/// The precedence of an infix operation, `0` for any other expression.
pub open spec fn infix_rank(e: SExpr) -> int {
    if is_infix(e) {
        precedence(e) as int
    } else {
        0
    }
}

/// How a shown expression starts: never with whitespace, `)` or `,`, and,
/// where infix operations are in parentheses, with `-` exactly for a
/// negation.
proof fn lemma_text_start(e: SExpr, k: u8)
    requires
        displayable(e),
        k >= 1,
    ensures
        expr_text(e, Some(k)).len() >= 1,
        !spec_is_whitespace(expr_text(e, Some(k))[0]),
        expr_text(e, Some(k))[0] != ')' && expr_text(e, Some(k))[0] != ',',
        k >= 4 ==> (expr_text(e, Some(k))[0] == '-' <==> is_neg(e)),
    decreases e,
{
    lemma_name_chars();
    reveal_strlit("vec2(");
    reveal_strlit("vec3(");
    reveal_strlit("attr(");
    reveal_strlit("prop(");
    reveal_strlit("-");
    reveal_strlit("(");
    match e {
        SExpr::Lit(v) => match v {
            SValue::Float(f) => {
                if f.whole.len() > 0 {
                    assert(spec_is_digit(f.whole[0]));
                }
            },
            SValue::Integer(i) => {
                lemma_nat_text_value(i as nat);
                assert(spec_is_digit(nat_text(i as nat)[0]));
            },
            _ => {},
        },
        SExpr::Binary { left, op, right } => {
            if !is_call_like(op) {
                let cur = precedence(e);
                if !(cur < k) {
                    lemma_text_start(*left, cur);
                }
            }
        },
        _ => {},
    }
}

/// The parse of the grammar level `l`: 1 comparison, 2 sum, 3 product,
/// 4 unary.
spec fn level_parse(t: Seq<char>, l: int, p: int) -> (Result<SExpr, SParseError>, int) {
    if l <= 1 {
        sp_comparison(t, p)
    } else if l == 2 {
        sp_additive(t, p)
    } else if l == 3 {
        sp_multiplicative(t, p)
    } else {
        sp_unary(t, p)
    }
}

/// The operator loop of the grammar level `l`.
spec fn level_rest(t: Seq<char>, l: int, e: SExpr, p: int) -> (Result<SExpr, SParseError>, int) {
    if l <= 1 {
        sp_comparison_rest(t, e, p)
    } else if l == 2 {
        sp_additive_rest(t, e, p)
    } else {
        sp_multiplicative_rest(t, e, p)
    }
}

/// Where an operand ends, the operator loop of its level stops.
proof fn lemma_rest_stops_at(t: Seq<char>, l: int, e: SExpr, q: int)
    requires
        1 <= l <= 3,
        ends_operand(t, q, l),
    ensures
        level_rest(t, l, e, whitespace_end(t, q)) == (
            Ok::<SExpr, SParseError>(e),
            whitespace_end(t, q),
        ),
{
    lemma_after_operand(t, q, l);
    let w = whitespace_end(t, q);
    if w + 2 <= t.len() {
        assert(t.subrange(w, w + 2)[0] == t[w]);
    }
}

/// The precedence an infix operator gives its operation.
pub open spec fn op_prec(op: XBinaryOp) -> int {
    match op {
        XBinaryOp::Mul | XBinaryOp::Div => 3,
        XBinaryOp::Add | XBinaryOp::Sub => 2,
        XBinaryOp::Lt | XBinaryOp::Lte | XBinaryOp::Ge | XBinaryOp::Gte | XBinaryOp::Eq
        | XBinaryOp::Neq => 1,
        _ => 100,
    }
}

/// An infix operator's symbol followed by a space is read as the operator,
/// at its level.
proof fn lemma_op_reads(t: Seq<char>, w: int, op: XBinaryOp)
    requires
        !is_call_like(op),
        0 <= w,
        w + spec_binary_symbol(op).len() < t.len(),
        t.subrange(w, w + spec_binary_symbol(op).len()) == spec_binary_symbol(op),
        t[w + spec_binary_symbol(op).len()] == ' ',
    ensures
        spec_binary_symbol(op).len() >= 1,
        op_level(spec_binary_symbol(op)[0]) == op_prec(op),
        !spec_is_whitespace(spec_binary_symbol(op)[0]),
        op_prec(op) == 1 ==> sp_cmp_op(t, w) == Some((op, w + spec_binary_symbol(op).len())),
        op_prec(op) == 2 ==> sp_add_op(t, w) == Some((op, w + spec_binary_symbol(op).len())),
        op_prec(op) == 3 ==> sp_mul_op(t, w) == Some((op, w + spec_binary_symbol(op).len())),
{
    reveal_strlit("+");
    reveal_strlit("-");
    reveal_strlit("*");
    reveal_strlit("/");
    reveal_strlit("<");
    reveal_strlit("<=");
    reveal_strlit(">");
    reveal_strlit(">=");
    reveal_strlit("==");
    reveal_strlit("!=");
    let sym = spec_binary_symbol(op);
    lemma_char_at(t, w, w + sym.len(), sym, 0);
    if sym.len() == 2 {
        lemma_char_at(t, w, w + sym.len(), sym, 1);
    }
    if w + 2 <= t.len() {
        assert(t.subrange(w, w + 2)[0] == t[w]);
        assert(t.subrange(w, w + 2)[1] == t[w + 1]);
        if sym.len() == 2 {
            assert(t.subrange(w, w + 2) == sym);
        }
        if op_prec(op) == 1 {
            let two = t.subrange(w, w + 2);
            if sym.len() == 1 {
                assert(two != seq!['<', '=']) by {
                    assert(seq!['<', '='][1] == '=');
                }
                assert(two != seq!['>', '=']) by {
                    assert(seq!['>', '='][1] == '=');
                }
                assert(two != seq!['=', '=']) by {
                    assert(seq!['=', '='][1] == '=');
                }
                assert(two != seq!['!', '=']) by {
                    assert(seq!['!', '='][1] == '=');
                }
            } else {
                assert(two =~= seq![sym[0], sym[1]]);
                match op {
                    XBinaryOp::Lte => {
                        assert(two =~= seq!['<', '=']);
                    },
                    XBinaryOp::Gte => {
                        assert(two =~= seq!['>', '=']);
                        assert(two != seq!['<', '=']) by {
                            assert(seq!['<', '='][0] == '<');
                        }
                    },
                    XBinaryOp::Eq => {
                        assert(two =~= seq!['=', '=']);
                        assert(two != seq!['<', '=']) by {
                            assert(seq!['<', '='][0] == '<');
                        }
                        assert(two != seq!['>', '=']) by {
                            assert(seq!['>', '='][0] == '>');
                        }
                    },
                    _ => {
                        assert(two =~= seq!['!', '=']);
                        assert(two != seq!['<', '=']) by {
                            assert(seq!['<', '='][0] == '<');
                        }
                        assert(two != seq!['>', '=']) by {
                            assert(seq!['>', '='][0] == '>');
                        }
                        assert(two != seq!['=', '=']) by {
                            assert(seq!['=', '='][0] == '=');
                        }
                    },
                }
            }
        }
    }
}

/// A shown expression, read at the level `l` its context asks for, reads
/// back as itself, up to the whitespace after it.
#[verifier::spinoff_prover]
#[verifier::rlimit(50)]
proof fn lemma_reads(t: Seq<char>, e: SExpr, l: int, p: int, q: int)
    requires
        displayable(e),
        1 <= l <= 4,
        0 <= p <= q <= t.len(),
        t.subrange(p, q) == expr_text(e, Some(l as u8)),
        ends_operand(t, q, l),
    ensures
        level_parse(t, l, p) == (Ok::<SExpr, SParseError>(e), whitespace_end(t, q)),
    decreases depth(e), (if l <= infix_rank(e) {
        infix_rank(e) - l + 1
    } else {
        infix_rank(e) + 7 - l
    }),
{
    lemma_after_operand(t, q, l);
    if l <= 3 {
        if is_infix(e) && precedence(e) == l {
            lemma_infix_reads(t, e, l, p, q);
            lemma_rest_stops_at(t, l, e, q);
        } else {
            lemma_text_context(e, l as u8, (l + 1) as u8);
            lemma_reads(t, e, l + 1, p, q);
            lemma_rest_stops_at(t, l, e, q);
        }
    } else {
        let text = expr_text(e, Some(4u8));
        lemma_text_start(e, 4);
        lemma_char_at(t, p, q, text, 0);
        lemma_ws_none(t, p);
        match e {
            SExpr::Unary { op, expr } => {
                if op == XUnaryOp::Neg {
                    reveal_strlit("-");
                    let it = expr_text(*expr, Some(100u8));
                    lemma_text_context(*expr, 100u8, 4u8);
                    assert(text =~= seq!['-'] + it);
                    lemma_split(t, p, q, seq!['-'], it);
                    lemma_text_start(*expr, 4);
                    lemma_char_at(t, p + 1, q, it, 0);
                    lemma_ws_none(t, p + 1);
                    lemma_reads(t, *expr, 4, p + 1, q);
                } else {
                    lemma_primary_reads(t, e, p, q);
                }
            },
            _ => {
                lemma_primary_reads(t, e, p, q);
            },
        }
    }
}

/// An infix operation at its own level reads its operands and leaves the
/// level's operator loop to go on after it.
#[verifier::spinoff_prover]
#[verifier::rlimit(50)]
proof fn lemma_infix_reads(t: Seq<char>, e: SExpr, l: int, p: int, q: int)
    requires
        displayable(e),
        1 <= l <= 3,
        is_infix(e),
        precedence(e) == l,
        0 <= p <= q <= t.len(),
        t.subrange(p, q) == expr_text(e, Some(l as u8)),
        ends_operand(t, q, l + 1),
    ensures
        level_parse(t, l, p) == level_rest(t, l, e, whitespace_end(t, q)),
    decreases depth(e), 0int,
{
    match e {
        SExpr::Binary { left, op, right } => {
            reveal_strlit(" ");
            let lt = expr_text(*left, Some(l as u8));
            let sym = spec_binary_symbol(op);
            let rt = expr_text(*right, Some((l + 1) as u8));
            assert(expr_text(e, Some(l as u8)) =~= lt + (seq![' '] + (sym + (seq![' '] + rt))));
            lemma_split(t, p, q, lt, seq![' '] + (sym + (seq![' '] + rt)));
            let ql = p + lt.len();
            lemma_split(t, ql, q, seq![' '], sym + (seq![' '] + rt));
            lemma_split(t, ql + 1, q, sym, seq![' '] + rt);
            let w2 = ql + 1 + sym.len();
            lemma_split(t, w2, q, seq![' '], rt);
            let r0 = w2 + 1;
            lemma_char_at(t, ql, ql + 1, seq![' '], 0);
            lemma_char_at(t, w2, w2 + 1, seq![' '], 0);
            lemma_text_start(*right, (l + 1) as u8);
            lemma_char_at(t, r0, q, rt, 0);
            lemma_op_reads(t, ql + 1, op);
            lemma_char_at(t, ql + 1, w2, sym, 0);
            assert(op_prec(op) == l);
            assert(ends_operand(t, ql, l + 1));
            if is_infix(*left) && precedence(*left) == l {
                lemma_infix_reads(t, *left, l, p, ql);
            } else {
                lemma_text_context(*left, l as u8, (l + 1) as u8);
                lemma_reads(t, *left, l + 1, p, ql);
                lemma_after_operand(t, ql, l + 1);
            }
            lemma_ws_one(t, ql);
            lemma_ws_none(t, ql + 1);
            lemma_ws_one(t, w2);
            lemma_reads(t, *right, l + 1, r0, q);
            lemma_after_operand(t, q, l + 1);
            assert(s_binary(*left, op, *right) == e);
            assert(level_rest(t, l, *left, ql + 1) == level_rest(t, l, e, whitespace_end(t, q)));
        },
        _ => {},
    }
}


/// Anything but a negation, shown where infix operations are in
/// parentheses, is read back as a primary expression.
#[verifier::spinoff_prover]
#[verifier::rlimit(50)]
proof fn lemma_primary_reads(t: Seq<char>, e: SExpr, p: int, q: int)
    requires
        displayable(e),
        !is_neg(e),
        0 <= p <= q <= t.len(),
        t.subrange(p, q) == expr_text(e, Some(4u8)),
        ends_operand(t, q, 4),
    ensures
        sp_primary(t, p).0 == Ok::<SExpr, SParseError>(e),
        p <= sp_primary(t, p).1 <= t.len(),
        whitespace_end(t, sp_primary(t, p).1) == whitespace_end(t, q),
    decreases depth(e), infix_rank(e) + 2,
{
    lemma_after_operand(t, q, 4);
    lemma_name_chars();
    lemma_call_names();
    reveal_strlit("vec2(");
    reveal_strlit("vec3(");
    reveal_strlit("vec2");
    reveal_strlit("vec3");
    reveal_strlit("(");
    reveal_strlit(", ");
    reveal_strlit(")");
    match e {
        SExpr::Lit(v) => match v {
            SValue::Float(f) => {
                lemma_float_reads(t, p, q, f);
            },
            SValue::Integer(i) => {
                lemma_int_reads(t, p, q, i);
            },
            SValue::Vec2(x, y) => {
                lemma_part_expr(x, 1);
                lemma_part_expr(y, 1);
                let px = part_expr(x);
                let py = part_expr(y);
                lemma_text_top(px);
                lemma_text_top(py);
                assert(expr_text(e, Some(4u8)) =~= "vec2"@ + "("@ + expr_text(px, None) + ", "@
                    + expr_text(py, None) + ")"@);
                lemma_pair_reads(t, "vec2"@, px, py, p, q);
            },
            SValue::Vec3(x, y, z) => {
                lemma_part_expr(x, 1);
                lemma_part_expr(y, 1);
                lemma_part_expr(z, 1);
                let px = part_expr(x);
                let py = part_expr(y);
                let pz = part_expr(z);
                lemma_text_top(px);
                lemma_text_top(py);
                lemma_text_top(pz);
                assert(expr_text(e, Some(4u8)) =~= "vec3"@ + "("@ + expr_text(px, None) + ", "@
                    + expr_text(py, None) + ", "@ + expr_text(pz, None) + ")"@);
                lemma_triple_reads(t, px, py, pz, p, q);
            },
        },
        SExpr::Attr(n) => {
            lemma_named_reads(t, p, q, n, true);
        },
        SExpr::Prop(n) => {
            lemma_named_reads(t, p, q, n, false);
        },
        SExpr::BuiltIn(op) => {
            lemma_builtin_reads(t, p, q, op);
        },
        SExpr::Unary { op, expr } => {
            lemma_single_reads(t, spec_unary_symbol(op), *expr, p, q);
        },
        SExpr::Binary { left, op, right } => {
            if is_call_like(op) {
                lemma_pair_reads(t, spec_binary_symbol(op), *left, *right, p, q);
            } else {
                lemma_paren_reads(t, e, p, q);
            }
        },
    }
}

/// `name(a)` for a one-argument function is read back as the call.
#[verifier::spinoff_prover]
#[verifier::rlimit(50)]
proof fn lemma_single_reads(t: Seq<char>, name: Seq<char>, a: SExpr, p: int, q: int)
    requires
        displayable(a),
        is_ascii_name(name),
        spec_is_ascii_letter(name[0]),
        unary_function(name) is Some,
        0 <= p <= q <= t.len(),
        t.subrange(p, q) == name + "("@ + expr_text(a, None) + ")"@,
    ensures
        sp_primary(t, p) == (
            Ok::<SExpr, SParseError>(s_unary(unary_function(name)->0, a)),
            q,
        ),
    decreases depth(a) + 1, 0int,
{
    reveal_strlit("(");
    reveal_strlit(")");
    let ta = expr_text(a, None);
    assert(name + "("@ + ta + ")"@ =~= name + (seq!['('] + (ta + seq![')'])));
    lemma_split(t, p, q, name, seq!['('] + (ta + seq![')']));
    let s0 = p + name.len() + 1;
    lemma_split(t, s0 - 1, q, seq!['('], ta + seq![')']);
    lemma_split(t, s0, q, ta, seq![')']);
    let s1 = q - 1;
    lemma_char_at(t, s0 - 1, s0, seq!['('], 0);
    lemma_char_at(t, s1, q, seq![')'], 0);
    lemma_name_call(t, p, name);
    lemma_text_top(a);
    lemma_reads(t, a, 1, s0, s1);
    lemma_ws_none(t, s1);
    assert(sp_expression(t, s0) == (Ok::<SExpr, SParseError>(a), s1));
}

/// `name(a, b)` for a two-argument function or `vec2` is read back as the
/// call.
#[verifier::spinoff_prover]
#[verifier::rlimit(60)]
proof fn lemma_pair_reads(t: Seq<char>, name: Seq<char>, a: SExpr, b: SExpr, p: int, q: int)
    requires
        displayable(a),
        displayable(b),
        is_ascii_name(name),
        spec_is_ascii_letter(name[0]),
        unary_function(name) is None,
        binary_function(name) is Some || name == "vec2"@,
        0 <= p <= q <= t.len(),
        t.subrange(p, q) == name + "("@ + expr_text(a, None) + ", "@ + expr_text(b, None) + ")"@,
    ensures
        sp_primary(t, p) == (
            Ok::<SExpr, SParseError>(
                if binary_function(name) is Some {
                    s_binary(a, binary_function(name)->0, b)
                } else {
                    make_vec2(a, b)
                },
            ),
            q,
        ),
    decreases depth(a) + depth(b) + 1, 0int,
{
    reveal_strlit("(");
    reveal_strlit(")");
    reveal_strlit(", ");
    let ta = expr_text(a, None);
    let tb = expr_text(b, None);
    assert(name + "("@ + ta + ", "@ + tb + ")"@ =~= name + (seq!['('] + (ta + (seq![',', ' '] + (
    tb + seq![')'])))));
    lemma_split(t, p, q, name, seq!['('] + (ta + (seq![',', ' '] + (tb + seq![')']))));
    let s0 = p + name.len() + 1;
    lemma_split(t, s0 - 1, q, seq!['('], ta + (seq![',', ' '] + (tb + seq![')'])));
    lemma_split(t, s0, q, ta, seq![',', ' '] + (tb + seq![')']));
    let s1 = s0 + ta.len();
    lemma_split(t, s1, q, seq![',', ' '], tb + seq![')']);
    let s2 = s1 + 2;
    lemma_split(t, s2, q, tb, seq![')']);
    let s3 = q - 1;
    lemma_char_at(t, s0 - 1, s0, seq!['('], 0);
    lemma_char_at(t, s1, s2, seq![',', ' '], 0);
    lemma_char_at(t, s1, s2, seq![',', ' '], 1);
    lemma_char_at(t, s3, q, seq![')'], 0);
    lemma_name_call(t, p, name);
    lemma_text_top(a);
    lemma_text_top(b);
    lemma_text_start(b, 1);
    lemma_char_at(t, s2, s3, tb, 0);
    lemma_reads(t, a, 1, s0, s1);
    lemma_ws_none(t, s1);
    lemma_ws_one(t, s1 + 1);
    lemma_reads(t, b, 1, s2, s3);
    lemma_ws_none(t, s3);
    assert(sp_expression(t, s0) == (Ok::<SExpr, SParseError>(a), s1));
    assert(sp_expression(t, s2) == (Ok::<SExpr, SParseError>(b), s3));
}

/// `vec3(a, b, c)` is read back as a vector of the three parts.
#[verifier::spinoff_prover]
#[verifier::rlimit(80)]
proof fn lemma_triple_reads(t: Seq<char>, a: SExpr, b: SExpr, c: SExpr, p: int, q: int)
    requires
        displayable(a),
        displayable(b),
        displayable(c),
        0 <= p <= q <= t.len(),
        t.subrange(p, q) == "vec3"@ + "("@ + expr_text(a, None) + ", "@ + expr_text(b, None)
            + ", "@ + expr_text(c, None) + ")"@,
    ensures
        sp_primary(t, p) == (Ok::<SExpr, SParseError>(make_vec3(a, b, c)), q),
    decreases depth(a) + depth(b) + depth(c) + 1, 0int,
{
    reveal_strlit("(");
    reveal_strlit(")");
    reveal_strlit(", ");
    reveal_strlit("vec3");
    lemma_name_chars();
    lemma_call_names();
    let name = "vec3"@;
    let ta = expr_text(a, None);
    let tb = expr_text(b, None);
    let tc = expr_text(c, None);
    let tail = seq![',', ' '] + (tb + (seq![',', ' '] + (tc + seq![')'])));
    assert(name + "("@ + ta + ", "@ + tb + ", "@ + tc + ")"@ =~= name + (seq!['('] + (ta
        + tail)));
    lemma_split(t, p, q, name, seq!['('] + (ta + tail));
    let s0 = p + 5;
    lemma_split(t, s0 - 1, q, seq!['('], ta + tail);
    lemma_split(t, s0, q, ta, tail);
    let s1 = s0 + ta.len();
    lemma_split(t, s1, q, seq![',', ' '], tb + (seq![',', ' '] + (tc + seq![')'])));
    let s2 = s1 + 2;
    lemma_split(t, s2, q, tb, seq![',', ' '] + (tc + seq![')']));
    let s3 = s2 + tb.len();
    lemma_split(t, s3, q, seq![',', ' '], tc + seq![')']);
    let s4 = s3 + 2;
    lemma_split(t, s4, q, tc, seq![')']);
    let s5 = q - 1;
    lemma_char_at(t, s0 - 1, s0, seq!['('], 0);
    lemma_char_at(t, s1, s2, seq![',', ' '], 0);
    lemma_char_at(t, s1, s2, seq![',', ' '], 1);
    lemma_char_at(t, s3, s4, seq![',', ' '], 0);
    lemma_char_at(t, s3, s4, seq![',', ' '], 1);
    lemma_char_at(t, s5, q, seq![')'], 0);
    lemma_name_call(t, p, name);
    lemma_text_top(a);
    lemma_text_top(b);
    lemma_text_top(c);
    lemma_text_start(b, 1);
    lemma_text_start(c, 1);
    lemma_char_at(t, s2, s3, tb, 0);
    lemma_char_at(t, s4, s5, tc, 0);
    lemma_reads(t, a, 1, s0, s1);
    lemma_ws_none(t, s1);
    lemma_ws_one(t, s1 + 1);
    lemma_reads(t, b, 1, s2, s3);
    lemma_ws_none(t, s3);
    lemma_ws_one(t, s3 + 1);
    lemma_reads(t, c, 1, s4, s5);
    lemma_ws_none(t, s5);
    assert(sp_expression(t, s0) == (Ok::<SExpr, SParseError>(a), s1));
    assert(sp_expression(t, s2) == (Ok::<SExpr, SParseError>(b), s3));
    assert(sp_expression(t, s4) == (Ok::<SExpr, SParseError>(c), s5));
}

/// An infix operation in parentheses is read back as itself.
#[verifier::spinoff_prover]
#[verifier::rlimit(50)]
proof fn lemma_paren_reads(t: Seq<char>, e: SExpr, p: int, q: int)
    requires
        displayable(e),
        is_infix(e),
        0 <= p <= q <= t.len(),
        t.subrange(p, q) == expr_text(e, Some(4u8)),
    ensures
        sp_primary(t, p) == (Ok::<SExpr, SParseError>(e), q),
    decreases depth(e), infix_rank(e) + 1,
{
    reveal_strlit("(");
    reveal_strlit(")");
    let inner = expr_text(e, None);
    assert(expr_text(e, Some(4u8)) =~= seq!['('] + (inner + seq![')']));
    lemma_split(t, p, q, seq!['('], inner + seq![')']);
    lemma_split(t, p + 1, q, inner, seq![')']);
    lemma_char_at(t, p, p + 1, seq!['('], 0);
    lemma_char_at(t, q - 1, q, seq![')'], 0);
    lemma_ws_none(t, p);
    lemma_text_top(e);
    lemma_reads(t, e, 1, p + 1, q - 1);
    lemma_ws_none(t, q - 1);
    assert(sp_expression(t, p + 1) == (Ok::<SExpr, SParseError>(e), q - 1));
}

/// What an expression is shown as reads back as the expression, for every
/// expression whose text can: non-negative canonical literals, ASCII names
/// for attributes and properties, and no vector construction that is shown
/// like a vector literal or with a nested `vec2`. Operators group to the left
/// and a right operand of equal precedence keeps its parentheses, so
/// `1.0 - (2.0 - 3.0)` reads back as itself.
pub proof fn lemma_shown_expression_reads_back(e: SExpr)
    requires
        displayable(e),
    ensures
        spec_parse(spec_to_string(e)) == Ok::<SExpr, SParseError>(e),
{
    let t = spec_to_string(e);
    lemma_text_top(e);
    lemma_text_start(e, 1);
    lemma_ws_none(t, 0);
    assert(t.subrange(0, t.len() as int) =~= t);
    lemma_reads(t, e, 1, 0, t.len() as int);
    lemma_ws_none(t, t.len() as int);
    assert(sp_expression(t, 0) == (Ok::<SExpr, SParseError>(e), t.len() as int));
}

} // verus!
