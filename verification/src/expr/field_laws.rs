//! Laws of field access: `e.name` reads as the dot product of `e` with the
//! attribute `name`.

use vstd::prelude::*;

use crate::expr::display_laws::is_ascii_name;
use crate::expr::tokenizer::{char_at_is, is_name_char, lemma_name_end, name_end, whitespace_end};
use crate::expr::xexpr::SExpr;
use crate::expr::xop::{XBinaryOp, spec_builtin_from_name};
use crate::expr::xparser::{
    SParseError,
    digit_end,
    sp_additive,
    sp_additive_rest,
    sp_comparison,
    sp_comparison_rest,
    sp_expression,
    sp_identifier,
    sp_identifier_opt,
    sp_multiplicative,
    sp_multiplicative_rest,
    sp_number,
    sp_postfix,
    sp_postfix_rest,
    sp_primary,
    sp_unary,
    spec_parse,
};
use crate::expr::xval::SValue;
use crate::text::{spec_is_ascii_letter, spec_is_digit, spec_is_whitespace};

verus! {

/// The field access of `e` to the attribute `name`: `dot(e, attr(name))`.
pub open spec fn field_of(e: SExpr, name: Seq<char>) -> SExpr {
    SExpr::Binary { left: Box::new(e), op: XBinaryOp::Dot, right: Box::new(SExpr::Attr(name)) }
}

/// A `.` followed by a name, after an expression `e` that ends at `p`, makes
/// the dot operation of `e` with the attribute of that name, and the field
/// accesses go on after the name.
pub proof fn lemma_field_access(s: Seq<char>, e: SExpr, p: int, n: Seq<char>, r: int)
    requires
        0 <= p,
        whitespace_end(s, p) < s.len(),
        s[whitespace_end(s, p)] == '.',
        !(whitespace_end(s, p) + 1 < s.len() && spec_is_digit(s[whitespace_end(s, p) + 1])),
        sp_identifier(s, whitespace_end(s, p) + 1) == (Ok::<Seq<char>, SParseError>(n), r),
    ensures
        sp_postfix_rest(s, e, p) == sp_postfix_rest(s, field_of(e, n), r),
{
    let q = whitespace_end(s, p);
    lemma_ws_at_least(s, p);
    lemma_name_end(s, q + 2);
}

/// Where no `.` follows an expression `e` that ends at `p`, there is no
/// field access: `e` is the result, up to the whitespace after it.
pub proof fn lemma_no_field_access(s: Seq<char>, e: SExpr, p: int)
    requires
        0 <= p,
        !char_at_is(s, whitespace_end(s, p), '.'),
    ensures
        sp_postfix_rest(s, e, p) == (Ok::<SExpr, SParseError>(e), whitespace_end(s, p)),
{
}

/// Whitespace runs do not go back.
proof fn lemma_ws_at_least(s: Seq<char>, p: int)
    requires
        0 <= p,
    ensures
        whitespace_end(s, p) >= p,
    decreases s.len() - p,
{
    if 0 <= p < s.len() && spec_is_whitespace(s[p]) {
        lemma_ws_at_least(s, p + 1);
    }
}

/// A run of ASCII name characters from `p` to a place `q` where none stands.
proof fn lemma_ascii_name_run(t: Seq<char>, p: int, q: int)
    requires
        0 <= p <= q <= t.len(),
        forall|i: int|
            p <= i < q ==> spec_is_ascii_letter(#[trigger] t[i]) || spec_is_digit(t[i]) || t[i]
                == '_',
        q == t.len() || t[q] == '.',
    ensures
        name_end(t, p) == q,
    decreases q - p,
{
    if p < q {
        assert(is_name_char(t[p]));
        lemma_ascii_name_run(t, p + 1, q);
    }
}

/// `a.b`, for ASCII names `a` (no built-in) and `b`, reads as the dot
/// operation of the attribute `a` with the attribute `b`: for example
/// `velocity.x` reads as `dot(attr(velocity), attr(x))`.
pub proof fn lemma_name_field_parses(a: Seq<char>, b: Seq<char>)
    requires
        is_ascii_name(a),
        is_ascii_name(b),
        spec_builtin_from_name(a) is None,
    ensures
        spec_parse(a + seq!['.'] + b) == Ok::<SExpr, SParseError>(
            field_of(SExpr::Attr(a), b),
        ),
{
    let t = a + seq!['.'] + b;
    let k = a.len() as int;
    let len = t.len() as int;
    assert(t[k] == '.');
    assert forall|i: int| 0 <= i < k implies spec_is_ascii_letter(#[trigger] t[i])
        || spec_is_digit(t[i]) || t[i] == '_' by {
        assert(t[i] == a[i]);
    }
    assert forall|i: int| k + 1 <= i < len implies spec_is_ascii_letter(#[trigger] t[i])
        || spec_is_digit(t[i]) || t[i] == '_' by {
        assert(t[i] == b[i - k - 1]);
    }
    assert(t[0] == a[0]);
    assert(t[k + 1] == b[0]);
    // The name `a`, then no call: the attribute `a`.
    assert(whitespace_end(t, 0) == 0);
    assert(digit_end(t, 0) == 0);
    assert(sp_number(t, 0) == (Ok::<Option<SValue>, SParseError>(None), 0int));
    lemma_ascii_name_run(t, 1, k);
    assert(sp_identifier_opt(t, 0) == (Some(t.subrange(0, k)), k));
    assert(t.subrange(0, k) =~= a);
    assert(whitespace_end(t, k) == k);
    assert(sp_primary(t, 0) == (Ok::<SExpr, SParseError>(SExpr::Attr(a)), k));
    // `.` and the name `b`: a field access.
    lemma_ascii_name_run(t, k + 2, len);
    assert(sp_identifier_opt(t, k + 1) == (Some(t.subrange(k + 1, len)), len));
    assert(t.subrange(k + 1, len) =~= b);
    lemma_field_access(t, SExpr::Attr(a), k, b, len);
    let f = field_of(SExpr::Attr(a), b);
    lemma_no_field_access(t, f, len);
    assert(sp_postfix(t, 0) == (Ok::<SExpr, SParseError>(f), len));
    assert(sp_unary(t, 0) == (Ok::<SExpr, SParseError>(f), len));
    // Nothing follows: every operator loop stops at the end.
    assert(whitespace_end(t, len) == len);
    assert(sp_multiplicative_rest(t, f, len) == (Ok::<SExpr, SParseError>(f), len));
    assert(sp_multiplicative(t, 0) == (Ok::<SExpr, SParseError>(f), len));
    assert(sp_additive_rest(t, f, len) == (Ok::<SExpr, SParseError>(f), len));
    assert(sp_additive(t, 0) == (Ok::<SExpr, SParseError>(f), len));
    assert(sp_comparison_rest(t, f, len) == (Ok::<SExpr, SParseError>(f), len));
    assert(sp_comparison(t, 0) == (Ok::<SExpr, SParseError>(f), len));
    assert(sp_expression(t, 0) == (Ok::<SExpr, SParseError>(f), len));
}

/// `velocity.x` reads as `dot(attr(velocity), attr(x))`.
pub proof fn lemma_velocity_x_parses()
    ensures
        spec_parse("velocity.x"@) == Ok::<SExpr, SParseError>(
            field_of(SExpr::Attr("velocity"@), "x"@),
        ),
{
    reveal_strlit("velocity.x");
    reveal_strlit("velocity");
    reveal_strlit("x");
    reveal_strlit("time");
    reveal_strlit("delta_time");
    reveal_strlit("rand");
    reveal_strlit("alpha_cutoff");
    reveal_strlit("particle_id");
    assert("velocity.x"@ =~= "velocity"@ + seq!['.'] + "x"@);
    assert("velocity"@[0] != "time"@[0] && "velocity"@[0] != "rand"@[0]);
    lemma_name_field_parses("velocity"@, "x"@);
}

} // verus!
