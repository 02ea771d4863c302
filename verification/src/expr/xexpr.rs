//! Expression syntax trees.

use vstd::prelude::*;

use crate::expr::xop::{
    XBinaryOp,
    XBuiltInOp,
    XUnaryOp,
    spec_binary_symbol,
    spec_builtin_name,
    spec_unary_symbol,
};
use crate::expr::xval::{SFloat, SValue, XFloat, XValue, value_text};

verus! {

/// An expression.
#[derive(Debug, PartialEq)]
pub enum XExpr {
    Lit(XValue),
    Attr(String),
    Prop(String),
    BuiltIn(XBuiltInOp),
    Unary { op: XUnaryOp, expr: Box<XExpr> },
    Binary { left: Box<XExpr>, op: XBinaryOp, right: Box<XExpr> },
}

/// An expression as the specification sees it.
pub enum SExpr {
    Lit(SValue),
    Attr(Seq<char>),
    Prop(Seq<char>),
    BuiltIn(XBuiltInOp),
    Unary { op: XUnaryOp, expr: Box<SExpr> },
    Binary { left: Box<SExpr>, op: XBinaryOp, right: Box<SExpr> },
}

/// The view of an expression.
pub open spec fn expr_view(e: XExpr) -> SExpr
    decreases e,
{
    match e {
        XExpr::Lit(v) => SExpr::Lit(v@),
        XExpr::Attr(n) => SExpr::Attr(n@),
        XExpr::Prop(n) => SExpr::Prop(n@),
        XExpr::BuiltIn(b) => SExpr::BuiltIn(b),
        XExpr::Unary { op, expr } => SExpr::Unary { op, expr: Box::new(expr_view(*expr)) },
        XExpr::Binary { left, op, right } => SExpr::Binary {
            left: Box::new(expr_view(*left)),
            op,
            right: Box::new(expr_view(*right)),
        },
    }
}

impl View for XExpr {
    type V = SExpr;

    open spec fn view(&self) -> SExpr {
        expr_view(*self)
    }
}

/// The unary expression `op e`.
pub open spec fn s_unary(op: XUnaryOp, e: SExpr) -> SExpr {
    SExpr::Unary { op, expr: Box::new(e) }
}

/// The binary expression `l op r`.
pub open spec fn s_binary(l: SExpr, op: XBinaryOp, r: SExpr) -> SExpr {
    SExpr::Binary { left: Box::new(l), op, right: Box::new(r) }
}

/// The real literal an expression spells, if it is a decimal literal or a
/// negation of one (negation flips the sign). Integer literals are not real
/// literals.
pub open spec fn scalar_literal(e: SExpr) -> Option<SFloat>
    decreases e,
{
    match e {
        SExpr::Lit(SValue::Float(f)) => Some(f),
        SExpr::Unary { op: XUnaryOp::Neg, expr } => match scalar_literal(*expr) {
            Some(f) => Some(SFloat { negative: !f.negative, ..f }),
            None => None,
        },
        _ => None,
    }
}

impl Clone for XExpr {
    fn clone(&self) -> (r: Self)
        ensures
            r@ == self@,
        decreases self,
    {
        match self {
            XExpr::Lit(v) => XExpr::Lit(v.clone()),
            XExpr::Attr(n) => XExpr::Attr(n.clone()),
            XExpr::Prop(n) => XExpr::Prop(n.clone()),
            XExpr::BuiltIn(b) => XExpr::BuiltIn(*b),
            XExpr::Unary { op, expr } => {
                let e: XExpr = (**expr).clone();
                XExpr::Unary { op: *op, expr: Box::new(e) }
            },
            XExpr::Binary { left, op, right } => {
                let l: XExpr = (**left).clone();
                let r: XExpr = (**right).clone();
                XExpr::Binary { left: Box::new(l), op: *op, right: Box::new(r) }
            },
        }
    }
}

impl XExpr {
    /// A literal.
    pub fn lit(value: XValue) -> (r: XExpr)
        ensures
            r@ == SExpr::Lit(value@),
    {
        XExpr::Lit(value)
    }

    /// A particle attribute.
    pub fn attr(name: &str) -> (r: XExpr)
        ensures
            r@ == SExpr::Attr(name@),
    {
        XExpr::Attr(name.to_owned())
    }

    /// An effect property.
    pub fn prop(name: &str) -> (r: XExpr)
        ensures
            r@ == SExpr::Prop(name@),
    {
        XExpr::Prop(name.to_owned())
    }

    /// A built-in value.
    pub fn builtin(op: XBuiltInOp) -> (r: XExpr)
        ensures
            r@ == SExpr::BuiltIn(op),
    {
        XExpr::BuiltIn(op)
    }

    /// The unary expression `op expr`.
    pub fn unary(op: XUnaryOp, expr: XExpr) -> (r: XExpr)
        ensures
            r@ == s_unary(op, expr@),
    {
        XExpr::Unary { op, expr: Box::new(expr) }
    }

    /// The binary expression `left op right`.
    pub fn binary(left: XExpr, op: XBinaryOp, right: XExpr) -> (r: XExpr)
        ensures
            r@ == s_binary(left@, op, right@),
    {
        XExpr::Binary { left: Box::new(left), op, right: Box::new(right) }
    }

    /// `self + other`.
    pub fn add(self, other: XExpr) -> (r: XExpr)
        ensures
            r@ == s_binary(self@, XBinaryOp::Add, other@),
    {
        Self::binary(self, XBinaryOp::Add, other)
    }

    /// `self - other`.
    pub fn sub(self, other: XExpr) -> (r: XExpr)
        ensures
            r@ == s_binary(self@, XBinaryOp::Sub, other@),
    {
        Self::binary(self, XBinaryOp::Sub, other)
    }

    /// `self * other`.
    pub fn mul(self, other: XExpr) -> (r: XExpr)
        ensures
            r@ == s_binary(self@, XBinaryOp::Mul, other@),
    {
        Self::binary(self, XBinaryOp::Mul, other)
    }

    /// `self / other`.
    pub fn div(self, other: XExpr) -> (r: XExpr)
        ensures
            r@ == s_binary(self@, XBinaryOp::Div, other@),
    {
        Self::binary(self, XBinaryOp::Div, other)
    }

    /// `sin(expr)`.
    pub fn sin(expr: XExpr) -> (r: XExpr)
        ensures
            r@ == s_unary(XUnaryOp::Sin, expr@),
    {
        Self::unary(XUnaryOp::Sin, expr)
    }

    /// `cos(expr)`.
    pub fn cos(expr: XExpr) -> (r: XExpr)
        ensures
            r@ == s_unary(XUnaryOp::Cos, expr@),
    {
        Self::unary(XUnaryOp::Cos, expr)
    }

    /// `abs(expr)`.
    pub fn abs(expr: XExpr) -> (r: XExpr)
        ensures
            r@ == s_unary(XUnaryOp::Abs, expr@),
    {
        Self::unary(XUnaryOp::Abs, expr)
    }

    /// `norm(expr)`.
    pub fn norm(expr: XExpr) -> (r: XExpr)
        ensures
            r@ == s_unary(XUnaryOp::Norm, expr@),
    {
        Self::unary(XUnaryOp::Norm, expr)
    }

    /// The real literal this expression spells, if any (see `scalar_literal`).
    pub fn scalar_literal(&self) -> (r: Option<XFloat>)
        ensures
            match r {
                Some(f) => scalar_literal(self@) == Some(f@),
                None => scalar_literal(self@) is None,
            },
        decreases self,
    {
        match self {
            XExpr::Lit(XValue::Float(f)) => Some(f.clone()),
            XExpr::Unary { op: XUnaryOp::Neg, expr } => match expr.scalar_literal() {
                Some(f) => Some(f.negated()),
                None => None,
            },
            _ => None,
        }
    }
}

/// Whether a binary operator is shown as a function call, `op(l, r)`.
pub open spec fn is_call_like(op: XBinaryOp) -> bool {
    match op {
        XBinaryOp::Dot | XBinaryOp::Cross | XBinaryOp::Min | XBinaryOp::Max | XBinaryOp::Vec2
        | XBinaryOp::Vec3 => true,
        _ => false,
    }
}

/// How tightly an expression binds when shown; higher binds tighter.
pub open spec fn precedence(e: SExpr) -> u8 {
    match e {
        SExpr::Unary { .. } => 90,
        SExpr::Binary { op, .. } => match op {
            XBinaryOp::Mul | XBinaryOp::Div => 3,
            XBinaryOp::Add | XBinaryOp::Sub => 2,
            XBinaryOp::Lt | XBinaryOp::Lte | XBinaryOp::Ge | XBinaryOp::Gte | XBinaryOp::Eq
            | XBinaryOp::Neq => 1,
            _ => 100,
        },
        _ => 100,
    }
}

/// How an expression is shown inside a context of precedence `parent`
/// (`None` at the top or inside a call's parentheses): an infix operation is
/// put in parentheses only where it binds looser than its context. Operators
/// group to the left, so a left operand's context is the operator's own
/// precedence, and a right operand's is one tighter: `1 - (2 - 3)` keeps its
/// parentheses while `(1 - 2) - 3` is shown as `1 - 2 - 3`.
pub open spec fn expr_text(e: SExpr, parent: Option<u8>) -> Seq<char>
    decreases e,
{
    match e {
        SExpr::Lit(v) => value_text(v),
        SExpr::Attr(n) => "attr("@ + n + ")"@,
        SExpr::Prop(n) => "prop("@ + n + ")"@,
        SExpr::BuiltIn(op) => spec_builtin_name(op),
        SExpr::Unary { op, expr } => if op == XUnaryOp::Neg {
            "-"@ + expr_text(*expr, Some(100u8))
        } else {
            spec_unary_symbol(op) + "("@ + expr_text(*expr, None) + ")"@
        },
        SExpr::Binary { left, op, right } => if is_call_like(op) {
            spec_binary_symbol(op) + "("@ + expr_text(*left, None) + ", "@ + expr_text(*right, None)
                + ")"@
        } else {
            let cur = precedence(e);
            let parens = match parent {
                Some(pp) => cur < pp,
                None => false,
            };
            (if parens {
                "("@
            } else {
                Seq::empty()
            }) + expr_text(*left, Some(cur)) + " "@ + spec_binary_symbol(op) + " "@ + expr_text(
                *right,
                Some((cur + 1) as u8),
            ) + (if parens {
                ")"@
            } else {
                Seq::empty()
            })
        },
    }
}

/// How an expression is shown.
pub open spec fn spec_to_string(e: SExpr) -> Seq<char> {
    expr_text(e, None)
}

impl XExpr {
    /// How tightly this expression binds when shown; higher binds tighter.
    fn get_precedence(&self) -> (r: u8)
        ensures
            r == precedence(self@),
    {
        match self {
            XExpr::Lit(_) | XExpr::Attr(_) | XExpr::Prop(_) | XExpr::BuiltIn(_) => 100,
            XExpr::Unary { .. } => 90,
            XExpr::Binary { op, .. } => match op {
                XBinaryOp::Mul | XBinaryOp::Div => 3,
                XBinaryOp::Add | XBinaryOp::Sub => 2,
                XBinaryOp::Lt | XBinaryOp::Lte | XBinaryOp::Ge | XBinaryOp::Gte | XBinaryOp::Eq
                | XBinaryOp::Neq => 1,
                XBinaryOp::Dot | XBinaryOp::Cross | XBinaryOp::Min | XBinaryOp::Max
                | XBinaryOp::Vec2 | XBinaryOp::Vec3 => 100,
            },
        }
    }

    /// Appends how this expression is shown in a context of precedence `parent`.
    fn fmt_with_parens(&self, s: &mut String, parent_precedence: Option<u8>)
        ensures
            final(s)@ == old(s)@ + expr_text(self@, parent_precedence),
        decreases self,
    {
        match self {
            XExpr::Lit(value) => value.push_text(s),
            XExpr::Attr(name) => {
                s.append("attr(");
                s.append(name.as_str());
                s.append(")");
            },
            XExpr::Prop(name) => {
                s.append("prop(");
                s.append(name.as_str());
                s.append(")");
            },
            XExpr::BuiltIn(op) => s.append(op.name()),
            XExpr::Unary { op, expr } => {
                if *op == XUnaryOp::Neg {
                    s.append("-");
                    expr.fmt_with_parens(s, Some(100));
                } else {
                    s.append(op.symbol());
                    s.append("(");
                    expr.fmt_with_parens(s, None);
                    s.append(")");
                }
            },
            XExpr::Binary { left, op, right } => {
                let call_like = match op {
                    XBinaryOp::Dot | XBinaryOp::Cross | XBinaryOp::Min | XBinaryOp::Max
                    | XBinaryOp::Vec2 | XBinaryOp::Vec3 => true,
                    _ => false,
                };
                if call_like {
                    s.append(op.symbol());
                    s.append("(");
                    left.fmt_with_parens(s, None);
                    s.append(", ");
                    right.fmt_with_parens(s, None);
                    s.append(")");
                } else {
                    let current = self.get_precedence();
                    let needs_parens = match parent_precedence {
                        Some(parent) => current < parent,
                        None => false,
                    };
                    if needs_parens {
                        s.append("(");
                    }
                    left.fmt_with_parens(s, Some(current));
                    s.append(" ");
                    s.append(op.symbol());
                    s.append(" ");
                    right.fmt_with_parens(s, Some(current + 1));
                    if needs_parens {
                        s.append(")");
                    }
                }
            },
        }
        assert(final(s)@ =~= old(s)@ + expr_text(self@, parent_precedence));
    }

    /// How this expression is shown, e.g. `1.0 + rand * sin(time)`.
    pub fn to_string(&self) -> (r: String)
        ensures
            r@ == spec_to_string(self@),
    {
        let mut s = String::new();
        self.fmt_with_parens(&mut s, None);
        s
    }
}

} // verus!
