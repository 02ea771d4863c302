//! Result-type inference for expressions.

use vstd::prelude::*;

use crate::expr::xexpr::{SExpr, XExpr};
use crate::expr::xop::{XBinaryOp, XUnaryOp};
use crate::expr::xval::{SValue, XExprReturnType, XValue};
use crate::name_map::NameMap;

verus! {

/// A table from names to types, for the attributes or the properties an
/// expression may refer to. A name occurs at most once; inserting a name again
/// replaces its type.
pub type TypeTable = NameMap<XExprReturnType>;

/// The type of `l op r` for the arithmetic operators: equal types keep their
/// type; a scalar (real or integer) with a vector gives the vector; anything
/// else is an error.
pub open spec fn arithmetic_type(l: XExprReturnType, r: XExprReturnType) -> XExprReturnType {
    match (l, r) {
        (XExprReturnType::Float, XExprReturnType::Float) => XExprReturnType::Float,
        (XExprReturnType::Integer, XExprReturnType::Integer) => XExprReturnType::Integer,
        (XExprReturnType::Vec2, XExprReturnType::Vec2) => XExprReturnType::Vec2,
        (XExprReturnType::Vec3, XExprReturnType::Vec3) => XExprReturnType::Vec3,
        (XExprReturnType::Float, XExprReturnType::Vec2)
        | (XExprReturnType::Vec2, XExprReturnType::Float) => XExprReturnType::Vec2,
        (XExprReturnType::Float, XExprReturnType::Vec3)
        | (XExprReturnType::Vec3, XExprReturnType::Float) => XExprReturnType::Vec3,
        (XExprReturnType::Integer, XExprReturnType::Vec2)
        | (XExprReturnType::Vec2, XExprReturnType::Integer) => XExprReturnType::Vec2,
        (XExprReturnType::Integer, XExprReturnType::Vec3)
        | (XExprReturnType::Vec3, XExprReturnType::Integer) => XExprReturnType::Vec3,
        _ => XExprReturnType::Error,
    }
}

/// The type of `l op r` for a binary operator.
pub open spec fn binary_type(
    op: XBinaryOp,
    l: XExprReturnType,
    r: XExprReturnType,
) -> XExprReturnType {
    match op {
        XBinaryOp::Add | XBinaryOp::Sub | XBinaryOp::Min | XBinaryOp::Max | XBinaryOp::Mul
        | XBinaryOp::Div => arithmetic_type(l, r),
        XBinaryOp::Dot => match (l, r) {
            (XExprReturnType::Vec2, XExprReturnType::Vec2)
            | (XExprReturnType::Vec3, XExprReturnType::Vec3) => XExprReturnType::Float,
            _ => XExprReturnType::Error,
        },
        XBinaryOp::Cross => match (l, r) {
            (XExprReturnType::Vec3, XExprReturnType::Vec3) => XExprReturnType::Vec3,
            _ => XExprReturnType::Error,
        },
        XBinaryOp::Vec2 => match (l, r) {
            (XExprReturnType::Float, XExprReturnType::Float) => XExprReturnType::Vec2,
            _ => XExprReturnType::Error,
        },
        XBinaryOp::Vec3 => match (l, r) {
            (XExprReturnType::Vec2, XExprReturnType::Float) => XExprReturnType::Vec3,
            _ => XExprReturnType::Error,
        },
        XBinaryOp::Lt | XBinaryOp::Lte | XBinaryOp::Ge | XBinaryOp::Gte | XBinaryOp::Eq
        | XBinaryOp::Neq => match (l, r) {
            (XExprReturnType::Float, XExprReturnType::Float)
            | (XExprReturnType::Integer, XExprReturnType::Integer)
            | (XExprReturnType::Vec2, XExprReturnType::Vec2)
            | (XExprReturnType::Vec3, XExprReturnType::Vec3) => XExprReturnType::Float,
            _ => XExprReturnType::Error,
        },
    }
}

/// The type of `op e` for a unary operator.
pub open spec fn unary_type(op: XUnaryOp, t: XExprReturnType) -> XExprReturnType {
    match op {
        XUnaryOp::Abs | XUnaryOp::Sin | XUnaryOp::Cos | XUnaryOp::Neg => t,
        XUnaryOp::Norm => XExprReturnType::Float,
        XUnaryOp::All | XUnaryOp::Any => match t {
            XExprReturnType::Vec2 | XExprReturnType::Vec3 => XExprReturnType::Float,
            _ => XExprReturnType::Error,
        },
    }
}

/// The type of a literal.
pub open spec fn literal_type(v: SValue) -> XExprReturnType {
    match v {
        SValue::Float(_) => XExprReturnType::Float,
        SValue::Integer(_) => XExprReturnType::Integer,
        SValue::Vec2(..) => XExprReturnType::Vec2,
        SValue::Vec3(..) => XExprReturnType::Vec3,
    }
}

/// The type of an expression, given the types of attributes and properties;
/// `None` when it refers to a name the tables lack.
pub open spec fn result_type(
    e: SExpr,
    attrs: Map<Seq<char>, XExprReturnType>,
    props: Map<Seq<char>, XExprReturnType>,
) -> Option<XExprReturnType>
    decreases e,
{
    match e {
        SExpr::Lit(v) => Some(literal_type(v)),
        SExpr::Attr(n) => if attrs.contains_key(n) {
            Some(attrs[n])
        } else {
            None
        },
        SExpr::Prop(n) => if props.contains_key(n) {
            Some(props[n])
        } else {
            None
        },
        SExpr::BuiltIn(_) => Some(XExprReturnType::Float),
        SExpr::Unary { op, expr } => match result_type(*expr, attrs, props) {
            Some(t) => Some(unary_type(op, t)),
            None => None,
        },
        SExpr::Binary { left, op, right } => match result_type(*left, attrs, props) {
            Some(l) => match result_type(*right, attrs, props) {
                Some(r) => Some(binary_type(op, l, r)),
                None => None,
            },
            None => None,
        },
    }
}

/// Every attribute and property an expression names is in the tables.
pub open spec fn names_known(
    e: SExpr,
    attrs: Map<Seq<char>, XExprReturnType>,
    props: Map<Seq<char>, XExprReturnType>,
) -> bool
    decreases e,
{
    match e {
        SExpr::Attr(n) => attrs.contains_key(n),
        SExpr::Prop(n) => props.contains_key(n),
        SExpr::Unary { expr, .. } => names_known(*expr, attrs, props),
        SExpr::Binary { left, right, .. } => names_known(*left, attrs, props) && names_known(
            *right,
            attrs,
            props,
        ),
        _ => true,
    }
}

/// Type inference fails exactly when the expression names an attribute or a
/// property that the tables lack.
pub proof fn lemma_result_type_defined(
    e: SExpr,
    attrs: Map<Seq<char>, XExprReturnType>,
    props: Map<Seq<char>, XExprReturnType>,
)
    ensures
        result_type(e, attrs, props) is Some <==> names_known(e, attrs, props),
    decreases e,
{
    match e {
        SExpr::Unary { expr, .. } => lemma_result_type_defined(*expr, attrs, props),
        SExpr::Binary { left, right, .. } => {
            lemma_result_type_defined(*left, attrs, props);
            lemma_result_type_defined(*right, attrs, props);
        },
        _ => {},
    }
}

/// The arithmetic operators: `+ - * /`, `min` and `max`.
pub open spec fn is_arithmetic(op: XBinaryOp) -> bool {
    op == XBinaryOp::Add || op == XBinaryOp::Sub || op == XBinaryOp::Mul || op == XBinaryOp::Div
        || op == XBinaryOp::Min || op == XBinaryOp::Max
}

/// The scalar types: real and integer.
pub open spec fn is_scalar_type(t: XExprReturnType) -> bool {
    t == XExprReturnType::Float || t == XExprReturnType::Integer
}

/// The vector types.
pub open spec fn is_vector_type(t: XExprReturnType) -> bool {
    t == XExprReturnType::Vec2 || t == XExprReturnType::Vec3
}

/// Arithmetic on two operands of one type keeps that type; a scalar with a
/// vector, on either side, gives the vector; a real with an integer, two
/// vectors of different sizes, or an ill-typed operand give an error; and
/// the order of the operands does not matter.
pub proof fn lemma_arithmetic_types(op: XBinaryOp, l: XExprReturnType, r: XExprReturnType)
    requires
        is_arithmetic(op),
    ensures
        l == r && l != XExprReturnType::Error ==> binary_type(op, l, r) == l,
        is_scalar_type(l) && is_vector_type(r) ==> binary_type(op, l, r) == r,
        is_vector_type(l) && is_scalar_type(r) ==> binary_type(op, l, r) == l,
        is_scalar_type(l) && is_scalar_type(r) && l != r ==> binary_type(op, l, r)
            == XExprReturnType::Error,
        is_vector_type(l) && is_vector_type(r) && l != r ==> binary_type(op, l, r)
            == XExprReturnType::Error,
        l == XExprReturnType::Error || r == XExprReturnType::Error ==> binary_type(op, l, r)
            == XExprReturnType::Error,
        binary_type(op, l, r) == binary_type(op, r, l),
{
}

/// The other binary operators: `dot` of two vectors of one size is real;
/// `cross` of two 3D vectors is a 3D vector; `vec2` of two reals is a 2D
/// vector; `vec3` of a 2D vector and a real is a 3D vector; a comparison of
/// two operands of one (well-typed) type is real; anything else is an error.
pub proof fn lemma_other_binary_types(l: XExprReturnType, r: XExprReturnType)
    ensures
        binary_type(XBinaryOp::Dot, l, r) == (if l == r && is_vector_type(l) {
            XExprReturnType::Float
        } else {
            XExprReturnType::Error
        }),
        binary_type(XBinaryOp::Cross, l, r) == (if l == XExprReturnType::Vec3 && r
            == XExprReturnType::Vec3 {
            XExprReturnType::Vec3
        } else {
            XExprReturnType::Error
        }),
        binary_type(XBinaryOp::Vec2, l, r) == (if l == XExprReturnType::Float && r
            == XExprReturnType::Float {
            XExprReturnType::Vec2
        } else {
            XExprReturnType::Error
        }),
        binary_type(XBinaryOp::Vec3, l, r) == (if l == XExprReturnType::Vec2 && r
            == XExprReturnType::Float {
            XExprReturnType::Vec3
        } else {
            XExprReturnType::Error
        }),
        forall|op: XBinaryOp|
            (op == XBinaryOp::Lt || op == XBinaryOp::Lte || op == XBinaryOp::Ge || op
                == XBinaryOp::Gte || op == XBinaryOp::Eq || op == XBinaryOp::Neq) ==> #[trigger] binary_type(op, l, r)
                == (if l == r && l != XExprReturnType::Error {
                XExprReturnType::Float
            } else {
                XExprReturnType::Error
            }),
{
}

/// Unary operators: `abs`, `sin`, `cos` and negation keep the type; `norm`
/// gives a real; `all` and `any` give a real for a vector and an error
/// otherwise.
pub proof fn lemma_unary_types(t: XExprReturnType)
    ensures
        unary_type(XUnaryOp::Abs, t) == t,
        unary_type(XUnaryOp::Sin, t) == t,
        unary_type(XUnaryOp::Cos, t) == t,
        unary_type(XUnaryOp::Neg, t) == t,
        unary_type(XUnaryOp::Norm, t) == XExprReturnType::Float,
        unary_type(XUnaryOp::All, t) == (if is_vector_type(t) {
            XExprReturnType::Float
        } else {
            XExprReturnType::Error
        }),
        unary_type(XUnaryOp::Any, t) == (if is_vector_type(t) {
            XExprReturnType::Float
        } else {
            XExprReturnType::Error
        }),
{
}

/// Arithmetic on two expressions of one well-typed type is of that type,
/// e.g. `attr("position") + attr("position")` is a 3D vector where the
/// position is one.
pub proof fn lemma_arithmetic_keeps_operand_type(
    l: SExpr,
    op: XBinaryOp,
    r: SExpr,
    attrs: Map<Seq<char>, XExprReturnType>,
    props: Map<Seq<char>, XExprReturnType>,
    t: XExprReturnType,
)
    requires
        is_arithmetic(op),
        result_type(l, attrs, props) == Some(t),
        result_type(r, attrs, props) == Some(t),
        t != XExprReturnType::Error,
    ensures
        result_type(
            SExpr::Binary { left: Box::new(l), op, right: Box::new(r) },
            attrs,
            props,
        ) == Some(t),
{
    lemma_arithmetic_types(op, t, t);
}

/// The type of an expression is built from the types of its parts: a literal
/// has its value's type, an attribute or a property the type its table gives
/// (none when the table lacks it), a built-in is real, `op e` follows the
/// operator's rule from the type of `e`, and `l op r` the operator's rule
/// from the type of `l` and then that of `r`.
pub proof fn lemma_result_type_parts(
    e: SExpr,
    attrs: Map<Seq<char>, XExprReturnType>,
    props: Map<Seq<char>, XExprReturnType>,
)
    ensures
        e matches SExpr::Lit(v) ==> result_type(e, attrs, props) == Some(literal_type(v)),
        e matches SExpr::Attr(n) ==> result_type(e, attrs, props) == (if attrs.contains_key(n) {
            Some(attrs[n])
        } else {
            None
        }),
        e matches SExpr::Prop(n) ==> result_type(e, attrs, props) == (if props.contains_key(n) {
            Some(props[n])
        } else {
            None
        }),
        e is BuiltIn ==> result_type(e, attrs, props) == Some(XExprReturnType::Float),
        e matches SExpr::Unary { op, expr } ==> (result_type(*expr, attrs, props) matches Some(t)
            ==> result_type(e, attrs, props) == Some(unary_type(op, t))),
        e matches SExpr::Binary { left, op, right } ==> (result_type(*left, attrs, props) matches Some(
            lt,
        ) ==> (result_type(*right, attrs, props) matches Some(rt) ==> result_type(e, attrs, props)
            == Some(binary_type(op, lt, rt)))),
        forall|v: SValue| #[trigger] literal_type(v) == (match v {
            SValue::Float(_) => XExprReturnType::Float,
            SValue::Integer(_) => XExprReturnType::Integer,
            SValue::Vec2(..) => XExprReturnType::Vec2,
            SValue::Vec3(..) => XExprReturnType::Vec3,
        }),
{
}

/// The arithmetic type table, computed.
fn arithmetic_type_of(l: XExprReturnType, r: XExprReturnType) -> (t: XExprReturnType)
    ensures
        t == arithmetic_type(l, r),
{
    match (l, r) {
        (XExprReturnType::Float, XExprReturnType::Float) => XExprReturnType::Float,
        (XExprReturnType::Integer, XExprReturnType::Integer) => XExprReturnType::Integer,
        (XExprReturnType::Vec2, XExprReturnType::Vec2) => XExprReturnType::Vec2,
        (XExprReturnType::Vec3, XExprReturnType::Vec3) => XExprReturnType::Vec3,
        (XExprReturnType::Float, XExprReturnType::Vec2)
        | (XExprReturnType::Vec2, XExprReturnType::Float) => XExprReturnType::Vec2,
        (XExprReturnType::Float, XExprReturnType::Vec3)
        | (XExprReturnType::Vec3, XExprReturnType::Float) => XExprReturnType::Vec3,
        (XExprReturnType::Integer, XExprReturnType::Vec2)
        | (XExprReturnType::Vec2, XExprReturnType::Integer) => XExprReturnType::Vec2,
        (XExprReturnType::Integer, XExprReturnType::Vec3)
        | (XExprReturnType::Vec3, XExprReturnType::Integer) => XExprReturnType::Vec3,
        _ => XExprReturnType::Error,
    }
}

/// The binary type table, computed.
fn binary_type_of(op: XBinaryOp, l: XExprReturnType, r: XExprReturnType) -> (t: XExprReturnType)
    ensures
        t == binary_type(op, l, r),
{
    match op {
        XBinaryOp::Add | XBinaryOp::Sub | XBinaryOp::Min | XBinaryOp::Max | XBinaryOp::Mul
        | XBinaryOp::Div => arithmetic_type_of(l, r),
        XBinaryOp::Dot => match (l, r) {
            (XExprReturnType::Vec2, XExprReturnType::Vec2)
            | (XExprReturnType::Vec3, XExprReturnType::Vec3) => XExprReturnType::Float,
            _ => XExprReturnType::Error,
        },
        XBinaryOp::Cross => match (l, r) {
            (XExprReturnType::Vec3, XExprReturnType::Vec3) => XExprReturnType::Vec3,
            _ => XExprReturnType::Error,
        },
        XBinaryOp::Vec2 => match (l, r) {
            (XExprReturnType::Float, XExprReturnType::Float) => XExprReturnType::Vec2,
            _ => XExprReturnType::Error,
        },
        XBinaryOp::Vec3 => match (l, r) {
            (XExprReturnType::Vec2, XExprReturnType::Float) => XExprReturnType::Vec3,
            _ => XExprReturnType::Error,
        },
        XBinaryOp::Lt | XBinaryOp::Lte | XBinaryOp::Ge | XBinaryOp::Gte | XBinaryOp::Eq
        | XBinaryOp::Neq => match (l, r) {
            (XExprReturnType::Float, XExprReturnType::Float)
            | (XExprReturnType::Integer, XExprReturnType::Integer)
            | (XExprReturnType::Vec2, XExprReturnType::Vec2)
            | (XExprReturnType::Vec3, XExprReturnType::Vec3) => XExprReturnType::Float,
            _ => XExprReturnType::Error,
        },
    }
}

impl XExpr {
    /// The type of this expression's result, given the types of the particle
    /// attributes and effect properties; `None` when it names one that is not
    /// in the tables.
    pub fn get_result_type(&self, attributes: &TypeTable, props: &TypeTable) -> (r: Option<
        XExprReturnType,
    >)
        ensures
            r == result_type(self@, attributes.as_map(), props.as_map()),
        decreases self,
    {
        match self {
            XExpr::Lit(value) => Some(
                match value {
                    XValue::Float(_) => XExprReturnType::Float,
                    XValue::Integer(_) => XExprReturnType::Integer,
                    XValue::Vec2(..) => XExprReturnType::Vec2,
                    XValue::Vec3(..) => XExprReturnType::Vec3,
                },
            ),
            XExpr::Attr(name) => attributes.get(name.as_str()),
            XExpr::Prop(name) => props.get(name.as_str()),
            XExpr::BuiltIn(_) => Some(XExprReturnType::Float),
            XExpr::Unary { op, expr } => {
                let inner = match expr.get_result_type(attributes, props) {
                    Some(t) => t,
                    None => return None,
                };
                Some(
                    match op {
                        XUnaryOp::Abs | XUnaryOp::Sin | XUnaryOp::Cos | XUnaryOp::Neg => inner,
                        XUnaryOp::Norm => XExprReturnType::Float,
                        XUnaryOp::All | XUnaryOp::Any => match inner {
                            XExprReturnType::Vec2 | XExprReturnType::Vec3 => XExprReturnType::Float,
                            _ => XExprReturnType::Error,
                        },
                    },
                )
            },
            XExpr::Binary { left, op, right } => {
                let left_type = match left.get_result_type(attributes, props) {
                    Some(t) => t,
                    None => return None,
                };
                let right_type = match right.get_result_type(attributes, props) {
                    Some(t) => t,
                    None => return None,
                };
                Some(binary_type_of(*op, left_type, right_type))
            },
        }
    }
}

} // verus!
