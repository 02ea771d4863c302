//! Operators of the expression language.

use vstd::prelude::*;

use crate::text::str_eq;

verus! {

broadcast use vstd::string::group_string_axioms;

/// Unary operators.
#[derive(Debug, Clone, Copy, PartialEq, Eq, Structural)]
pub enum XUnaryOp {
    Abs,
    Norm,
    Sin,
    Cos,
    Neg,
    All,
    Any,
}

/// Binary operators; `Vec2` and `Vec3` build vectors from their operands.
#[derive(Debug, Clone, Copy, PartialEq, Eq, Structural)]
pub enum XBinaryOp {
    Add,
    Sub,
    Mul,
    Div,
    Dot,
    Cross,
    Min,
    Max,
    Lt,
    Lte,
    Ge,
    Gte,
    Eq,
    Neq,
    Vec2,
    Vec3,
}

/// Built-in values provided by the particle runtime.
#[derive(Debug, Clone, Copy, PartialEq, Eq, Structural)]
pub enum XBuiltInOp {
    Time,
    DeltaTime,
    Rand,
    AlphaCutoff,
    ParticleId,
}

/// The text an operator is shown with.
pub open spec fn spec_unary_symbol(op: XUnaryOp) -> Seq<char> {
    match op {
        XUnaryOp::Abs => "abs"@,
        XUnaryOp::Norm => "norm"@,
        XUnaryOp::Sin => "sin"@,
        XUnaryOp::Cos => "cos"@,
        XUnaryOp::Neg => "-"@,
        XUnaryOp::All => "all"@,
        XUnaryOp::Any => "any"@,
    }
}

/// The text an operator is shown with.
pub open spec fn spec_binary_symbol(op: XBinaryOp) -> Seq<char> {
    match op {
        XBinaryOp::Add => "+"@,
        XBinaryOp::Sub => "-"@,
        XBinaryOp::Mul => "*"@,
        XBinaryOp::Div => "/"@,
        XBinaryOp::Dot => "dot"@,
        XBinaryOp::Cross => "cross"@,
        XBinaryOp::Min => "min"@,
        XBinaryOp::Max => "max"@,
        XBinaryOp::Lt => "<"@,
        XBinaryOp::Lte => "<="@,
        XBinaryOp::Ge => ">"@,
        XBinaryOp::Gte => ">="@,
        XBinaryOp::Eq => "=="@,
        XBinaryOp::Neq => "!="@,
        XBinaryOp::Vec2 => "vec2"@,
        XBinaryOp::Vec3 => "vec3"@,
    }
}

/// The name a built-in is written and shown with.
pub open spec fn spec_builtin_name(op: XBuiltInOp) -> Seq<char> {
    match op {
        XBuiltInOp::Time => "time"@,
        XBuiltInOp::DeltaTime => "delta_time"@,
        XBuiltInOp::Rand => "rand"@,
        XBuiltInOp::AlphaCutoff => "alpha_cutoff"@,
        XBuiltInOp::ParticleId => "particle_id"@,
    }
}

/// The built-in that a name denotes, if any.
pub open spec fn spec_builtin_from_name(s: Seq<char>) -> Option<XBuiltInOp> {
    if s == "time"@ {
        Some(XBuiltInOp::Time)
    } else if s == "delta_time"@ {
        Some(XBuiltInOp::DeltaTime)
    } else if s == "rand"@ {
        Some(XBuiltInOp::Rand)
    } else if s == "alpha_cutoff"@ {
        Some(XBuiltInOp::AlphaCutoff)
    } else if s == "particle_id"@ {
        Some(XBuiltInOp::ParticleId)
    } else {
        None
    }
}

impl XUnaryOp {
    /// The text this operator is shown with (`"-"` for negation, else its function name).
    pub fn symbol(&self) -> (s: &'static str)
        ensures
            s@ == spec_unary_symbol(*self),
    {
        match self {
            XUnaryOp::Abs => "abs",
            XUnaryOp::Norm => "norm",
            XUnaryOp::Sin => "sin",
            XUnaryOp::Cos => "cos",
            XUnaryOp::Neg => "-",
            XUnaryOp::All => "all",
            XUnaryOp::Any => "any",
        }
    }
}

impl XBinaryOp {
    /// The text this operator is shown with.
    pub fn symbol(&self) -> (s: &'static str)
        ensures
            s@ == spec_binary_symbol(*self),
    {
        match self {
            XBinaryOp::Add => "+",
            XBinaryOp::Sub => "-",
            XBinaryOp::Mul => "*",
            XBinaryOp::Div => "/",
            XBinaryOp::Dot => "dot",
            XBinaryOp::Cross => "cross",
            XBinaryOp::Min => "min",
            XBinaryOp::Max => "max",
            XBinaryOp::Lt => "<",
            XBinaryOp::Lte => "<=",
            XBinaryOp::Ge => ">",
            XBinaryOp::Gte => ">=",
            XBinaryOp::Eq => "==",
            XBinaryOp::Neq => "!=",
            XBinaryOp::Vec2 => "vec2",
            XBinaryOp::Vec3 => "vec3",
        }
    }
}

impl XBuiltInOp {
    /// The name this built-in is written and shown with.
    pub fn name(&self) -> (s: &'static str)
        ensures
            s@ == spec_builtin_name(*self),
    {
        match self {
            XBuiltInOp::Time => "time",
            XBuiltInOp::DeltaTime => "delta_time",
            XBuiltInOp::Rand => "rand",
            XBuiltInOp::AlphaCutoff => "alpha_cutoff",
            XBuiltInOp::ParticleId => "particle_id",
        }
    }

    /// The built-in named `s`, or `Err(())` for any other name.
    pub fn from_name(s: &str) -> (r: Result<XBuiltInOp, ()>)
        ensures
            match spec_builtin_from_name(s@) {
                Some(op) => r == Ok::<XBuiltInOp, ()>(op),
                None => r is Err,
            },
    {
        if str_eq(s, "time") {
            Ok(XBuiltInOp::Time)
        } else if str_eq(s, "delta_time") {
            Ok(XBuiltInOp::DeltaTime)
        } else if str_eq(s, "rand") {
            Ok(XBuiltInOp::Rand)
        } else if str_eq(s, "alpha_cutoff") {
            Ok(XBuiltInOp::AlphaCutoff)
        } else if str_eq(s, "particle_id") {
            Ok(XBuiltInOp::ParticleId)
        } else {
            Err(())
        }
    }
}

/// Reading a built-in's name gives the built-in back.
pub proof fn lemma_builtin_name_roundtrip(op: XBuiltInOp)
    ensures
        spec_builtin_from_name(spec_builtin_name(op)) == Some(op),
{
    reveal_strlit("time");
    reveal_strlit("delta_time");
    reveal_strlit("rand");
    reveal_strlit("alpha_cutoff");
    reveal_strlit("particle_id");
    // The names differ in their first character.
    assert("time"@[0] == 't' && "delta_time"@[0] == 'd' && "rand"@[0] == 'r');
    assert("alpha_cutoff"@[0] == 'a' && "particle_id"@[0] == 'p');
}

impl std::str::FromStr for XBuiltInOp {
    type Err = ();

    fn from_str(s: &str) -> (r: Result<Self, Self::Err>)
        ensures
            match spec_builtin_from_name(s@) {
                Some(op) => r == Ok::<XBuiltInOp, ()>(op),
                None => r is Err,
            },
    {
        XBuiltInOp::from_name(s)
    }
}

} // verus!
