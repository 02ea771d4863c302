//! Particle attributes that an expression can read or a modifier can set.

use vstd::prelude::*;

use crate::expr::xval::XExprReturnType;
use crate::text::str_eq;

verus! {

/// A particle attribute.
#[derive(Debug, Clone, Copy, PartialEq, Eq, Structural)]
pub enum XAttr {
    Position,
    Velocity,
    Age,
    Lifetime,
    Color,
    Alpha,
    Size,
    Size2,
    AxisX,
    AxisY,
    AxisZ,
}

/// The name an attribute is written and shown with.
pub open spec fn spec_attr_name(a: XAttr) -> Seq<char> {
    match a {
        XAttr::Position => "position"@,
        XAttr::Velocity => "velocity"@,
        XAttr::Age => "age"@,
        XAttr::Lifetime => "lifetime"@,
        XAttr::Color => "color"@,
        XAttr::Alpha => "alpha"@,
        XAttr::Size => "size"@,
        XAttr::Size2 => "size2"@,
        XAttr::AxisX => "axis_x"@,
        XAttr::AxisY => "axis_y"@,
        XAttr::AxisZ => "axis_z"@,
    }
}

/// The attribute a name denotes, if any.
pub open spec fn spec_attr_from_name(s: Seq<char>) -> Option<XAttr> {
    if s == "position"@ {
        Some(XAttr::Position)
    } else if s == "velocity"@ {
        Some(XAttr::Velocity)
    } else if s == "age"@ {
        Some(XAttr::Age)
    } else if s == "lifetime"@ {
        Some(XAttr::Lifetime)
    } else if s == "color"@ {
        Some(XAttr::Color)
    } else if s == "alpha"@ {
        Some(XAttr::Alpha)
    } else if s == "size"@ {
        Some(XAttr::Size)
    } else if s == "size2"@ {
        Some(XAttr::Size2)
    } else if s == "axis_x"@ {
        Some(XAttr::AxisX)
    } else if s == "axis_y"@ {
        Some(XAttr::AxisY)
    } else if s == "axis_z"@ {
        Some(XAttr::AxisZ)
    } else {
        None
    }
}

/// The type of the values an attribute holds.
pub open spec fn spec_attr_type(a: XAttr) -> XExprReturnType {
    match a {
        XAttr::Position => XExprReturnType::Vec3,
        XAttr::Velocity => XExprReturnType::Vec3,
        XAttr::Age => XExprReturnType::Float,
        XAttr::Lifetime => XExprReturnType::Float,
        XAttr::Color => XExprReturnType::Vec3,
        XAttr::Alpha => XExprReturnType::Float,
        XAttr::Size => XExprReturnType::Float,
        XAttr::Size2 => XExprReturnType::Vec2,
        XAttr::AxisX => XExprReturnType::Vec3,
        XAttr::AxisY => XExprReturnType::Vec3,
        XAttr::AxisZ => XExprReturnType::Vec3,
    }
}

/// A short human-readable description of an attribute.
pub open spec fn spec_attr_description(a: XAttr) -> Seq<char> {
    match a {
        XAttr::Position => "3D position in world space"@,
        XAttr::Velocity => "3D velocity vector"@,
        XAttr::Age => "Current age in seconds"@,
        XAttr::Lifetime => "Total lifetime in seconds"@,
        XAttr::Color => "RGB color values (0-1)"@,
        XAttr::Alpha => "Alpha transparency (0-1)"@,
        XAttr::Size => "Uniform size scale"@,
        XAttr::Size2 => "2D size scale (width, height)"@,
        XAttr::AxisX => "X-axis orientation vector"@,
        XAttr::AxisY => "Y-axis orientation vector"@,
        XAttr::AxisZ => "Z-axis orientation vector"@,
    }
}

/// Every attribute, in declaration order.
pub open spec fn spec_all_attrs() -> Seq<XAttr> {
    seq![
        XAttr::Position,
        XAttr::Velocity,
        XAttr::Age,
        XAttr::Lifetime,
        XAttr::Color,
        XAttr::Alpha,
        XAttr::Size,
        XAttr::Size2,
        XAttr::AxisX,
        XAttr::AxisY,
        XAttr::AxisZ,
    ]
}

impl Default for XAttr {
    fn default() -> (r: XAttr)
        ensures
            r == XAttr::Position,
    {
        XAttr::Position
    }
}

impl XAttr {
    /// The expected type for this attribute.
    pub fn get_type(&self) -> (t: XExprReturnType)
        ensures
            t == spec_attr_type(*self),
    {
        match self {
            XAttr::Position => XExprReturnType::Vec3,
            XAttr::Velocity => XExprReturnType::Vec3,
            XAttr::Age => XExprReturnType::Float,
            XAttr::Lifetime => XExprReturnType::Float,
            XAttr::Color => XExprReturnType::Vec3,
            XAttr::Alpha => XExprReturnType::Float,
            XAttr::Size => XExprReturnType::Float,
            XAttr::Size2 => XExprReturnType::Vec2,
            XAttr::AxisX => XExprReturnType::Vec3,
            XAttr::AxisY => XExprReturnType::Vec3,
            XAttr::AxisZ => XExprReturnType::Vec3,
        }
    }

    /// A human-readable description of this attribute.
    pub fn get_description(&self) -> (s: &'static str)
        ensures
            s@ == spec_attr_description(*self),
    {
        match self {
            XAttr::Position => "3D position in world space",
            XAttr::Velocity => "3D velocity vector",
            XAttr::Age => "Current age in seconds",
            XAttr::Lifetime => "Total lifetime in seconds",
            XAttr::Color => "RGB color values (0-1)",
            XAttr::Alpha => "Alpha transparency (0-1)",
            XAttr::Size => "Uniform size scale",
            XAttr::Size2 => "2D size scale (width, height)",
            XAttr::AxisX => "X-axis orientation vector",
            XAttr::AxisY => "Y-axis orientation vector",
            XAttr::AxisZ => "Z-axis orientation vector",
        }
    }

    /// The name this attribute is written and shown with, e.g. `"position"`.
    pub fn name(&self) -> (s: &'static str)
        ensures
            s@ == spec_attr_name(*self),
    {
        match self {
            XAttr::Position => "position",
            XAttr::Velocity => "velocity",
            XAttr::Age => "age",
            XAttr::Lifetime => "lifetime",
            XAttr::Color => "color",
            XAttr::Alpha => "alpha",
            XAttr::Size => "size",
            XAttr::Size2 => "size2",
            XAttr::AxisX => "axis_x",
            XAttr::AxisY => "axis_y",
            XAttr::AxisZ => "axis_z",
        }
    }

    /// The attribute named `s`, or `Err(())` for any other text.
    pub fn from_name(s: &str) -> (r: Result<XAttr, ()>)
        ensures
            match spec_attr_from_name(s@) {
                Some(a) => r == Ok::<XAttr, ()>(a),
                None => r is Err,
            },
    {
        if str_eq(s, "position") {
            Ok(XAttr::Position)
        } else if str_eq(s, "velocity") {
            Ok(XAttr::Velocity)
        } else if str_eq(s, "age") {
            Ok(XAttr::Age)
        } else if str_eq(s, "lifetime") {
            Ok(XAttr::Lifetime)
        } else if str_eq(s, "color") {
            Ok(XAttr::Color)
        } else if str_eq(s, "alpha") {
            Ok(XAttr::Alpha)
        } else if str_eq(s, "size") {
            Ok(XAttr::Size)
        } else if str_eq(s, "size2") {
            Ok(XAttr::Size2)
        } else if str_eq(s, "axis_x") {
            Ok(XAttr::AxisX)
        } else if str_eq(s, "axis_y") {
            Ok(XAttr::AxisY)
        } else if str_eq(s, "axis_z") {
            Ok(XAttr::AxisZ)
        } else {
            Err(())
        }
    }

    /// Every attribute, in declaration order.
    pub fn all() -> (v: Vec<XAttr>)
        ensures
            v@ == spec_all_attrs(),
    {
        let v = vec![
            XAttr::Position,
            XAttr::Velocity,
            XAttr::Age,
            XAttr::Lifetime,
            XAttr::Color,
            XAttr::Alpha,
            XAttr::Size,
            XAttr::Size2,
            XAttr::AxisX,
            XAttr::AxisY,
            XAttr::AxisZ,
        ];
        assert(v@ == spec_all_attrs());
        v
    }
}

/// Reading an attribute's name gives the attribute back.
pub proof fn lemma_attr_name_roundtrip(a: XAttr)
    ensures
        spec_attr_from_name(spec_attr_name(a)) == Some(a),
{
    reveal_strlit("position");
    reveal_strlit("velocity");
    reveal_strlit("age");
    reveal_strlit("lifetime");
    reveal_strlit("color");
    reveal_strlit("alpha");
    reveal_strlit("size");
    reveal_strlit("size2");
    reveal_strlit("axis_x");
    reveal_strlit("axis_y");
    reveal_strlit("axis_z");
    // Each name differs from every name tried before it, in length or in one character.
    match a {
        XAttr::Position => {

        },
        XAttr::Velocity => {
            assert("velocity"@[0] != "position"@[0]);
        },
        XAttr::Age => {
            assert("age"@.len() != "position"@.len());
            assert("age"@.len() != "velocity"@.len());
        },
        XAttr::Lifetime => {
            assert("lifetime"@[0] != "position"@[0]);
            assert("lifetime"@[0] != "velocity"@[0]);
            assert("lifetime"@.len() != "age"@.len());
        },
        XAttr::Color => {
            assert("color"@.len() != "position"@.len());
            assert("color"@.len() != "velocity"@.len());
            assert("color"@.len() != "age"@.len());
            assert("color"@.len() != "lifetime"@.len());
        },
        XAttr::Alpha => {
            assert("alpha"@.len() != "position"@.len());
            assert("alpha"@.len() != "velocity"@.len());
            assert("alpha"@.len() != "age"@.len());
            assert("alpha"@.len() != "lifetime"@.len());
            assert("alpha"@[0] != "color"@[0]);
        },
        XAttr::Size => {
            assert("size"@.len() != "position"@.len());
            assert("size"@.len() != "velocity"@.len());
            assert("size"@.len() != "age"@.len());
            assert("size"@.len() != "lifetime"@.len());
            assert("size"@.len() != "color"@.len());
            assert("size"@.len() != "alpha"@.len());
        },
        XAttr::Size2 => {
            assert("size2"@.len() != "position"@.len());
            assert("size2"@.len() != "velocity"@.len());
            assert("size2"@.len() != "age"@.len());
            assert("size2"@.len() != "lifetime"@.len());
            assert("size2"@[0] != "color"@[0]);
            assert("size2"@[0] != "alpha"@[0]);
            assert("size2"@.len() != "size"@.len());
        },
        XAttr::AxisX => {
            assert("axis_x"@.len() != "position"@.len());
            assert("axis_x"@.len() != "velocity"@.len());
            assert("axis_x"@.len() != "age"@.len());
            assert("axis_x"@.len() != "lifetime"@.len());
            assert("axis_x"@.len() != "color"@.len());
            assert("axis_x"@.len() != "alpha"@.len());
            assert("axis_x"@.len() != "size"@.len());
            assert("axis_x"@.len() != "size2"@.len());
        },
        XAttr::AxisY => {
            assert("axis_y"@.len() != "position"@.len());
            assert("axis_y"@.len() != "velocity"@.len());
            assert("axis_y"@.len() != "age"@.len());
            assert("axis_y"@.len() != "lifetime"@.len());
            assert("axis_y"@.len() != "color"@.len());
            assert("axis_y"@.len() != "alpha"@.len());
            assert("axis_y"@.len() != "size"@.len());
            assert("axis_y"@.len() != "size2"@.len());
            assert("axis_y"@[5] != "axis_x"@[5]);
        },
        XAttr::AxisZ => {
            assert("axis_z"@.len() != "position"@.len());
            assert("axis_z"@.len() != "velocity"@.len());
            assert("axis_z"@.len() != "age"@.len());
            assert("axis_z"@.len() != "lifetime"@.len());
            assert("axis_z"@.len() != "color"@.len());
            assert("axis_z"@.len() != "alpha"@.len());
            assert("axis_z"@.len() != "size"@.len());
            assert("axis_z"@.len() != "size2"@.len());
            assert("axis_z"@[5] != "axis_x"@[5]);
            assert("axis_z"@[5] != "axis_y"@[5]);
        },
    }
}

/// Every attribute occurs in the list of all attributes exactly once.
pub proof fn lemma_all_attrs_complete(a: XAttr)
    ensures
        spec_all_attrs().contains(a),
        spec_all_attrs().no_duplicates(),
{
    let s = spec_all_attrs();
    match a {
        XAttr::Position => assert(s[0] == a),
        XAttr::Velocity => assert(s[1] == a),
        XAttr::Age => assert(s[2] == a),
        XAttr::Lifetime => assert(s[3] == a),
        XAttr::Color => assert(s[4] == a),
        XAttr::Alpha => assert(s[5] == a),
        XAttr::Size => assert(s[6] == a),
        XAttr::Size2 => assert(s[7] == a),
        XAttr::AxisX => assert(s[8] == a),
        XAttr::AxisY => assert(s[9] == a),
        XAttr::AxisZ => assert(s[10] == a),
    }
}

impl std::str::FromStr for XAttr {
    type Err = ();

    fn from_str(s: &str) -> (r: Result<Self, Self::Err>)
        ensures
            match spec_attr_from_name(s@) {
                Some(a) => r == Ok::<XAttr, ()>(a),
                None => r is Err,
            },
    {
        XAttr::from_name(s)
    }
}

} // verus!
