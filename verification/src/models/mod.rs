//! Editor models: attributes, value types and particle modifiers.

pub mod attr;
pub mod key_value;
pub mod modifier;
pub mod modifier_fields;
pub mod state;

use vstd::prelude::*;

use crate::text::str_eq;

verus! {

/// Whether a shape emits from its surface or from its whole volume.
#[derive(Debug, Clone, Copy, PartialEq, Eq, Structural)]
pub enum XDimension {
    Surface,
    Volume,
}

/// The name a dimension is shown with.
pub open spec fn spec_dimension_name(d: XDimension) -> Seq<char> {
    match d {
        XDimension::Surface => "Surface"@,
        XDimension::Volume => "Volume"@,
    }
}

/// The dimension a name denotes, if any.
pub open spec fn spec_dimension_from_name(s: Seq<char>) -> Option<XDimension> {
    if s == "Surface"@ {
        Some(XDimension::Surface)
    } else if s == "Volume"@ {
        Some(XDimension::Volume)
    } else {
        None
    }
}

impl Default for XDimension {
    fn default() -> (r: XDimension)
        ensures
            r == XDimension::Surface,
    {
        XDimension::Surface
    }
}

impl XDimension {
    /// The name this dimension is shown with.
    pub fn name(&self) -> (s: &'static str)
        ensures
            s@ == spec_dimension_name(*self),
    {
        match self {
            XDimension::Surface => "Surface",
            XDimension::Volume => "Volume",
        }
    }

    /// The dimension named `s`, or `Err(())` for any other text.
    pub fn from_name(s: &str) -> (r: Result<XDimension, ()>)
        ensures
            match spec_dimension_from_name(s@) {
                Some(d) => r == Ok::<XDimension, ()>(d),
                None => r is Err,
            },
    {
        if str_eq(s, "Surface") {
            Ok(XDimension::Surface)
        } else if str_eq(s, "Volume") {
            Ok(XDimension::Volume)
        } else {
            Err(())
        }
    }

    /// Every dimension, in declaration order.
    pub fn all() -> (v: Vec<XDimension>)
        ensures
            v@ == seq![XDimension::Surface, XDimension::Volume],
    {
        vec![XDimension::Surface, XDimension::Volume]
    }
}

/// Reading a dimension's name gives the dimension back.
pub proof fn lemma_dimension_name_roundtrip(d: XDimension)
    ensures
        spec_dimension_from_name(spec_dimension_name(d)) == Some(d),
{
    reveal_strlit("Surface");
    reveal_strlit("Volume");
    assert("Surface"@[0] == 'S' && "Volume"@[0] == 'V');
}

impl std::str::FromStr for XDimension {
    type Err = ();

    fn from_str(s: &str) -> (r: Result<Self, Self::Err>)
        ensures
            match spec_dimension_from_name(s@) {
                Some(d) => r == Ok::<XDimension, ()>(d),
                None => r is Err,
            },
    {
        XDimension::from_name(s)
    }
}

} // verus!
