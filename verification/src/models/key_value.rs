//! The types a key-value property can hold.

use vstd::prelude::*;

use crate::expr::xval::{SFloat, XFloat, float_of_int};

verus! {

/// The type of a key-value property.
#[derive(Debug, Clone, Copy, PartialEq, Eq, Structural)]
pub enum ValueType {
    Float,
    Integer,
    Vec2,
    Vec3,
    Color,
}

/// The position of a value type in the type picker.
pub open spec fn spec_value_type_index(t: ValueType) -> nat {
    match t {
        ValueType::Float => 0,
        ValueType::Integer => 1,
        ValueType::Vec2 => 2,
        ValueType::Vec3 => 3,
        ValueType::Color => 4,
    }
}

/// The number of value types.
pub const VALUE_TYPE_COUNT: usize = 5;

impl Default for ValueType {
    fn default() -> (r: ValueType)
        ensures
            r == ValueType::Float,
    {
        ValueType::Float
    }
}

impl ValueType {
    /// The value type at position `index` of the type picker.
    pub fn from_index(index: usize) -> (t: ValueType)
        requires
            index < VALUE_TYPE_COUNT,
        ensures
            spec_value_type_index(t) == index,
    {
        match index {
            0 => ValueType::Float,
            1 => ValueType::Integer,
            2 => ValueType::Vec2,
            3 => ValueType::Vec3,
            _ => ValueType::Color,
        }
    }

    /// The position of this value type in the type picker.
    pub fn to_index(&self) -> (i: usize)
        ensures
            i == spec_value_type_index(*self),
            i < VALUE_TYPE_COUNT,
    {
        match self {
            ValueType::Float => 0,
            ValueType::Integer => 1,
            ValueType::Vec2 => 2,
            ValueType::Vec3 => 3,
            ValueType::Color => 4,
        }
    }
}

/// Picker positions and value types correspond one to one: each type's position
/// is below the count, and two types with the same position are the same type.
pub proof fn lemma_value_type_index_bijective(a: ValueType, b: ValueType)
    ensures
        spec_value_type_index(a) < VALUE_TYPE_COUNT,
        spec_value_type_index(a) == spec_value_type_index(b) ==> a == b,
{
}


/// A color with an intensity that may exceed one: red, green, blue, alpha and
/// intensity components.
#[derive(Debug, Clone, PartialEq)]
pub struct HdrColor {
    r: XFloat,
    g: XFloat,
    b: XFloat,
    a: XFloat,
    i: XFloat,
}

impl HdrColor {
    /// The components, in the order red, green, blue, alpha, intensity.
    pub closed spec fn components(&self) -> (SFloat, SFloat, SFloat, SFloat, SFloat) {
        (self.r@, self.g@, self.b@, self.a@, self.i@)
    }

    /// The color with the given components.
    pub fn new(r: XFloat, g: XFloat, b: XFloat, a: XFloat, i: XFloat) -> (c: HdrColor)
        ensures
            c.components() == (r@, g@, b@, a@, i@),
    {
        HdrColor { r, g, b, a, i }
    }

    /// The red component.
    pub fn r(&self) -> (v: XFloat)
        ensures
            v@ == self.components().0,
    {
        self.r.clone()
    }

    /// The green component.
    pub fn g(&self) -> (v: XFloat)
        ensures
            v@ == self.components().1,
    {
        self.g.clone()
    }

    /// The blue component.
    pub fn b(&self) -> (v: XFloat)
        ensures
            v@ == self.components().2,
    {
        self.b.clone()
    }

    /// The alpha component.
    pub fn a(&self) -> (v: XFloat)
        ensures
            v@ == self.components().3,
    {
        self.a.clone()
    }

    /// The intensity.
    pub fn i(&self) -> (v: XFloat)
        ensures
            v@ == self.components().4,
    {
        self.i.clone()
    }

    /// Sets the red component.
    pub fn set_r(&mut self, r: XFloat)
        ensures
            final(self).components() == (r@, old(self).components().1, old(self).components().2, old(
                self,
            ).components().3, old(self).components().4),
    {
        self.r = r;
    }

    /// Sets the green component.
    pub fn set_g(&mut self, g: XFloat)
        ensures
            final(self).components() == (old(self).components().0, g@, old(self).components().2, old(
                self,
            ).components().3, old(self).components().4),
    {
        self.g = g;
    }

    /// Sets the blue component.
    pub fn set_b(&mut self, b: XFloat)
        ensures
            final(self).components() == (old(self).components().0, old(self).components().1, b@, old(
                self,
            ).components().3, old(self).components().4),
    {
        self.b = b;
    }

    /// Sets the alpha component.
    pub fn set_a(&mut self, a: XFloat)
        ensures
            final(self).components() == (old(self).components().0, old(self).components().1, old(
                self,
            ).components().2, a@, old(self).components().4),
    {
        self.a = a;
    }

    /// Sets the intensity.
    pub fn set_i(&mut self, i: XFloat)
        ensures
            final(self).components() == (old(self).components().0, old(self).components().1, old(
                self,
            ).components().2, old(self).components().3, i@),
    {
        self.i = i;
    }

    /// The same color with another red component.
    pub fn with_r(self, r: XFloat) -> (c: HdrColor)
        ensures
            c.components() == (r@, self.components().1, self.components().2, self.components().3, self.components().4),
    {
        let mut c = self;
        c.set_r(r);
        c
    }

    /// The same color with another green component.
    pub fn with_g(self, g: XFloat) -> (c: HdrColor)
        ensures
            c.components() == (self.components().0, g@, self.components().2, self.components().3, self.components().4),
    {
        let mut c = self;
        c.set_g(g);
        c
    }

    /// The same color with another blue component.
    pub fn with_b(self, b: XFloat) -> (c: HdrColor)
        ensures
            c.components() == (self.components().0, self.components().1, b@, self.components().3, self.components().4),
    {
        let mut c = self;
        c.set_b(b);
        c
    }

    /// The same color with another alpha component.
    pub fn with_a(self, a: XFloat) -> (c: HdrColor)
        ensures
            c.components() == (self.components().0, self.components().1, self.components().2, a@, self.components().4),
    {
        let mut c = self;
        c.set_a(a);
        c
    }

    /// The same color with another intensity.
    pub fn with_i(self, i: XFloat) -> (c: HdrColor)
        ensures
            c.components() == (self.components().0, self.components().1, self.components().2, self.components().3, i@),
    {
        let mut c = self;
        c.set_i(i);
        c
    }
}

impl Default for HdrColor {
    /// Opaque white at intensity one.
    fn default() -> (c: HdrColor)
        ensures
            c.components() == (float_of_int(1), float_of_int(1), float_of_int(1), float_of_int(1), float_of_int(1)),
    {
        HdrColor::new(
            XFloat::from_int(1),
            XFloat::from_int(1),
            XFloat::from_int(1),
            XFloat::from_int(1),
            XFloat::from_int(1),
        )
    }
}

/// The value of a key-value property.
#[derive(Debug, Clone, PartialEq)]
pub enum KeyValue {
    Float(XFloat),
    Integer(i32),
    Vec2(XFloat, XFloat),
    Vec3(XFloat, XFloat, XFloat),
    Color(HdrColor),
}

/// The type of a property value.
pub open spec fn spec_value_type(v: KeyValue) -> ValueType {
    match v {
        KeyValue::Float(_) => ValueType::Float,
        KeyValue::Integer(_) => ValueType::Integer,
        KeyValue::Vec2(_, _) => ValueType::Vec2,
        KeyValue::Vec3(_, _, _) => ValueType::Vec3,
        KeyValue::Color(_) => ValueType::Color,
    }
}

/// The value is the zero of its type (white for a color).
pub open spec fn is_zero_value(v: KeyValue) -> bool {
    let zero = float_of_int(0);
    let one = float_of_int(1);
    match v {
        KeyValue::Float(f) => f@ == zero,
        KeyValue::Integer(n) => n == 0,
        KeyValue::Vec2(x, y) => x@ == zero && y@ == zero,
        KeyValue::Vec3(x, y, z) => x@ == zero && y@ == zero && z@ == zero,
        KeyValue::Color(c) => c.components() == (one, one, one, one, one),
    }
}

impl KeyValue {
    /// The type of this value.
    pub fn get_type(&self) -> (t: ValueType)
        ensures
            t == spec_value_type(*self),
    {
        match self {
            KeyValue::Float(_) => ValueType::Float,
            KeyValue::Integer(_) => ValueType::Integer,
            KeyValue::Vec2(_, _) => ValueType::Vec2,
            KeyValue::Vec3(_, _, _) => ValueType::Vec3,
            KeyValue::Color(_) => ValueType::Color,
        }
    }

    /// The zero value of type `value_type` (white for a color).
    pub fn with_type(value_type: ValueType) -> (v: KeyValue)
        ensures
            spec_value_type(v) == value_type,
            is_zero_value(v),
    {
        match value_type {
            ValueType::Float => KeyValue::Float(XFloat::from_int(0)),
            ValueType::Integer => KeyValue::Integer(0),
            ValueType::Vec2 => KeyValue::Vec2(XFloat::from_int(0), XFloat::from_int(0)),
            ValueType::Vec3 => KeyValue::Vec3(
                XFloat::from_int(0),
                XFloat::from_int(0),
                XFloat::from_int(0),
            ),
            ValueType::Color => KeyValue::Color(HdrColor::default()),
        }
    }
}

impl Default for KeyValue {
    /// The real zero.
    fn default() -> (v: KeyValue)
        ensures
            v matches KeyValue::Float(f) && f@ == float_of_int(0),
    {
        KeyValue::Float(XFloat::from_int(0))
    }
}

/// A named property value.
#[derive(Debug, Clone, PartialEq)]
pub struct KeyValueEntry {
    pub key: String,
    pub value: KeyValue,
}

impl KeyValueEntry {
    /// The property `key` with value `value`.
    pub fn new(key: String, value: KeyValue) -> (e: KeyValueEntry)
        ensures
            e.key == key,
            e.value == value,
    {
        KeyValueEntry { key, value }
    }
}

impl Default for KeyValueEntry {
    /// An unnamed real zero.
    fn default() -> (e: KeyValueEntry)
        ensures
            e.key@ == Seq::<char>::empty(),
            e.value matches KeyValue::Float(f) && f@ == float_of_int(0),
    {
        KeyValueEntry { key: String::new(), value: KeyValue::default() }
    }
}

} // verus!
