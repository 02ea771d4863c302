//! Errors met when an editor asset is converted to or from the particle engine's form.

use vstd::prelude::*;

verus! {

/// A conversion error, with a detail message.
#[derive(Debug, Clone, PartialEq)]
pub enum XError {
    UnsupportedScalarType(String),
    UnsupportedVectorType(String),
    UnsupportedValueType(String),
    UnknownBuiltInOperator(String),
    UnknownUnaryOperator(String),
    UnknownBinaryOperator(String),
    ExpressionNotFound(String),
    UnsupportedPropertyType(String),
    UnsupportedModifierType(String),
    UnsupportedAttributeType(String),
    UnknownAttribute(String),
}

/// The text that introduces an error's detail message.
pub open spec fn spec_error_prefix(e: XError) -> Seq<char> {
    match e {
        XError::UnsupportedScalarType(_) => "Unsupported scalar type: "@,
        XError::UnsupportedVectorType(_) => "Unsupported vector type: "@,
        XError::UnsupportedValueType(_) => "Unsupported value type: "@,
        XError::UnknownBuiltInOperator(_) => "Unknown built-in operator: "@,
        XError::UnknownUnaryOperator(_) => "Unknown unary operator: "@,
        XError::UnknownBinaryOperator(_) => "Unknown binary operator: "@,
        XError::ExpressionNotFound(_) => "Expression not found: "@,
        XError::UnsupportedPropertyType(_) => "Unsupported property type: "@,
        XError::UnsupportedModifierType(_) => "Unsupported modifier type: "@,
        XError::UnsupportedAttributeType(_) => "Unsupported attribute type: "@,
        XError::UnknownAttribute(_) => "Unknown attribute: "@,
    }
}

/// An error's detail message.
pub open spec fn spec_error_detail(e: XError) -> Seq<char> {
    match e {
        XError::UnsupportedScalarType(m) => m@,
        XError::UnsupportedVectorType(m) => m@,
        XError::UnsupportedValueType(m) => m@,
        XError::UnknownBuiltInOperator(m) => m@,
        XError::UnknownUnaryOperator(m) => m@,
        XError::UnknownBinaryOperator(m) => m@,
        XError::ExpressionNotFound(m) => m@,
        XError::UnsupportedPropertyType(m) => m@,
        XError::UnsupportedModifierType(m) => m@,
        XError::UnsupportedAttributeType(m) => m@,
        XError::UnknownAttribute(m) => m@,
    }
}

impl XError {
    /// How the error is shown: its kind, a colon, and its detail message.
    pub fn to_string(&self) -> (s: String)
        ensures
            s@ == spec_error_prefix(*self) + spec_error_detail(*self),
    {
        let (prefix, detail) = match self {
            XError::UnsupportedScalarType(m) => ("Unsupported scalar type: ", m),
            XError::UnsupportedVectorType(m) => ("Unsupported vector type: ", m),
            XError::UnsupportedValueType(m) => ("Unsupported value type: ", m),
            XError::UnknownBuiltInOperator(m) => ("Unknown built-in operator: ", m),
            XError::UnknownUnaryOperator(m) => ("Unknown unary operator: ", m),
            XError::UnknownBinaryOperator(m) => ("Unknown binary operator: ", m),
            XError::ExpressionNotFound(m) => ("Expression not found: ", m),
            XError::UnsupportedPropertyType(m) => ("Unsupported property type: ", m),
            XError::UnsupportedModifierType(m) => ("Unsupported modifier type: ", m),
            XError::UnsupportedAttributeType(m) => ("Unsupported attribute type: ", m),
            XError::UnknownAttribute(m) => ("Unknown attribute: ", m),
        };
        let mut s = prefix.to_string();
        s.append(detail.as_str());
        s
    }
}

} // verus!
