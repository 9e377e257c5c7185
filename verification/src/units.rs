//! Unit enumerations and unit-aware expression strings.

use vstd::prelude::*;

use crate::error::OpenCadError;
use crate::text::{is_blank, str_is_blank};

verus! {

/// Length units accepted in documents.
#[derive(Debug, Clone, Copy, PartialEq, Eq, Structural)]
pub enum LengthUnit {
    Meter,
    Millimeter,
    Centimeter,
    Inch,
}

/// Mass units accepted in documents.
#[derive(Debug, Clone, Copy, PartialEq, Eq, Structural)]
pub enum MassUnit {
    Kilogram,
    Gram,
}

/// Density units accepted in documents.
#[derive(Debug, Clone, Copy, PartialEq, Eq, Structural)]
pub enum DensityUnit {
    KgPerCubicMeter,
    GPerCubicCentimeter,
}

/// Unit-aware expression string (e.g. `"80 mm"`, `"thickness + 3 mm"`).
///
/// An expression is never blank.
#[derive(Debug)]
pub struct Expression {
    text: String,
}

impl Expression {
    /// The text of the expression.
    pub closed spec fn view(&self) -> Seq<char> {
        self.text@
    }

    /// The text of an expression is never blank.
    #[verifier::type_invariant]
    spec fn not_blank(&self) -> bool {
        !is_blank(self.text@)
    }

    /// An expression holding `value`; blank text is rejected.
    pub fn new(value: &str) -> (r: Result<Expression, OpenCadError>)
        ensures
            is_blank(value@) <==> r is Err,
            r matches Ok(e) ==> e.view() == value@,
            r matches Err(e) ==> (e matches OpenCadError::InvalidExpression(m) && m@
                == "expression must not be empty"@),
    {
        if str_is_blank(value) {
            return Err(OpenCadError::InvalidExpression("expression must not be empty".to_owned()));
        }
        Ok(Expression { text: value.to_owned() })
    }

    /// The text of the expression.
    pub fn as_str(&self) -> (s: &str)
        ensures
            s@ == self.view(),
            !is_blank(s@),
    {
        proof {
            use_type_invariant(self);
        }
        self.text.as_str()
    }

    /// The text of the expression as an owned string, verbatim: what the
    /// expression displays as.
    pub fn to_string(&self) -> (s: String)
        ensures
            s@ == self.view(),
    {
        self.text.clone()
    }
}

impl Clone for Expression {
    fn clone(&self) -> (e: Self)
        ensures
            e.view() == self.view(),
    {
        proof {
            use_type_invariant(self);
        }
        Expression { text: self.text.clone() }
    }
}

} // verus!
