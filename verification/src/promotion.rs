//! The types of arithmetic.
use vstd::prelude::*;

use crate::text::str_eq;

verus! {

/// The primitive type of a primitive type or of a class that boxes one.
pub open spec fn unboxed(name: Seq<char>) -> Option<Seq<char>> {
    if name == "byte"@ || name == "java/lang/Byte"@ {
        Some("byte"@)
    } else if name == "short"@ || name == "java/lang/Short"@ {
        Some("short"@)
    } else if name == "char"@ || name == "java/lang/Character"@ {
        Some("char"@)
    } else if name == "int"@ || name == "java/lang/Integer"@ {
        Some("int"@)
    } else if name == "long"@ || name == "java/lang/Long"@ {
        Some("long"@)
    } else if name == "float"@ || name == "java/lang/Float"@ {
        Some("float"@)
    } else if name == "double"@ || name == "java/lang/Double"@ {
        Some("double"@)
    } else if name == "boolean"@ || name == "java/lang/Boolean"@ {
        Some("boolean"@)
    } else {
        None
    }
}

/// The primitive type of a primitive type or of a class that boxes one.
pub fn unboxed_primitive_type_name(name: &str) -> (r: Option<&'static str>)
    ensures
        r.deep_view() == unboxed(name@),
{
    if str_eq(name, "byte") || str_eq(name, "java/lang/Byte") {
        Some("byte")
    } else if str_eq(name, "short") || str_eq(name, "java/lang/Short") {
        Some("short")
    } else if str_eq(name, "char") || str_eq(name, "java/lang/Character") {
        Some("char")
    } else if str_eq(name, "int") || str_eq(name, "java/lang/Integer") {
        Some("int")
    } else if str_eq(name, "long") || str_eq(name, "java/lang/Long") {
        Some("long")
    } else if str_eq(name, "float") || str_eq(name, "java/lang/Float") {
        Some("float")
    } else if str_eq(name, "double") || str_eq(name, "java/lang/Double") {
        Some("double")
    } else if str_eq(name, "boolean") || str_eq(name, "java/lang/Boolean") {
        Some("boolean")
    } else {
        None
    }
}

/// A type that arithmetic is done in.
#[derive(Clone, Copy, Debug, PartialEq, Eq, Structural)]
pub enum Numeric {
    Int,
    Long,
    Float,
    Double,
}

impl Numeric {
    pub open spec fn spelled(self) -> Seq<char> {
        match self {
            Numeric::Int => "int"@,
            Numeric::Long => "long"@,
            Numeric::Float => "float"@,
            Numeric::Double => "double"@,
        }
    }

    /// The name of the type.
    pub fn name(self) -> (r: &'static str)
        ensures
            r@ == self.spelled(),
    {
        match self {
            Numeric::Int => "int",
            Numeric::Long => "long",
            Numeric::Float => "float",
            Numeric::Double => "double",
        }
    }

    /// How wide the type is.
    pub open spec fn rank(self) -> int {
        match self {
            Numeric::Int => 0,
            Numeric::Long => 1,
            Numeric::Float => 2,
            Numeric::Double => 3,
        }
    }

    pub open spec fn is_integral(self) -> bool {
        self == Numeric::Int || self == Numeric::Long
    }

    /// The wider of two types.
    pub open spec fn wider(self, other: Numeric) -> Numeric {
        if self.rank() < other.rank() {
            other
        } else {
            self
        }
    }

    fn max_with(self, other: Numeric) -> (r: Numeric)
        ensures
            r == self.wider(other),
    {
        if self == Numeric::Double || other == Numeric::Double {
            Numeric::Double
        } else if self == Numeric::Float || other == Numeric::Float {
            Numeric::Float
        } else if self == Numeric::Long || other == Numeric::Long {
            Numeric::Long
        } else {
            Numeric::Int
        }
    }
}

/// The type that a single operand is promoted to.
pub open spec fn promoted(name: Seq<char>) -> Option<Numeric> {
    match unboxed(name) {
        None => None,
        Some(p) => if p == "byte"@ || p == "short"@ || p == "char"@ || p == "int"@ {
            Some(Numeric::Int)
        } else if p == "long"@ {
            Some(Numeric::Long)
        } else if p == "float"@ {
            Some(Numeric::Float)
        } else if p == "double"@ {
            Some(Numeric::Double)
        } else {
            None
        },
    }
}

/// The type that a single operand is promoted to.
pub fn promote(name: &str) -> (r: Option<Numeric>)
    ensures
        r == promoted(name@),
{
    match unboxed_primitive_type_name(name) {
        None => None,
        Some(p) => if str_eq(p, "byte") || str_eq(p, "short") || str_eq(p, "char") || str_eq(
            p,
            "int",
        ) {
            Some(Numeric::Int)
        } else if str_eq(p, "long") {
            Some(Numeric::Long)
        } else if str_eq(p, "float") {
            Some(Numeric::Float)
        } else if str_eq(p, "double") {
            Some(Numeric::Double)
        } else {
            None
        },
    }
}

/// The type that two operands are promoted to.
pub open spec fn promoted_pair(left: Seq<char>, right: Seq<char>) -> Option<Numeric> {
    match (promoted(left), promoted(right)) {
        (Some(a), Some(b)) => Some(a.wider(b)),
        _ => None,
    }
}

/// The type that two operands are promoted to.
pub fn promoted_numeric_result(left: &str, right: &str) -> (r: Option<Numeric>)
    ensures
        r == promoted_pair(left@, right@),
{
    match (promote(left), promote(right)) {
        (Some(a), Some(b)) => Some(a.max_with(b)),
        _ => None,
    }
}

/// The type that an operand that has to be integral is promoted to.
pub open spec fn promoted_integral(name: Seq<char>) -> Option<Numeric> {
    match promoted(name) {
        Some(a) if a.is_integral() => Some(a),
        _ => None,
    }
}

/// The type that an operand that has to be integral is promoted to.
pub fn promoted_unary_integral_result(name: &str) -> (r: Option<Numeric>)
    ensures
        r == promoted_integral(name@),
{
    match promote(name) {
        Some(a) => if a == Numeric::Int || a == Numeric::Long {
            Some(a)
        } else {
            None
        },
        None => None,
    }
}

/// The type that two operands that have to be integral are promoted to.
pub open spec fn promoted_integral_pair(left: Seq<char>, right: Seq<char>) -> Option<Numeric> {
    match (promoted_integral(left), promoted_integral(right)) {
        (Some(a), Some(b)) => Some(a.wider(b)),
        _ => None,
    }
}

/// The type that two operands that have to be integral are promoted to.
pub fn promoted_integral_result(left: &str, right: &str) -> (r: Option<Numeric>)
    ensures
        r == promoted_integral_pair(left@, right@),
{
    match (promoted_unary_integral_result(left), promoted_unary_integral_result(right)) {
        (Some(a), Some(b)) => Some(a.max_with(b)),
        _ => None,
    }
}

/// The type of a shift: that of the promoted left operand alone.
pub open spec fn promoted_shift(left: Seq<char>, right: Seq<char>) -> Option<Numeric> {
    match (promoted_integral(left), promoted_integral(right)) {
        (Some(a), Some(_)) => Some(a),
        _ => None,
    }
}

/// The type of a shift.
pub fn promoted_shift_result(left: &str, right: &str) -> (r: Option<Numeric>)
    ensures
        r == promoted_shift(left@, right@),
{
    match (promoted_unary_integral_result(left), promoted_unary_integral_result(right)) {
        (Some(a), Some(_)) => Some(a),
        _ => None,
    }
}

/// Arithmetic does not depend on the order of its operands.
pub proof fn lemma_promotion_commutes(left: Seq<char>, right: Seq<char>)
    ensures
        promoted_pair(left, right) == promoted_pair(right, left),
        promoted_integral_pair(left, right) == promoted_integral_pair(right, left),
{
}

} // verus!
