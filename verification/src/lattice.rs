//! The three-point join semilattice of scalar classifications.

use vstd::prelude::*;

verus! {

/// The representation that a scalar value is known to have at a program point.
#[derive(Clone, Copy, Debug, PartialEq, Eq, Structural)]
pub enum ScalarType {
    /// Always numeric.
    Float,
    /// Always textual.
    String,
    /// Either, decided while the program runs.
    Variable,
}

/// What a name can stand for: a scalar of one of the three classifications,
/// or an array.
#[derive(Clone, Copy, Debug, PartialEq, Eq, Structural)]
pub enum VarType {
    Float,
    String,
    Array,
    Variable,
}

impl From<ScalarType> for VarType {
    /// A scalar classification, as what a name stands for.
    fn from(typ: ScalarType) -> (out: VarType) {
        match typ {
            ScalarType::String => VarType::String,
            ScalarType::Float => VarType::Float,
            ScalarType::Variable => VarType::Variable,
        }
    }
}

impl vstd::std_specs::convert::FromSpecImpl<ScalarType> for VarType {
    open spec fn obeys_from_spec() -> bool {
        true
    }

    open spec fn from_spec(typ: ScalarType) -> VarType {
        match typ {
            ScalarType::String => VarType::String,
            ScalarType::Float => VarType::Float,
            ScalarType::Variable => VarType::Variable,
        }
    }
}

/// The least classification that is above both `a` and `b`.
pub open spec fn join(a: ScalarType, b: ScalarType) -> ScalarType {
    if a == b && a != ScalarType::Variable {
        a
    } else {
        ScalarType::Variable
    }
}

/// Joins two classifications coming from different control-flow paths.
pub fn merge_types(a: &ScalarType, b: &ScalarType) -> (joined: ScalarType)
    ensures
        joined == join(*a, *b),
{
    match (a, b) {
        (ScalarType::Float, ScalarType::Float) => ScalarType::Float,
        (ScalarType::String, ScalarType::String) => ScalarType::String,
        _ => ScalarType::Variable,
    }
}

/// Join does not depend on the order of its operands.
pub proof fn lemma_join_commutative(a: ScalarType, b: ScalarType)
    ensures
        join(a, b) == join(b, a),
{
}

/// Joining a classification with itself changes nothing.
pub proof fn lemma_join_idempotent(a: ScalarType)
    ensures
        join(a, a) == a,
{
}

/// Join does not depend on how three operands are grouped.
pub proof fn lemma_join_associative(a: ScalarType, b: ScalarType, c: ScalarType)
    ensures
        join(join(a, b), c) == join(a, join(b, c)),
{
}

} // verus!
