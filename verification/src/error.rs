//! The two fatal conflicts between scalar and array use of one name.

use vstd::prelude::*;
use vstd::string::*;

verus! {

/// Which rule a use of a name broke.
#[derive(Clone, Copy, Debug, PartialEq, Eq, Structural)]
pub enum ConflictKind {
    /// A name that holds a scalar type was used as an array.
    ScalarInArrayContext,
    /// A name committed to array use was used as a scalar.
    ArrayInScalarContext,
}

/// A conflict as a mathematical value: the rule broken and the name at fault.
pub ghost struct Conflict {
    pub kind: ConflictKind,
    pub name: Seq<char>,
}

/// The error that ends the pass: the first conflict met.
#[derive(Debug)]
pub struct PrintableError {
    pub kind: ConflictKind,
    pub name: String,
}

impl View for PrintableError {
    type V = Conflict;

    open spec fn view(&self) -> Conflict {
        Conflict { kind: self.kind, name: self.name@ }
    }
}

/// The text shown to the user for a conflict.
pub open spec fn conflict_message(conflict: Conflict) -> Seq<char> {
    match conflict.kind {
        ConflictKind::ArrayInScalarContext => "fatal: attempt to use array `"@ + conflict.name
            + "` in a scalar context"@,
        ConflictKind::ScalarInArrayContext => "fatal: attempt to scalar `"@ + conflict.name
            + "` in an array context"@,
    }
}

impl PrintableError {
    /// The human-readable message: it names the variable and the context
    /// that was violated.
    pub fn message(&self) -> (text: String)
        ensures
            text@ == conflict_message(self@),
    {
        match self.kind {
            ConflictKind::ArrayInScalarContext => {
                let mut text = String::from_str("fatal: attempt to use array `");
                text.append(self.name.as_str());
                text.append("` in a scalar context");
                text
            },
            ConflictKind::ScalarInArrayContext => {
                let mut text = String::from_str("fatal: attempt to scalar `");
                text.append(self.name.as_str());
                text.append("` in an array context");
                text
            },
        }
    }
}

} // verus!
