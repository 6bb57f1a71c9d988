//! The ways in which loading or interpreting can fail.

use vstd::prelude::*;

verus! {

/// Every failure that the loader, the registry or the interpreter reports.
#[derive(Clone, Copy, Debug, PartialEq, Eq, Structural)]
pub enum MistError {
    /// The byte stream ended before the structure was complete.
    IoError,
    /// Wrong magic number, a constant-pool tag that does not exist, or a
    /// cross-reference that does not hold.
    InvalidFormat,
    /// A constant-pool index resolves to an entry of the wrong kind, or to
    /// nothing at all.
    InvalidReference,
    /// A constant-pool tag or attribute that exists but is not handled.
    Unsupported,
    /// No instruction starts at the program counter.
    IllegalOpcode,
    /// A recognized instruction that the machine does not execute.
    Unimplemented,
    /// A push beyond the frame's operand-stack limit.
    StackOverflow,
    /// A pop from an operand stack that holds too few cells.
    StackUnderflow,
    /// A local-variable index outside the frame.
    LocalIndex,
    /// An array index or length outside the array.
    ArrayBounds,
    /// A dereference of the null reference.
    NullReference,
    /// An integer or long division or remainder by zero.
    ArithmeticError,
    /// A class of that name is registered already.
    DuplicateClass,
    /// An operand of another kind than the instruction takes.
    TypeMismatch,
}

impl MistError {
    /// A one-word name of the error kind, for diagnostics.
    pub fn name(&self) -> (s: &'static str)
        ensures
            s@ == self.name_spec(),
    {
        match self {
            MistError::IoError => "IoError",
            MistError::InvalidFormat => "InvalidFormat",
            MistError::InvalidReference => "InvalidReference",
            MistError::Unsupported => "Unsupported",
            MistError::IllegalOpcode => "IllegalOpcode",
            MistError::Unimplemented => "Unimplemented",
            MistError::StackOverflow => "StackOverflow",
            MistError::StackUnderflow => "StackUnderflow",
            MistError::LocalIndex => "LocalIndex",
            MistError::ArrayBounds => "ArrayBounds",
            MistError::NullReference => "NullReference",
            MistError::ArithmeticError => "ArithmeticError",
            MistError::DuplicateClass => "DuplicateClass",
            MistError::TypeMismatch => "TypeMismatch",
        }
    }

    /// The name of the error kind.

    pub open spec fn name_spec(self) -> Seq<char> {
        match self {
            MistError::IoError => "IoError"@,
            MistError::InvalidFormat => "InvalidFormat"@,
            MistError::InvalidReference => "InvalidReference"@,
            MistError::Unsupported => "Unsupported"@,
            MistError::IllegalOpcode => "IllegalOpcode"@,
            MistError::Unimplemented => "Unimplemented"@,
            MistError::StackOverflow => "StackOverflow"@,
            MistError::StackUnderflow => "StackUnderflow"@,
            MistError::LocalIndex => "LocalIndex"@,
            MistError::ArrayBounds => "ArrayBounds"@,
            MistError::NullReference => "NullReference"@,
            MistError::ArithmeticError => "ArithmeticError"@,
            MistError::DuplicateClass => "DuplicateClass"@,
            MistError::TypeMismatch => "TypeMismatch"@,
        }
    }
}

} // verus!
