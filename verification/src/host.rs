//! What the machine asks of its host.
//!
//! The machine carries floats and doubles as bit patterns and has no
//! floating-point unit, no clock and no native code of its own. Where an
//! instruction needs one of them, the machine takes the operands and stops
//! with a [`HostCall`]; the host computes the answer and feeds it back.

use crate::local::Local;
use crate::value::MistValue;
use vstd::prelude::*;

verus! {

/// One call of the machine to its host.
#[derive(Debug, PartialEq, Eq)]
pub enum HostCall {
    /// Carry out the native method numbered `id` on the frame `locals`, which
    /// holds the arguments from slot 0 on, one slot each.
    Native { id: usize, locals: Local },
    /// Compute the floating-point instruction `opcode` on `value`.
    Unary { opcode: u8, value: MistValue },
    /// Compute the floating-point instruction `opcode` on `lhs` and `rhs`,
    /// of which `lhs` was pushed first.
    Binary { opcode: u8, lhs: MistValue, rhs: MistValue },
}

} // verus!
