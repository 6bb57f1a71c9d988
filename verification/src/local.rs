//! The local variables of one frame.

use crate::error::MistError;
use crate::numeric::{add_i32, wrap_i32};
use crate::value::MistValue;
use vstd::prelude::*;

verus! {

/// A fixed number of slots, each holding one cell, indexed from 0.
#[derive(Clone, Debug, PartialEq, Eq)]
pub struct Local {
    variables: Vec<MistValue>,
}

impl View for Local {
    type V = Seq<MistValue>;

    closed spec fn view(&self) -> Seq<MistValue> {
        self.variables@
    }
}

/// The slots after a store of `v` at `index`.
pub open spec fn stored(slots: Seq<MistValue>, index: int, v: MistValue) -> Result<
    Seq<MistValue>,
    MistError,
> {
    if 0 <= index < slots.len() {
        Ok(slots.update(index, v))
    } else {
        Err(MistError::LocalIndex)
    }
}

/// The cell that a load at `index` gives.
pub open spec fn loaded(slots: Seq<MistValue>, index: int) -> Result<MistValue, MistError> {
    if 0 <= index < slots.len() {
        Ok(slots[index])
    } else {
        Err(MistError::LocalIndex)
    }
}

/// The slots after the int at `index` has grown by `delta`, wrapping.
pub open spec fn incremented(slots: Seq<MistValue>, index: int, delta: i32) -> Result<
    Seq<MistValue>,
    MistError,
> {
    if 0 <= index < slots.len() {
        match slots[index] {
            MistValue::Integer(x) => Ok(slots.update(index, MistValue::Integer(wrap_i32(x + delta)))),
            _ => Err(MistError::TypeMismatch),
        }
    } else {
        Err(MistError::LocalIndex)
    }
}

impl Local {
    /// `capacity` slots, each holding the int 0.
    pub fn new(capacity: usize) -> (local: Local)
        ensures
            local@ == Seq::new(capacity as nat, |i: int| MistValue::Integer(0)),
    {
        let mut variables: Vec<MistValue> = Vec::new();
        let mut i: usize = 0;
        while i < capacity
            invariant
                i <= capacity,
                variables@ == Seq::new(i as nat, |i: int| MistValue::Integer(0)),
            decreases capacity - i,
        {
            variables.push(MistValue::Integer(0));
            i += 1;
        }
        Local { variables }
    }

    /// The number of slots.
    pub fn len(&self) -> (n: usize)
        ensures
            n == self@.len(),
    {
        self.variables.len()
    }

    /// Overwrites the slot `index` with `variable`; `LocalIndex` if the frame
    /// has no such slot, and then nothing changes.
    pub fn store(&mut self, index: usize, variable: MistValue) -> (r: Result<(), MistError>)
        ensures
            match stored(old(self)@, index as int, variable) {
                Ok(slots) => r is Ok && final(self)@ == slots,
                Err(e) => r == Err::<(), MistError>(e) && final(self)@ == old(self)@,
            },
    {
        if index < self.variables.len() {
            self.variables.set(index, variable);
            Ok(())
        } else {
            Err(MistError::LocalIndex)
        }
    }

    /// A copy of the cell in slot `index`; `LocalIndex` if the frame has no
    /// such slot.
    pub fn load(&self, index: usize) -> (r: Result<MistValue, MistError>)
        ensures
            r == loaded(self@, index as int),
    {
        if index < self.variables.len() {
            Ok(self.variables[index])
        } else {
            Err(MistError::LocalIndex)
        }
    }

    /// Adds `delta` to the int in slot `index`, wrapping; `LocalIndex` if the
    /// frame has no such slot, `TypeMismatch` if the slot holds no int. On an
    /// error nothing changes.
    pub fn iinc(&mut self, index: usize, delta: i32) -> (r: Result<(), MistError>)
        ensures
            match incremented(old(self)@, index as int, delta) {
                Ok(slots) => r is Ok && final(self)@ == slots,
                Err(e) => r == Err::<(), MistError>(e) && final(self)@ == old(self)@,
            },
    {
        if index < self.variables.len() {
            match self.variables[index] {
                MistValue::Integer(x) => {
                    self.variables.set(index, MistValue::Integer(add_i32(x, delta)));
                    Ok(())
                },
                _ => Err(MistError::TypeMismatch),
            }
        } else {
            Err(MistError::LocalIndex)
        }
    }
}

/// A load after a store to the same slot gives back the cell stored, and a
/// load from any other slot gives what it gave before.
pub proof fn lemma_load_after_store(slots: Seq<MistValue>, index: int, v: MistValue, other: int)
    requires
        0 <= index < slots.len(),
    ensures
        stored(slots, index, v) is Ok,
        loaded(stored(slots, index, v).unwrap(), index) == Ok::<MistValue, MistError>(v),
        other != index ==> loaded(stored(slots, index, v).unwrap(), other) == loaded(slots, other),
        stored(slots, index, v).unwrap().len() == slots.len(),
{
}

} // verus!
