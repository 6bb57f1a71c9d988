//! Method descriptors: compact strings such as `(D)D` that list the kinds of
//! a method's parameters and of its result.

use crate::error::MistError;
use crate::local::Local;
use crate::value::MistValue;
use vstd::prelude::*;
use vstd::string::StrSliceExecFns;

verus! {

/// Whether `c` names a primitive kind.
pub open spec fn is_primitive(c: char) -> bool {
    c == 'B' || c == 'C' || c == 'D' || c == 'F' || c == 'I' || c == 'J' || c == 'S' || c == 'Z'
}

/// Whether `c` names a kind that takes two slots: long or double.
pub open spec fn is_wide_kind(c: char) -> bool {
    c == 'J' || c == 'D'
}

/// The index behind the `;` that closes the class name running at `pos`.
pub open spec fn class_name_end(d: Seq<char>, pos: int) -> Option<int>
    decreases d.len() - pos,
{
    if pos < 0 || pos >= d.len() {
        None
    } else if d[pos] == ';' {
        Some(pos + 1)
    } else {
        class_name_end(d, pos + 1)
    }
}

/// The index behind the type that starts at `pos`: one letter for a
/// primitive kind, `L`, a class name and `;` for a class, `[` and a type for
/// an array.
pub open spec fn type_end(d: Seq<char>, pos: int) -> Option<int>
    decreases d.len() - pos,
{
    if pos < 0 || pos >= d.len() {
        None
    } else if is_primitive(d[pos]) {
        Some(pos + 1)
    } else if d[pos] == 'L' {
        class_name_end(d, pos + 1)
    } else if d[pos] == '[' {
        type_end(d, pos + 1)
    } else {
        None
    }
}

/// A type that is there ends behind its start and within the descriptor.
pub proof fn lemma_type_end(d: Seq<char>, pos: int)
    ensures
        type_end(d, pos) matches Some(end) ==> pos < end <= d.len(),
        class_name_end(d, pos) matches Some(end) ==> pos < end <= d.len(),
    decreases d.len() - pos,
{
    if 0 <= pos < d.len() {
        lemma_type_end(d, pos + 1);
    }
}

/// The parameters from `pos` on up to the closing `)`, after `acc`: for each
/// whether it is wide.
pub open spec fn parameters_from(d: Seq<char>, pos: int, acc: Seq<bool>) -> Option<Seq<bool>>
    decreases d.len() - pos,
{
    if pos < 0 || pos >= d.len() {
        None
    } else if d[pos] == ')' {
        Some(acc)
    } else {
        match type_end(d, pos) {
            Some(end) => if pos < end <= d.len() {
                parameters_from(d, end, acc.push(is_wide_kind(d[pos])))
            } else {
                None
            },
            None => None,
        }
    }
}

/// The parameters of the method descriptor `d`, in their order: for each
/// whether it is wide. `None` if `d` does not open with `(`, a list of types
/// and `)`. What follows the `)` is not looked at.
pub open spec fn parameters(d: Seq<char>) -> Option<Seq<bool>> {
    if d.len() > 0 && d[0] == '(' {
        parameters_from(d, 1, Seq::empty())
    } else {
        None
    }
}

fn primitive(c: char) -> (r: bool)
    ensures
        r == is_primitive(c),
{
    c == 'B' || c == 'C' || c == 'D' || c == 'F' || c == 'I' || c == 'J' || c == 'S' || c == 'Z'
}

fn end_of_type(descriptor: &str, length: usize, pos: usize) -> (r: Option<usize>)
    requires
        length == descriptor@.len(),
        pos < length,
    ensures
        match type_end(descriptor@, pos as int) {
            Some(end) => r == Some(end as usize) && pos < end <= length,
            None => r is None,
        },
{
    proof {
        lemma_type_end(descriptor@, pos as int);
    }
    let mut i = pos;
    while i < length && descriptor.get_char(i) == '['
        invariant
            pos <= i <= length,
            length == descriptor@.len(),
            type_end(descriptor@, pos as int) == type_end(descriptor@, i as int),
        decreases length - i,
    {
        i += 1;
    }
    if i >= length {
        return None;
    }
    let c = descriptor.get_char(i);
    if primitive(c) {
        return Some(i + 1);
    }
    if c != 'L' {
        return None;
    }
    i += 1;
    while i < length && descriptor.get_char(i) != ';'
        invariant
            pos < i <= length,
            length == descriptor@.len(),
            type_end(descriptor@, pos as int) == class_name_end(descriptor@, i as int),
        decreases length - i,
    {
        i += 1;
    }
    if i >= length {
        None
    } else {
        Some(i + 1)
    }
}

/// The parameters of the method descriptor `descriptor`: for each whether it
/// is wide.
pub fn parameter_widths(descriptor: &str) -> (r: Option<Vec<bool>>)
    ensures
        match parameters(descriptor@) {
            Some(widths) => r is Some && r->Some_0@ == widths,
            None => r is None,
        },
{
    let length = descriptor.unicode_len();
    if length == 0 || descriptor.get_char(0) != '(' {
        return None;
    }
    let mut widths: Vec<bool> = Vec::new();
    let mut pos: usize = 1;
    while pos < length
        invariant
            1 <= pos <= length,
            length == descriptor@.len(),
            parameters(descriptor@) == parameters_from(descriptor@, pos as int, widths@),
        decreases length - pos,
    {
        let c = descriptor.get_char(pos);
        if c == ')' {
            return Some(widths);
        }
        match end_of_type(descriptor, length, pos) {
            Some(end) => {
                widths.push(c == 'J' || c == 'D');
                pos = end;
            },
            None => {
                return None;
            },
        }
    }
    None
}

/// The slot that the next parameter takes, after one of the given width at
/// `slot`. A frame laid out for bytecode gives a wide parameter two slots; a
/// compact frame, as a native method sees it, gives every parameter one.
pub open spec fn slot_after(slot: int, wide: bool, compact: bool) -> int {
    if wide && !compact {
        slot + 2
    } else {
        slot + 1
    }
}

/// The locals `acc` with the arguments from number `k` on stored from `slot`
/// on, as far as there are both an argument and a width for it; `LocalIndex`
/// if the frame has no slot for one of them.
pub open spec fn placed_from(
    widths: Seq<bool>,
    arguments: Seq<MistValue>,
    compact: bool,
    k: int,
    slot: int,
    acc: Seq<MistValue>,
) -> Result<Seq<MistValue>, MistError>
    decreases widths.len() - k,
{
    if k < 0 || k >= widths.len() || k >= arguments.len() {
        Ok(acc)
    } else if !(0 <= slot < acc.len()) {
        Err(MistError::LocalIndex)
    } else {
        placed_from(
            widths,
            arguments,
            compact,
            k + 1,
            slot_after(slot, widths[k], compact),
            acc.update(slot, arguments[k]),
        )
    }
}

/// The locals of a callee's frame of `max_local` slots: the arguments in
/// their order from slot 0 on, every other slot holding the int 0.
pub open spec fn frame_locals(
    widths: Seq<bool>,
    arguments: Seq<MistValue>,
    compact: bool,
    max_local: nat,
) -> Result<Seq<MistValue>, MistError> {
    placed_from(
        widths,
        arguments,
        compact,
        0,
        0,
        Seq::new(max_local, |i: int| MistValue::Integer(0)),
    )
}

/// Lays out the frame of a callee; see [`frame_locals`].
pub fn place_arguments(
    widths: &Vec<bool>,
    arguments: &Vec<MistValue>,
    compact: bool,
    max_local: u16,
) -> (r: Result<Local, MistError>)
    ensures
        match frame_locals(widths@, arguments@, compact, max_local as nat) {
            Ok(slots) => r is Ok && r->Ok_0@ == slots,
            Err(e) => r is Err && r->Err_0 == e,
        },
{
    let mut local = Local::new(max_local as usize);
    let mut slot: usize = 0;
    let mut k: usize = 0;
    while k < widths.len() && k < arguments.len()
        invariant
            local@.len() == max_local,
            slot <= 0x1_0000,
            frame_locals(widths@, arguments@, compact, max_local as nat) == placed_from(
                widths@,
                arguments@,
                compact,
                k as int,
                slot as int,
                local@,
            ),
        decreases widths@.len() - k,
    {
        match local.store(slot, arguments[k]) {
            Ok(()) => {},
            Err(e) => {
                return Err(e);
            },
        }
        slot = if widths[k] && !compact {
            slot + 2
        } else {
            slot + 1
        };
        k += 1;
    }
    Ok(local)
}

} // verus!
