//! The instructions as the machine sees them once decoded, and the decoder.

use crate::error::MistError;
use crate::numeric::{BinaryOp, UnaryOp};
use crate::opcode;
use crate::stack::Shape;
use crate::value::MistValue;
use vstd::prelude::*;

verus! {

/// The six comparisons that a branch makes.
#[derive(Clone, Copy, Debug, PartialEq, Eq, Structural)]
pub enum Condition {
    Eq,
    Ne,
    Lt,
    Ge,
    Gt,
    Le,
}

/// One instruction with its operands decoded. A branch holds the offset of
/// its target in the code, not the distance to it.
#[derive(Clone, Copy, Debug, PartialEq, Eq, Structural)]
pub enum Instruction {
    /// Does nothing.
    Nop,
    /// Pushes a constant.
    Push(MistValue),
    /// Pushes the int or float constant at a pool index.
    Ldc(u16),
    /// Pushes the long or double constant at a pool index.
    Ldc2(u16),
    /// Pushes the cell of a local slot.
    Load(usize),
    /// Pops the top cell into a local slot.
    Store(usize),
    /// Adds a constant to the int in a local slot.
    Iinc(usize, i32),
    /// Pushes an element of an array whose elements are of the kind that the
    /// tag names.
    ArrayLoad(char),
    /// Pops a cell into an element of an array whose elements are of the kind
    /// that the tag names.
    ArrayStore(char),
    /// Moves cells on the stack.
    Shape(Shape),
    /// Replaces the top cell by a value computed from it.
    Unary(UnaryOp),
    /// Replaces the two top cells by a value computed from them.
    Binary(BinaryOp),
    /// Hands the top cell, which is of the kind that the tag names, to the
    /// host's floating-point unit.
    HostUnary(char),
    /// Hands the two top cells, which are of the kind that the tag names, to
    /// the host's floating-point unit.
    HostBinary(char),
    /// Pops an int and branches if it compares so with 0.
    If(Condition, usize),
    /// Pops two ints and branches if the first pushed compares so with the
    /// second.
    IfInt(Condition, usize),
    /// Pops two references and branches if their being equal is as given.
    IfRef(bool, usize),
    /// Pops a reference and branches if its being null is as given.
    IfNull(bool, usize),
    /// Branches.
    Goto(usize),
    /// Ends the frame, delivering the top cell if so told.
    Return(bool),
    /// Calls the static method at a pool index.
    InvokeStatic(u16),
    /// Allocates an array of primitive elements.
    NewArray(u8),
    /// An instruction that the machine knows and does not carry out.
    Unimplemented,
}

/// The bits of the float 0.
pub const FLOAT_0: u32 = 0;

/// The bits of the float 1.
pub const FLOAT_1: u32 = 0x3f80_0000;

/// The bits of the float 2.
pub const FLOAT_2: u32 = 0x4000_0000;

/// The bits of the double 0.
pub const DOUBLE_0: u64 = 0;

/// The bits of the double 1.
pub const DOUBLE_1: u64 = 0x3ff0_0000_0000_0000;

/// The byte `b` read as a signed number.
pub open spec fn signed_8(b: u8) -> i32 {
    if b >= 0x80 {
        (b - 0x100) as i32
    } else {
        b as i32
    }
}

/// The big-endian 16-bit number at `at`.
pub open spec fn unsigned_16(code: Seq<u8>, at: int) -> u16 {
    (code[at] * 0x100 + code[at + 1]) as u16
}

/// The big-endian 16-bit number at `at`, read as signed.
pub open spec fn signed_16(code: Seq<u8>, at: int) -> i32 {
    if code[at] >= 0x80 {
        (code[at] * 0x100 + code[at + 1] - 0x1_0000) as i32
    } else {
        (code[at] * 0x100 + code[at + 1]) as i32
    }
}

/// The big-endian 32-bit number at `at`, read as signed.
pub open spec fn signed_32(code: Seq<u8>, at: int) -> i32 {
    if code[at] >= 0x80 {
        (code[at] * 0x100_0000 + code[at + 1] * 0x1_0000 + code[at + 2] * 0x100 + code[at + 3]
            - 0x1_0000_0000) as i32
    } else {
        (code[at] * 0x100_0000 + code[at + 1] * 0x1_0000 + code[at + 2] * 0x100 + code[at
            + 3]) as i32
    }
}

/// The number of operand bytes that follow the opcode `op`, for the
/// instructions that the machine carries out.
pub open spec fn operand_bytes(op: u8) -> int {
    if op == 0x10 || op == 0x12 || (0x15 <= op <= 0x19) || (0x36 <= op <= 0x3a) || op == 0xbc {
        1
    } else if op == 0x11 || op == 0x13 || op == 0x14 || op == 0x84 || (0x99 <= op <= 0xa7) || op
        == 0xb8 || op == 0xc6 || op == 0xc7 {
        2
    } else if op == 0xc8 {
        4
    } else {
        0
    }
}

/// Whether the machine knows the opcode `op` and does not carry it out:
/// subroutines, switches, field access, the calls other than the static one,
/// objects, exceptions, casts and wide indices.
pub open spec fn is_unimplemented(op: u8) -> bool {
    (0xa8 <= op <= 0xab) || (0xb2 <= op <= 0xb7) || (0xb9 <= op <= 0xbb) || (0xbd <= op <= 0xc1)
        || op == 0xc4 || op == 0xc5 || op == 0xc9
}

/// The comparison number `k`, in the order of the opcodes: eq, ne, lt, ge,
/// gt, le.
pub open spec fn condition_of(k: int) -> Condition {
    if k == 0 {
        Condition::Eq
    } else if k == 1 {
        Condition::Ne
    } else if k == 2 {
        Condition::Lt
    } else if k == 3 {
        Condition::Ge
    } else if k == 4 {
        Condition::Gt
    } else {
        Condition::Le
    }
}

/// The tag of the element kind number `k`, in the order of the array
/// opcodes: int, long, float, double, reference, byte, char, short.
pub open spec fn element_tag(k: int) -> char {
    if k == 0 {
        'I'
    } else if k == 1 {
        'J'
    } else if k == 2 {
        'F'
    } else if k == 3 {
        'D'
    } else if k == 4 {
        'A'
    } else if k == 5 {
        'B'
    } else if k == 6 {
        'C'
    } else {
        'S'
    }
}

/// The shape instruction number `k`, in the order of the opcodes from `pop`
/// on.
pub open spec fn shape_of(k: int) -> Shape {
    if k == 0 {
        Shape::Pop
    } else if k == 1 {
        Shape::Pop2
    } else if k == 2 {
        Shape::Dup
    } else if k == 3 {
        Shape::DupX1
    } else if k == 4 {
        Shape::DupX2
    } else if k == 5 {
        Shape::Dup2
    } else if k == 6 {
        Shape::Dup2X1
    } else if k == 7 {
        Shape::Dup2X2
    } else {
        Shape::Swap
    }
}

/// The arithmetic instruction of the opcode `op`, from `iadd` to `lxor`. The
/// opcodes come in families of one operation, within which the kinds follow
/// one another: int, long, float, double. What needs a floating-point unit
/// goes to the host.
pub open spec fn arithmetic_of(op: u8) -> Instruction {
    if op == 0x60 {
        Instruction::Binary(BinaryOp::IntAdd)
    } else if op == 0x61 {
        Instruction::Binary(BinaryOp::LongAdd)
    } else if op == 0x64 {
        Instruction::Binary(BinaryOp::IntSub)
    } else if op == 0x65 {
        Instruction::Binary(BinaryOp::LongSub)
    } else if op == 0x68 {
        Instruction::Binary(BinaryOp::IntMul)
    } else if op == 0x69 {
        Instruction::Binary(BinaryOp::LongMul)
    } else if op == 0x6c {
        Instruction::Binary(BinaryOp::IntDiv)
    } else if op == 0x6d {
        Instruction::Binary(BinaryOp::LongDiv)
    } else if op == 0x70 {
        Instruction::Binary(BinaryOp::IntRem)
    } else if op == 0x71 {
        Instruction::Binary(BinaryOp::LongRem)
    } else if op == 0x74 {
        Instruction::Unary(UnaryOp::IntNeg)
    } else if op == 0x75 {
        Instruction::Unary(UnaryOp::LongNeg)
    } else if op == 0x76 {
        Instruction::Unary(UnaryOp::FloatNeg)
    } else if op == 0x77 {
        Instruction::Unary(UnaryOp::DoubleNeg)
    } else if op < 0x74 {
        if op % 4 == 2 {
            Instruction::HostBinary('F')
        } else {
            Instruction::HostBinary('D')
        }
    } else if op == 0x78 {
        Instruction::Binary(BinaryOp::IntShl)
    } else if op == 0x79 {
        Instruction::Binary(BinaryOp::LongShl)
    } else if op == 0x7a {
        Instruction::Binary(BinaryOp::IntShr)
    } else if op == 0x7b {
        Instruction::Binary(BinaryOp::LongShr)
    } else if op == 0x7c {
        Instruction::Binary(BinaryOp::IntUshr)
    } else if op == 0x7d {
        Instruction::Binary(BinaryOp::LongUshr)
    } else if op == 0x7e {
        Instruction::Binary(BinaryOp::IntAnd)
    } else if op == 0x7f {
        Instruction::Binary(BinaryOp::LongAnd)
    } else if op == 0x80 {
        Instruction::Binary(BinaryOp::IntOr)
    } else if op == 0x81 {
        Instruction::Binary(BinaryOp::LongOr)
    } else if op == 0x82 {
        Instruction::Binary(BinaryOp::IntXor)
    } else {
        Instruction::Binary(BinaryOp::LongXor)
    }
}

/// The conversion or comparison of the opcode `op`, from `i2l` to `dcmpg`.
/// A conversion to a floating-point kind goes to the host, with the tag of
/// the kind that it takes.
pub open spec fn conversion_of(op: u8) -> Instruction {
    if op == 0x85 {
        Instruction::Unary(UnaryOp::IntToLong)
    } else if op == 0x86 || op == 0x87 {
        Instruction::HostUnary('I')
    } else if op == 0x88 {
        Instruction::Unary(UnaryOp::LongToInt)
    } else if op == 0x89 || op == 0x8a {
        Instruction::HostUnary('J')
    } else if op == 0x8b {
        Instruction::Unary(UnaryOp::FloatToInt)
    } else if op == 0x8c {
        Instruction::Unary(UnaryOp::FloatToLong)
    } else if op == 0x8d {
        Instruction::HostUnary('F')
    } else if op == 0x8e {
        Instruction::Unary(UnaryOp::DoubleToInt)
    } else if op == 0x8f {
        Instruction::Unary(UnaryOp::DoubleToLong)
    } else if op == 0x90 {
        Instruction::HostUnary('D')
    } else if op == 0x91 {
        Instruction::Unary(UnaryOp::IntToByte)
    } else if op == 0x92 {
        Instruction::Unary(UnaryOp::IntToChar)
    } else if op == 0x93 {
        Instruction::Unary(UnaryOp::IntToShort)
    } else if op == 0x94 {
        Instruction::Binary(BinaryOp::LongCompare)
    } else if op == 0x95 {
        Instruction::Binary(BinaryOp::FloatCompareLow)
    } else if op == 0x96 {
        Instruction::Binary(BinaryOp::FloatCompareHigh)
    } else if op == 0x97 {
        Instruction::Binary(BinaryOp::DoubleCompareLow)
    } else {
        Instruction::Binary(BinaryOp::DoubleCompareHigh)
    }
}

/// The constant that the opcode `op` pushes, from `aconst_null` to
/// `dconst_1`.
pub open spec fn constant_of(op: u8) -> MistValue {
    if op == 0x01 {
        MistValue::ObjectReference(0)
    } else if op <= 0x08 {
        MistValue::Integer((op - 3) as i32)
    } else if op <= 0x0a {
        MistValue::Long((op - 9) as i64)
    } else if op == 0x0b {
        MistValue::Float(FLOAT_0)
    } else if op == 0x0c {
        MistValue::Float(FLOAT_1)
    } else if op == 0x0d {
        MistValue::Float(FLOAT_2)
    } else if op == 0x0e {
        MistValue::Double(DOUBLE_0)
    } else {
        MistValue::Double(DOUBLE_1)
    }
}

/// The target of a branch at `pc` by `offset`, if it lies within code of
/// `length` bytes.
pub open spec fn target_of(pc: usize, offset: i32, length: nat) -> Option<usize> {
    if 0 <= pc + offset < length {
        Some((pc + offset) as usize)
    } else {
        None
    }
}

/// The instruction of the opcode `op` at `pc`, whose operand bytes are known
/// to lie within the code; `None` for a branch whose target lies outside the
/// code.
pub open spec fn instruction_of(code: Seq<u8>, pc: usize, op: u8) -> Option<Instruction> {
    let at = pc + 1;
    if op == 0x00 || op == 0xc2 || op == 0xc3 {
        Some(Instruction::Nop)
    } else if op <= 0x0f {
        Some(Instruction::Push(constant_of(op)))
    } else if op == 0x10 {
        Some(Instruction::Push(MistValue::Integer(signed_8(code[at]))))
    } else if op == 0x11 {
        Some(Instruction::Push(MistValue::Integer(signed_16(code, at))))
    } else if op == 0x12 {
        Some(Instruction::Ldc(code[at] as u16))
    } else if op == 0x13 {
        Some(Instruction::Ldc(unsigned_16(code, at)))
    } else if op == 0x14 {
        Some(Instruction::Ldc2(unsigned_16(code, at)))
    } else if op <= 0x19 {
        Some(Instruction::Load(code[at] as usize))
    } else if op <= 0x2d {
        Some(Instruction::Load(((op - 0x1a) % 4) as usize))
    } else if op <= 0x35 {
        Some(Instruction::ArrayLoad(element_tag(op - 0x2e)))
    } else if op <= 0x3a {
        Some(Instruction::Store(code[at] as usize))
    } else if op <= 0x4e {
        Some(Instruction::Store(((op - 0x3b) % 4) as usize))
    } else if op <= 0x56 {
        Some(Instruction::ArrayStore(element_tag(op - 0x4f)))
    } else if op <= 0x5f {
        Some(Instruction::Shape(shape_of(op - 0x57)))
    } else if op <= 0x83 {
        Some(arithmetic_of(op))
    } else if op == 0x84 {
        Some(Instruction::Iinc(code[at] as usize, signed_8(code[at + 1])))
    } else if op <= 0x98 {
        Some(conversion_of(op))
    } else if op <= 0x9e {
        match target_of(pc, signed_16(code, at), code.len()) {
            Some(target) => Some(Instruction::If(condition_of(op - 0x99), target)),
            None => None,
        }
    } else if op <= 0xa4 {
        match target_of(pc, signed_16(code, at), code.len()) {
            Some(target) => Some(Instruction::IfInt(condition_of(op - 0x9f), target)),
            None => None,
        }
    } else if op <= 0xa6 {
        match target_of(pc, signed_16(code, at), code.len()) {
            Some(target) => Some(Instruction::IfRef(op == 0xa5, target)),
            None => None,
        }
    } else if op == 0xa7 {
        match target_of(pc, signed_16(code, at), code.len()) {
            Some(target) => Some(Instruction::Goto(target)),
            None => None,
        }
    } else if 0xac <= op <= 0xb1 {
        Some(Instruction::Return(op != 0xb1))
    } else if op == 0xb8 {
        Some(Instruction::InvokeStatic(unsigned_16(code, at)))
    } else if op == 0xbc {
        Some(Instruction::NewArray(code[at]))
    } else if op == 0xc6 || op == 0xc7 {
        match target_of(pc, signed_16(code, at), code.len()) {
            Some(target) => Some(Instruction::IfNull(op == 0xc6, target)),
            None => None,
        }
    } else if op == 0xc8 {
        match target_of(pc, signed_32(code, at), code.len()) {
            Some(target) => Some(Instruction::Goto(target)),
            None => None,
        }
    } else {
        Some(Instruction::Unimplemented)
    }
}

/// The instruction at `pc` and the offset of the one behind it.
///
/// `IllegalOpcode` if `pc` lies outside the code, if the byte there is no
/// opcode, if the operands do not fit in the code, or if a branch leads out of
/// the code. An opcode that the machine does not carry out decodes to
/// `Unimplemented`, and its operands are not looked at.
pub open spec fn decode_at(code: Seq<u8>, pc: usize) -> Result<(Instruction, usize), MistError> {
    if pc >= code.len() || code[pc as int] > 0xc9 {
        Err(MistError::IllegalOpcode)
    } else if is_unimplemented(code[pc as int]) {
        Ok((Instruction::Unimplemented, pc))
    } else if pc + 1 + operand_bytes(code[pc as int]) > code.len() {
        Err(MistError::IllegalOpcode)
    } else {
        match instruction_of(code, pc, code[pc as int]) {
            Some(instruction) => Ok(
                (instruction, (pc + 1 + operand_bytes(code[pc as int])) as usize),
            ),
            None => Err(MistError::IllegalOpcode),
        }
    }
}

fn widen(b: u8) -> (r: usize)
    ensures
        r == b,
{
    b as usize
}

fn widen_16(b: u8) -> (r: u16)
    ensures
        r == b,
{
    b as u16
}

fn sign_extend_8(b: u8) -> (r: i32)
    ensures
        r == signed_8(b),
{
    if b >= 0x80 {
        b as i32 - 0x100
    } else {
        b as i32
    }
}

/// The first operand byte of the instruction at `pc`, if the code holds it.
fn byte_operand(code: &[u8], pc: usize) -> (r: Option<u8>)
    requires
        pc < code@.len(),
    ensures
        r == (if pc + 2 <= code@.len() {
            Some(code@[pc + 1])
        } else {
            None
        }),
{
    if code.len() - pc >= 2 {
        Some(code[pc + 1])
    } else {
        None
    }
}

/// The second operand byte of the instruction at `pc`, if the code holds it.
fn second_byte_operand(code: &[u8], pc: usize) -> (r: Option<u8>)
    requires
        pc < code@.len(),
    ensures
        r == (if pc + 3 <= code@.len() {
            Some(code@[pc + 2])
        } else {
            None
        }),
{
    if code.len() - pc >= 3 {
        Some(code[pc + 2])
    } else {
        None
    }
}

/// The two operand bytes of the instruction at `pc` as an unsigned number, if
/// the code holds them.
fn index_operand(code: &[u8], pc: usize) -> (r: Option<u16>)
    requires
        pc < code@.len(),
    ensures
        r == (if pc + 3 <= code@.len() {
            Some(unsigned_16(code@, pc + 1))
        } else {
            None
        }),
{
    if code.len() - pc >= 3 {
        Some(code[pc + 1] as u16 * 0x100 + code[pc + 2] as u16)
    } else {
        None
    }
}

/// The two operand bytes of the instruction at `pc` as a signed number, if
/// the code holds them.
fn short_operand(code: &[u8], pc: usize) -> (r: Option<i32>)
    requires
        pc < code@.len(),
    ensures
        r == (if pc + 3 <= code@.len() {
            Some(signed_16(code@, pc + 1))
        } else {
            None
        }),
{
    if code.len() - pc >= 3 {
        let v: i32 = code[pc + 1] as i32 * 0x100 + code[pc + 2] as i32;
        if v >= 0x8000 {
            Some(v - 0x1_0000)
        } else {
            Some(v)
        }
    } else {
        None
    }
}

/// The four operand bytes of the instruction at `pc` as a signed number, if
/// the code holds them.
fn word_operand(code: &[u8], pc: usize) -> (r: Option<i32>)
    requires
        pc < code@.len(),
    ensures
        r == (if pc + 5 <= code@.len() {
            Some(signed_32(code@, pc + 1))
        } else {
            None
        }),
{
    if code.len() - pc >= 5 {
        let v: i64 = code[pc + 1] as i64 * 0x100_0000 + code[pc + 2] as i64 * 0x1_0000 + code[pc
            + 3] as i64 * 0x100 + code[pc + 4] as i64;
        if v >= 0x8000_0000 {
            Some((v - 0x1_0000_0000) as i32)
        } else {
            Some(v as i32)
        }
    } else {
        None
    }
}

fn branch_target(pc: usize, offset: i32, length: usize) -> (r: Option<usize>)
    ensures
        r == target_of(pc, offset, length as nat),
{
    let target: i128 = pc as i128 + offset as i128;
    if 0 <= target && target < length as i128 {
        Some(target as usize)
    } else {
        None
    }
}

/// The target of the branch at `pc` with a 16-bit offset, if the code holds
/// the offset and the target.
fn near_target(code: &[u8], pc: usize) -> (r: Option<usize>)
    requires
        pc < code@.len(),
    ensures
        r == (if pc + 3 <= code@.len() {
            target_of(pc, signed_16(code@, pc + 1), code@.len())
        } else {
            None
        }),
{
    match short_operand(code, pc) {
        Some(offset) => branch_target(pc, offset, code.len()),
        None => None,
    }
}

/// The target of the branch at `pc` with a 32-bit offset, if the code holds
/// the offset and the target.
fn far_target(code: &[u8], pc: usize) -> (r: Option<usize>)
    requires
        pc < code@.len(),
    ensures
        r == (if pc + 5 <= code@.len() {
            target_of(pc, signed_32(code@, pc + 1), code@.len())
        } else {
            None
        }),
{
    match word_operand(code, pc) {
        Some(offset) => branch_target(pc, offset, code.len()),
        None => None,
    }
}

/// Decodes the instruction at `pc`; see [`decode_at`].
pub fn decode(code: &[u8], pc: usize) -> (r: Result<(Instruction, usize), MistError>)
    ensures
        r == decode_at(code@, pc),
{
    if pc >= code.len() {
        return Err(MistError::IllegalOpcode);
    }
    match code[pc] {
        opcode::NOP | opcode::MONITORENTER | opcode::MONITOREXIT => Ok((Instruction::Nop, pc + 1)),
        opcode::ACONST_NULL => Ok((Instruction::Push(MistValue::ObjectReference(0)), pc + 1)),
        opcode::ICONST_M1 => Ok((Instruction::Push(MistValue::Integer(-1)), pc + 1)),
        opcode::ICONST_0 => Ok((Instruction::Push(MistValue::Integer(0)), pc + 1)),
        opcode::ICONST_1 => Ok((Instruction::Push(MistValue::Integer(1)), pc + 1)),
        opcode::ICONST_2 => Ok((Instruction::Push(MistValue::Integer(2)), pc + 1)),
        opcode::ICONST_3 => Ok((Instruction::Push(MistValue::Integer(3)), pc + 1)),
        opcode::ICONST_4 => Ok((Instruction::Push(MistValue::Integer(4)), pc + 1)),
        opcode::ICONST_5 => Ok((Instruction::Push(MistValue::Integer(5)), pc + 1)),
        opcode::LCONST_0 => Ok((Instruction::Push(MistValue::Long(0)), pc + 1)),
        opcode::LCONST_1 => Ok((Instruction::Push(MistValue::Long(1)), pc + 1)),
        opcode::FCONST_0 => Ok((Instruction::Push(MistValue::Float(FLOAT_0)), pc + 1)),
        opcode::FCONST_1 => Ok((Instruction::Push(MistValue::Float(FLOAT_1)), pc + 1)),
        opcode::FCONST_2 => Ok((Instruction::Push(MistValue::Float(FLOAT_2)), pc + 1)),
        opcode::DCONST_0 => Ok((Instruction::Push(MistValue::Double(DOUBLE_0)), pc + 1)),
        opcode::DCONST_1 => Ok((Instruction::Push(MistValue::Double(DOUBLE_1)), pc + 1)),
        opcode::BIPUSH => match byte_operand(code, pc) {
                Some(b) => Ok((Instruction::Push(MistValue::Integer(sign_extend_8(b))), pc + 2)),
                None => Err(MistError::IllegalOpcode),
            },
        opcode::SIPUSH => match short_operand(code, pc) {
                Some(v) => Ok((Instruction::Push(MistValue::Integer(v)), pc + 3)),
                None => Err(MistError::IllegalOpcode),
            },
        opcode::LDC => match byte_operand(code, pc) {
                Some(b) => Ok((Instruction::Ldc(widen_16(b)), pc + 2)),
                None => Err(MistError::IllegalOpcode),
            },
        opcode::LDC_W => match index_operand(code, pc) {
                Some(index) => Ok((Instruction::Ldc(index), pc + 3)),
                None => Err(MistError::IllegalOpcode),
            },
        opcode::LDC2_W => match index_operand(code, pc) {
                Some(index) => Ok((Instruction::Ldc2(index), pc + 3)),
                None => Err(MistError::IllegalOpcode),
            },
        opcode::ILOAD
        | opcode::LLOAD
        | opcode::FLOAD
        | opcode::DLOAD
        | opcode::ALOAD => match byte_operand(code, pc) {
                Some(b) => Ok((Instruction::Load(widen(b)), pc + 2)),
                None => Err(MistError::IllegalOpcode),
            },
        opcode::ILOAD_0
        | opcode::LLOAD_0
        | opcode::FLOAD_0
        | opcode::DLOAD_0
        | opcode::ALOAD_0 => Ok((Instruction::Load(0), pc + 1)),
        opcode::ILOAD_1
        | opcode::LLOAD_1
        | opcode::FLOAD_1
        | opcode::DLOAD_1
        | opcode::ALOAD_1 => Ok((Instruction::Load(1), pc + 1)),
        opcode::ILOAD_2
        | opcode::LLOAD_2
        | opcode::FLOAD_2
        | opcode::DLOAD_2
        | opcode::ALOAD_2 => Ok((Instruction::Load(2), pc + 1)),
        opcode::ILOAD_3
        | opcode::LLOAD_3
        | opcode::FLOAD_3
        | opcode::DLOAD_3
        | opcode::ALOAD_3 => Ok((Instruction::Load(3), pc + 1)),
        opcode::IALOAD => Ok((Instruction::ArrayLoad('I'), pc + 1)),
        opcode::LALOAD => Ok((Instruction::ArrayLoad('J'), pc + 1)),
        opcode::FALOAD => Ok((Instruction::ArrayLoad('F'), pc + 1)),
        opcode::DALOAD => Ok((Instruction::ArrayLoad('D'), pc + 1)),
        opcode::AALOAD => Ok((Instruction::ArrayLoad('A'), pc + 1)),
        opcode::BALOAD => Ok((Instruction::ArrayLoad('B'), pc + 1)),
        opcode::CALOAD => Ok((Instruction::ArrayLoad('C'), pc + 1)),
        opcode::SALOAD => Ok((Instruction::ArrayLoad('S'), pc + 1)),
        opcode::ISTORE
        | opcode::LSTORE
        | opcode::FSTORE
        | opcode::DSTORE
        | opcode::ASTORE => match byte_operand(code, pc) {
                Some(b) => Ok((Instruction::Store(widen(b)), pc + 2)),
                None => Err(MistError::IllegalOpcode),
            },
        opcode::ISTORE_0
        | opcode::LSTORE_0
        | opcode::FSTORE_0
        | opcode::DSTORE_0
        | opcode::ASTORE_0 => Ok((Instruction::Store(0), pc + 1)),
        opcode::ISTORE_1
        | opcode::LSTORE_1
        | opcode::FSTORE_1
        | opcode::DSTORE_1
        | opcode::ASTORE_1 => Ok((Instruction::Store(1), pc + 1)),
        opcode::ISTORE_2
        | opcode::LSTORE_2
        | opcode::FSTORE_2
        | opcode::DSTORE_2
        | opcode::ASTORE_2 => Ok((Instruction::Store(2), pc + 1)),
        opcode::ISTORE_3
        | opcode::LSTORE_3
        | opcode::FSTORE_3
        | opcode::DSTORE_3
        | opcode::ASTORE_3 => Ok((Instruction::Store(3), pc + 1)),
        opcode::IASTORE => Ok((Instruction::ArrayStore('I'), pc + 1)),
        opcode::LASTORE => Ok((Instruction::ArrayStore('J'), pc + 1)),
        opcode::FASTORE => Ok((Instruction::ArrayStore('F'), pc + 1)),
        opcode::DASTORE => Ok((Instruction::ArrayStore('D'), pc + 1)),
        opcode::AASTORE => Ok((Instruction::ArrayStore('A'), pc + 1)),
        opcode::BASTORE => Ok((Instruction::ArrayStore('B'), pc + 1)),
        opcode::CASTORE => Ok((Instruction::ArrayStore('C'), pc + 1)),
        opcode::SASTORE => Ok((Instruction::ArrayStore('S'), pc + 1)),
        opcode::POP => Ok((Instruction::Shape(Shape::Pop), pc + 1)),
        opcode::POP2 => Ok((Instruction::Shape(Shape::Pop2), pc + 1)),
        opcode::DUP => Ok((Instruction::Shape(Shape::Dup), pc + 1)),
        opcode::DUP_X1 => Ok((Instruction::Shape(Shape::DupX1), pc + 1)),
        opcode::DUP_X2 => Ok((Instruction::Shape(Shape::DupX2), pc + 1)),
        opcode::DUP2 => Ok((Instruction::Shape(Shape::Dup2), pc + 1)),
        opcode::DUP2_X1 => Ok((Instruction::Shape(Shape::Dup2X1), pc + 1)),
        opcode::DUP2_X2 => Ok((Instruction::Shape(Shape::Dup2X2), pc + 1)),
        opcode::SWAP => Ok((Instruction::Shape(Shape::Swap), pc + 1)),
        opcode::IADD => Ok((Instruction::Binary(BinaryOp::IntAdd), pc + 1)),
        opcode::LADD => Ok((Instruction::Binary(BinaryOp::LongAdd), pc + 1)),
        opcode::ISUB => Ok((Instruction::Binary(BinaryOp::IntSub), pc + 1)),
        opcode::LSUB => Ok((Instruction::Binary(BinaryOp::LongSub), pc + 1)),
        opcode::IMUL => Ok((Instruction::Binary(BinaryOp::IntMul), pc + 1)),
        opcode::LMUL => Ok((Instruction::Binary(BinaryOp::LongMul), pc + 1)),
        opcode::IDIV => Ok((Instruction::Binary(BinaryOp::IntDiv), pc + 1)),
        opcode::LDIV => Ok((Instruction::Binary(BinaryOp::LongDiv), pc + 1)),
        opcode::IREM => Ok((Instruction::Binary(BinaryOp::IntRem), pc + 1)),
        opcode::LREM => Ok((Instruction::Binary(BinaryOp::LongRem), pc + 1)),
        opcode::ISHL => Ok((Instruction::Binary(BinaryOp::IntShl), pc + 1)),
        opcode::LSHL => Ok((Instruction::Binary(BinaryOp::LongShl), pc + 1)),
        opcode::ISHR => Ok((Instruction::Binary(BinaryOp::IntShr), pc + 1)),
        opcode::LSHR => Ok((Instruction::Binary(BinaryOp::LongShr), pc + 1)),
        opcode::IUSHR => Ok((Instruction::Binary(BinaryOp::IntUshr), pc + 1)),
        opcode::LUSHR => Ok((Instruction::Binary(BinaryOp::LongUshr), pc + 1)),
        opcode::IAND => Ok((Instruction::Binary(BinaryOp::IntAnd), pc + 1)),
        opcode::LAND => Ok((Instruction::Binary(BinaryOp::LongAnd), pc + 1)),
        opcode::IOR => Ok((Instruction::Binary(BinaryOp::IntOr), pc + 1)),
        opcode::LOR => Ok((Instruction::Binary(BinaryOp::LongOr), pc + 1)),
        opcode::IXOR => Ok((Instruction::Binary(BinaryOp::IntXor), pc + 1)),
        opcode::LXOR => Ok((Instruction::Binary(BinaryOp::LongXor), pc + 1)),
        opcode::FADD
        | opcode::FSUB
        | opcode::FMUL
        | opcode::FDIV
        | opcode::FREM => Ok((Instruction::HostBinary('F'), pc + 1)),
        opcode::DADD
        | opcode::DSUB
        | opcode::DMUL
        | opcode::DDIV
        | opcode::DREM => Ok((Instruction::HostBinary('D'), pc + 1)),
        opcode::INEG => Ok((Instruction::Unary(UnaryOp::IntNeg), pc + 1)),
        opcode::LNEG => Ok((Instruction::Unary(UnaryOp::LongNeg), pc + 1)),
        opcode::FNEG => Ok((Instruction::Unary(UnaryOp::FloatNeg), pc + 1)),
        opcode::DNEG => Ok((Instruction::Unary(UnaryOp::DoubleNeg), pc + 1)),
        opcode::IINC => match (byte_operand(code, pc), second_byte_operand(code, pc)) {
                (Some(index), Some(delta)) => Ok(
                    (Instruction::Iinc(widen(index), sign_extend_8(delta)), pc + 3),
                ),
                _ => Err(MistError::IllegalOpcode),
            },
        opcode::I2L => Ok((Instruction::Unary(UnaryOp::IntToLong), pc + 1)),
        opcode::I2F | opcode::I2D => Ok((Instruction::HostUnary('I'), pc + 1)),
        opcode::L2I => Ok((Instruction::Unary(UnaryOp::LongToInt), pc + 1)),
        opcode::L2F | opcode::L2D => Ok((Instruction::HostUnary('J'), pc + 1)),
        opcode::F2I => Ok((Instruction::Unary(UnaryOp::FloatToInt), pc + 1)),
        opcode::F2L => Ok((Instruction::Unary(UnaryOp::FloatToLong), pc + 1)),
        opcode::F2D => Ok((Instruction::HostUnary('F'), pc + 1)),
        opcode::D2I => Ok((Instruction::Unary(UnaryOp::DoubleToInt), pc + 1)),
        opcode::D2L => Ok((Instruction::Unary(UnaryOp::DoubleToLong), pc + 1)),
        opcode::D2F => Ok((Instruction::HostUnary('D'), pc + 1)),
        opcode::I2B => Ok((Instruction::Unary(UnaryOp::IntToByte), pc + 1)),
        opcode::I2C => Ok((Instruction::Unary(UnaryOp::IntToChar), pc + 1)),
        opcode::I2S => Ok((Instruction::Unary(UnaryOp::IntToShort), pc + 1)),
        opcode::LCMP => Ok((Instruction::Binary(BinaryOp::LongCompare), pc + 1)),
        opcode::FCMPL => Ok((Instruction::Binary(BinaryOp::FloatCompareLow), pc + 1)),
        opcode::FCMPG => Ok((Instruction::Binary(BinaryOp::FloatCompareHigh), pc + 1)),
        opcode::DCMPL => Ok((Instruction::Binary(BinaryOp::DoubleCompareLow), pc + 1)),
        opcode::DCMPG => Ok((Instruction::Binary(BinaryOp::DoubleCompareHigh), pc + 1)),
        opcode::IFEQ => match near_target(code, pc) {
                Some(target) => Ok((Instruction::If(Condition::Eq, target), pc + 3)),
                None => Err(MistError::IllegalOpcode),
            },
        opcode::IFNE => match near_target(code, pc) {
                Some(target) => Ok((Instruction::If(Condition::Ne, target), pc + 3)),
                None => Err(MistError::IllegalOpcode),
            },
        opcode::IFLT => match near_target(code, pc) {
                Some(target) => Ok((Instruction::If(Condition::Lt, target), pc + 3)),
                None => Err(MistError::IllegalOpcode),
            },
        opcode::IFGE => match near_target(code, pc) {
                Some(target) => Ok((Instruction::If(Condition::Ge, target), pc + 3)),
                None => Err(MistError::IllegalOpcode),
            },
        opcode::IFGT => match near_target(code, pc) {
                Some(target) => Ok((Instruction::If(Condition::Gt, target), pc + 3)),
                None => Err(MistError::IllegalOpcode),
            },
        opcode::IFLE => match near_target(code, pc) {
                Some(target) => Ok((Instruction::If(Condition::Le, target), pc + 3)),
                None => Err(MistError::IllegalOpcode),
            },
        opcode::IF_ICMPEQ => match near_target(code, pc) {
                Some(target) => Ok((Instruction::IfInt(Condition::Eq, target), pc + 3)),
                None => Err(MistError::IllegalOpcode),
            },
        opcode::IF_ICMPNE => match near_target(code, pc) {
                Some(target) => Ok((Instruction::IfInt(Condition::Ne, target), pc + 3)),
                None => Err(MistError::IllegalOpcode),
            },
        opcode::IF_ICMPLT => match near_target(code, pc) {
                Some(target) => Ok((Instruction::IfInt(Condition::Lt, target), pc + 3)),
                None => Err(MistError::IllegalOpcode),
            },
        opcode::IF_ICMPGE => match near_target(code, pc) {
                Some(target) => Ok((Instruction::IfInt(Condition::Ge, target), pc + 3)),
                None => Err(MistError::IllegalOpcode),
            },
        opcode::IF_ICMPGT => match near_target(code, pc) {
                Some(target) => Ok((Instruction::IfInt(Condition::Gt, target), pc + 3)),
                None => Err(MistError::IllegalOpcode),
            },
        opcode::IF_ICMPLE => match near_target(code, pc) {
                Some(target) => Ok((Instruction::IfInt(Condition::Le, target), pc + 3)),
                None => Err(MistError::IllegalOpcode),
            },
        opcode::IF_ACMPEQ => match near_target(code, pc) {
                Some(target) => Ok((Instruction::IfRef(true, target), pc + 3)),
                None => Err(MistError::IllegalOpcode),
            },
        opcode::IF_ACMPNE => match near_target(code, pc) {
                Some(target) => Ok((Instruction::IfRef(false, target), pc + 3)),
                None => Err(MistError::IllegalOpcode),
            },
        opcode::GOTO => match near_target(code, pc) {
                Some(target) => Ok((Instruction::Goto(target), pc + 3)),
                None => Err(MistError::IllegalOpcode),
            },
        opcode::IRETURN
        | opcode::LRETURN
        | opcode::FRETURN
        | opcode::DRETURN
        | opcode::ARETURN => Ok((Instruction::Return(true), pc + 1)),
        opcode::RETURN => Ok((Instruction::Return(false), pc + 1)),
        opcode::INVOKESTATIC => match index_operand(code, pc) {
                Some(index) => Ok((Instruction::InvokeStatic(index), pc + 3)),
                None => Err(MistError::IllegalOpcode),
            },
        opcode::NEWARRAY => match byte_operand(code, pc) {
                Some(atype) => Ok((Instruction::NewArray(atype), pc + 2)),
                None => Err(MistError::IllegalOpcode),
            },
        opcode::IFNULL => match near_target(code, pc) {
                Some(target) => Ok((Instruction::IfNull(true, target), pc + 3)),
                None => Err(MistError::IllegalOpcode),
            },
        opcode::IFNONNULL => match near_target(code, pc) {
                Some(target) => Ok((Instruction::IfNull(false, target), pc + 3)),
                None => Err(MistError::IllegalOpcode),
            },
        opcode::GOTO_W => match far_target(code, pc) {
                Some(target) => Ok((Instruction::Goto(target), pc + 5)),
                None => Err(MistError::IllegalOpcode),
            },
        opcode::JSR
        | opcode::RET
        | opcode::TABLESWITCH
        | opcode::LOOKUPSWITCH
        | opcode::GETSTATIC
        | opcode::PUTSTATIC
        | opcode::GETFIELD
        | opcode::PUTFIELD
        | opcode::INVOKEVIRTUAL
        | opcode::INVOKESPECIAL
        | opcode::INVOKEINTERFACE
        | opcode::INVOKEDYNAMIC
        | opcode::NEW
        | opcode::ANEWARRAY
        | opcode::ARRAYLENGTH
        | opcode::ATHROW
        | opcode::CHECKCAST
        | opcode::INSTANCEOF
        | opcode::WIDE
        | opcode::MULTIANEWARRAY
        | opcode::JSR_W => Ok((Instruction::Unimplemented, pc)),
        _ => Err(MistError::IllegalOpcode),
    }
}

} // verus!
