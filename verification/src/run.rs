//! The interpreter: frames, the effect of one instruction, and the machine
//! that carries instructions out one after another.
//!
//! What the machine does is stated by [`step_of`], over the views of its
//! state. The machine computes neither floating-point results nor native
//! methods: it stops with a [`HostCall`], and goes on when the host has fed
//! the answer back by [`RuntimeContext::resume`].

use crate::class::attribute_info::Code;
use crate::class::context::{class_index, Context};
use crate::class::model::{first_matching, Class};
use crate::class::pool;
use crate::class::pool::{method_ref_at, pool_view, Entry, EntryView};
use crate::descriptor::{frame_locals, parameter_widths, parameters, place_arguments};
use crate::error::MistError;
use crate::heap::{allocated, element, element_written, Heap};
use crate::host::HostCall;
use crate::instruction::{decode, decode_at, Condition, Instruction};
use crate::local::{incremented, loaded, stored, Local};
use crate::numeric::{
    i32_of_bits, i64_of_bits, narrow_to_i16, narrow_to_i8, narrow_to_u16, wrap_i16, wrap_i32,
    wrap_i64, wrap_i8, wrap_u16,
};
use crate::stack::{
    below, binary_on, popped, pushed, reshaped, taken, taken_pair, top, unary_on, MistStack,
};
use crate::value::MistValue;
use vstd::prelude::*;

verus! {

/// The name of the method that a boot starts.
pub const MAIN: &'static str = "main";

/// The descriptor of the main method.

pub const MAIN_DESCRIPTOR: &'static str = "([Ljava/lang/String;)J";

/// How a step of the machine ended.
#[derive(Debug, PartialEq, Eq)]
pub enum Step {
    /// An instruction was carried out; the machine can go on.
    Running,
    /// The outermost frame has ended, with this result.
    Returned(Option<MistValue>),
    /// The machine waits for the host's answer to this call.
    Host(HostCall),
    /// The instruction failed, and the machine is as it was before the step.
    Failed(MistError),
}

/// What a [`Step`] says.
pub enum Outcome {
    Running,
    Returned(Option<MistValue>),
    Native { id: usize, locals: Seq<MistValue> },
    Unary { opcode: u8, value: MistValue },
    Binary { opcode: u8, lhs: MistValue, rhs: MistValue },
    Failed(MistError),
}

impl View for Step {
    type V = Outcome;

    open spec fn view(&self) -> Outcome {
        match *self {
            Step::Running => Outcome::Running,
            Step::Returned(v) => Outcome::Returned(v),
            Step::Host(HostCall::Native { id, locals }) => Outcome::Native { id, locals: locals@ },
            Step::Host(HostCall::Unary { opcode, value }) => Outcome::Unary { opcode, value },
            Step::Host(HostCall::Binary { opcode, lhs, rhs }) => Outcome::Binary {
                opcode,
                lhs,
                rhs,
            },
            Step::Failed(e) => Outcome::Failed(e),
        }
    }
}

/// The state of one method invocation.
#[derive(Debug)]
pub struct Frame<'a> {
    code: &'a Code,
    pool: &'a [Entry],
    pc: usize,
    local: Local,
    stack: MistStack,
}

/// What a [`Frame`] holds.
pub struct FrameView {
    /// The bytecode of the method.
    pub code: Seq<u8>,
    /// The host's callable that stands for the method, if it is native.
    pub native: Option<usize>,
    /// The constant pool of the method's class.
    pub pool: Seq<EntryView>,
    /// The offset in `code` of the next instruction.
    pub pc: usize,
    pub locals: Seq<MistValue>,
    pub stack: Seq<MistValue>,
    /// The greatest number of cells that the operand stack takes.
    pub limit: nat,
}

impl<'a> View for Frame<'a> {
    type V = FrameView;

    closed spec fn view(&self) -> FrameView {
        FrameView {
            code: self.code.code@,
            native: self.code.native,
            pool: pool_view(self.pool@),
            pc: self.pc,
            locals: self.local@,
            stack: self.stack@,
            limit: self.stack.limit(),
        }
    }
}

/// The state of the machine: its frames, the innermost last, and its heap.
pub struct MachineView {
    pub frames: Seq<FrameView>,
    pub heap: Seq<Seq<MistValue>>,
}

/// The frame in which a call of `code`, a method of a class with the constant
/// pool `pool`, starts on the locals `locals`.
pub open spec fn entry_frame(code: Code, pool: Seq<EntryView>, locals: Seq<MistValue>) -> FrameView {
    FrameView {
        code: code.code@,
        native: code.native,
        pool,
        pc: 0,
        locals,
        stack: Seq::empty(),
        limit: code.max_stack as nat,
    }
}

/// Whether `x` compares with `y` as `condition` says.
pub open spec fn holds(condition: Condition, x: i32, y: i32) -> bool {
    match condition {
        Condition::Eq => x == y,
        Condition::Ne => x != y,
        Condition::Lt => x < y,
        Condition::Ge => x >= y,
        Condition::Gt => x > y,
        Condition::Le => x <= y,
    }
}

/// The cell that `ldc` pushes for the pool entry at `index`: an int or a
/// float. A string or a class constant is `Unimplemented`; anything else,
/// index 0 and an index outside the pool included, is an `InvalidReference`.
pub open spec fn constant_at(pool: Seq<EntryView>, index: u16) -> Result<MistValue, MistError> {
    if 0 < index < pool.len() {
        match pool[index as int] {
            EntryView::IntegerInfo { bytes } => Ok(MistValue::Integer(wrap_i32(bytes as int))),
            EntryView::FloatInfo { bytes } => Ok(MistValue::Float(bytes)),
            EntryView::StringInfo { .. } => Err(MistError::Unimplemented),
            EntryView::ClassInfo { .. } => Err(MistError::Unimplemented),
            _ => Err(MistError::InvalidReference),
        }
    } else {
        Err(MistError::InvalidReference)
    }
}

/// The cell that `ldc2_w` pushes for the pool entry at `index`: a long or a
/// double, made of the entry's high and low word. Anything else is an
/// `InvalidReference`.
pub open spec fn wide_constant_at(pool: Seq<EntryView>, index: u16) -> Result<
    MistValue,
    MistError,
> {
    if 0 < index < pool.len() {
        match pool[index as int] {
            EntryView::LongInfo { high_bytes, low_bytes } => Ok(
                MistValue::Long(wrap_i64(high_bytes * 0x1_0000_0000 + low_bytes)),
            ),
            EntryView::DoubleInfo { high_bytes, low_bytes } => Ok(
                MistValue::Double((high_bytes * 0x1_0000_0000 + low_bytes) as u64),
            ),
            _ => Err(MistError::InvalidReference),
        }
    } else {
        Err(MistError::InvalidReference)
    }
}

/// What an array load of the kind `tag` pushes for the element `cell`: the
/// cell itself where it is an int, a long, a float, a double or a reference,
/// and the int of the same value for a byte, a boolean, a char or a short.
/// An element of another kind than the instruction reads is a
/// `TypeMismatch`.
pub open spec fn array_read(tag: char, cell: MistValue) -> Result<MistValue, MistError> {
    match cell {
        MistValue::Integer(_) if tag == 'I' => Ok(cell),
        MistValue::Long(_) if tag == 'J' => Ok(cell),
        MistValue::Float(_) if tag == 'F' => Ok(cell),
        MistValue::Double(_) if tag == 'D' => Ok(cell),
        MistValue::ObjectReference(_) if tag == 'A' => Ok(cell),
        MistValue::Byte(b) if tag == 'B' => Ok(MistValue::Integer(b as i32)),
        MistValue::Boolean(b) if tag == 'B' => Ok(
            MistValue::Integer(
                if b {
                    1i32
                } else {
                    0i32
                },
            ),
        ),
        MistValue::Char(c) if tag == 'C' => Ok(MistValue::Integer(c as i32)),
        MistValue::Short(s) if tag == 'S' => Ok(MistValue::Integer(s as i32)),
        _ => Err(MistError::TypeMismatch),
    }
}

/// The cell that an array store of the kind `tag` writes over the element
/// `cell` for the operand `value`: the operand itself where the element is
/// of its kind, and the low bits of an int operand for a byte, a char or a
/// short, its lowest bit for a boolean. An operand or an element of another
/// kind than the instruction writes is a `TypeMismatch`.
pub open spec fn array_write(tag: char, cell: MistValue, value: MistValue) -> Result<
    MistValue,
    MistError,
> {
    match (cell, value) {
        (MistValue::Integer(_), MistValue::Integer(_)) if tag == 'I' => Ok(value),
        (MistValue::Long(_), MistValue::Long(_)) if tag == 'J' => Ok(value),
        (MistValue::Float(_), MistValue::Float(_)) if tag == 'F' => Ok(value),
        (MistValue::Double(_), MistValue::Double(_)) if tag == 'D' => Ok(value),
        (MistValue::ObjectReference(_), MistValue::ObjectReference(_)) if tag == 'A' => Ok(value),
        (MistValue::Byte(_), MistValue::Integer(x)) if tag == 'B' => Ok(
            MistValue::Byte(wrap_i8(x as int)),
        ),
        (MistValue::Boolean(_), MistValue::Integer(x)) if tag == 'B' => Ok(
            MistValue::Boolean(x as int % 2 != 0),
        ),
        (MistValue::Char(_), MistValue::Integer(x)) if tag == 'C' => Ok(
            MistValue::Char(wrap_u16(x as int)),
        ),
        (MistValue::Short(_), MistValue::Integer(x)) if tag == 'S' => Ok(
            MistValue::Short(wrap_i16(x as int)),
        ),
        _ => Err(MistError::TypeMismatch),
    }
}

/// The frame `f` gone on to `next` with the operand stack that `stack` tells
/// of, or the failure that it tells of.
pub open spec fn advanced(f: FrameView, next: usize, stack: Result<Seq<MistValue>, MistError>) -> (
    FrameView,
    Outcome,
) {
    match stack {
        Ok(s) => (FrameView { stack: s, pc: next, ..f }, Outcome::Running),
        Err(e) => (f, Outcome::Failed(e)),
    }
}

/// The frame `f` after a branch: its operands `rest` left on the stack, at
/// `target` if `taken_branch` and at `next` if not.
pub open spec fn branched(
    f: FrameView,
    rest: Seq<MistValue>,
    taken_branch: bool,
    target: usize,
    next: usize,
) -> (FrameView, Outcome) {
    (
        FrameView {
            stack: rest,
            pc: if taken_branch {
                target
            } else {
                next
            },
            ..f
        },
        Outcome::Running,
    )
}

/// Whether `instruction` touches nothing but the frame that it runs in.
pub open spec fn is_local(instruction: Instruction) -> bool {
    match instruction {
        Instruction::Return(_) => false,
        Instruction::InvokeStatic(_) => false,
        Instruction::NewArray(_) => false,
        Instruction::ArrayLoad(_) => false,
        Instruction::ArrayStore(_) => false,
        _ => true,
    }
}

/// The effect on the frame `f` of an instruction that touches nothing else,
/// where `next` is the offset of the instruction behind it.
///
/// An instruction that fails leaves the frame as it was. An instruction for
/// the host's floating-point unit takes its operands off the stack and goes
/// on to `next`; its result comes in by a resume.
pub open spec fn local_effect(f: FrameView, instruction: Instruction, next: usize) -> (
    FrameView,
    Outcome,
) {
    match instruction {
        Instruction::Nop => advanced(f, next, Ok(f.stack)),
        Instruction::Push(v) => advanced(f, next, pushed(f.stack, f.limit, v)),
        Instruction::Ldc(index) => match constant_at(f.pool, index) {
            Ok(v) => advanced(f, next, pushed(f.stack, f.limit, v)),
            Err(e) => (f, Outcome::Failed(e)),
        },
        Instruction::Ldc2(index) => match wide_constant_at(f.pool, index) {
            Ok(v) => advanced(f, next, pushed(f.stack, f.limit, v)),
            Err(e) => (f, Outcome::Failed(e)),
        },
        Instruction::Load(index) => match loaded(f.locals, index as int) {
            Ok(v) => advanced(f, next, pushed(f.stack, f.limit, v)),
            Err(e) => (f, Outcome::Failed(e)),
        },
        Instruction::Store(index) => match popped(f.stack) {
            Ok((rest, v)) => match stored(f.locals, index as int, v) {
                Ok(locals) => (
                    FrameView { locals, stack: rest, pc: next, ..f },
                    Outcome::Running,
                ),
                Err(e) => (f, Outcome::Failed(e)),
            },
            Err(e) => (f, Outcome::Failed(e)),
        },
        Instruction::Iinc(index, delta) => match incremented(f.locals, index as int, delta) {
            Ok(locals) => (FrameView { locals, pc: next, ..f }, Outcome::Running),
            Err(e) => (f, Outcome::Failed(e)),
        },
        Instruction::Shape(shape) => advanced(f, next, reshaped(f.stack, f.limit, shape)),
        Instruction::Unary(op) => advanced(f, next, unary_on(f.stack, op)),
        Instruction::Binary(op) => advanced(f, next, binary_on(f.stack, op)),
        Instruction::HostUnary(tag) => match taken(f.stack, tag) {
            Ok((rest, value)) => (
                FrameView { stack: rest, pc: next, ..f },
                Outcome::Unary { opcode: f.code[f.pc as int], value },
            ),
            Err(e) => (f, Outcome::Failed(e)),
        },
        Instruction::HostBinary(tag) => match taken_pair(f.stack, tag) {
            Ok((rest, lhs, rhs)) => (
                FrameView { stack: rest, pc: next, ..f },
                Outcome::Binary { opcode: f.code[f.pc as int], lhs, rhs },
            ),
            Err(e) => (f, Outcome::Failed(e)),
        },
        Instruction::If(condition, target) => match taken(f.stack, 'I') {
            Ok((rest, MistValue::Integer(x))) => branched(
                f,
                rest,
                holds(condition, x, 0),
                target,
                next,
            ),
            Ok(_) => (f, Outcome::Failed(MistError::TypeMismatch)),
            Err(e) => (f, Outcome::Failed(e)),
        },
        Instruction::IfInt(condition, target) => match taken_pair(f.stack, 'I') {
            Ok((rest, MistValue::Integer(x), MistValue::Integer(y))) => branched(
                f,
                rest,
                holds(condition, x, y),
                target,
                next,
            ),
            Ok(_) => (f, Outcome::Failed(MistError::TypeMismatch)),
            Err(e) => (f, Outcome::Failed(e)),
        },
        Instruction::IfRef(equal, target) => match taken_pair(f.stack, 'A') {
            Ok((rest, MistValue::ObjectReference(x), MistValue::ObjectReference(y))) => branched(
                f,
                rest,
                (x == y) == equal,
                target,
                next,
            ),
            Ok(_) => (f, Outcome::Failed(MistError::TypeMismatch)),
            Err(e) => (f, Outcome::Failed(e)),
        },
        Instruction::IfNull(null, target) => match taken(f.stack, 'A') {
            Ok((rest, MistValue::ObjectReference(x))) => branched(
                f,
                rest,
                (x == 0) == null,
                target,
                next,
            ),
            Ok(_) => (f, Outcome::Failed(MistError::TypeMismatch)),
            Err(e) => (f, Outcome::Failed(e)),
        },
        Instruction::Goto(target) => (FrameView { pc: target, ..f }, Outcome::Running),
        _ => (f, Outcome::Failed(MistError::Unimplemented)),
    }
}

fn constant(pool: &[Entry], index: u16) -> (r: Result<MistValue, MistError>)
    ensures
        r == constant_at(pool_view(pool@), index),
{
    if index == 0 || index as usize >= pool.len() {
        return Err(MistError::InvalidReference);
    }
    match &pool[index as usize] {
        Entry::IntegerInfo { bytes } => Ok(MistValue::Integer(i32_of_bits(*bytes))),
        Entry::FloatInfo { bytes } => Ok(MistValue::Float(*bytes)),
        Entry::StringInfo { .. } => Err(MistError::Unimplemented),
        Entry::ClassInfo { .. } => Err(MistError::Unimplemented),
        _ => Err(MistError::InvalidReference),
    }
}

fn wide_constant(pool: &[Entry], index: u16) -> (r: Result<MistValue, MistError>)
    ensures
        r == wide_constant_at(pool_view(pool@), index),
{
    if index == 0 || index as usize >= pool.len() {
        return Err(MistError::InvalidReference);
    }
    match &pool[index as usize] {
        Entry::LongInfo { high_bytes, low_bytes } => {
            let bits: u64 = *high_bytes as u64 * 0x1_0000_0000 + *low_bytes as u64;
            Ok(MistValue::Long(i64_of_bits(bits)))
        },
        Entry::DoubleInfo { high_bytes, low_bytes } => {
            let bits: u64 = *high_bytes as u64 * 0x1_0000_0000 + *low_bytes as u64;
            Ok(MistValue::Double(bits))
        },
        _ => Err(MistError::InvalidReference),
    }
}

fn compare(condition: Condition, x: i32, y: i32) -> (r: bool)
    ensures
        r == holds(condition, x, y),
{
    match condition {
        Condition::Eq => x == y,
        Condition::Ne => x != y,
        Condition::Lt => x < y,
        Condition::Ge => x >= y,
        Condition::Gt => x > y,
        Condition::Le => x <= y,
    }
}

fn read_element(tag: char, cell: MistValue) -> (r: Result<MistValue, MistError>)
    ensures
        r == array_read(tag, cell),
{
    match cell {
        MistValue::Integer(_) => if tag == 'I' {
            Ok(cell)
        } else {
            Err(MistError::TypeMismatch)
        },
        MistValue::Long(_) => if tag == 'J' {
            Ok(cell)
        } else {
            Err(MistError::TypeMismatch)
        },
        MistValue::Float(_) => if tag == 'F' {
            Ok(cell)
        } else {
            Err(MistError::TypeMismatch)
        },
        MistValue::Double(_) => if tag == 'D' {
            Ok(cell)
        } else {
            Err(MistError::TypeMismatch)
        },
        MistValue::ObjectReference(_) => if tag == 'A' {
            Ok(cell)
        } else {
            Err(MistError::TypeMismatch)
        },
        MistValue::Byte(b) => if tag == 'B' {
            Ok(MistValue::Integer(b as i32))
        } else {
            Err(MistError::TypeMismatch)
        },
        MistValue::Boolean(b) => if tag == 'B' {
            Ok(
                MistValue::Integer(
                    if b {
                        1
                    } else {
                        0
                    },
                ),
            )
        } else {
            Err(MistError::TypeMismatch)
        },
        MistValue::Char(c) => if tag == 'C' {
            Ok(MistValue::Integer(c as i32))
        } else {
            Err(MistError::TypeMismatch)
        },
        MistValue::Short(v) => if tag == 'S' {
            Ok(MistValue::Integer(v as i32))
        } else {
            Err(MistError::TypeMismatch)
        },
    }
}

fn is_odd(x: i32) -> (r: bool)
    ensures
        r == (x as int % 2 != 0),
{
    match x.checked_rem_euclid(2) {
        Some(m) => m != 0,
        None => false,
    }
}

fn write_element(tag: char, cell: MistValue, value: MistValue) -> (r: Result<MistValue, MistError>)
    ensures
        r == array_write(tag, cell, value),
{
    match (cell, value) {
        (MistValue::Integer(_), MistValue::Integer(_)) => if tag == 'I' {
            Ok(value)
        } else {
            Err(MistError::TypeMismatch)
        },
        (MistValue::Long(_), MistValue::Long(_)) => if tag == 'J' {
            Ok(value)
        } else {
            Err(MistError::TypeMismatch)
        },
        (MistValue::Float(_), MistValue::Float(_)) => if tag == 'F' {
            Ok(value)
        } else {
            Err(MistError::TypeMismatch)
        },
        (MistValue::Double(_), MistValue::Double(_)) => if tag == 'D' {
            Ok(value)
        } else {
            Err(MistError::TypeMismatch)
        },
        (MistValue::ObjectReference(_), MistValue::ObjectReference(_)) => if tag == 'A' {
            Ok(value)
        } else {
            Err(MistError::TypeMismatch)
        },
        (MistValue::Byte(_), MistValue::Integer(x)) => if tag == 'B' {
            Ok(MistValue::Byte(narrow_to_i8(x)))
        } else {
            Err(MistError::TypeMismatch)
        },
        (MistValue::Boolean(_), MistValue::Integer(x)) => if tag == 'B' {
            Ok(MistValue::Boolean(is_odd(x)))
        } else {
            Err(MistError::TypeMismatch)
        },
        (MistValue::Char(_), MistValue::Integer(x)) => if tag == 'C' {
            Ok(MistValue::Char(narrow_to_u16(x)))
        } else {
            Err(MistError::TypeMismatch)
        },
        (MistValue::Short(_), MistValue::Integer(x)) => if tag == 'S' {
            Ok(MistValue::Short(narrow_to_i16(x)))
        } else {
            Err(MistError::TypeMismatch)
        },
        _ => Err(MistError::TypeMismatch),
    }
}

impl<'a> Frame<'a> {
    /// The frame in which a call of `code` starts on the locals `local`:
    /// at offset 0, with an empty operand stack of the method's limit.
    pub fn new(code: &'a Code, constant_pool: &'a [Entry], local: Local) -> (frame: Frame<'a>)
        ensures
            frame@ == entry_frame(*code, pool_view(constant_pool@), local@),
    {
        Frame {
            code,
            pool: constant_pool,
            pc: 0,
            local,
            stack: MistStack::new(code.max_stack as usize),
        }
    }

    /// The body of the method that the frame runs.
    pub fn code(&self) -> (code: &Code)
        ensures
            code.code@ == self@.code,
            code.native == self@.native,
    {
        self.code
    }

    /// The constant pool of the method's class.
    pub fn constant_pool(&self) -> (constant_pool: &[Entry])
        ensures
            pool_view(constant_pool@) == self@.pool,
    {
        self.pool
    }

    /// The offset of the next instruction.
    pub fn pc(&self) -> (pc: usize)
        ensures
            pc == self@.pc,
    {
        self.pc
    }

    /// The operand stack.
    pub fn stack(&self) -> (stack: &MistStack)
        ensures
            stack@ == self@.stack,
            stack.limit() == self@.limit,
    {
        &self.stack
    }

    /// The local variables.
    pub fn local(&self) -> (local: &Local)
        ensures
            local@ == self@.locals,
    {
        &self.local
    }

    /// Goes on to `next` if the stack operation that gave `r` took effect.
    fn settle(&mut self, r: Result<(), MistError>, next: usize) -> (step: Step)
        ensures
            final(self)@ == (match r {
                Ok(_) => FrameView { pc: next, ..old(self)@ },
                Err(_) => old(self)@,
            }),
            step@ == (match r {
                Ok(_) => Outcome::Running,
                Err(e) => Outcome::Failed(e),
            }),
    {
        match r {
            Ok(()) => {
                self.pc = next;
                Step::Running
            },
            Err(e) => Step::Failed(e),
        }
    }

    /// Carries out an instruction that touches nothing but this frame; see
    /// [`local_effect`].
    fn execute(&mut self, instruction: Instruction, next: usize) -> (step: Step)
        requires
            is_local(instruction),
            old(self)@.pc < old(self)@.code.len(),
        ensures
            (final(self)@, step@) == local_effect(old(self)@, instruction, next),
    {
        match instruction {
            Instruction::Nop => {
                self.pc = next;
                Step::Running
            },
            Instruction::Push(v) => {
                let r = self.stack.push(v);
                self.settle(r, next)
            },
            Instruction::Ldc(index) => match constant(self.pool, index) {
                Ok(v) => {
                    let r = self.stack.push(v);
                    self.settle(r, next)
                },
                Err(e) => Step::Failed(e),
            },
            Instruction::Ldc2(index) => match wide_constant(self.pool, index) {
                Ok(v) => {
                    let r = self.stack.push(v);
                    self.settle(r, next)
                },
                Err(e) => Step::Failed(e),
            },
            Instruction::Load(index) => match self.local.load(index) {
                Ok(v) => {
                    let r = self.stack.push(v);
                    self.settle(r, next)
                },
                Err(e) => Step::Failed(e),
            },
            Instruction::Store(index) => match self.stack.peek(0) {
                Some(v) => match self.local.store(index, v) {
                    Ok(()) => {
                        let r = self.stack.discard(1);
                        self.settle(r, next)
                    },
                    Err(e) => Step::Failed(e),
                },
                None => Step::Failed(MistError::StackUnderflow),
            },
            Instruction::Iinc(index, delta) => {
                let r = self.local.iinc(index, delta);
                self.settle(r, next)
            },
            Instruction::Shape(shape) => {
                let r = self.stack.reshape(shape);
                self.settle(r, next)
            },
            Instruction::Unary(op) => {
                let r = self.stack.unary(op);
                self.settle(r, next)
            },
            Instruction::Binary(op) => {
                let r = self.stack.binary(op);
                self.settle(r, next)
            },
            Instruction::HostUnary(tag) => match self.stack.ask_unary(
                self.code.code[self.pc],
                tag,
            ) {
                Ok(call) => {
                    self.pc = next;
                    Step::Host(call)
                },
                Err(e) => Step::Failed(e),
            },
            Instruction::HostBinary(tag) => match self.stack.ask_binary(
                self.code.code[self.pc],
                tag,
            ) {
                Ok(call) => {
                    self.pc = next;
                    Step::Host(call)
                },
                Err(e) => Step::Failed(e),
            },
            Instruction::If(condition, target) => match self.stack.take('I') {
                Ok(MistValue::Integer(x)) => {
                    self.pc = if compare(condition, x, 0) {
                        target
                    } else {
                        next
                    };
                    Step::Running
                },
                Ok(_) => Step::Failed(MistError::TypeMismatch),
                Err(e) => Step::Failed(e),
            },
            Instruction::IfInt(condition, target) => match self.stack.take_pair('I') {
                Ok((MistValue::Integer(x), MistValue::Integer(y))) => {
                    self.pc = if compare(condition, x, y) {
                        target
                    } else {
                        next
                    };
                    Step::Running
                },
                Ok(_) => Step::Failed(MistError::TypeMismatch),
                Err(e) => Step::Failed(e),
            },
            Instruction::IfRef(equal, target) => match self.stack.take_pair('A') {
                Ok((MistValue::ObjectReference(x), MistValue::ObjectReference(y))) => {
                    self.pc = if (x == y) == equal {
                        target
                    } else {
                        next
                    };
                    Step::Running
                },
                Ok(_) => Step::Failed(MistError::TypeMismatch),
                Err(e) => Step::Failed(e),
            },
            Instruction::IfNull(null, target) => match self.stack.take('A') {
                Ok(MistValue::ObjectReference(x)) => {
                    self.pc = if (x == 0) == null {
                        target
                    } else {
                        next
                    };
                    Step::Running
                },
                Ok(_) => Step::Failed(MistError::TypeMismatch),
                Err(e) => Step::Failed(e),
            },
            Instruction::Goto(target) => {
                self.pc = target;
                Step::Running
            },
            _ => Step::Failed(MistError::Unimplemented),
        }
    }
}

/// A floating-point instruction never fails for what its operands hold.
///
/// If the stack holds operands of the kind that the instruction takes, they
/// are handed to the host, a zero divisor as any other; if not, the failure
/// is a `StackUnderflow` or a `TypeMismatch`. No such instruction gives an
/// `ArithmeticError`. The division of floats and that of doubles are such
/// instructions.
pub proof fn lemma_float_instructions_do_not_trap(
    f: FrameView,
    tag: char,
    next: usize,
    code: Seq<u8>,
    pc: usize,
)
    ensures
        local_effect(f, Instruction::HostBinary(tag), next).1 != Outcome::Failed(
            MistError::ArithmeticError,
        ),
        local_effect(f, Instruction::HostUnary(tag), next).1 != Outcome::Failed(
            MistError::ArithmeticError,
        ),
        f.stack.len() >= 2 && top(f.stack, 0).tag() == tag && top(f.stack, 1).tag() == tag
            ==> local_effect(f, Instruction::HostBinary(tag), next).1 == (Outcome::Binary {
            opcode: f.code[f.pc as int],
            lhs: top(f.stack, 1),
            rhs: top(f.stack, 0),
        }),
        pc < code.len() && code[pc as int] == crate::opcode::FDIV ==> decode_at(code, pc) == Ok::<
            (Instruction, usize),
            MistError,
        >((Instruction::HostBinary('F'), (pc + 1) as usize)),
        pc < code.len() && code[pc as int] == crate::opcode::DDIV ==> decode_at(code, pc) == Ok::<
            (Instruction, usize),
            MistError,
        >((Instruction::HostBinary('D'), (pc + 1) as usize)),
{
}

/// The machine `m` with its innermost frame replaced by `f`.
pub open spec fn with_top(m: MachineView, f: FrameView) -> MachineView {
    MachineView { frames: m.frames.drop_last().push(f), heap: m.heap }
}

/// The machine `m` after the host's answer has come in: the answer, if there
/// is one, is pushed in the innermost frame, and a `StackOverflow` there
/// leaves the machine as it was. Where no frame is left, the answer is the
/// result of the whole run.
pub open spec fn resume_of(m: MachineView, answer: Option<MistValue>) -> (MachineView, Outcome) {
    if m.frames.len() == 0 {
        (m, Outcome::Returned(answer))
    } else {
        match answer {
            None => (m, Outcome::Running),
            Some(v) => {
                let f = m.frames.last();
                match pushed(f.stack, f.limit, v) {
                    Ok(stack) => (with_top(m, FrameView { stack, ..f }), Outcome::Running),
                    Err(e) => (m, Outcome::Failed(e)),
                }
            },
        }
    }
}

/// The machine `m` after a return from its innermost frame, which delivers
/// its top cell if `has_value`.
///
/// The frame ends. Where it was the only one, the run has returned; else the
/// cell delivered is pushed in the caller's frame, and a `StackOverflow`
/// there leaves the machine as it was.
pub open spec fn returned(m: MachineView, has_value: bool) -> (MachineView, Outcome) {
    let f = m.frames.last();
    if has_value && f.stack.len() == 0 {
        (m, Outcome::Failed(MistError::StackUnderflow))
    } else {
        let value = if has_value {
            Some(f.stack.last())
        } else {
            None
        };
        let callers = MachineView { frames: m.frames.drop_last(), heap: m.heap };
        if m.frames.len() == 1 {
            (callers, Outcome::Returned(value))
        } else {
            match resume_of(callers, value) {
                (_, Outcome::Failed(e)) => (m, Outcome::Failed(e)),
                (after, _) => (after, Outcome::Running),
            }
        }
    }
}

/// The body of the method that the method reference at `index` of `pool`
/// names, the constant pool of its class, and for each of its parameters
/// whether it is wide.
///
/// `InvalidReference` if the reference does not resolve, if no class of that
/// name is registered, if the class has no method of that name and
/// descriptor, or if the method has no body; `InvalidFormat` if the
/// descriptor is none.
pub open spec fn callee_of(classes: Seq<Class>, pool: Seq<EntryView>, index: u16) -> Result<
    (Code, Seq<EntryView>, Seq<bool>),
    MistError,
> {
    match method_ref_at(pool, index as int) {
        Err(e) => Err(e),
        Ok(member) => match class_index(classes, member.class_name, 0) {
            None => Err(MistError::InvalidReference),
            Some(c) => match first_matching(
                classes[c].methods@,
                member.name,
                member.descriptor,
                0,
            ) {
                None => Err(MistError::InvalidReference),
                Some(k) => match classes[c].methods@[k].body() {
                    None => Err(MistError::InvalidReference),
                    Some(code) => match parameters(member.descriptor) {
                        None => Err(MistError::InvalidFormat),
                        Some(widths) => Ok((code, pool_view(classes[c].constant_pool@), widths)),
                    },
                },
            },
        },
    }
}

/// The machine `m` after the static call of the method reference at `index`,
/// where `next` is the offset of the instruction behind the call.
///
/// The arguments, as many as the descriptor has parameters, are taken off the
/// caller's stack, the last parameter from the top, and the caller goes on to
/// `next`. A new innermost frame starts the callee with the arguments in its
/// locals from slot 0 on: a wide argument fills two slots of a bytecode
/// method's frame and one of a native method's. Any failure leaves the
/// machine as it was.
pub open spec fn invoked(classes: Seq<Class>, m: MachineView, index: u16, next: usize) -> (
    MachineView,
    Outcome,
) {
    let f = m.frames.last();
    match callee_of(classes, f.pool, index) {
        Err(e) => (m, Outcome::Failed(e)),
        Ok((code, callee_pool, widths)) => if f.stack.len() < widths.len() {
            (m, Outcome::Failed(MistError::StackUnderflow))
        } else {
            let arguments = f.stack.subrange(f.stack.len() - widths.len(), f.stack.len() as int);
            match frame_locals(widths, arguments, code.native is Some, code.max_local as nat) {
                Err(e) => (m, Outcome::Failed(e)),
                Ok(locals) => (
                    MachineView {
                        frames: m.frames.drop_last().push(
                            FrameView { stack: below(f.stack, widths.len() as int), pc: next, ..f },
                        ).push(entry_frame(code, callee_pool, locals)),
                        heap: m.heap,
                    },
                    Outcome::Running,
                ),
            }
        },
    }
}

/// The machine `m` after `newarray` of the element kind `atype`: the int on
/// top of the stack is the length, and the reference to the new array takes
/// its place.
pub open spec fn array_created(m: MachineView, atype: u8, next: usize) -> (MachineView, Outcome) {
    let f = m.frames.last();
    match taken(f.stack, 'I') {
        Ok((rest, MistValue::Integer(count))) => match allocated(atype, count) {
            Ok(cells) => (
                MachineView {
                    frames: m.frames.drop_last().push(
                        FrameView {
                            stack: rest.push(MistValue::ObjectReference(m.heap.len() as usize)),
                            pc: next,
                            ..f
                        },
                    ),
                    heap: m.heap.push(cells),
                },
                Outcome::Running,
            ),
            Err(e) => (m, Outcome::Failed(e)),
        },
        Ok(_) => (m, Outcome::Failed(MistError::TypeMismatch)),
        Err(e) => (m, Outcome::Failed(e)),
    }
}

/// The array reference and the index that lie `under` cells under the top of
/// `s`, the index over the reference.
pub open spec fn array_operands(s: Seq<MistValue>, under: int) -> Result<(usize, i32), MistError> {
    if s.len() < under + 2 {
        Err(MistError::StackUnderflow)
    } else {
        match (top(s, under + 1), top(s, under)) {
            (MistValue::ObjectReference(arrayref), MistValue::Integer(index)) => Ok(
                (arrayref, index),
            ),
            _ => Err(MistError::TypeMismatch),
        }
    }
}

/// The machine `m` after an array load of the kind `tag`: the reference and
/// the index on top of the stack give way to the element.
pub open spec fn array_loaded(m: MachineView, tag: char, next: usize) -> (MachineView, Outcome) {
    let f = m.frames.last();
    match array_operands(f.stack, 0) {
        Err(e) => (m, Outcome::Failed(e)),
        Ok((arrayref, index)) => match element(m.heap, arrayref as int, index as int) {
            Err(e) => (m, Outcome::Failed(e)),
            Ok(cell) => match array_read(tag, cell) {
                Err(e) => (m, Outcome::Failed(e)),
                Ok(v) => (
                    with_top(m, FrameView { stack: below(f.stack, 2).push(v), pc: next, ..f }),
                    Outcome::Running,
                ),
            },
        },
    }
}

/// The machine `m` after an array store of the kind `tag`: the reference, the
/// index and the value on top of the stack are taken off, and the element is
/// written.
pub open spec fn array_stored(m: MachineView, tag: char, next: usize) -> (MachineView, Outcome) {
    let f = m.frames.last();
    match array_operands(f.stack, 1) {
        Err(e) => (m, Outcome::Failed(e)),
        Ok((arrayref, index)) => match element(m.heap, arrayref as int, index as int) {
            Err(e) => (m, Outcome::Failed(e)),
            Ok(cell) => match array_write(tag, cell, top(f.stack, 0)) {
                Err(e) => (m, Outcome::Failed(e)),
                Ok(v) => (
                    MachineView {
                        frames: m.frames.drop_last().push(
                            FrameView { stack: below(f.stack, 3), pc: next, ..f },
                        ),
                        heap: element_written(m.heap, arrayref as int, index as int, v).unwrap(),
                    },
                    Outcome::Running,
                ),
            },
        },
    }
}

/// The effect of `instruction` on the machine `m`, which has a frame, where
/// `next` is the offset of the instruction behind it.
pub open spec fn effect(classes: Seq<Class>, m: MachineView, instruction: Instruction, next: usize) -> (
    MachineView,
    Outcome,
) {
    match instruction {
        Instruction::Return(has_value) => returned(m, has_value),
        Instruction::InvokeStatic(index) => invoked(classes, m, index, next),
        Instruction::NewArray(atype) => array_created(m, atype, next),
        Instruction::ArrayLoad(tag) => array_loaded(m, tag, next),
        Instruction::ArrayStore(tag) => array_stored(m, tag, next),
        _ => {
            let (f, outcome) = local_effect(m.frames.last(), instruction, next);
            (with_top(m, f), outcome)
        },
    }
}

/// One step of the machine `m` over the registered classes `classes`.
///
/// A machine without a frame has returned. A native frame ends at once and
/// hands its locals to the host. Else the instruction at the innermost
/// frame's offset is decoded and carried out; if it cannot be decoded, or
/// fails, the machine stays as it was.
pub open spec fn step_of(classes: Seq<Class>, m: MachineView) -> (MachineView, Outcome) {
    if m.frames.len() == 0 {
        (m, Outcome::Returned(None))
    } else {
        let f = m.frames.last();
        match f.native {
            Some(id) => (
                MachineView { frames: m.frames.drop_last(), heap: m.heap },
                Outcome::Native { id, locals: f.locals },
            ),
            None => match decode_at(f.code, f.pc) {
                Err(e) => (m, Outcome::Failed(e)),
                Ok((instruction, next)) => effect(classes, m, instruction, next),
            },
        }
    }
}

/// Up to `budget` steps of the machine `m`: it steps for as long as it is
/// running, and stops at the first step that ends otherwise.
pub open spec fn run_of(classes: Seq<Class>, m: MachineView, budget: nat) -> (MachineView, Outcome)
    decreases budget,
{
    if budget == 0 {
        (m, Outcome::Running)
    } else {
        let (after, outcome) = step_of(classes, m);
        if outcome is Running {
            run_of(classes, after, (budget - 1) as nat)
        } else {
            (after, outcome)
        }
    }
}

/// An instruction that touches one frame and fails leaves the frame as it
/// was.
pub proof fn lemma_local_failure_changes_nothing(f: FrameView, instruction: Instruction, next: usize)
    ensures
        local_effect(f, instruction, next).1 is Failed ==> local_effect(f, instruction, next).0
            == f,
{
}

/// A step that fails leaves the machine as it was: its frames, their stacks,
/// locals and offsets, and its heap.
pub proof fn lemma_failure_changes_nothing(classes: Seq<Class>, m: MachineView)
    ensures
        step_of(classes, m).1 is Failed ==> step_of(classes, m).0 == m,
{
    if m.frames.len() > 0 && step_of(classes, m).1 is Failed {
        let f = m.frames.last();
        assert(m.frames.drop_last().push(f) =~= m.frames);
        match decode_at(f.code, f.pc) {
            Err(_) => {},
            Ok((instruction, next)) => {
                lemma_local_failure_changes_nothing(f, instruction, next);
            },
        }
    }
}

/// A run stops as soon as a step does not leave the machine running: if it
/// is still running at its end, it has taken every step of its budget, and a
/// greater budget only carries it on from there.
pub proof fn lemma_run_continues(classes: Seq<Class>, m: MachineView, first: nat, second: nat)
    requires
        run_of(classes, m, first).1 is Running,
    ensures
        run_of(classes, m, first + second) == run_of(
            classes,
            run_of(classes, m, first).0,
            second,
        ),
    decreases first,
{
    if first > 0 {
        let (after, outcome) = step_of(classes, m);
        if outcome is Running {
            lemma_run_continues(classes, after, (first - 1) as nat, second);
        }
    }
}

/// Nothing on the heap is ever reclaimed: a step leaves every object in its
/// place and of its length, the null object at 0 included, and adds at most
/// one array, under the next identifier.
pub proof fn lemma_heap_only_grows(classes: Seq<Class>, m: MachineView, id: int)
    ensures
        m.heap.len() <= step_of(classes, m).0.heap.len() <= m.heap.len() + 1,
        0 <= id < m.heap.len() ==> step_of(classes, m).0.heap[id].len() == m.heap[id].len(),
        resume_of(m, None).0.heap == m.heap,
{
}

/// Whether no operand stack of `m` holds more cells than its limit.
pub open spec fn within_limits(m: MachineView) -> bool {
    forall|i: int|
        0 <= i < m.frames.len() ==> (#[trigger] m.frames[i]).stack.len() <= m.frames[i].limit
}

/// An instruction that touches one frame keeps its operand stack within
/// its limit.
pub proof fn lemma_local_effect_keeps_limit(f: FrameView, instruction: Instruction, next: usize)
    requires
        f.stack.len() <= f.limit,
    ensures
        local_effect(f, instruction, next).0.stack.len() <= local_effect(
            f,
            instruction,
            next,
        ).0.limit,
        local_effect(f, instruction, next).0.limit == f.limit,
{
}

/// The operand stacks are bounded: a machine whose stacks are within their
/// limits, as those of a machine at its start are, has them within their
/// limits after every step and after every answer of the host.
pub proof fn lemma_stacks_stay_within_limits(
    classes: Seq<Class>,
    m: MachineView,
    answer: Option<MistValue>,
    f: FrameView,
)
    requires
        within_limits(m),
    ensures
        within_limits(step_of(classes, m).0),
        within_limits(resume_of(m, answer).0),
        f.stack.len() == 0 ==> within_limits(machine_of(f)),
{
    let n = m.frames.len() as int;
    if n > 0 {
        let top_frame = m.frames.last();
        let rest = m.frames.drop_last();
        assert(top_frame == m.frames[n - 1]);
        assert forall|i: int| 0 <= i < n - 1 implies (#[trigger] rest[i]).stack.len()
            <= rest[i].limit by {
            assert(rest[i] == m.frames[i]);
        }
        let callers = MachineView { frames: rest, heap: m.heap };
        assert(within_limits(callers));
        if n > 1 {
            let others = rest.drop_last();
            assert(rest.last() == m.frames[n - 2]);
            assert forall|i: int| 0 <= i < n - 2 implies (#[trigger] others[i]).stack.len()
                <= others[i].limit by {
                assert(others[i] == m.frames[i]);
            }
        }
        match decode_at(top_frame.code, top_frame.pc) {
            Err(_) => {},
            Ok((instruction, next)) => {
                lemma_local_effect_keeps_limit(top_frame, instruction, next);
            },
        }
    }
}

/// A run keeps the operand stacks within their limits.
pub proof fn lemma_run_stays_within_limits(classes: Seq<Class>, m: MachineView, budget: nat)
    requires
        within_limits(m),
    ensures
        within_limits(run_of(classes, m, budget).0),
    decreases budget,
{
    if budget > 0 {
        lemma_stacks_stay_within_limits(classes, m, None, m.frames[0]);
        let (after, outcome) = step_of(classes, m);
        if outcome is Running {
            lemma_run_stays_within_limits(classes, after, (budget - 1) as nat);
        }
    }
}

/// The frame in which the main method of the class `main_class` starts, if
/// that class is registered and has a main method with a body: the first
/// method called `main` with the descriptor `([Ljava/lang/String;)J`, on
/// locals that all hold the int 0.
pub open spec fn main_frame(classes: Seq<Class>, main_class: Seq<char>) -> Option<FrameView> {
    match class_index(classes, main_class, 0) {
        None => None,
        Some(c) => match first_matching(classes[c].methods@, MAIN@, MAIN_DESCRIPTOR@, 0) {
            None => None,
            Some(k) => match classes[c].methods@[k].body() {
                None => None,
                Some(code) => Some(
                    entry_frame(
                        code,
                        pool_view(classes[c].constant_pool@),
                        Seq::new(code.max_local as nat, |i: int| MistValue::Integer(0)),
                    ),
                ),
            },
        },
    }
}

/// The machine that is about to run the one frame `f` on an empty heap.
pub open spec fn machine_of(f: FrameView) -> MachineView {
    MachineView { frames: seq![f], heap: seq![Seq::<MistValue>::empty()] }
}

/// The machine: the frames of the running invocations, the innermost last,
/// the heap, and the registry that calls are resolved in.
#[derive(Debug)]
pub struct RuntimeContext<'a> {
    context: &'a Context,
    frames: Vec<Frame<'a>>,
    heap: Heap,
}

/// What every frame of a list holds.
pub closed spec fn frames_view(frames: Seq<Frame<'_>>) -> Seq<FrameView> {
    Seq::new(frames.len(), |i: int| frames[i]@)
}

proof fn lemma_frames_view(frames: Seq<Frame<'_>>, f: Frame<'_>)
    ensures
        frames_view(frames).len() == frames.len(),
        frames_view(frames.push(f)) == frames_view(frames).push(f@),
        frames.len() > 0 ==> frames_view(frames).last() == frames.last()@,
        frames.len() > 0 ==> frames_view(frames.drop_last()) == frames_view(frames).drop_last(),
        frames.len() > 0 ==> frames_view(frames.update(frames.len() - 1, f)) == frames_view(
            frames,
        ).drop_last().push(f@),
        frames.len() > 0 ==> frames_view(frames).drop_last().push(frames.last()@) == frames_view(
            frames,
        ),
{
    assert(frames_view(frames.push(f)) =~= frames_view(frames).push(f@));
    if frames.len() > 0 {
        assert(frames_view(frames.drop_last()) =~= frames_view(frames).drop_last());
        assert(frames_view(frames.update(frames.len() - 1, f)) =~= frames_view(
            frames,
        ).drop_last().push(f@));
        assert(frames_view(frames).drop_last().push(frames.last()@) =~= frames_view(frames));
    }
}

impl<'a> View for RuntimeContext<'a> {
    type V = MachineView;

    closed spec fn view(&self) -> MachineView {
        MachineView { frames: frames_view(self.frames@), heap: self.heap@ }
    }
}

impl<'a> RuntimeContext<'a> {
    /// The machine's invariant: its heap is well formed.
    pub closed spec fn wf(&self) -> bool {
        self.heap.wf()
    }

    /// The classes that calls are resolved in.
    pub closed spec fn classes(&self) -> Seq<Class> {
        self.context.classes()
    }

    /// A machine that is about to run `code`, a method of a class with the
    /// constant pool `constant_pool`, on the locals `local` and an empty
    /// heap.
    pub fn new(
        code: &'a Code,
        context: &'a Context,
        constant_pool: &'a [Entry],
        local: Local,
    ) -> (machine: RuntimeContext<'a>)
        ensures
            machine.wf(),
            machine.classes() == context.classes(),
            machine@ == machine_of(entry_frame(*code, pool_view(constant_pool@), local@)),
    {
        let frame = Frame::new(code, constant_pool, local);
        let mut frames: Vec<Frame<'a>> = Vec::new();
        proof {
            lemma_frames_view(frames@, frame);
        }
        frames.push(frame);
        let machine = RuntimeContext { context, frames, heap: Heap::new() };
        assert(machine@.frames =~= seq![entry_frame(*code, pool_view(constant_pool@), local@)]);
        machine
    }

    /// A machine that is about to run `code` as a call would start it: on
    /// fresh locals of the method's size, which all hold the int 0.
    pub fn run_code(code: &'a Code, context: &'a Context, constant_pool: &'a [Entry]) -> (machine:
        RuntimeContext<'a>)
        ensures
            machine.wf(),
            machine.classes() == context.classes(),
            machine@ == machine_of(
                entry_frame(
                    *code,
                    pool_view(constant_pool@),
                    Seq::new(code.max_local as nat, |i: int| MistValue::Integer(0)),
                ),
            ),
    {
        let local = Local::new(code.max_local as usize);
        RuntimeContext::new(code, context, constant_pool, local)
    }

    /// A machine that is about to run the main method of the class
    /// `main_class`; `None` if that class is not registered or has no main
    /// method with a body.
    pub fn boot(context: &'a Context, main_class: &str) -> (r: Option<RuntimeContext<'a>>)
        ensures
            match main_frame(context.classes(), main_class@) {
                Some(f) => r is Some && r->Some_0.wf() && r->Some_0.classes() == context.classes()
                    && r->Some_0@ == machine_of(f),
                None => r is None,
            },
    {
        let class = match context.lookup_class(main_class) {
            Some(class) => class,
            None => {
                return None;
            },
        };
        let main = match class.lookup_method_with_descriptor(MAIN, MAIN_DESCRIPTOR) {
            Some(main) => main,
            None => {
                return None;
            },
        };
        match main.code() {
            Some(code) => Some(
                RuntimeContext::run_code(code, context, class.constant_pool.as_slice()),
            ),
            None => None,
        }
    }

    /// Whether the machine's invariant holds; it does of every machine that
    /// `new`, `run_code` or `boot` gave, whatever was done with it since.
    pub fn is_well_formed(&self) -> (r: bool)
        ensures
            r == self.wf(),
    {
        self.heap.is_well_formed()
    }

    /// The number of frames: the depth of the running invocations.
    pub fn depth(&self) -> (n: usize)
        ensures
            n == self@.frames.len(),
    {
        self.frames.len()
    }

    /// The innermost frame, if the machine has one.
    pub fn frame(&self) -> (r: Option<&Frame<'a>>)
        ensures
            match r {
                Some(f) => self@.frames.len() > 0 && f@ == self@.frames.last(),
                None => self@.frames.len() == 0,
            },
    {
        let n = self.frames.len();
        if n == 0 {
            None
        } else {
            Some(&self.frames[n - 1])
        }
    }

    /// The heap.
    pub fn heap(&self) -> (heap: &Heap)
        ensures
            heap@ == self@.heap,
    {
        &self.heap
    }

    /// Feeds the host's answer to the last call back in; see [`resume_of`].
    pub fn resume(&mut self, answer: Option<MistValue>) -> (step: Step)
        requires
            old(self).wf(),
        ensures
            final(self).wf(),
            final(self).classes() == old(self).classes(),
            (final(self)@, step@) == resume_of(old(self)@, answer),
    {
        let n = self.frames.len();
        if n == 0 {
            return Step::Returned(answer);
        }
        match answer {
            None => Step::Running,
            Some(v) => {
                let ghost before = self.frames@;
                let r = self.frames[n - 1].stack.push(v);
                proof {
                    lemma_frames_view(before, self.frames@[n - 1]);
                    assert(self.frames@ =~= before.update(n - 1, self.frames@[n - 1]));
                }
                match r {
                    Ok(()) => Step::Running,
                    Err(e) => {
                        assert(self.frames@[n - 1]@ == before[n - 1]@);
                        Step::Failed(e)
                    },
                }
            },
        }
    }

    /// Carries out a return; see [`returned`].
    fn leave(&mut self, has_value: bool) -> (step: Step)
        requires
            old(self).wf(),
            old(self)@.frames.len() > 0,
        ensures
            final(self).wf(),
            final(self).classes() == old(self).classes(),
            (final(self)@, step@) == returned(old(self)@, has_value),
    {
        let n = self.frames.len();
        let ghost before = self.frames@;
        proof {
            lemma_frames_view(before, before[n - 1]);
        }
        let value = if has_value {
            match self.frames[n - 1].stack.peek(0) {
                Some(v) => Some(v),
                None => {
                    return Step::Failed(MistError::StackUnderflow);
                },
            }
        } else {
            None
        };
        if n == 1 {
            self.frames.truncate(0);
            assert(self@.frames =~= old(self)@.frames.drop_last());
            return Step::Returned(value);
        }
        proof {
            lemma_frames_view(before.drop_last(), before[n - 2]);
        }
        match value {
            None => {
                self.frames.truncate(n - 1);
                assert(self.frames@ =~= before.drop_last());
                Step::Running
            },
            Some(v) => {
                let caller = &self.frames[n - 2].stack;
                if caller.depth() >= caller.max_depth() {
                    return Step::Failed(MistError::StackOverflow);
                }
                self.frames.truncate(n - 1);
                assert(self.frames@ =~= before.drop_last());
                let ghost callers = self.frames@;
                let r = self.frames[n - 2].stack.push(v);
                proof {
                    lemma_frames_view(callers, self.frames@[n - 2]);
                    assert(self.frames@ =~= callers.update(n - 2, self.frames@[n - 2]));
                }
                Step::Running
            },
        }
    }

    /// Carries out a static call; see [`invoked`].
    fn invoke(&mut self, index: u16, next: usize) -> (step: Step)
        requires
            old(self).wf(),
            old(self)@.frames.len() > 0,
        ensures
            final(self).wf(),
            final(self).classes() == old(self).classes(),
            (final(self)@, step@) == invoked(old(self).classes(), old(self)@, index, next),
    {
        let n = self.frames.len();
        let ghost before = self.frames@;
        proof {
            lemma_frames_view(before, before[n - 1]);
        }
        let context: &'a Context = self.context;
        let constant_pool: &'a [Entry] = self.frames[n - 1].pool;
        let member = match pool::method_ref(constant_pool, index) {
            Ok(member) => member,
            Err(e) => {
                return Step::Failed(e);
            },
        };
        let class = match context.lookup_class(member.class_name) {
            Some(class) => class,
            None => {
                return Step::Failed(MistError::InvalidReference);
            },
        };
        let method = match class.lookup_method_with_descriptor(member.name, member.descriptor) {
            Some(method) => method,
            None => {
                return Step::Failed(MistError::InvalidReference);
            },
        };
        let code = match method.code() {
            Some(code) => code,
            None => {
                return Step::Failed(MistError::InvalidReference);
            },
        };
        let widths = match parameter_widths(member.descriptor) {
            Some(widths) => widths,
            None => {
                return Step::Failed(MistError::InvalidFormat);
            },
        };
        let arguments = match self.frames[n - 1].stack.peek_many(widths.len()) {
            Some(arguments) => arguments,
            None => {
                return Step::Failed(MistError::StackUnderflow);
            },
        };
        let local = match place_arguments(&widths, &arguments, code.is_native(), code.max_local) {
            Ok(local) => local,
            Err(e) => {
                return Step::Failed(e);
            },
        };
        let r = self.frames[n - 1].stack.discard(widths.len());
        self.frames[n - 1].pc = next;
        let ghost caller = self.frames@[n - 1];
        proof {
            assert(self.frames@ =~= before.update(n - 1, caller));
            lemma_frames_view(before, caller);
        }
        let callee = Frame::new(code, class.constant_pool.as_slice(), local);
        proof {
            lemma_frames_view(self.frames@, callee);
        }
        self.frames.push(callee);
        Step::Running
    }

    /// Carries out `newarray`; see [`array_created`].
    fn create_array(&mut self, atype: u8, next: usize) -> (step: Step)
        requires
            old(self).wf(),
            old(self)@.frames.len() > 0,
        ensures
            final(self).wf(),
            final(self).classes() == old(self).classes(),
            (final(self)@, step@) == array_created(old(self)@, atype, next),
    {
        let n = self.frames.len();
        let ghost before = self.frames@;
        proof {
            lemma_frames_view(before, before[n - 1]);
            self.heap.lemma_wf();
        }
        let count = match self.frames[n - 1].stack.peek(0) {
            Some(MistValue::Integer(count)) => count,
            Some(_) => {
                return Step::Failed(MistError::TypeMismatch);
            },
            None => {
                return Step::Failed(MistError::StackUnderflow);
            },
        };
        let id = match self.heap.newarray(atype, count) {
            Ok(id) => id,
            Err(e) => {
                return Step::Failed(e);
            },
        };
        let r = self.frames[n - 1].stack.replace_top(MistValue::ObjectReference(id));
        self.frames[n - 1].pc = next;
        proof {
            assert(self.frames@ =~= before.update(n - 1, self.frames@[n - 1]));
            lemma_frames_view(before, self.frames@[n - 1]);
        }
        Step::Running
    }

    /// The array reference and the index that lie `under` cells under the top
    /// of the innermost frame's stack.
    fn operands(&self, under: usize) -> (r: Result<(usize, i32), MistError>)
        requires
            self@.frames.len() > 0,
            under <= 1,
        ensures
            r == array_operands(self@.frames.last().stack, under as int),
    {
        let n = self.frames.len();
        proof {
            lemma_frames_view(self.frames@, self.frames@[n - 1]);
        }
        let stack = &self.frames[n - 1].stack;
        match (stack.peek(under + 1), stack.peek(under)) {
            (Some(MistValue::ObjectReference(arrayref)), Some(MistValue::Integer(index))) => Ok(
                (arrayref, index),
            ),
            (Some(_), Some(_)) => Err(MistError::TypeMismatch),
            _ => Err(MistError::StackUnderflow),
        }
    }

    /// Carries out an array load; see [`array_loaded`].
    fn load_element(&mut self, tag: char, next: usize) -> (step: Step)
        requires
            old(self).wf(),
            old(self)@.frames.len() > 0,
        ensures
            final(self).wf(),
            final(self).classes() == old(self).classes(),
            (final(self)@, step@) == array_loaded(old(self)@, tag, next),
    {
        let n = self.frames.len();
        let ghost before = self.frames@;
        proof {
            lemma_frames_view(before, before[n - 1]);
        }
        let (arrayref, index) = match self.operands(0) {
            Ok(operands) => operands,
            Err(e) => {
                return Step::Failed(e);
            },
        };
        let cell = match self.heap.load(arrayref, index) {
            Ok(cell) => cell,
            Err(e) => {
                return Step::Failed(e);
            },
        };
        let v = match read_element(tag, cell) {
            Ok(v) => v,
            Err(e) => {
                return Step::Failed(e);
            },
        };
        let r = self.frames[n - 1].stack.discard(1);
        let r = self.frames[n - 1].stack.replace_top(v);
        self.frames[n - 1].pc = next;
        proof {
            assert(self.frames@ =~= before.update(n - 1, self.frames@[n - 1]));
            lemma_frames_view(before, self.frames@[n - 1]);
            assert(self.frames@[n - 1]@.stack =~= below(before[n - 1]@.stack, 2).push(v));
        }
        Step::Running
    }

    /// Carries out an array store; see [`array_stored`].
    fn store_element(&mut self, tag: char, next: usize) -> (step: Step)
        requires
            old(self).wf(),
            old(self)@.frames.len() > 0,
        ensures
            final(self).wf(),
            final(self).classes() == old(self).classes(),
            (final(self)@, step@) == array_stored(old(self)@, tag, next),
    {
        let n = self.frames.len();
        let ghost before = self.frames@;
        proof {
            lemma_frames_view(before, before[n - 1]);
        }
        let (arrayref, index) = match self.operands(1) {
            Ok(operands) => operands,
            Err(e) => {
                return Step::Failed(e);
            },
        };
        let value = match self.frames[n - 1].stack.peek(0) {
            Some(value) => value,
            None => {
                return Step::Failed(MistError::StackUnderflow);
            },
        };
        let cell = match self.heap.load(arrayref, index) {
            Ok(cell) => cell,
            Err(e) => {
                return Step::Failed(e);
            },
        };
        let v = match write_element(tag, cell, value) {
            Ok(v) => v,
            Err(e) => {
                return Step::Failed(e);
            },
        };
        let r = self.heap.store(arrayref, index, v);
        let r = self.frames[n - 1].stack.discard(3);
        self.frames[n - 1].pc = next;
        proof {
            assert(self.frames@ =~= before.update(n - 1, self.frames@[n - 1]));
            lemma_frames_view(before, self.frames@[n - 1]);
        }
        Step::Running
    }

    /// Carries out one step; see [`step_of`].
    pub fn step(&mut self) -> (step: Step)
        requires
            old(self).wf(),
        ensures
            final(self).wf(),
            final(self).classes() == old(self).classes(),
            (final(self)@, step@) == step_of(old(self).classes(), old(self)@),
    {
        let n = self.frames.len();
        if n == 0 {
            return Step::Returned(None);
        }
        let ghost before = self.frames@;
        proof {
            lemma_frames_view(before, before[n - 1]);
        }
        let code: &'a Code = self.frames[n - 1].code;
        match code.native {
            Some(id) => {
                match self.frames.pop() {
                    Some(frame) => {
                        assert(self.frames@ =~= before.drop_last());
                        Step::Host(HostCall::Native { id, locals: frame.local })
                    },
                    None => Step::Returned(None),
                }
            },
            None => {
                let pc = self.frames[n - 1].pc;
                match decode(code.code.as_slice(), pc) {
                    Err(e) => Step::Failed(e),
                    Ok((instruction, next)) => match instruction {
                        Instruction::Return(has_value) => self.leave(has_value),
                        Instruction::InvokeStatic(index) => self.invoke(index, next),
                        Instruction::NewArray(atype) => self.create_array(atype, next),
                        Instruction::ArrayLoad(tag) => self.load_element(tag, next),
                        Instruction::ArrayStore(tag) => self.store_element(tag, next),
                        _ => {
                            let step = self.frames[n - 1].execute(instruction, next);
                            proof {
                                assert(self.frames@ =~= before.update(n - 1, self.frames@[n - 1]));
                                lemma_frames_view(before, self.frames@[n - 1]);
                            }
                            step
                        },
                    },
                }
            },
        }
    }

    /// Carries out up to `budget` steps, stopping at the first that does not
    /// leave the machine running; see [`run_of`]. A run that is still
    /// `Running` when it stops has used up its budget.
    pub fn run(&mut self, budget: usize) -> (step: Step)
        requires
            old(self).wf(),
        ensures
            final(self).wf(),
            final(self).classes() == old(self).classes(),
            (final(self)@, step@) == run_of(old(self).classes(), old(self)@, budget as nat),
    {
        let mut left = budget;
        while left > 0
            invariant
                self.wf(),
                self.classes() == old(self).classes(),
                run_of(old(self).classes(), old(self)@, budget as nat) == run_of(
                    self.classes(),
                    self@,
                    left as nat,
                ),
            decreases left,
        {
            let step = self.step();
            match step {
                Step::Running => {},
                _ => {
                    return step;
                },
            }
            left -= 1;
        }
        Step::Running
    }
}

} // verus!
