//! The operand stack of one frame, and the instructions that work on it alone.
//!
//! Integer arithmetic, comparisons, and what can be read off the bits of a
//! float or a double are computed here. A floating-point instruction whose
//! result needs rounding takes its operands off and gives a call for the
//! host, whose answer is then pushed.

use crate::error::MistError;
use crate::host::HostCall;
use crate::numeric::{apply_binary, apply_unary, binary_value, unary_value, BinaryOp, UnaryOp};
use crate::opcode;
use crate::value::MistValue;
use vstd::prelude::*;

verus! {

/// A bounded last-in, first-out store of cells.
///
/// A long or a double is one cell, and a float or a double is held as its
/// bits. Every operation either takes effect as a whole or reports an error
/// and leaves the stack as it was.
#[derive(Clone, Debug, PartialEq, Eq)]
pub struct MistStack {
    stack: Vec<MistValue>,
    limit: usize,
}

impl View for MistStack {
    type V = Seq<MistValue>;

    closed spec fn view(&self) -> Seq<MistValue> {
        self.stack@
    }
}

/// The cell `depth` places under the top of `s`; the top itself is at depth 0.
pub open spec fn top(s: Seq<MistValue>, depth: int) -> MistValue {
    s[s.len() - 1 - depth]
}

/// `s` without its `count` topmost cells.
pub open spec fn below(s: Seq<MistValue>, count: int) -> Seq<MistValue> {
    s.subrange(0, s.len() - count)
}

/// `s` with its `count` topmost cells replaced by `cells`, the last of them
/// on top; `StackOverflow` if the stack would grow beyond `limit` cells.
pub open spec fn rewritten(s: Seq<MistValue>, limit: nat, count: int, cells: Seq<MistValue>) -> Result<
    Seq<MistValue>,
    MistError,
> {
    if cells.len() > count && s.len() - count + cells.len() > limit {
        Err(MistError::StackOverflow)
    } else {
        Ok(below(s, count) + cells)
    }
}

/// `s` after a push of `v`.
pub open spec fn pushed(s: Seq<MistValue>, limit: nat, v: MistValue) -> Result<
    Seq<MistValue>,
    MistError,
> {
    if s.len() >= limit {
        Err(MistError::StackOverflow)
    } else {
        Ok(s.push(v))
    }
}

/// The cell that a pop takes off `s`, and what is left of `s`.
pub open spec fn popped(s: Seq<MistValue>) -> Result<(Seq<MistValue>, MistValue), MistError> {
    if s.len() == 0 {
        Err(MistError::StackUnderflow)
    } else {
        Ok((s.drop_last(), s.last()))
    }
}

/// `s` after the instruction `op` has replaced the top cell by its result.
pub open spec fn unary_on(s: Seq<MistValue>, op: UnaryOp) -> Result<Seq<MistValue>, MistError> {
    if s.len() < 1 {
        Err(MistError::StackUnderflow)
    } else {
        match unary_value(op, top(s, 0)) {
            Ok(v) => Ok(below(s, 1).push(v)),
            Err(e) => Err(e),
        }
    }
}

/// `s` after the instruction `op` has replaced the two top cells by its
/// result; the cell under the top is the left operand.
pub open spec fn binary_on(s: Seq<MistValue>, op: BinaryOp) -> Result<Seq<MistValue>, MistError> {
    if s.len() < 2 {
        Err(MistError::StackUnderflow)
    } else {
        match binary_value(op, top(s, 1), top(s, 0)) {
            Ok(v) => Ok(below(s, 2).push(v)),
            Err(e) => Err(e),
        }
    }
}

/// The instructions that only move cells.
#[derive(Clone, Copy, Debug, PartialEq, Eq, Structural)]
pub enum Shape {
    Pop,
    Pop2,
    Dup,
    DupX1,
    DupX2,
    Dup2,
    Dup2X1,
    Dup2X2,
    Swap,
}

/// How many cells a shape instruction takes off the stack and which it puts
/// back, the last on top.
///
/// The instructions count in slots, of which a long or a double fills two and
/// any other cell one. Where an instruction moves one slot and finds a long or
/// a double there, or would split one, the operands are a `TypeMismatch`;
/// where the stack holds too few cells, a `StackUnderflow`.
pub open spec fn shape_plan(s: Seq<MistValue>, shape: Shape) -> Result<
    (int, Seq<MistValue>),
    MistError,
> {
    let n = s.len();
    let v1 = top(s, 0);
    let v2 = top(s, 1);
    let v3 = top(s, 2);
    let v4 = top(s, 3);
    match shape {
        Shape::Pop => if n < 1 {
            Err(MistError::StackUnderflow)
        } else if v1.is_wide() {
            Err(MistError::TypeMismatch)
        } else {
            Ok((1, seq![]))
        },
        Shape::Pop2 => if n < 1 {
            Err(MistError::StackUnderflow)
        } else if v1.is_wide() {
            Ok((1, seq![]))
        } else if n < 2 {
            Err(MistError::StackUnderflow)
        } else if v2.is_wide() {
            Err(MistError::TypeMismatch)
        } else {
            Ok((2, seq![]))
        },
        Shape::Dup => if n < 1 {
            Err(MistError::StackUnderflow)
        } else if v1.is_wide() {
            Err(MistError::TypeMismatch)
        } else {
            Ok((1, seq![v1, v1]))
        },
        Shape::DupX1 => if n < 2 {
            Err(MistError::StackUnderflow)
        } else if v1.is_wide() || v2.is_wide() {
            Err(MistError::TypeMismatch)
        } else {
            Ok((2, seq![v1, v2, v1]))
        },
        Shape::DupX2 => if n < 2 {
            Err(MistError::StackUnderflow)
        } else if v1.is_wide() {
            Err(MistError::TypeMismatch)
        } else if v2.is_wide() {
            Ok((2, seq![v1, v2, v1]))
        } else if n < 3 {
            Err(MistError::StackUnderflow)
        } else if v3.is_wide() {
            Err(MistError::TypeMismatch)
        } else {
            Ok((3, seq![v1, v3, v2, v1]))
        },
        Shape::Dup2 => if n < 1 {
            Err(MistError::StackUnderflow)
        } else if v1.is_wide() {
            Ok((1, seq![v1, v1]))
        } else if n < 2 {
            Err(MistError::StackUnderflow)
        } else if v2.is_wide() {
            Err(MistError::TypeMismatch)
        } else {
            Ok((2, seq![v2, v1, v2, v1]))
        },
        Shape::Dup2X1 => if n < 2 {
            Err(MistError::StackUnderflow)
        } else if v2.is_wide() {
            Err(MistError::TypeMismatch)
        } else if v1.is_wide() {
            Ok((2, seq![v1, v2, v1]))
        } else if n < 3 {
            Err(MistError::StackUnderflow)
        } else if v3.is_wide() {
            Err(MistError::TypeMismatch)
        } else {
            Ok((3, seq![v2, v1, v3, v2, v1]))
        },
        Shape::Dup2X2 => if n < 2 {
            Err(MistError::StackUnderflow)
        } else if v1.is_wide() && v2.is_wide() {
            Ok((2, seq![v1, v2, v1]))
        } else if n < 3 {
            Err(MistError::StackUnderflow)
        } else if v1.is_wide() {
            if v3.is_wide() {
                Err(MistError::TypeMismatch)
            } else {
                Ok((3, seq![v1, v3, v2, v1]))
            }
        } else if v2.is_wide() {
            Err(MistError::TypeMismatch)
        } else if v3.is_wide() {
            Ok((3, seq![v2, v1, v3, v2, v1]))
        } else if n < 4 {
            Err(MistError::StackUnderflow)
        } else if v4.is_wide() {
            Err(MistError::TypeMismatch)
        } else {
            Ok((4, seq![v2, v1, v4, v3, v2, v1]))
        },
        Shape::Swap => if n < 2 {
            Err(MistError::StackUnderflow)
        } else if v1.is_wide() || v2.is_wide() {
            Err(MistError::TypeMismatch)
        } else {
            Ok((2, seq![v1, v2]))
        },
    }
}

/// `s` after the shape instruction `shape`.
pub open spec fn reshaped(s: Seq<MistValue>, limit: nat, shape: Shape) -> Result<
    Seq<MistValue>,
    MistError,
> {
    match shape_plan(s, shape) {
        Ok((count, cells)) => rewritten(s, limit, count, cells),
        Err(e) => Err(e),
    }
}

/// `s` after its top cell, which has to be of the kind that `tag` names, has
/// been taken off.
pub open spec fn taken(s: Seq<MistValue>, tag: char) -> Result<
    (Seq<MistValue>, MistValue),
    MistError,
> {
    if s.len() < 1 {
        Err(MistError::StackUnderflow)
    } else if top(s, 0).tag() != tag {
        Err(MistError::TypeMismatch)
    } else {
        Ok((below(s, 1), top(s, 0)))
    }
}

/// `s` after its two top cells, which both have to be of the kind that `tag`
/// names, have been taken off; the cell that was under the top comes first.
pub open spec fn taken_pair(s: Seq<MistValue>, tag: char) -> Result<
    (Seq<MistValue>, MistValue, MistValue),
    MistError,
> {
    if s.len() < 2 {
        Err(MistError::StackUnderflow)
    } else if top(s, 0).tag() != tag || top(s, 1).tag() != tag {
        Err(MistError::TypeMismatch)
    } else {
        Ok((below(s, 2), top(s, 1), top(s, 0)))
    }
}

/// The call by which the floating-point instruction `opcode`, which takes
/// one cell of the kind that `tag` names, is handed to the host, and what is
/// left of `s` when the operand has been taken off.
pub open spec fn asked_unary(s: Seq<MistValue>, opcode: u8, tag: char) -> Result<
    (Seq<MistValue>, HostCall),
    MistError,
> {
    match taken(s, tag) {
        Ok((rest, value)) => Ok((rest, HostCall::Unary { opcode, value })),
        Err(e) => Err(e),
    }
}

/// The call by which the floating-point instruction `opcode`, which takes
/// two cells of the kind that `tag` names, is handed to the host, and what is
/// left of `s` when the operands have been taken off.
pub open spec fn asked_binary(s: Seq<MistValue>, opcode: u8, tag: char) -> Result<
    (Seq<MistValue>, HostCall),
    MistError,
> {
    match taken_pair(s, tag) {
        Ok((rest, lhs, rhs)) => Ok((rest, HostCall::Binary { opcode, lhs, rhs })),
        Err(e) => Err(e),
    }
}

fn is_wide_cell(v: MistValue) -> (r: bool)
    ensures
        r == v.is_wide(),
{
    match v {
        MistValue::Long(_) => true,
        MistValue::Double(_) => true,
        _ => false,
    }
}

impl MistStack {
    /// The greatest number of cells that the stack takes.
    pub closed spec fn limit(&self) -> nat {
        self.limit as nat
    }

    /// Whether `self` is what an operation leaves of `before`, given what the
    /// operation reported and what it was to make of the cells: on success
    /// the expected cells, on an error the cells of `before`; the limit stays.
    pub open spec fn follows(
        &self,
        before: MistStack,
        r: Result<(), MistError>,
        expected: Result<Seq<MistValue>, MistError>,
    ) -> bool {
        &&& self.limit() == before.limit()
        &&& match expected {
            Ok(s) => r is Ok && self@ == s,
            Err(e) => r == Err::<(), MistError>(e) && self@ == before@,
        }
    }

    /// An empty stack that takes up to `limit` cells.
    pub fn new(limit: usize) -> (stack: MistStack)
        ensures
            stack@ == Seq::<MistValue>::empty(),
            stack.limit() == limit,
    {
        MistStack { stack: Vec::new(), limit }
    }

    /// The number of cells on the stack.
    pub fn depth(&self) -> (n: usize)
        ensures
            n == self@.len(),
    {
        self.stack.len()
    }

    /// The greatest number of cells that the stack takes.
    pub fn max_depth(&self) -> (n: usize)
        ensures
            n == self.limit(),
    {
        self.limit
    }

    /// A copy of the cell `depth` places under the top, if there is one.
    pub fn peek(&self, depth: usize) -> (r: Option<MistValue>)
        ensures
            r == (if depth < self@.len() {
                Some(top(self@, depth as int))
            } else {
                None
            }),
    {
        let n = self.stack.len();
        if depth < n {
            Some(self.stack[n - 1 - depth])
        } else {
            None
        }
    }

    /// Puts `value` on top; `StackOverflow` if the stack is at its limit.
    pub fn push(&mut self, value: MistValue) -> (r: Result<(), MistError>)
        ensures
            final(self).follows(*old(self), r, pushed(old(self)@, old(self).limit(), value)),
    {
        if self.stack.len() >= self.limit {
            Err(MistError::StackOverflow)
        } else {
            self.stack.push(value);
            Ok(())
        }
    }

    /// Takes the top cell off and returns it; `StackUnderflow` if there is
    /// none.
    pub fn pop(&mut self) -> (r: Result<MistValue, MistError>)
        ensures
            final(self).limit() == old(self).limit(),
            match popped(old(self)@) {
                Ok((rest, v)) => r == Ok::<MistValue, MistError>(v) && final(self)@ == rest,
                Err(e) => r == Err::<MistValue, MistError>(e) && final(self)@ == old(self)@,
            },
    {
        match self.stack.pop() {
            Some(v) => Ok(v),
            None => Err(MistError::StackUnderflow),
        }
    }

    /// Takes the top cell off if it is of the kind that `tag` names.
    pub fn take(&mut self, tag: char) -> (r: Result<MistValue, MistError>)
        ensures
            final(self).limit() == old(self).limit(),
            match taken(old(self)@, tag) {
                Ok((rest, v)) => r == Ok::<MistValue, MistError>(v) && final(self)@ == rest,
                Err(e) => r == Err::<MistValue, MistError>(e) && final(self)@ == old(self)@,
            },
    {
        let n = self.stack.len();
        if n < 1 {
            return Err(MistError::StackUnderflow);
        }
        let v = self.stack[n - 1];
        if v.short_name() != tag {
            return Err(MistError::TypeMismatch);
        }
        self.stack.truncate(n - 1);
        Ok(v)
    }

    /// Takes the two top cells off if both are of the kind that `tag` names;
    /// the cell that was under the top is the first of the pair.
    pub fn take_pair(&mut self, tag: char) -> (r: Result<(MistValue, MistValue), MistError>)
        ensures
            final(self).limit() == old(self).limit(),
            match taken_pair(old(self)@, tag) {
                Ok((rest, lhs, rhs)) => r == Ok::<(MistValue, MistValue), MistError>((lhs, rhs))
                    && final(self)@ == rest,
                Err(e) => r == Err::<(MistValue, MistValue), MistError>(e) && final(self)@ == old(
                    self,
                )@,
            },
    {
        let n = self.stack.len();
        if n < 2 {
            return Err(MistError::StackUnderflow);
        }
        let rhs = self.stack[n - 1];
        let lhs = self.stack[n - 2];
        if rhs.short_name() != tag || lhs.short_name() != tag {
            return Err(MistError::TypeMismatch);
        }
        self.stack.truncate(n - 2);
        Ok((lhs, rhs))
    }

    /// Copies of the `count` topmost cells, the top one last; `None` if the
    /// stack holds fewer.
    pub fn peek_many(&self, count: usize) -> (r: Option<Vec<MistValue>>)
        ensures
            match r {
                Some(cells) => count <= self@.len() && cells@ == self@.subrange(
                    self@.len() - count,
                    self@.len() as int,
                ),
                None => count > self@.len(),
            },
    {
        let n = self.stack.len();
        if count > n {
            return None;
        }
        let mut cells: Vec<MistValue> = Vec::new();
        let mut i: usize = 0;
        while i < count
            invariant
                i <= count <= n,
                n == self.stack@.len(),
                cells@ == self.stack@.subrange(n - count, n - count + i),
            decreases count - i,
        {
            cells.push(self.stack[n - count + i]);
            i += 1;
        }
        Some(cells)
    }

    /// Takes the `count` topmost cells off; `StackUnderflow` if the stack
    /// holds fewer, and then it keeps them all.
    pub fn discard(&mut self, count: usize) -> (r: Result<(), MistError>)
        ensures
            final(self).follows(
                *old(self),
                r,
                if count <= old(self)@.len() {
                    Ok(below(old(self)@, count as int))
                } else {
                    Err(MistError::StackUnderflow)
                },
            ),
    {
        let n = self.stack.len();
        if count > n {
            return Err(MistError::StackUnderflow);
        }
        self.stack.truncate(n - count);
        Ok(())
    }

    /// Overwrites the top cell by `value`; `StackUnderflow` if there is none.
    pub fn replace_top(&mut self, value: MistValue) -> (r: Result<(), MistError>)
        ensures
            final(self).follows(
                *old(self),
                r,
                if old(self)@.len() > 0 {
                    Ok(below(old(self)@, 1).push(value))
                } else {
                    Err(MistError::StackUnderflow)
                },
            ),
    {
        let n = self.stack.len();
        if n == 0 {
            return Err(MistError::StackUnderflow);
        }
        self.stack[n - 1] = value;
        assert(self.stack@ =~= below(old(self)@, 1).push(value));
        Ok(())
    }

    /// Whether `self` is what an instruction for the host leaves of `before`,
    /// given what it reported and what it was to ask: on success the call and
    /// the cells that `expected` tells of, on an error the cells of `before`;
    /// the limit stays.
    pub open spec fn asks(
        &self,
        before: MistStack,
        r: Result<HostCall, MistError>,
        expected: Result<(Seq<MistValue>, HostCall), MistError>,
    ) -> bool {
        &&& self.limit() == before.limit()
        &&& match expected {
            Ok((rest, call)) => r == Ok::<HostCall, MistError>(call) && self@ == rest,
            Err(e) => r == Err::<HostCall, MistError>(e) && self@ == before@,
        }
    }

    /// Takes the operand of the floating-point instruction `opcode` off, which
    /// has to be of the kind that `tag` names, and gives the call for the
    /// host; the host's answer is to be pushed.
    pub fn ask_unary(&mut self, opcode: u8, tag: char) -> (r: Result<HostCall, MistError>)
        ensures
            final(self).asks(*old(self), r, asked_unary(old(self)@, opcode, tag)),
    {
        match self.take(tag) {
            Ok(value) => Ok(HostCall::Unary { opcode, value }),
            Err(e) => Err(e),
        }
    }

    /// Takes the two operands of the floating-point instruction `opcode` off,
    /// which have to be of the kind that `tag` names, and gives the call for
    /// the host; the host's answer is to be pushed.
    pub fn ask_binary(&mut self, opcode: u8, tag: char) -> (r: Result<HostCall, MistError>)
        ensures
            final(self).asks(*old(self), r, asked_binary(old(self)@, opcode, tag)),
    {
        match self.take_pair(tag) {
            Ok((lhs, rhs)) => Ok(HostCall::Binary { opcode, lhs, rhs }),
            Err(e) => Err(e),
        }
    }

    /// `d2f`: takes a double off and asks the host for the nearest float.
    pub fn d2f(&mut self) -> (r: Result<HostCall, MistError>)
        ensures
            final(self).asks(*old(self), r, asked_unary(old(self)@, opcode::D2F, 'D')),
    {
        self.ask_unary(opcode::D2F, 'D')
    }

    /// `f2d`: takes a float off and asks the host for the same number as a double.
    pub fn f2d(&mut self) -> (r: Result<HostCall, MistError>)
        ensures
            final(self).asks(*old(self), r, asked_unary(old(self)@, opcode::F2D, 'F')),
    {
        self.ask_unary(opcode::F2D, 'F')
    }

    /// `i2d`: takes an int off and asks the host for the same number as a double.
    pub fn i2d(&mut self) -> (r: Result<HostCall, MistError>)
        ensures
            final(self).asks(*old(self), r, asked_unary(old(self)@, opcode::I2D, 'I')),
    {
        self.ask_unary(opcode::I2D, 'I')
    }

    /// `i2f`: takes an int off and asks the host for the nearest float.
    pub fn i2f(&mut self) -> (r: Result<HostCall, MistError>)
        ensures
            final(self).asks(*old(self), r, asked_unary(old(self)@, opcode::I2F, 'I')),
    {
        self.ask_unary(opcode::I2F, 'I')
    }

    /// `l2d`: takes a long off and asks the host for the nearest double.
    pub fn l2d(&mut self) -> (r: Result<HostCall, MistError>)
        ensures
            final(self).asks(*old(self), r, asked_unary(old(self)@, opcode::L2D, 'J')),
    {
        self.ask_unary(opcode::L2D, 'J')
    }

    /// `l2f`: takes a long off and asks the host for the nearest float.
    pub fn l2f(&mut self) -> (r: Result<HostCall, MistError>)
        ensures
            final(self).asks(*old(self), r, asked_unary(old(self)@, opcode::L2F, 'J')),
    {
        self.ask_unary(opcode::L2F, 'J')
    }

    /// `dadd`: takes two doubles off and asks the host for their sum.
    pub fn dadd(&mut self) -> (r: Result<HostCall, MistError>)
        ensures
            final(self).asks(*old(self), r, asked_binary(old(self)@, opcode::DADD, 'D')),
    {
        self.ask_binary(opcode::DADD, 'D')
    }

    /// `fadd`: takes two floats off and asks the host for their sum.
    pub fn fadd(&mut self) -> (r: Result<HostCall, MistError>)
        ensures
            final(self).asks(*old(self), r, asked_binary(old(self)@, opcode::FADD, 'F')),
    {
        self.ask_binary(opcode::FADD, 'F')
    }

    /// `dsub`: takes two doubles off and asks the host for their difference.
    pub fn dsub(&mut self) -> (r: Result<HostCall, MistError>)
        ensures
            final(self).asks(*old(self), r, asked_binary(old(self)@, opcode::DSUB, 'D')),
    {
        self.ask_binary(opcode::DSUB, 'D')
    }

    /// `fsub`: takes two floats off and asks the host for their difference.
    pub fn fsub(&mut self) -> (r: Result<HostCall, MistError>)
        ensures
            final(self).asks(*old(self), r, asked_binary(old(self)@, opcode::FSUB, 'F')),
    {
        self.ask_binary(opcode::FSUB, 'F')
    }

    /// `dmul`: takes two doubles off and asks the host for their product.
    pub fn dmul(&mut self) -> (r: Result<HostCall, MistError>)
        ensures
            final(self).asks(*old(self), r, asked_binary(old(self)@, opcode::DMUL, 'D')),
    {
        self.ask_binary(opcode::DMUL, 'D')
    }

    /// `fmul`: takes two floats off and asks the host for their product.
    pub fn fmul(&mut self) -> (r: Result<HostCall, MistError>)
        ensures
            final(self).asks(*old(self), r, asked_binary(old(self)@, opcode::FMUL, 'F')),
    {
        self.ask_binary(opcode::FMUL, 'F')
    }

    /// `ddiv`: takes two doubles off and asks the host for their quotient.
    pub fn ddiv(&mut self) -> (r: Result<HostCall, MistError>)
        ensures
            final(self).asks(*old(self), r, asked_binary(old(self)@, opcode::DDIV, 'D')),
    {
        self.ask_binary(opcode::DDIV, 'D')
    }

    /// `fdiv`: takes two floats off and asks the host for their quotient.
    pub fn fdiv(&mut self) -> (r: Result<HostCall, MistError>)
        ensures
            final(self).asks(*old(self), r, asked_binary(old(self)@, opcode::FDIV, 'F')),
    {
        self.ask_binary(opcode::FDIV, 'F')
    }

    /// `drem`: takes two doubles off and asks the host for their remainder.
    pub fn drem(&mut self) -> (r: Result<HostCall, MistError>)
        ensures
            final(self).asks(*old(self), r, asked_binary(old(self)@, opcode::DREM, 'D')),
    {
        self.ask_binary(opcode::DREM, 'D')
    }

    /// `frem`: takes two floats off and asks the host for their remainder.
    pub fn frem(&mut self) -> (r: Result<HostCall, MistError>)
        ensures
            final(self).asks(*old(self), r, asked_binary(old(self)@, opcode::FREM, 'F')),
    {
        self.ask_binary(opcode::FREM, 'F')
    }

    /// Replaces the `count` topmost cells by `cells`.
    fn rewrite(&mut self, count: usize, cells: Vec<MistValue>) -> (r: Result<(), MistError>)
        requires
            count <= old(self)@.len(),
        ensures
            final(self).follows(
                *old(self),
                r,
                rewritten(old(self)@, old(self).limit(), count as int, cells@),
            ),
    {
        let n = self.stack.len();
        if cells.len() > count {
            let base = n - count;
            if base > self.limit || cells.len() > self.limit - base {
                return Err(MistError::StackOverflow);
            }
        }
        let mut cells = cells;
        self.stack.truncate(n - count);
        self.stack.append(&mut cells);
        Ok(())
    }

    /// Carries out the instruction `op` on the top cell.
    pub fn unary(&mut self, op: UnaryOp) -> (r: Result<(), MistError>)
        ensures
            final(self).follows(*old(self), r, unary_on(old(self)@, op)),
    {
        let n = self.stack.len();
        if n < 1 {
            return Err(MistError::StackUnderflow);
        }
        match apply_unary(op, self.stack[n - 1]) {
            Ok(v) => {
                self.stack[n - 1] = v;
                assert(self.stack@ =~= below(old(self)@, 1).push(v));
                Ok(())
            },
            Err(e) => Err(e),
        }
    }

    /// Carries out the instruction `op` on the two top cells.
    pub fn binary(&mut self, op: BinaryOp) -> (r: Result<(), MistError>)
        ensures
            final(self).follows(*old(self), r, binary_on(old(self)@, op)),
    {
        let n = self.stack.len();
        if n < 2 {
            return Err(MistError::StackUnderflow);
        }
        match apply_binary(op, self.stack[n - 2], self.stack[n - 1]) {
            Ok(v) => {
                self.stack.truncate(n - 1);
                self.stack[n - 2] = v;
                assert(self.stack@ =~= below(old(self)@, 2).push(v));
                Ok(())
            },
            Err(e) => Err(e),
        }
    }

    /// Works out what the shape instruction `shape` takes off and puts back.
    fn plan(&self, shape: Shape) -> (r: Result<(usize, Vec<MistValue>), MistError>)
        ensures
            match shape_plan(self@, shape) {
                Ok((count, cells)) => r is Ok && r.unwrap().0 == count && r.unwrap().1@ == cells
                    && count <= self@.len(),
                Err(e) => r is Err && r->Err_0 == e,
            },
    {
        let n = self.stack.len();
        if n < 1 {
            return Err(MistError::StackUnderflow);
        }
        let v1 = self.stack[n - 1];
        let w1 = is_wide_cell(v1);
        match shape {
            Shape::Pop => {
                if w1 {
                    return Err(MistError::TypeMismatch);
                }
                return Ok((1, vec![]));
            },
            Shape::Pop2 => {
                if w1 {
                    return Ok((1, vec![]));
                }
            },
            Shape::Dup => {
                if w1 {
                    return Err(MistError::TypeMismatch);
                }
                return Ok((1, vec![v1, v1]));
            },
            Shape::Dup2 => {
                if w1 {
                    return Ok((1, vec![v1, v1]));
                }
            },
            _ => {},
        }
        if n < 2 {
            return Err(MistError::StackUnderflow);
        }
        let v2 = self.stack[n - 2];
        let w2 = is_wide_cell(v2);
        match shape {
            Shape::Pop2 => {
                if w2 {
                    return Err(MistError::TypeMismatch);
                }
                return Ok((2, vec![]));
            },
            Shape::DupX1 => {
                if w1 || w2 {
                    return Err(MistError::TypeMismatch);
                }
                return Ok((2, vec![v1, v2, v1]));
            },
            Shape::Swap => {
                if w1 || w2 {
                    return Err(MistError::TypeMismatch);
                }
                return Ok((2, vec![v1, v2]));
            },
            Shape::Dup2 => {
                if w2 {
                    return Err(MistError::TypeMismatch);
                }
                return Ok((2, vec![v2, v1, v2, v1]));
            },
            Shape::DupX2 => {
                if w1 {
                    return Err(MistError::TypeMismatch);
                }
                if w2 {
                    return Ok((2, vec![v1, v2, v1]));
                }
            },
            Shape::Dup2X1 => {
                if w2 {
                    return Err(MistError::TypeMismatch);
                }
                if w1 {
                    return Ok((2, vec![v1, v2, v1]));
                }
            },
            Shape::Dup2X2 => {
                if w1 && w2 {
                    return Ok((2, vec![v1, v2, v1]));
                }
            },
            _ => {},
        }
        if n < 3 {
            return Err(MistError::StackUnderflow);
        }
        let v3 = self.stack[n - 3];
        let w3 = is_wide_cell(v3);
        match shape {
            Shape::DupX2 => {
                if w3 {
                    return Err(MistError::TypeMismatch);
                }
                return Ok((3, vec![v1, v3, v2, v1]));
            },
            Shape::Dup2X1 => {
                if w3 {
                    return Err(MistError::TypeMismatch);
                }
                return Ok((3, vec![v2, v1, v3, v2, v1]));
            },
            _ => {
                if w1 {
                    if w3 {
                        return Err(MistError::TypeMismatch);
                    }
                    return Ok((3, vec![v1, v3, v2, v1]));
                }
                if w2 {
                    return Err(MistError::TypeMismatch);
                }
                if w3 {
                    return Ok((3, vec![v2, v1, v3, v2, v1]));
                }
            },
        }
        if n < 4 {
            return Err(MistError::StackUnderflow);
        }
        let v4 = self.stack[n - 4];
        if is_wide_cell(v4) {
            return Err(MistError::TypeMismatch);
        }
        Ok((4, vec![v2, v1, v4, v3, v2, v1]))
    }

    /// Carries out the shape instruction `shape`.
    pub fn reshape(&mut self, shape: Shape) -> (r: Result<(), MistError>)
        ensures
            final(self).follows(*old(self), r, reshaped(old(self)@, old(self).limit(), shape)),
    {
        match self.plan(shape) {
            Ok((count, cells)) => self.rewrite(count, cells),
            Err(e) => Err(e),
        }
    }

    /// `aconst_null`: pushes the null reference.
    pub fn aconst_null(&mut self) -> (r: Result<(), MistError>)
        ensures
            final(self).follows(
                *old(self),
                r,
                pushed(old(self)@, old(self).limit(), MistValue::ObjectReference(0)),
            ),
    {
        self.push(MistValue::ObjectReference(0))
    }

    /// Pushes the int `value`.
    pub fn iconst(&mut self, value: i32) -> (r: Result<(), MistError>)
        ensures
            final(self).follows(
                *old(self),
                r,
                pushed(old(self)@, old(self).limit(), MistValue::Integer(value)),
            ),
    {
        self.push(MistValue::Integer(value))
    }

    /// Pushes the long `long`.
    pub fn lconst(&mut self, long: i64) -> (r: Result<(), MistError>)
        ensures
            final(self).follows(
                *old(self),
                r,
                pushed(old(self)@, old(self).limit(), MistValue::Long(long)),
            ),
    {
        self.push(MistValue::Long(long))
    }

    /// Pushes the float whose bits are `float`.
    pub fn fconst(&mut self, float: u32) -> (r: Result<(), MistError>)
        ensures
            final(self).follows(
                *old(self),
                r,
                pushed(old(self)@, old(self).limit(), MistValue::Float(float)),
            ),
    {
        self.push(MistValue::Float(float))
    }

    /// Pushes the double whose bits are `double`.
    pub fn dconst(&mut self, double: u64) -> (r: Result<(), MistError>)
        ensures
            final(self).follows(
                *old(self),
                r,
                pushed(old(self)@, old(self).limit(), MistValue::Double(double)),
            ),
    {
        self.push(MistValue::Double(double))
    }

    /// `d2i`: rounds a double toward zero to an int; 0 if it is not a number, the
    /// nearest int if it is out of range.
    pub fn d2i(&mut self) -> (r: Result<(), MistError>)
        ensures
            final(self).follows(*old(self), r, unary_on(old(self)@, UnaryOp::DoubleToInt)),
    {
        self.unary(UnaryOp::DoubleToInt)
    }

    /// `d2l`: rounds a double toward zero to a long; 0 if it is not a number, the
    /// nearest long if it is out of range.
    pub fn d2l(&mut self) -> (r: Result<(), MistError>)
        ensures
            final(self).follows(*old(self), r, unary_on(old(self)@, UnaryOp::DoubleToLong)),
    {
        self.unary(UnaryOp::DoubleToLong)
    }

    /// `f2i`: rounds a float toward zero to an int; 0 if it is not a number, the
    /// nearest int if it is out of range.
    pub fn f2i(&mut self) -> (r: Result<(), MistError>)
        ensures
            final(self).follows(*old(self), r, unary_on(old(self)@, UnaryOp::FloatToInt)),
    {
        self.unary(UnaryOp::FloatToInt)
    }

    /// `f2l`: rounds a float toward zero to a long; 0 if it is not a number, the
    /// nearest long if it is out of range.
    pub fn f2l(&mut self) -> (r: Result<(), MistError>)
        ensures
            final(self).follows(*old(self), r, unary_on(old(self)@, UnaryOp::FloatToLong)),
    {
        self.unary(UnaryOp::FloatToLong)
    }

    /// `dcmpg`: compares two doubles; 1 if either is not a number.
    pub fn dcmpg(&mut self) -> (r: Result<(), MistError>)
        ensures
            final(self).follows(*old(self), r, binary_on(old(self)@, BinaryOp::DoubleCompareHigh)),
    {
        self.binary(BinaryOp::DoubleCompareHigh)
    }

    /// `dcmpl`: compares two doubles; -1 if either is not a number.
    pub fn dcmpl(&mut self) -> (r: Result<(), MistError>)
        ensures
            final(self).follows(*old(self), r, binary_on(old(self)@, BinaryOp::DoubleCompareLow)),
    {
        self.binary(BinaryOp::DoubleCompareLow)
    }

    /// `dneg`: negates a double.
    pub fn dneg(&mut self) -> (r: Result<(), MistError>)
        ensures
            final(self).follows(*old(self), r, unary_on(old(self)@, UnaryOp::DoubleNeg)),
    {
        self.unary(UnaryOp::DoubleNeg)
    }

    /// `dup`: duplicates the top cell.
    pub fn dup(&mut self) -> (r: Result<(), MistError>)
        ensures
            final(self).follows(*old(self), r, reshaped(old(self)@, old(self).limit(), Shape::Dup)),
    {
        self.reshape(Shape::Dup)
    }

    /// `dup_x1`: duplicates the top cell and puts the copy two cells down.
    pub fn dup_x1(&mut self) -> (r: Result<(), MistError>)
        ensures
            final(self).follows(
                *old(self),
                r,
                reshaped(old(self)@, old(self).limit(), Shape::DupX1),
            ),
    {
        self.reshape(Shape::DupX1)
    }

    /// `dup_x2`: duplicates the top cell and puts the copy three slots down.
    pub fn dup_x2(&mut self) -> (r: Result<(), MistError>)
        ensures
            final(self).follows(
                *old(self),
                r,
                reshaped(old(self)@, old(self).limit(), Shape::DupX2),
            ),
    {
        self.reshape(Shape::DupX2)
    }

    /// `dup2`: duplicates the two top slots.
    pub fn dup2(&mut self) -> (r: Result<(), MistError>)
        ensures
            final(self).follows(
                *old(self),
                r,
                reshaped(old(self)@, old(self).limit(), Shape::Dup2),
            ),
    {
        self.reshape(Shape::Dup2)
    }

    /// `dup2_x1`: duplicates the two top slots and puts the copy three slots down.
    pub fn dup2_x1(&mut self) -> (r: Result<(), MistError>)
        ensures
            final(self).follows(
                *old(self),
                r,
                reshaped(old(self)@, old(self).limit(), Shape::Dup2X1),
            ),
    {
        self.reshape(Shape::Dup2X1)
    }

    /// `dup2_x2`: duplicates the two top slots and puts the copy four slots down.
    pub fn dup2_x2(&mut self) -> (r: Result<(), MistError>)
        ensures
            final(self).follows(
                *old(self),
                r,
                reshaped(old(self)@, old(self).limit(), Shape::Dup2X2),
            ),
    {
        self.reshape(Shape::Dup2X2)
    }

    /// `pop`: discards the top cell, which fills one slot.
    pub fn pop1(&mut self) -> (r: Result<(), MistError>)
        ensures
            final(self).follows(*old(self), r, reshaped(old(self)@, old(self).limit(), Shape::Pop)),
    {
        self.reshape(Shape::Pop)
    }

    /// `pop2`: discards the two top slots.
    pub fn pop2(&mut self) -> (r: Result<(), MistError>)
        ensures
            final(self).follows(
                *old(self),
                r,
                reshaped(old(self)@, old(self).limit(), Shape::Pop2),
            ),
    {
        self.reshape(Shape::Pop2)
    }

    /// `swap`: exchanges the two top cells.
    pub fn swap(&mut self) -> (r: Result<(), MistError>)
        ensures
            final(self).follows(
                *old(self),
                r,
                reshaped(old(self)@, old(self).limit(), Shape::Swap),
            ),
    {
        self.reshape(Shape::Swap)
    }

    /// `fcmpg`: compares two floats; 1 if either is not a number.
    pub fn fcmpg(&mut self) -> (r: Result<(), MistError>)
        ensures
            final(self).follows(*old(self), r, binary_on(old(self)@, BinaryOp::FloatCompareHigh)),
    {
        self.binary(BinaryOp::FloatCompareHigh)
    }

    /// `fcmpl`: compares two floats; -1 if either is not a number.
    pub fn fcmpl(&mut self) -> (r: Result<(), MistError>)
        ensures
            final(self).follows(*old(self), r, binary_on(old(self)@, BinaryOp::FloatCompareLow)),
    {
        self.binary(BinaryOp::FloatCompareLow)
    }

    /// `fneg`: negates a float.
    pub fn fneg(&mut self) -> (r: Result<(), MistError>)
        ensures
            final(self).follows(*old(self), r, unary_on(old(self)@, UnaryOp::FloatNeg)),
    {
        self.unary(UnaryOp::FloatNeg)
    }

    /// `i2b`: keeps the low 8 bits of an int, as a byte.
    pub fn i2b(&mut self) -> (r: Result<(), MistError>)
        ensures
            final(self).follows(*old(self), r, unary_on(old(self)@, UnaryOp::IntToByte)),
    {
        self.unary(UnaryOp::IntToByte)
    }

    /// `i2c`: keeps the low 16 bits of an int, as a char.
    pub fn i2c(&mut self) -> (r: Result<(), MistError>)
        ensures
            final(self).follows(*old(self), r, unary_on(old(self)@, UnaryOp::IntToChar)),
    {
        self.unary(UnaryOp::IntToChar)
    }

    /// `i2l`: widens an int to a long.
    pub fn i2l(&mut self) -> (r: Result<(), MistError>)
        ensures
            final(self).follows(*old(self), r, unary_on(old(self)@, UnaryOp::IntToLong)),
    {
        self.unary(UnaryOp::IntToLong)
    }

    /// `i2s`: keeps the low 16 bits of an int, as a short.
    pub fn i2s(&mut self) -> (r: Result<(), MistError>)
        ensures
            final(self).follows(*old(self), r, unary_on(old(self)@, UnaryOp::IntToShort)),
    {
        self.unary(UnaryOp::IntToShort)
    }

    /// `iadd`: the sum of two ints, wrapping.
    pub fn iadd(&mut self) -> (r: Result<(), MistError>)
        ensures
            final(self).follows(*old(self), r, binary_on(old(self)@, BinaryOp::IntAdd)),
    {
        self.binary(BinaryOp::IntAdd)
    }

    /// `iand`: the bitwise and of two ints.
    pub fn iand(&mut self) -> (r: Result<(), MistError>)
        ensures
            final(self).follows(*old(self), r, binary_on(old(self)@, BinaryOp::IntAnd)),
    {
        self.binary(BinaryOp::IntAnd)
    }

    /// `idiv`: the quotient of two ints, rounded toward zero; `ArithmeticError` for a zero divisor.
    pub fn idiv(&mut self) -> (r: Result<(), MistError>)
        ensures
            final(self).follows(*old(self), r, binary_on(old(self)@, BinaryOp::IntDiv)),
    {
        self.binary(BinaryOp::IntDiv)
    }

    /// `imul`: the product of two ints, wrapping.
    pub fn imul(&mut self) -> (r: Result<(), MistError>)
        ensures
            final(self).follows(*old(self), r, binary_on(old(self)@, BinaryOp::IntMul)),
    {
        self.binary(BinaryOp::IntMul)
    }

    /// `ineg`: negates an int, wrapping.
    pub fn ineg(&mut self) -> (r: Result<(), MistError>)
        ensures
            final(self).follows(*old(self), r, unary_on(old(self)@, UnaryOp::IntNeg)),
    {
        self.unary(UnaryOp::IntNeg)
    }

    /// `ior`: the bitwise or of two ints.
    pub fn ior(&mut self) -> (r: Result<(), MistError>)
        ensures
            final(self).follows(*old(self), r, binary_on(old(self)@, BinaryOp::IntOr)),
    {
        self.binary(BinaryOp::IntOr)
    }

    /// `irem`: the remainder of two ints, with the sign of the dividend;
    /// `ArithmeticError` for a zero divisor.
    pub fn irem(&mut self) -> (r: Result<(), MistError>)
        ensures
            final(self).follows(*old(self), r, binary_on(old(self)@, BinaryOp::IntRem)),
    {
        self.binary(BinaryOp::IntRem)
    }

    /// `ishl`: shifts an int left by the low five bits of the distance.
    pub fn ishl(&mut self) -> (r: Result<(), MistError>)
        ensures
            final(self).follows(*old(self), r, binary_on(old(self)@, BinaryOp::IntShl)),
    {
        self.binary(BinaryOp::IntShl)
    }

    /// `ishr`: shifts an int right by the low five bits of the distance, keeping the sign.
    pub fn ishr(&mut self) -> (r: Result<(), MistError>)
        ensures
            final(self).follows(*old(self), r, binary_on(old(self)@, BinaryOp::IntShr)),
    {
        self.binary(BinaryOp::IntShr)
    }

    /// `isub`: the difference of two ints, wrapping.
    pub fn isub(&mut self) -> (r: Result<(), MistError>)
        ensures
            final(self).follows(*old(self), r, binary_on(old(self)@, BinaryOp::IntSub)),
    {
        self.binary(BinaryOp::IntSub)
    }

    /// `iushr`: shifts an int right by the low five bits of the distance, filling with zeros.
    pub fn iushr(&mut self) -> (r: Result<(), MistError>)
        ensures
            final(self).follows(*old(self), r, binary_on(old(self)@, BinaryOp::IntUshr)),
    {
        self.binary(BinaryOp::IntUshr)
    }

    /// `ixor`: the bitwise exclusive or of two ints.
    pub fn ixor(&mut self) -> (r: Result<(), MistError>)
        ensures
            final(self).follows(*old(self), r, binary_on(old(self)@, BinaryOp::IntXor)),
    {
        self.binary(BinaryOp::IntXor)
    }

    /// `l2i`: keeps the low 32 bits of a long, as an int.
    pub fn l2i(&mut self) -> (r: Result<(), MistError>)
        ensures
            final(self).follows(*old(self), r, unary_on(old(self)@, UnaryOp::LongToInt)),
    {
        self.unary(UnaryOp::LongToInt)
    }

    /// `ladd`: the sum of two longs, wrapping.
    pub fn ladd(&mut self) -> (r: Result<(), MistError>)
        ensures
            final(self).follows(*old(self), r, binary_on(old(self)@, BinaryOp::LongAdd)),
    {
        self.binary(BinaryOp::LongAdd)
    }

    /// `land`: the bitwise and of two longs.
    pub fn land(&mut self) -> (r: Result<(), MistError>)
        ensures
            final(self).follows(*old(self), r, binary_on(old(self)@, BinaryOp::LongAnd)),
    {
        self.binary(BinaryOp::LongAnd)
    }

    /// `lcmp`: compares two longs: -1, 0 or 1.
    pub fn lcmp(&mut self) -> (r: Result<(), MistError>)
        ensures
            final(self).follows(*old(self), r, binary_on(old(self)@, BinaryOp::LongCompare)),
    {
        self.binary(BinaryOp::LongCompare)
    }

    /// `ldiv`: the quotient of two longs, rounded toward zero; `ArithmeticError`
    /// for a zero divisor.
    pub fn ldiv(&mut self) -> (r: Result<(), MistError>)
        ensures
            final(self).follows(*old(self), r, binary_on(old(self)@, BinaryOp::LongDiv)),
    {
        self.binary(BinaryOp::LongDiv)
    }

    /// `lmul`: the product of two longs, wrapping.
    pub fn lmul(&mut self) -> (r: Result<(), MistError>)
        ensures
            final(self).follows(*old(self), r, binary_on(old(self)@, BinaryOp::LongMul)),
    {
        self.binary(BinaryOp::LongMul)
    }

    /// `lneg`: negates a long, wrapping.
    pub fn lneg(&mut self) -> (r: Result<(), MistError>)
        ensures
            final(self).follows(*old(self), r, unary_on(old(self)@, UnaryOp::LongNeg)),
    {
        self.unary(UnaryOp::LongNeg)
    }

    /// `lor`: the bitwise or of two longs.
    pub fn lor(&mut self) -> (r: Result<(), MistError>)
        ensures
            final(self).follows(*old(self), r, binary_on(old(self)@, BinaryOp::LongOr)),
    {
        self.binary(BinaryOp::LongOr)
    }

    /// `lrem`: the remainder of two longs, with the sign of the dividend;
    /// `ArithmeticError` for a zero divisor.
    pub fn lrem(&mut self) -> (r: Result<(), MistError>)
        ensures
            final(self).follows(*old(self), r, binary_on(old(self)@, BinaryOp::LongRem)),
    {
        self.binary(BinaryOp::LongRem)
    }

    /// `lshl`: shifts a long left by the low six bits of the distance.
    pub fn lshl(&mut self) -> (r: Result<(), MistError>)
        ensures
            final(self).follows(*old(self), r, binary_on(old(self)@, BinaryOp::LongShl)),
    {
        self.binary(BinaryOp::LongShl)
    }

    /// `lshr`: shifts a long right by the low six bits of the distance, keeping the sign.
    pub fn lshr(&mut self) -> (r: Result<(), MistError>)
        ensures
            final(self).follows(*old(self), r, binary_on(old(self)@, BinaryOp::LongShr)),
    {
        self.binary(BinaryOp::LongShr)
    }

    /// `lsub`: the difference of two longs, wrapping.
    pub fn lsub(&mut self) -> (r: Result<(), MistError>)
        ensures
            final(self).follows(*old(self), r, binary_on(old(self)@, BinaryOp::LongSub)),
    {
        self.binary(BinaryOp::LongSub)
    }

    /// `lushr`: shifts a long right by the low six bits of the distance, filling with zeros.
    pub fn lushr(&mut self) -> (r: Result<(), MistError>)
        ensures
            final(self).follows(*old(self), r, binary_on(old(self)@, BinaryOp::LongUshr)),
    {
        self.binary(BinaryOp::LongUshr)
    }

    /// `lxor`: the bitwise exclusive or of two longs.
    pub fn lxor(&mut self) -> (r: Result<(), MistError>)
        ensures
            final(self).follows(*old(self), r, binary_on(old(self)@, BinaryOp::LongXor)),
    {
        self.binary(BinaryOp::LongXor)
    }
}

/// A pop after a push on a stack that is not full gives back the cell pushed
/// and leaves the stack as it was before the push, at its prior depth.
pub proof fn lemma_pop_after_push(s: Seq<MistValue>, limit: nat, v: MistValue)
    requires
        s.len() < limit,
    ensures
        pushed(s, limit, v) is Ok,
        popped(pushed(s, limit, v).unwrap()) == Ok::<(Seq<MistValue>, MistValue), MistError>(
            (s, v),
        ),
        popped(pushed(s, limit, v).unwrap()).unwrap().0.len() == s.len(),
{
    assert(s.push(v).drop_last() =~= s);
}

/// A push after a pop from a stack that is not empty restores the stack.
pub proof fn lemma_push_after_pop(s: Seq<MistValue>, limit: nat)
    requires
        0 < s.len() <= limit,
    ensures
        popped(s) is Ok,
        pushed(popped(s).unwrap().0, limit, popped(s).unwrap().1) == Ok::<
            Seq<MistValue>,
            MistError,
        >(s),
{
    assert(s.drop_last().push(s.last()) =~= s);
}

} // verus!
