//! The attributes of classes, fields, methods and code.

use crate::opcode::Opcode;
use vstd::prelude::*;

verus! {

/// One attribute, told apart by its name in the constant pool.
#[derive(Debug, PartialEq, Eq)]
pub enum AttributeInfo {
    Code(Code),
    LineNumberTable(LineNumberTable),
    /// An attribute of any other name: its payload as it stands.
    Bytes(Vec<u8>),
}

/// The host's callable that stands for a method's body, by its number in the
/// host's table; `None` where the body is bytecode.
pub type NativeCode = Option<usize>;

/// The body of a method.
#[derive(Debug, PartialEq, Eq)]
pub struct Code {
    pub native: NativeCode,
    pub max_stack: u16,
    pub max_local: u16,
    pub code: Vec<Opcode>,
    pub exception_table: Vec<ExceptionTableInfo>,
    pub attributes: Vec<AttributeInfo>,
}

/// One row of a method's exception table.
#[derive(Clone, Copy, Debug, PartialEq, Eq, Structural)]
pub struct ExceptionTableInfo {
    pub start_pc: u16,
    pub end_pc: u16,
    pub handler_pc: u16,
    pub catch_type: u16,
}

/// The table that maps code offsets to source lines.
#[derive(Clone, Debug, PartialEq, Eq)]
pub struct LineNumberTable {
    pub attribute_name_index: u16,
    pub attribute_length: u32,
    pub line_number_table: Vec<LineNumberTableInfo>,
}

/// One row of a line-number table.
#[derive(Clone, Copy, Debug, PartialEq, Eq, Structural)]
pub struct LineNumberTableInfo {
    pub start_pc: u16,
    pub line_number: u16,
}

/// What an [`AttributeInfo`] holds.
pub enum AttributeView {
    Code(CodeView),
    LineNumberTable(LineNumberTableView),
    Bytes(Seq<u8>),
}

/// What a [`Code`] holds.
pub struct CodeView {
    pub native: Option<usize>,
    pub max_stack: u16,
    pub max_local: u16,
    pub code: Seq<u8>,
    pub exception_table: Seq<ExceptionTableInfo>,
    pub attributes: Seq<AttributeView>,
}

/// What a [`LineNumberTable`] holds.
pub struct LineNumberTableView {
    pub attribute_name_index: u16,
    pub attribute_length: u32,
    pub line_number_table: Seq<LineNumberTableInfo>,
}

impl View for LineNumberTable {
    type V = LineNumberTableView;

    open spec fn view(&self) -> LineNumberTableView {
        LineNumberTableView {
            attribute_name_index: self.attribute_name_index,
            attribute_length: self.attribute_length,
            line_number_table: self.line_number_table@,
        }
    }
}

/// What the attribute `a` holds.
pub open spec fn attribute_view(a: AttributeInfo) -> AttributeView
    decreases a,
{
    match a {
        AttributeInfo::Code(c) => AttributeView::Code(code_view(c)),
        AttributeInfo::LineNumberTable(t) => AttributeView::LineNumberTable(t@),
        AttributeInfo::Bytes(b) => AttributeView::Bytes(b@),
    }
}

/// What the method body `c` holds.
pub open spec fn code_view(c: Code) -> CodeView
    decreases c,
{
    CodeView {
        native: c.native,
        max_stack: c.max_stack,
        max_local: c.max_local,
        code: c.code@,
        exception_table: c.exception_table@,
        attributes: Seq::new(
            c.attributes@.len(),
            |i: int|
                if 0 <= i < c.attributes@.len() {
                    attribute_view(c.attributes@[i])
                } else {
                    AttributeView::Bytes(Seq::empty())
                },
        ),
    }
}

/// What every attribute of a list holds.
pub open spec fn attributes_view(attributes: Seq<AttributeInfo>) -> Seq<AttributeView> {
    Seq::new(attributes.len(), |i: int| attribute_view(attributes[i]))
}

impl View for AttributeInfo {
    type V = AttributeView;

    open spec fn view(&self) -> AttributeView {
        attribute_view(*self)
    }
}

impl View for Code {
    type V = CodeView;

    open spec fn view(&self) -> CodeView {
        code_view(*self)
    }
}

/// The attributes of a method body are those of its list, one by one.
pub proof fn lemma_code_attributes(c: Code)
    ensures
        c@.attributes == attributes_view(c.attributes@),
{
    assert(c@.attributes =~= attributes_view(c.attributes@));
}

impl Code {
    /// Whether the host stands in for this body.
    pub fn is_native(&self) -> (b: bool)
        ensures
            b == self.native is Some,
    {
        self.native.is_some()
    }

    /// The body of a method that the host carries out: its callable is the
    /// one numbered `f` in the host's table, and it sees a frame of
    /// `max_local` slots. It has no bytecode and needs no operand stack.
    pub fn native(f: usize, max_local: u16) -> (code: Code)
        ensures
            code@ == (CodeView {
                native: Some(f),
                max_stack: 0,
                max_local,
                code: Seq::empty(),
                exception_table: Seq::empty(),
                attributes: Seq::empty(),
            }),
    {
        let code = Code {
            native: Some(f),
            max_local,
            max_stack: 0,
            code: Vec::new(),
            exception_table: Vec::new(),
            attributes: Vec::new(),
        };
        assert(code@.attributes =~= Seq::empty());
        code
    }
}

} // verus!
