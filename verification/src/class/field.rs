//! The fields of a class.

use super::attribute_info::{attributes_view, AttributeInfo, AttributeView};
use vstd::prelude::*;

verus! {

/// One field: its flags, its name and descriptor as text, its attributes.
#[derive(Debug, PartialEq, Eq)]
pub struct FieldInfo {
    pub access_flags: u16,
    pub name: String,
    pub descriptor: String,
    pub attributes: Vec<AttributeInfo>,
}

/// What a [`FieldInfo`] holds.
pub struct FieldView {
    pub access_flags: u16,
    pub name: Seq<char>,
    pub descriptor: Seq<char>,
    pub attributes: Seq<AttributeView>,
}

impl View for FieldInfo {
    type V = FieldView;

    open spec fn view(&self) -> FieldView {
        FieldView {
            access_flags: self.access_flags,
            name: self.name@,
            descriptor: self.descriptor@,
            attributes: attributes_view(self.attributes@),
        }
    }
}

} // verus!
