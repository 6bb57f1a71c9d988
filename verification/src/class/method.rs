//! The methods of a class.

use super::attribute_info::{attributes_view, AttributeInfo, AttributeView, Code};
use vstd::prelude::*;

verus! {

/// One method: its flags, its name and descriptor as text, its attributes.
#[derive(Debug, PartialEq, Eq)]
pub struct MethodInfo {
    pub access_flags: u16,
    pub name: String,
    pub descriptor: String,
    pub attributes: Vec<AttributeInfo>,
}

/// What a [`MethodInfo`] holds.
pub struct MethodView {
    pub access_flags: u16,
    pub name: Seq<char>,
    pub descriptor: Seq<char>,
    pub attributes: Seq<AttributeView>,
}

impl View for MethodInfo {
    type V = MethodView;

    open spec fn view(&self) -> MethodView {
        MethodView {
            access_flags: self.access_flags,
            name: self.name@,
            descriptor: self.descriptor@,
            attributes: attributes_view(self.attributes@),
        }
    }
}

/// The index of the first `Code` among `attributes` from `from` on, if there
/// is one.
pub open spec fn first_code(attributes: Seq<AttributeInfo>, from: int) -> Option<int>
    decreases attributes.len() - from,
{
    if from < 0 || from >= attributes.len() {
        None
    } else if attributes[from] is Code {
        Some(from)
    } else {
        first_code(attributes, from + 1)
    }
}

/// What [`first_code`] finds is a `Code` at an index of the list, and no
/// `Code` stands before it.
pub proof fn lemma_first_code(attributes: Seq<AttributeInfo>, from: int)
    requires
        0 <= from,
    ensures
        first_code(attributes, from) matches Some(i) ==> from <= i < attributes.len()
            && attributes[i] is Code && forall|k: int| from <= k < i ==> !(attributes[k] is Code),
        first_code(attributes, from) is None ==> forall|k: int|
            from <= k < attributes.len() ==> !(attributes[k] is Code),
    decreases attributes.len() - from,
{
    if from < attributes.len() && !(attributes[from] is Code) {
        lemma_first_code(attributes, from + 1);
    }
}

impl MethodInfo {
    /// The body of the method: its first `Code` attribute, if it has one.
    pub open spec fn body(&self) -> Option<Code> {
        match first_code(self.attributes@, 0) {
            Some(i) => Some(self.attributes@[i]->Code_0),
            None => None,
        }
    }

    /// The body of the method: its first `Code` attribute, if it has one.
    pub fn code(&self) -> (r: Option<&Code>)
        ensures
            r matches Some(c) ==> self.body() == Some(*c),
            r is None ==> self.body() is None,
    {
        let mut i: usize = 0;
        while i < self.attributes.len()
            invariant
                i <= self.attributes@.len(),
                first_code(self.attributes@, 0) == first_code(self.attributes@, i as int),
            decreases self.attributes@.len() - i,
        {
            match &self.attributes[i] {
                AttributeInfo::Code(c) => {
                    return Some(c);
                },
                _ => {},
            }
            i += 1;
        }
        None
    }
}

} // verus!
