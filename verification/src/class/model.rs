//! A class as the loader leaves it.

use super::attribute_info::{attributes_view, AttributeInfo, AttributeView};
use super::field::{FieldInfo, FieldView};
use super::method::{MethodInfo, MethodView};
use super::pool::{pool_view, Entry, EntryView};
use crate::text::same_text;
use vstd::prelude::*;

verus! {

/// Declared public; may be accessed from outside its package.
pub const ACC_PUBLIC: u16 = 0x0001;

/// Declared private; usable only within the defining class.
pub const ACC_PRIVATE: u16 = 0x0002;

/// Declared protected; may be accessed within subclasses.
pub const ACC_PROTECTED: u16 = 0x0004;

/// Declared static.
pub const ACC_STATIC: u16 = 0x0008;

/// Declared final; no subclasses allowed.
pub const ACC_FINAL: u16 = 0x0010;

/// Treat superclass methods specially when invoked by `invokespecial`.
pub const ACC_SUPER: u16 = 0x0020;

/// Declared volatile; cannot be cached.
pub const ACC_VOLATILE: u16 = 0x0040;

/// Declared transient; not written or read by a persistent object manager.
pub const ACC_TRANSIENT: u16 = 0x0080;

/// Is an interface, not a class.
pub const ACC_INTERFACE: u16 = 0x0200;

/// Declared abstract; must not be instantiated.
pub const ACC_ABSTRACT: u16 = 0x0400;

/// Declared synthetic; not present in the source code.
pub const ACC_SYNTHETIC: u16 = 0x1000;

/// Declared as an annotation type.
pub const ACC_ANNOTATION: u16 = 0x2000;

/// Declared as an enum type.
pub const ACC_ENUM: u16 = 0x4000;

/// One class: what its file declares, with the names resolved to text.
#[derive(Debug, PartialEq, Eq)]
pub struct Class {
    pub minor_version: u16,
    pub major_version: u16,
    pub constant_pool: Vec<Entry>,
    pub access_flags: u16,
    pub this_class: String,
    pub super_class: String,
    pub interfaces: Vec<u16>,
    pub fields: Vec<FieldInfo>,
    pub methods: Vec<MethodInfo>,
    pub attributes: Vec<AttributeInfo>,
}

/// What a [`Class`] holds.
pub struct ClassView {
    pub minor_version: u16,
    pub major_version: u16,
    pub constant_pool: Seq<EntryView>,
    pub access_flags: u16,
    pub this_class: Seq<char>,
    pub super_class: Seq<char>,
    pub interfaces: Seq<u16>,
    pub fields: Seq<FieldView>,
    pub methods: Seq<MethodView>,
    pub attributes: Seq<AttributeView>,
}

/// What every field of a list holds.
pub open spec fn fields_view(fields: Seq<FieldInfo>) -> Seq<FieldView> {
    Seq::new(fields.len(), |i: int| fields[i]@)
}

/// What every method of a list holds.
pub open spec fn methods_view(methods: Seq<MethodInfo>) -> Seq<MethodView> {
    Seq::new(methods.len(), |i: int| methods[i]@)
}

impl View for Class {
    type V = ClassView;

    open spec fn view(&self) -> ClassView {
        ClassView {
            minor_version: self.minor_version,
            major_version: self.major_version,
            constant_pool: pool_view(self.constant_pool@),
            access_flags: self.access_flags,
            this_class: self.this_class@,
            super_class: self.super_class@,
            interfaces: self.interfaces@,
            fields: fields_view(self.fields@),
            methods: methods_view(self.methods@),
            attributes: attributes_view(self.attributes@),
        }
    }
}

/// The index of the first of `methods` from `from` on that is called `name`,
/// if there is one.
pub open spec fn first_named(methods: Seq<MethodInfo>, name: Seq<char>, from: int) -> Option<int>
    decreases methods.len() - from,
{
    if from < 0 || from >= methods.len() {
        None
    } else if methods[from].name@ == name {
        Some(from)
    } else {
        first_named(methods, name, from + 1)
    }
}

/// The index of the first of `methods` from `from` on that is called `name`
/// and has the descriptor `descriptor`, if there is one.
pub open spec fn first_matching(
    methods: Seq<MethodInfo>,
    name: Seq<char>,
    descriptor: Seq<char>,
    from: int,
) -> Option<int>
    decreases methods.len() - from,
{
    if from < 0 || from >= methods.len() {
        None
    } else if methods[from].name@ == name && methods[from].descriptor@ == descriptor {
        Some(from)
    } else {
        first_matching(methods, name, descriptor, from + 1)
    }
}

/// What [`first_matching`] finds has the name and the descriptor asked for,
/// and no method before it has both; it finds nothing only if no method has
/// both.
pub proof fn lemma_first_matching(
    methods: Seq<MethodInfo>,
    name: Seq<char>,
    descriptor: Seq<char>,
    from: int,
)
    requires
        0 <= from,
    ensures
        first_matching(methods, name, descriptor, from) matches Some(i) ==> from <= i
            < methods.len() && methods[i].name@ == name && methods[i].descriptor@ == descriptor
            && forall|k: int|
            from <= k < i ==> !(methods[k].name@ == name && methods[k].descriptor@ == descriptor),
        first_matching(methods, name, descriptor, from) is None ==> forall|k: int|
            from <= k < methods.len() ==> !(methods[k].name@ == name && methods[k].descriptor@
                == descriptor),
    decreases methods.len() - from,
{
    if from < methods.len() && !(methods[from].name@ == name && methods[from].descriptor@
        == descriptor) {
        lemma_first_matching(methods, name, descriptor, from + 1);
    }
}

impl Class {
    /// A class of no name that declares nothing.
    pub fn empty() -> (class: Class)
        ensures
            class.minor_version == 0,
            class.major_version == 0,
            class.constant_pool@.len() == 0,
            class.access_flags == 0,
            class.this_class@ == Seq::<char>::empty(),
            class.super_class@ == Seq::<char>::empty(),
            class.interfaces@.len() == 0,
            class.fields@.len() == 0,
            class.methods@.len() == 0,
            class.attributes@.len() == 0,
    {
        Class {
            minor_version: 0,
            major_version: 0,
            constant_pool: Vec::new(),
            access_flags: 0,
            this_class: String::new(),
            super_class: String::new(),
            interfaces: Vec::new(),
            fields: Vec::new(),
            methods: Vec::new(),
            attributes: Vec::new(),
        }
    }

    /// The first method called `method_name`, whatever its descriptor.
    pub fn find_method(&self, method_name: &str) -> (r: Option<&MethodInfo>)
        ensures
            match first_named(self.methods@, method_name@, 0) {
                Some(i) => r == Some(&self.methods@[i]),
                None => r is None,
            },
    {
        let mut i: usize = 0;
        while i < self.methods.len()
            invariant
                i <= self.methods@.len(),
                first_named(self.methods@, method_name@, 0) == first_named(
                    self.methods@,
                    method_name@,
                    i as int,
                ),
            decreases self.methods@.len() - i,
        {
            if same_text(self.methods[i].name.as_str(), method_name) {
                return Some(&self.methods[i]);
            }
            i += 1;
        }
        None
    }

    /// The first method whose name is exactly `method_name` and whose
    /// descriptor is exactly `descriptor`.
    pub fn lookup_method_with_descriptor(&self, method_name: &str, descriptor: &str) -> (r: Option<
        &MethodInfo,
    >)
        ensures
            match first_matching(self.methods@, method_name@, descriptor@, 0) {
                Some(i) => r == Some(&self.methods@[i]),
                None => r is None,
            },
    {
        let mut i: usize = 0;
        while i < self.methods.len()
            invariant
                i <= self.methods@.len(),
                first_matching(self.methods@, method_name@, descriptor@, 0) == first_matching(
                    self.methods@,
                    method_name@,
                    descriptor@,
                    i as int,
                ),
            decreases self.methods@.len() - i,
        {
            if same_text(self.methods[i].name.as_str(), method_name) && same_text(
                self.methods[i].descriptor.as_str(),
                descriptor,
            ) {
                return Some(&self.methods[i]);
            }
            i += 1;
        }
        None
    }
}

impl Default for Class {
    fn default() -> (class: Class)
        ensures
            class.minor_version == 0,
            class.major_version == 0,
            class.constant_pool@.len() == 0,
            class.access_flags == 0,
            class.this_class@ == Seq::<char>::empty(),
            class.super_class@ == Seq::<char>::empty(),
            class.interfaces@.len() == 0,
            class.fields@.len() == 0,
            class.methods@.len() == 0,
            class.attributes@.len() == 0,
    {
        Class::empty()
    }
}

} // verus!
