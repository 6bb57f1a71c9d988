//! The constant pool: a table of symbolic references, indexed from 1.

use crate::error::MistError;
use vstd::prelude::*;

verus! {

/// The tag of a class entry.
pub const CLASS: u8 = 7;

/// The tag of a field reference.
pub const FIELD_REF: u8 = 9;

/// The tag of a method reference.
pub const METHOD_REF: u8 = 10;

/// The tag of an interface-method reference.
pub const INTERFACE_METHOD_REF: u8 = 11;

/// The tag of a string entry.
pub const STRING: u8 = 8;

/// The tag of an int entry.
pub const INTEGER: u8 = 3;

/// The tag of a float entry.
pub const FLOAT: u8 = 4;

/// The tag of a long entry, which fills two slots.
pub const LONG: u8 = 5;

/// The tag of a double entry, which fills two slots.
pub const DOUBLE: u8 = 6;

/// The tag of a name-and-type entry.
pub const NAME_AND_TYPE: u8 = 12;

/// The tag of a UTF-8 text entry.
pub const UTF_8: u8 = 1;

/// The tag of a method handle, which the loader does not handle.
pub const METHOD_HANDLE: u8 = 15;

/// The tag of a method type, which the loader does not handle.
pub const METHOD_TYPE: u8 = 16;

/// The tag of a dynamic call site, which the loader does not handle.
pub const INVOKE_DYNAMIC: u8 = 18;

/// One entry of the constant pool.
#[derive(Clone, Debug, PartialEq, Eq)]
pub enum Entry {
    Utf8Info { bytes: String },
    IntegerInfo { bytes: u32 },
    FloatInfo { bytes: u32 },
    LongInfo { high_bytes: u32, low_bytes: u32 },
    DoubleInfo { high_bytes: u32, low_bytes: u32 },
    ClassInfo { name_index: u16 },
    StringInfo { string_index: u16 },
    FieldRefInfo { class_index: u16, name_and_type_index: u16 },
    MethodRefInfo { class_index: u16, name_and_type_index: u16 },
    InterfaceMethodRefInfo { class_index: u16, name_and_type_index: u16 },
    NameAndTypeInfo { index: u16, descriptor_index: u16 },
}

/// What an [`Entry`] says, with text as a sequence of characters.
pub enum EntryView {
    Utf8Info { bytes: Seq<char> },
    IntegerInfo { bytes: u32 },
    FloatInfo { bytes: u32 },
    LongInfo { high_bytes: u32, low_bytes: u32 },
    DoubleInfo { high_bytes: u32, low_bytes: u32 },
    ClassInfo { name_index: u16 },
    StringInfo { string_index: u16 },
    FieldRefInfo { class_index: u16, name_and_type_index: u16 },
    MethodRefInfo { class_index: u16, name_and_type_index: u16 },
    InterfaceMethodRefInfo { class_index: u16, name_and_type_index: u16 },
    NameAndTypeInfo { index: u16, descriptor_index: u16 },
}

impl View for Entry {
    type V = EntryView;

    open spec fn view(&self) -> EntryView {
        match *self {
            Entry::Utf8Info { bytes } => EntryView::Utf8Info { bytes: bytes@ },
            Entry::IntegerInfo { bytes } => EntryView::IntegerInfo { bytes },
            Entry::FloatInfo { bytes } => EntryView::FloatInfo { bytes },
            Entry::LongInfo { high_bytes, low_bytes } => EntryView::LongInfo {
                high_bytes,
                low_bytes,
            },
            Entry::DoubleInfo { high_bytes, low_bytes } => EntryView::DoubleInfo {
                high_bytes,
                low_bytes,
            },
            Entry::ClassInfo { name_index } => EntryView::ClassInfo { name_index },
            Entry::StringInfo { string_index } => EntryView::StringInfo { string_index },
            Entry::FieldRefInfo { class_index, name_and_type_index } => EntryView::FieldRefInfo {
                class_index,
                name_and_type_index,
            },
            Entry::MethodRefInfo { class_index, name_and_type_index } => EntryView::MethodRefInfo {
                class_index,
                name_and_type_index,
            },
            Entry::InterfaceMethodRefInfo {
                class_index,
                name_and_type_index,
            } => EntryView::InterfaceMethodRefInfo { class_index, name_and_type_index },
            Entry::NameAndTypeInfo { index, descriptor_index } => EntryView::NameAndTypeInfo {
                index,
                descriptor_index,
            },
        }
    }
}

/// What every entry of a pool says.
pub open spec fn pool_view(pool: Seq<Entry>) -> Seq<EntryView> {
    Seq::new(pool.len(), |i: int| pool[i]@)
}

/// The view of a pool goes entry by entry.
pub proof fn lemma_pool_view(pool: Seq<Entry>, entry: Entry, index: int)
    ensures
        pool_view(pool.push(entry)) == pool_view(pool).push(entry@),
        0 <= index < pool.len() ==> pool_view(pool.update(index, entry)) == pool_view(pool).update(
            index,
            entry@,
        ),
{
    assert(pool_view(pool.push(entry)) =~= pool_view(pool).push(entry@));
    if 0 <= index < pool.len() {
        assert(pool_view(pool.update(index, entry)) =~= pool_view(pool).update(index, entry@));
    }
}

/// A class, a member and its descriptor, by name.
pub struct MemberRef<'a> {
    pub class_name: &'a str,
    pub name: &'a str,
    pub descriptor: &'a str,
}

/// What a [`MemberRef`] names.
pub struct MemberRefView {
    pub class_name: Seq<char>,
    pub name: Seq<char>,
    pub descriptor: Seq<char>,
}

impl<'a> View for MemberRef<'a> {
    type V = MemberRefView;

    open spec fn view(&self) -> MemberRefView {
        MemberRefView {
            class_name: self.class_name@,
            name: self.name@,
            descriptor: self.descriptor@,
        }
    }
}

/// The text of the UTF-8 entry at `index`; `InvalidReference` if the pool has
/// no such entry. Index 0 is never an entry.
pub open spec fn utf8_at(pool: Seq<EntryView>, index: int) -> Result<Seq<char>, MistError> {
    if 0 < index < pool.len() {
        match pool[index] {
            EntryView::Utf8Info { bytes } => Ok(bytes),
            _ => Err(MistError::InvalidReference),
        }
    } else {
        Err(MistError::InvalidReference)
    }
}

/// The name of the class that the class entry at `index` refers to.
pub open spec fn class_name_at(pool: Seq<EntryView>, index: int) -> Result<Seq<char>, MistError> {
    if 0 < index < pool.len() {
        match pool[index] {
            EntryView::ClassInfo { name_index } => utf8_at(pool, name_index as int),
            _ => Err(MistError::InvalidReference),
        }
    } else {
        Err(MistError::InvalidReference)
    }
}

/// The name and the descriptor that the name-and-type entry at `index` refers
/// to.
pub open spec fn name_and_type_at(pool: Seq<EntryView>, index: int) -> Result<
    (Seq<char>, Seq<char>),
    MistError,
> {
    if 0 < index < pool.len() {
        match pool[index] {
            EntryView::NameAndTypeInfo { index: name_index, descriptor_index } => match (
                utf8_at(pool, name_index as int),
                utf8_at(pool, descriptor_index as int),
            ) {
                (Ok(name), Ok(descriptor)) => Ok((name, descriptor)),
                _ => Err(MistError::InvalidReference),
            },
            _ => Err(MistError::InvalidReference),
        }
    } else {
        Err(MistError::InvalidReference)
    }
}

/// The member that a reference to `class_index` and `name_and_type_index`
/// names, once both are resolved.
pub open spec fn member_at(pool: Seq<EntryView>, class_index: u16, name_and_type_index: u16) -> Result<
    MemberRefView,
    MistError,
> {
    match (
        class_name_at(pool, class_index as int),
        name_and_type_at(pool, name_and_type_index as int),
    ) {
        (Ok(class_name), Ok((name, descriptor))) => Ok(
            MemberRefView { class_name, name, descriptor },
        ),
        _ => Err(MistError::InvalidReference),
    }
}

/// The method that the method-reference entry at `index` names.
pub open spec fn method_ref_at(pool: Seq<EntryView>, index: int) -> Result<
    MemberRefView,
    MistError,
> {
    if 0 < index < pool.len() {
        match pool[index] {
            EntryView::MethodRefInfo { class_index, name_and_type_index } => member_at(
                pool,
                class_index,
                name_and_type_index,
            ),
            _ => Err(MistError::InvalidReference),
        }
    } else {
        Err(MistError::InvalidReference)
    }
}

/// The field that the field-reference entry at `index` names.
pub open spec fn field_ref_at(pool: Seq<EntryView>, index: int) -> Result<
    MemberRefView,
    MistError,
> {
    if 0 < index < pool.len() {
        match pool[index] {
            EntryView::FieldRefInfo { class_index, name_and_type_index } => member_at(
                pool,
                class_index,
                name_and_type_index,
            ),
            _ => Err(MistError::InvalidReference),
        }
    } else {
        Err(MistError::InvalidReference)
    }
}

/// Whether every index that `entry` holds resolves in `pool` to an entry of
/// the kind that it has to name: text for a class, a string, and both parts
/// of a name-and-type; a class and a name-and-type for a reference to a
/// field or a method.
pub open spec fn entry_resolves(pool: Seq<EntryView>, entry: EntryView) -> bool {
    match entry {
        EntryView::ClassInfo { name_index } => utf8_at(pool, name_index as int) is Ok,
        EntryView::StringInfo { string_index } => utf8_at(pool, string_index as int) is Ok,
        EntryView::NameAndTypeInfo { index, descriptor_index } => utf8_at(pool, index as int) is Ok
            && utf8_at(pool, descriptor_index as int) is Ok,
        EntryView::FieldRefInfo { class_index, name_and_type_index } => member_at(
            pool,
            class_index,
            name_and_type_index,
        ) is Ok,
        EntryView::MethodRefInfo { class_index, name_and_type_index } => member_at(
            pool,
            class_index,
            name_and_type_index,
        ) is Ok,
        EntryView::InterfaceMethodRefInfo { class_index, name_and_type_index } => member_at(
            pool,
            class_index,
            name_and_type_index,
        ) is Ok,
        _ => true,
    }
}

/// Whether every index stored inside an entry of `pool` resolves to an entry
/// of the expected kind.
pub open spec fn resolves(pool: Seq<EntryView>) -> bool {
    forall|i: int| 0 <= i < pool.len() ==> entry_resolves(pool, #[trigger] pool[i])
}

/// In a pool that resolves, a lookup fails only for an index that does not
/// name an entry of the kind looked up.
pub proof fn lemma_resolved_lookups(pool: Seq<EntryView>, index: int)
    requires
        resolves(pool),
        0 < index < pool.len(),
    ensures
        pool[index] is Utf8Info <==> utf8_at(pool, index) is Ok,
        pool[index] is ClassInfo <==> class_name_at(pool, index) is Ok,
        pool[index] is NameAndTypeInfo <==> name_and_type_at(pool, index) is Ok,
        pool[index] is MethodRefInfo <==> method_ref_at(pool, index) is Ok,
        pool[index] is FieldRefInfo <==> field_ref_at(pool, index) is Ok,
{
    assert(entry_resolves(pool, pool[index]));
}

/// Whether `r` is the text that `expected` tells of.
pub open spec fn is_text(r: Result<&str, MistError>, expected: Result<Seq<char>, MistError>) -> bool {
    match expected {
        Ok(text) => r is Ok && r->Ok_0@ == text,
        Err(e) => r is Err && r->Err_0 == e,
    }
}

/// Whether `r` is the member that `expected` tells of.
pub open spec fn is_member(
    r: Result<MemberRef<'_>, MistError>,
    expected: Result<MemberRefView, MistError>,
) -> bool {
    match expected {
        Ok(member) => r is Ok && r->Ok_0@ == member,
        Err(e) => r is Err && r->Err_0 == e,
    }
}

/// The text of the UTF-8 entry at `index`.
pub fn utf8<'a>(pool: &'a [Entry], index: u16) -> (r: Result<&'a str, MistError>)
    ensures
        is_text(r, utf8_at(pool_view(pool@), index as int)),
{
    if index == 0 || index as usize >= pool.len() {
        return Err(MistError::InvalidReference);
    }
    match &pool[index as usize] {
        Entry::Utf8Info { bytes } => Ok(bytes.as_str()),
        _ => Err(MistError::InvalidReference),
    }
}

/// The name of the class that the class entry at `index` refers to.
pub fn class_name<'a>(pool: &'a [Entry], index: u16) -> (r: Result<&'a str, MistError>)
    ensures
        is_text(r, class_name_at(pool_view(pool@), index as int)),
{
    if index == 0 || index as usize >= pool.len() {
        return Err(MistError::InvalidReference);
    }
    match &pool[index as usize] {
        Entry::ClassInfo { name_index } => utf8(pool, *name_index),
        _ => Err(MistError::InvalidReference),
    }
}

fn member<'a>(pool: &'a [Entry], class_index: u16, name_and_type_index: u16) -> (r: Result<
    MemberRef<'a>,
    MistError,
>)
    ensures
        is_member(r, member_at(pool_view(pool@), class_index, name_and_type_index)),
{
    let class_name = match class_name(pool, class_index) {
        Ok(s) => s,
        Err(_) => {
            return Err(MistError::InvalidReference);
        },
    };
    if name_and_type_index == 0 || name_and_type_index as usize >= pool.len() {
        return Err(MistError::InvalidReference);
    }
    match &pool[name_and_type_index as usize] {
        Entry::NameAndTypeInfo { index, descriptor_index } => {
            let name = match utf8(pool, *index) {
                Ok(s) => s,
                Err(_) => {
                    return Err(MistError::InvalidReference);
                },
            };
            let descriptor = match utf8(pool, *descriptor_index) {
                Ok(s) => s,
                Err(_) => {
                    return Err(MistError::InvalidReference);
                },
            };
            Ok(MemberRef { class_name, name, descriptor })
        },
        _ => Err(MistError::InvalidReference),
    }
}

/// The class, the name and the descriptor of the method that the
/// method-reference entry at `index` names; `InvalidReference` if any entry on
/// the way is missing or of another kind.
pub fn method_ref<'a>(pool: &'a [Entry], index: u16) -> (r: Result<MemberRef<'a>, MistError>)
    ensures
        is_member(r, method_ref_at(pool_view(pool@), index as int)),
{
    if index == 0 || index as usize >= pool.len() {
        return Err(MistError::InvalidReference);
    }
    match &pool[index as usize] {
        Entry::MethodRefInfo { class_index, name_and_type_index } => member(
            pool,
            *class_index,
            *name_and_type_index,
        ),
        _ => Err(MistError::InvalidReference),
    }
}

/// The class, the name and the descriptor of the field that the
/// field-reference entry at `index` names; `InvalidReference` if any entry on
/// the way is missing or of another kind.
pub fn field_ref<'a>(pool: &'a [Entry], index: u16) -> (r: Result<MemberRef<'a>, MistError>)
    ensures
        is_member(r, field_ref_at(pool_view(pool@), index as int)),
{
    if index == 0 || index as usize >= pool.len() {
        return Err(MistError::InvalidReference);
    }
    match &pool[index as usize] {
        Entry::FieldRefInfo { class_index, name_and_type_index } => member(
            pool,
            *class_index,
            *name_and_type_index,
        ),
        _ => Err(MistError::InvalidReference),
    }
}

fn resolves_entry(pool: &[Entry], entry: &Entry) -> (r: bool)
    ensures
        r == entry_resolves(pool_view(pool@), entry@),
{
    match entry {
        Entry::ClassInfo { name_index } => utf8(pool, *name_index).is_ok(),
        Entry::StringInfo { string_index } => utf8(pool, *string_index).is_ok(),
        Entry::NameAndTypeInfo { index, descriptor_index } => utf8(pool, *index).is_ok() && utf8(
            pool,
            *descriptor_index,
        ).is_ok(),
        Entry::FieldRefInfo { class_index, name_and_type_index } => member(
            pool,
            *class_index,
            *name_and_type_index,
        ).is_ok(),
        Entry::MethodRefInfo { class_index, name_and_type_index } => member(
            pool,
            *class_index,
            *name_and_type_index,
        ).is_ok(),
        Entry::InterfaceMethodRefInfo { class_index, name_and_type_index } => member(
            pool,
            *class_index,
            *name_and_type_index,
        ).is_ok(),
        _ => true,
    }
}

/// Whether every index stored inside an entry of `pool` resolves to an entry
/// of the expected kind.
pub fn is_resolved(pool: &[Entry]) -> (r: bool)
    ensures
        r == resolves(pool_view(pool@)),
{
    let mut i: usize = 0;
    while i < pool.len()
        invariant
            i <= pool@.len(),
            forall|k: int|
                0 <= k < i ==> entry_resolves(pool_view(pool@), #[trigger] pool_view(pool@)[k]),
        decreases pool@.len() - i,
    {
        if !resolves_entry(pool, &pool[i]) {
            assert(!entry_resolves(pool_view(pool@), pool_view(pool@)[i as int]));
            return false;
        }
        i += 1;
    }
    true
}

/// A lookup never fails otherwise than with `InvalidReference`, and a method
/// reference that resolves is built of entries of the expected kinds.
pub proof fn lemma_resolution(pool: Seq<EntryView>, index: int)
    ensures
        utf8_at(pool, index) is Err ==> utf8_at(pool, index)->Err_0 == MistError::InvalidReference,
        class_name_at(pool, index) is Err ==> class_name_at(pool, index)->Err_0
            == MistError::InvalidReference,
        method_ref_at(pool, index) is Err ==> method_ref_at(pool, index)->Err_0
            == MistError::InvalidReference,
        field_ref_at(pool, index) is Err ==> field_ref_at(pool, index)->Err_0
            == MistError::InvalidReference,
        utf8_at(pool, index) is Ok ==> pool[index] is Utf8Info,
        class_name_at(pool, index) is Ok ==> pool[index] is ClassInfo
            && pool[pool[index]->name_index as int] is Utf8Info,
        method_ref_at(pool, index) is Ok ==> pool[index] is MethodRefInfo,
        field_ref_at(pool, index) is Ok ==> pool[index] is FieldRefInfo,
{
}

} // verus!
