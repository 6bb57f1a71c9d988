//! The loader: decodes the big-endian class format from bytes.
//!
//! The format is stated by the `*_at` functions, which say what stands at a
//! position of a byte sequence and where it ends. The [`Reader`] computes
//! them over its buffer, moving a cursor; a read that fails leaves the cursor
//! where it was.

use super::attribute_info::{
    attributes_view, lemma_code_attributes, AttributeInfo, AttributeView, Code, CodeView,
    ExceptionTableInfo, LineNumberTable, LineNumberTableInfo, LineNumberTableView,
};
use super::field::{FieldInfo, FieldView};
use super::method::{MethodInfo, MethodView};
use super::model::{fields_view, methods_view, Class, ClassView};
use super::pool;
use super::pool::{
    class_name_at, lemma_pool_view, pool_view, resolves, utf8_at, Entry, EntryView,
};
use crate::error::MistError;
use crate::text::{same_text, string_from_utf8};
use vstd::prelude::*;
use vstd::utf8::{decode_utf8, valid_utf8};

verus! {

/// The number that opens every class file.
pub const MAGIC: u32 = 0xCAFEBABE;

/// The byte at `pos`; `IoError` if the bytes end before it.
pub open spec fn u8_at(bytes: Seq<u8>, pos: int) -> Result<(u8, int), MistError> {
    if 0 <= pos && pos + 1 <= bytes.len() {
        Ok((bytes[pos], pos + 1))
    } else {
        Err(MistError::IoError)
    }
}

/// The big-endian 16-bit number at `pos`; `IoError` if the bytes end before
/// its end.
pub open spec fn u16_at(bytes: Seq<u8>, pos: int) -> Result<(u16, int), MistError> {
    if 0 <= pos && pos + 2 <= bytes.len() {
        Ok(((bytes[pos] * 0x100 + bytes[pos + 1]) as u16, pos + 2))
    } else {
        Err(MistError::IoError)
    }
}

/// The big-endian 32-bit number at `pos`; `IoError` if the bytes end before
/// its end.
pub open spec fn u32_at(bytes: Seq<u8>, pos: int) -> Result<(u32, int), MistError> {
    if 0 <= pos && pos + 4 <= bytes.len() {
        Ok(
            (
                (bytes[pos] * 0x100_0000 + bytes[pos + 1] * 0x1_0000 + bytes[pos + 2] * 0x100
                    + bytes[pos + 3]) as u32,
                pos + 4,
            ),
        )
    } else {
        Err(MistError::IoError)
    }
}

/// The `count` bytes from `pos` on; `IoError` if the bytes end before their
/// end.
pub open spec fn bytes_at(bytes: Seq<u8>, pos: int, count: int) -> Result<(Seq<u8>, int), MistError> {
    if 0 <= pos && 0 <= count && pos + count <= bytes.len() {
        Ok((bytes.subrange(pos, pos + count), pos + count))
    } else {
        Err(MistError::IoError)
    }
}

/// Four big-endian 16-bit numbers in a row.
pub open spec fn four_u16_at(bytes: Seq<u8>, pos: int) -> Result<
    ((u16, u16, u16, u16), int),
    MistError,
> {
    if 0 <= pos && pos + 8 <= bytes.len() {
        Ok(
            (
                (
                    u16_at(bytes, pos).unwrap().0,
                    u16_at(bytes, pos + 2).unwrap().0,
                    u16_at(bytes, pos + 4).unwrap().0,
                    u16_at(bytes, pos + 6).unwrap().0,
                ),
                pos + 8,
            ),
        )
    } else {
        Err(MistError::IoError)
    }
}

/// The header of a class file: the magic number, then the minor version, the
/// major version and the constant-pool count. A magic number other than
/// `0xCAFEBABE` is an `InvalidFormat`.
pub open spec fn header_at(bytes: Seq<u8>, pos: int) -> Result<((u16, u16, u16), int), MistError> {
    match u32_at(bytes, pos) {
        Err(e) => Err(e),
        Ok((magic, pos1)) => if magic != MAGIC {
            Err(MistError::InvalidFormat)
        } else {
            match u16_at(bytes, pos1) {
                Err(e) => Err(e),
                Ok((minor, pos2)) => match u16_at(bytes, pos2) {
                    Err(e) => Err(e),
                    Ok((major, pos3)) => match u16_at(bytes, pos3) {
                        Err(e) => Err(e),
                        Ok((count, pos4)) => Ok(((minor, major, count), pos4)),
                    },
                },
            }
        },
    }
}

/// A pool entry that holds two 16-bit indices.
pub open spec fn index_pair_at(bytes: Seq<u8>, pos: int) -> Result<((u16, u16), int), MistError> {
    match u16_at(bytes, pos) {
        Err(e) => Err(e),
        Ok((first, pos1)) => match u16_at(bytes, pos1) {
            Err(e) => Err(e),
            Ok((second, pos2)) => Ok(((first, second), pos2)),
        },
    }
}

/// A pool entry that holds two 32-bit words.
pub open spec fn word_pair_at(bytes: Seq<u8>, pos: int) -> Result<((u32, u32), int), MistError> {
    match u32_at(bytes, pos) {
        Err(e) => Err(e),
        Ok((first, pos1)) => match u32_at(bytes, pos1) {
            Err(e) => Err(e),
            Ok((second, pos2)) => Ok(((first, second), pos2)),
        },
    }
}

/// The text of a UTF-8 pool entry: a 16-bit length, then that many bytes,
/// which have to be valid UTF-8 or the entry is an `InvalidFormat`.
pub open spec fn text_at(bytes: Seq<u8>, pos: int) -> Result<(Seq<char>, int), MistError> {
    match u16_at(bytes, pos) {
        Err(e) => Err(e),
        Ok((length, pos1)) => match bytes_at(bytes, pos1, length as int) {
            Err(e) => Err(e),
            Ok((raw, pos2)) => if valid_utf8(raw) {
                Ok((decode_utf8(raw), pos2))
            } else {
                Err(MistError::InvalidFormat)
            },
        },
    }
}

/// One constant-pool entry: a tag byte, then what the tag announces. The tags
/// of method handles, method types and dynamic call sites are `Unsupported`;
/// a byte that is no tag at all is an `InvalidFormat`.
pub open spec fn entry_at(bytes: Seq<u8>, pos: int) -> Result<(EntryView, int), MistError> {
    match u8_at(bytes, pos) {
        Err(e) => Err(e),
        Ok((tag, pos1)) => if tag == pool::UTF_8 {
            match text_at(bytes, pos1) {
                Err(e) => Err(e),
                Ok((text, end)) => Ok((EntryView::Utf8Info { bytes: text }, end)),
            }
        } else if tag == pool::INTEGER {
            match u32_at(bytes, pos1) {
                Err(e) => Err(e),
                Ok((word, end)) => Ok((EntryView::IntegerInfo { bytes: word }, end)),
            }
        } else if tag == pool::FLOAT {
            match u32_at(bytes, pos1) {
                Err(e) => Err(e),
                Ok((word, end)) => Ok((EntryView::FloatInfo { bytes: word }, end)),
            }
        } else if tag == pool::LONG {
            match word_pair_at(bytes, pos1) {
                Err(e) => Err(e),
                Ok(((high_bytes, low_bytes), end)) => Ok(
                    (EntryView::LongInfo { high_bytes, low_bytes }, end),
                ),
            }
        } else if tag == pool::DOUBLE {
            match word_pair_at(bytes, pos1) {
                Err(e) => Err(e),
                Ok(((high_bytes, low_bytes), end)) => Ok(
                    (EntryView::DoubleInfo { high_bytes, low_bytes }, end),
                ),
            }
        } else if tag == pool::CLASS {
            match u16_at(bytes, pos1) {
                Err(e) => Err(e),
                Ok((name_index, end)) => Ok((EntryView::ClassInfo { name_index }, end)),
            }
        } else if tag == pool::STRING {
            match u16_at(bytes, pos1) {
                Err(e) => Err(e),
                Ok((string_index, end)) => Ok((EntryView::StringInfo { string_index }, end)),
            }
        } else if tag == pool::FIELD_REF {
            match index_pair_at(bytes, pos1) {
                Err(e) => Err(e),
                Ok(((class_index, name_and_type_index), end)) => Ok(
                    (EntryView::FieldRefInfo { class_index, name_and_type_index }, end),
                ),
            }
        } else if tag == pool::METHOD_REF {
            match index_pair_at(bytes, pos1) {
                Err(e) => Err(e),
                Ok(((class_index, name_and_type_index), end)) => Ok(
                    (EntryView::MethodRefInfo { class_index, name_and_type_index }, end),
                ),
            }
        } else if tag == pool::INTERFACE_METHOD_REF {
            match index_pair_at(bytes, pos1) {
                Err(e) => Err(e),
                Ok(((class_index, name_and_type_index), end)) => Ok(
                    (EntryView::InterfaceMethodRefInfo { class_index, name_and_type_index }, end),
                ),
            }
        } else if tag == pool::NAME_AND_TYPE {
            match index_pair_at(bytes, pos1) {
                Err(e) => Err(e),
                Ok(((index, descriptor_index), end)) => Ok(
                    (EntryView::NameAndTypeInfo { index, descriptor_index }, end),
                ),
            }
        } else if tag == pool::METHOD_HANDLE || tag == pool::METHOD_TYPE || tag
            == pool::INVOKE_DYNAMIC {
            Err(MistError::Unsupported)
        } else {
            Err(MistError::InvalidFormat)
        }
    }
}

/// The number of pool slots that an entry fills: two for a long or a double,
/// one for any other.
pub open spec fn slots_of(entry: EntryView) -> int {
    if entry is LongInfo || entry is DoubleInfo {
        2
    } else {
        1
    }
}

/// What stands in a pool slot that no entry fills: slot 0, and the slot after
/// a long or a double.
pub open spec fn unused_slot() -> EntryView {
    EntryView::IntegerInfo { bytes: 0 }
}

/// The pool `acc` with the entries from `pos` on put into the slots from
/// `slot` up to `count`, and where the last of them ends.
pub open spec fn pool_from(
    bytes: Seq<u8>,
    pos: int,
    slot: int,
    count: int,
    acc: Seq<EntryView>,
) -> Result<(Seq<EntryView>, int), MistError>
    decreases
            (if slot < count {
                count - slot
            } else {
                0
            }),
{
    if slot >= count || slot < 0 {
        Ok((acc, pos))
    } else {
        match entry_at(bytes, pos) {
            Err(e) => Err(e),
            Ok((entry, end)) => pool_from(
                bytes,
                end,
                slot + slots_of(entry),
                count,
                acc.update(slot, entry),
            ),
        }
    }
}

/// The constant pool of `count` slots whose entries start at `pos`: slot 0 is
/// unused, the entries fill the slots from 1 on, and a long or a double leaves
/// the slot after its own unused. A count of 0 is an `InvalidFormat`.
pub open spec fn pool_at(bytes: Seq<u8>, pos: int, count: u16) -> Result<
    (Seq<EntryView>, int),
    MistError,
> {
    if count == 0 {
        Err(MistError::InvalidFormat)
    } else {
        pool_from(bytes, pos, 1, count as int, Seq::new(count as nat, |i: int| unused_slot()))
    }
}

/// The big-endian 16-bit number at `pos`, where the bytes are known to reach
/// that far.
pub open spec fn be16(bytes: Seq<u8>, pos: int) -> u16 {
    (bytes[pos] * 0x100 + bytes[pos + 1]) as u16
}

/// The list of interface indices: `count` 16-bit numbers in a row.
pub open spec fn interfaces_at(bytes: Seq<u8>, pos: int, count: u16) -> Result<
    (Seq<u16>, int),
    MistError,
> {
    if 0 <= pos && pos + 2 * count <= bytes.len() {
        Ok((Seq::new(count as nat, |i: int| be16(bytes, pos + 2 * i)), pos + 2 * count))
    } else {
        Err(MistError::IoError)
    }
}

/// The class's flags, the pool indices of its own and its superclass's
/// name, and the number of its interfaces: four 16-bit numbers.
pub open spec fn type_info_at(bytes: Seq<u8>, pos: int) -> Result<
    ((u16, u16, u16, u16), int),
    MistError,
> {
    four_u16_at(bytes, pos)
}

/// The row of an exception table at `pos`: four 16-bit numbers.
pub open spec fn exception_row_at(bytes: Seq<u8>, pos: int) -> ExceptionTableInfo {
    ExceptionTableInfo {
        start_pc: be16(bytes, pos),
        end_pc: be16(bytes, pos + 2),
        handler_pc: be16(bytes, pos + 4),
        catch_type: be16(bytes, pos + 6),
    }
}

/// An exception table: a 16-bit count, then that many rows.
pub open spec fn exception_table_at(bytes: Seq<u8>, pos: int) -> Result<
    (Seq<ExceptionTableInfo>, int),
    MistError,
> {
    match u16_at(bytes, pos) {
        Err(e) => Err(e),
        Ok((count, pos1)) => if pos1 + 8 * count <= bytes.len() {
            Ok(
                (
                    Seq::new(count as nat, |i: int| exception_row_at(bytes, pos1 + 8 * i)),
                    pos1 + 8 * count,
                ),
            )
        } else {
            Err(MistError::IoError)
        },
    }
}

/// The row of a line-number table at `pos`: two 16-bit numbers.
pub open spec fn line_number_at(bytes: Seq<u8>, pos: int) -> LineNumberTableInfo {
    LineNumberTableInfo { start_pc: be16(bytes, pos), line_number: be16(bytes, pos + 2) }
}

/// The rows of a line-number table: a 16-bit count, then that many rows.
pub open spec fn line_numbers_at(bytes: Seq<u8>, pos: int) -> Result<
    (Seq<LineNumberTableInfo>, int),
    MistError,
> {
    match u16_at(bytes, pos) {
        Err(e) => Err(e),
        Ok((count, pos1)) => if pos1 + 4 * count <= bytes.len() {
            Ok(
                (
                    Seq::new(count as nat, |i: int| line_number_at(bytes, pos1 + 4 * i)),
                    pos1 + 4 * count,
                ),
            )
        } else {
            Err(MistError::IoError)
        },
    }
}

/// One attribute: the pool index of its name, the 32-bit length of its
/// payload, and the payload.
///
/// The name has to be a UTF-8 entry of `pool`, or the attribute is an
/// `InvalidFormat`. A `LineNumberTable` and a `Code` are decoded, and have to
/// fill exactly the length announced, or they are an `InvalidFormat`; the
/// payload of any other attribute is kept as it stands.
pub open spec fn attribute_at(bytes: Seq<u8>, pos: int, pool: Seq<EntryView>) -> Result<
    (AttributeView, int),
    MistError,
>
    decreases bytes.len() - pos, 1nat,
{
    match u16_at(bytes, pos) {
        Err(e) => Err(e),
        Ok((name_index, pos1)) => match u32_at(bytes, pos1) {
            Err(e) => Err(e),
            Ok((length, pos2)) => match utf8_at(pool, name_index as int) {
                Err(_) => Err(MistError::InvalidFormat),
                Ok(name) => if name == "LineNumberTable"@ {
                    match line_numbers_at(bytes, pos2) {
                        Err(e) => Err(e),
                        Ok((rows, end)) => if end - pos2 == length {
                            Ok(
                                (
                                    AttributeView::LineNumberTable(
                                        LineNumberTableView {
                                            attribute_name_index: name_index,
                                            attribute_length: length,
                                            line_number_table: rows,
                                        },
                                    ),
                                    end,
                                ),
                            )
                        } else {
                            Err(MistError::InvalidFormat)
                        },
                    }
                } else if name == "Code"@ {
                    match code_at(bytes, pos2, pool) {
                        Err(e) => Err(e),
                        Ok((code, end)) => if end - pos2 == length {
                            Ok((AttributeView::Code(code), end))
                        } else {
                            Err(MistError::InvalidFormat)
                        },
                    }
                } else {
                    match bytes_at(bytes, pos2, length as int) {
                        Err(e) => Err(e),
                        Ok((payload, end)) => Ok((AttributeView::Bytes(payload), end)),
                    }
                },
            },
        },
    }
}

/// The payload of a `Code` attribute: the limits of the operand stack and of
/// the local variables, the 32-bit length of the bytecode and the bytecode,
/// the exception table, and a list of attributes with its 16-bit count.
pub open spec fn code_at(bytes: Seq<u8>, pos: int, pool: Seq<EntryView>) -> Result<
    (CodeView, int),
    MistError,
>
    decreases bytes.len() - pos, 0nat,
{
    match index_pair_at(bytes, pos) {
        Err(e) => Err(e),
        Ok(((max_stack, max_local), pos1)) => match u32_at(bytes, pos1) {
            Err(e) => Err(e),
            Ok((code_length, pos2)) => match bytes_at(bytes, pos2, code_length as int) {
                Err(e) => Err(e),
                Ok((code, pos3)) => match exception_table_at(bytes, pos3) {
                    Err(e) => Err(e),
                    Ok((exception_table, pos4)) => match u16_at(bytes, pos4) {
                        Err(e) => Err(e),
                        Ok((count, pos5)) => match attributes_from(
                            bytes,
                            pos5,
                            pool,
                            count as nat,
                            Seq::empty(),
                        ) {
                            Err(e) => Err(e),
                            Ok((attributes, end)) => Ok(
                                (
                                    CodeView {
                                        native: None,
                                        max_stack,
                                        max_local,
                                        code,
                                        exception_table,
                                        attributes,
                                    },
                                    end,
                                ),
                            ),
                        },
                    },
                },
            },
        },
    }
}

/// The `remaining` attributes from `pos` on, after `acc`.
pub open spec fn attributes_from(
    bytes: Seq<u8>,
    pos: int,
    pool: Seq<EntryView>,
    remaining: nat,
    acc: Seq<AttributeView>,
) -> Result<(Seq<AttributeView>, int), MistError>
    decreases bytes.len() - pos, remaining + 2,
{
    if remaining == 0 {
        Ok((acc, pos))
    } else {
        match attribute_at(bytes, pos, pool) {
            Err(e) => Err(e),
            Ok((attribute, end)) => if pos < end <= bytes.len() {
                attributes_from(bytes, end, pool, (remaining - 1) as nat, acc.push(attribute))
            } else {
                Err(MistError::InvalidFormat)
            },
        }
    }
}

/// A list of attributes: a 16-bit count, then that many attributes.
pub open spec fn attributes_at(bytes: Seq<u8>, pos: int, pool: Seq<EntryView>) -> Result<
    (Seq<AttributeView>, int),
    MistError,
> {
    match u16_at(bytes, pos) {
        Err(e) => Err(e),
        Ok((count, pos1)) => attributes_from(bytes, pos1, pool, count as nat, Seq::empty()),
    }
}

/// A list of attributes that was read ends within the bytes, at or behind
/// its start, and holds `remaining` attributes more than `acc`.
pub proof fn lemma_attributes_end(
    bytes: Seq<u8>,
    pos: int,
    pool: Seq<EntryView>,
    remaining: nat,
    acc: Seq<AttributeView>,
)
    requires
        0 <= pos <= bytes.len(),
    ensures
        attributes_from(bytes, pos, pool, remaining, acc) matches Ok((all, end)) ==> pos <= end
            <= bytes.len() && all.len() == acc.len() + remaining,
    decreases remaining,
{
    if remaining > 0 {
        match attribute_at(bytes, pos, pool) {
            Err(e) => {},
            Ok((attribute, end)) => {
                if pos < end <= bytes.len() {
                    lemma_attributes_end(
                        bytes,
                        end,
                        pool,
                        (remaining - 1) as nat,
                        acc.push(attribute),
                    );
                }
            },
        }
    }
}

/// An attribute that was read ends within the bytes, behind its six-byte
/// header and the payload length that the header announces.
pub proof fn lemma_attribute_end(bytes: Seq<u8>, pos: int, pool: Seq<EntryView>)
    ensures
        attribute_at(bytes, pos, pool) matches Ok((_, end)) ==> end == pos + 6 + u32_at(
            bytes,
            pos + 2,
        ).unwrap().0 && end <= bytes.len() && 0 <= pos,
{
    if attribute_at(bytes, pos, pool) is Ok {
        let pos2 = pos + 6;
        let name = utf8_at(pool, u16_at(bytes, pos).unwrap().0 as int).unwrap();
        if name != "LineNumberTable"@ && name == "Code"@ {
            let pos3 = bytes_at(bytes, pos2 + 8, u32_at(bytes, pos2 + 4).unwrap().0 as int).unwrap().1;
            let pos4 = exception_table_at(bytes, pos3).unwrap().1;
            let (count, pos5) = u16_at(bytes, pos4).unwrap();
            lemma_attributes_end(bytes, pos5, pool, count as nat, Seq::empty());
        }
    }
}

/// A member of a class, field or method: its flags, the pool indices of its
/// name and its descriptor, and its attributes. Both indices have to be
/// UTF-8 entries of `pool`, or the member is an `InvalidFormat`.
pub open spec fn member_at(bytes: Seq<u8>, pos: int, pool: Seq<EntryView>) -> Result<
    ((u16, Seq<char>, Seq<char>, Seq<AttributeView>), int),
    MistError,
> {
    match four_u16_at(bytes, pos) {
        Err(e) => Err(e),
        Ok(((access_flags, name_index, descriptor_index, count), pos1)) => match (
            utf8_at(pool, name_index as int),
            utf8_at(pool, descriptor_index as int),
        ) {
            (Ok(name), Ok(descriptor)) => match attributes_from(
                bytes,
                pos1,
                pool,
                count as nat,
                Seq::empty(),
            ) {
                Err(e) => Err(e),
                Ok((attributes, end)) => Ok(((access_flags, name, descriptor, attributes), end)),
            },
            _ => Err(MistError::InvalidFormat),
        },
    }
}

/// The method at `pos`.
pub open spec fn method_at(bytes: Seq<u8>, pos: int, pool: Seq<EntryView>) -> Result<
    (MethodView, int),
    MistError,
> {
    match member_at(bytes, pos, pool) {
        Err(e) => Err(e),
        Ok(((access_flags, name, descriptor, attributes), end)) => Ok(
            (MethodView { access_flags, name, descriptor, attributes }, end),
        ),
    }
}

/// The field at `pos`.
pub open spec fn field_at(bytes: Seq<u8>, pos: int, pool: Seq<EntryView>) -> Result<
    (FieldView, int),
    MistError,
> {
    match member_at(bytes, pos, pool) {
        Err(e) => Err(e),
        Ok(((access_flags, name, descriptor, attributes), end)) => Ok(
            (FieldView { access_flags, name, descriptor, attributes }, end),
        ),
    }
}

/// The `remaining` methods from `pos` on, after `acc`.
pub open spec fn methods_from(
    bytes: Seq<u8>,
    pos: int,
    pool: Seq<EntryView>,
    remaining: nat,
    acc: Seq<MethodView>,
) -> Result<(Seq<MethodView>, int), MistError>
    decreases remaining,
{
    if remaining == 0 {
        Ok((acc, pos))
    } else {
        match method_at(bytes, pos, pool) {
            Err(e) => Err(e),
            Ok((method, end)) => methods_from(
                bytes,
                end,
                pool,
                (remaining - 1) as nat,
                acc.push(method),
            ),
        }
    }
}

/// The `remaining` fields from `pos` on, after `acc`.
pub open spec fn fields_from(
    bytes: Seq<u8>,
    pos: int,
    pool: Seq<EntryView>,
    remaining: nat,
    acc: Seq<FieldView>,
) -> Result<(Seq<FieldView>, int), MistError>
    decreases remaining,
{
    if remaining == 0 {
        Ok((acc, pos))
    } else {
        match field_at(bytes, pos, pool) {
            Err(e) => Err(e),
            Ok((field, end)) => fields_from(bytes, end, pool, (remaining - 1) as nat, acc.push(field)),
        }
    }
}

/// The methods of a class: a 16-bit count, then that many methods.
pub open spec fn methods_at(bytes: Seq<u8>, pos: int, pool: Seq<EntryView>) -> Result<
    (Seq<MethodView>, int),
    MistError,
> {
    match u16_at(bytes, pos) {
        Err(e) => Err(e),
        Ok((count, pos1)) => methods_from(bytes, pos1, pool, count as nat, Seq::empty()),
    }
}

/// The fields of a class: a 16-bit count, then that many fields.
pub open spec fn fields_at(bytes: Seq<u8>, pos: int, pool: Seq<EntryView>) -> Result<
    (Seq<FieldView>, int),
    MistError,
> {
    match u16_at(bytes, pos) {
        Err(e) => Err(e),
        Ok((count, pos1)) => fields_from(bytes, pos1, pool, count as nat, Seq::empty()),
    }
}

/// The class that stands at `pos`: header, constant pool, flags and names,
/// interfaces, fields and methods, in this order. Every index stored inside
/// an entry of the pool has to resolve to an entry of the expected kind, and
/// the class's own name and its superclass's have to resolve through a class
/// entry to text, or the class is an `InvalidFormat`. What follows the
/// methods is not read, and the class is given no attributes.
pub open spec fn class_at(bytes: Seq<u8>, pos: int) -> Result<(ClassView, int), MistError> {
    match header_at(bytes, pos) {
        Err(e) => Err(e),
        Ok(((minor_version, major_version, count), pos1)) => match pool_at(bytes, pos1, count) {
            Err(e) => Err(e),
            Ok((constant_pool, pos2)) => if resolves(constant_pool) {
                class_behind_pool(bytes, pos2, minor_version, major_version, constant_pool)
            } else {
                Err(MistError::InvalidFormat)
            },
        },
    }
}

/// The class of the given versions and constant pool whose flags and names,
/// interfaces, fields and methods stand at `pos`.
pub open spec fn class_behind_pool(
    bytes: Seq<u8>,
    pos: int,
    minor_version: u16,
    major_version: u16,
    constant_pool: Seq<EntryView>,
) -> Result<(ClassView, int), MistError> {
    match type_info_at(bytes, pos) {
        Err(e) => Err(e),
        Ok(((access_flags, this_index, super_index, interfaces_count), pos3)) => match (
            class_name_at(constant_pool, this_index as int),
            class_name_at(constant_pool, super_index as int),
        ) {
            (Ok(this_class), Ok(super_class)) => match interfaces_at(bytes, pos3, interfaces_count) {
                Err(e) => Err(e),
                Ok((interfaces, pos4)) => match fields_at(bytes, pos4, constant_pool) {
                    Err(e) => Err(e),
                    Ok((fields, pos5)) => match methods_at(bytes, pos5, constant_pool) {
                        Err(e) => Err(e),
                        Ok((methods, end)) => Ok(
                            (
                                ClassView {
                                    minor_version,
                                    major_version,
                                    constant_pool,
                                    access_flags,
                                    this_class,
                                    super_class,
                                    interfaces,
                                    fields,
                                    methods,
                                    attributes: Seq::empty(),
                                },
                                end,
                            ),
                        ),
                    },
                },
            },
            _ => Err(MistError::InvalidFormat),
        },
    }
}

/// A cursor over the bytes of a class file.
pub struct Reader {
    buf: Vec<u8>,
    pos: usize,
}

/// Whether a read that gave `r` and left the cursor at `after`, having
/// started at `before`, is what `expected` tells of: on success the value
/// and the end that `expected` gives, on an error that error and the cursor
/// unmoved.
pub open spec fn reads<T>(
    before: int,
    after: int,
    r: Result<T, MistError>,
    expected: Result<(T, int), MistError>,
) -> bool {
    match expected {
        Ok((v, end)) => r == Ok::<T, MistError>(v) && after == end,
        Err(e) => r == Err::<T, MistError>(e) && after == before,
    }
}

impl Reader {
    /// The bytes that the reader reads from.
    pub closed spec fn bytes(&self) -> Seq<u8> {
        self.buf@
    }

    /// The position of the cursor: the index of the next byte to read.
    pub closed spec fn position(&self) -> int {
        self.pos as int
    }

    /// A reader at the start of `buf`.
    pub fn new(buf: Vec<u8>) -> (reader: Reader)
        ensures
            reader.bytes() == buf@,
            reader.position() == 0,
    {
        Reader { buf, pos: 0 }
    }

    /// The position of the cursor.
    pub fn offset(&self) -> (pos: usize)
        ensures
            pos == self.position(),
    {
        self.pos
    }

    fn read_u8(&mut self) -> (r: Result<u8, MistError>)
        ensures
            final(self).bytes() == old(self).bytes(),
            reads(
                old(self).position(),
                final(self).position(),
                r,
                u8_at(old(self).bytes(), old(self).position()),
            ),
    {
        if self.pos < self.buf.len() {
            let v = self.buf[self.pos];
            self.pos += 1;
            Ok(v)
        } else {
            Err(MistError::IoError)
        }
    }

    fn read_u16(&mut self) -> (r: Result<u16, MistError>)
        ensures
            final(self).bytes() == old(self).bytes(),
            reads(
                old(self).position(),
                final(self).position(),
                r,
                u16_at(old(self).bytes(), old(self).position()),
            ),
    {
        if self.pos <= self.buf.len() && self.buf.len() - self.pos >= 2 {
            let hi: u16 = self.buf[self.pos] as u16;
            let lo: u16 = self.buf[self.pos + 1] as u16;
            self.pos += 2;
            Ok(hi * 0x100 + lo)
        } else {
            Err(MistError::IoError)
        }
    }

    fn read_u32(&mut self) -> (r: Result<u32, MistError>)
        ensures
            final(self).bytes() == old(self).bytes(),
            reads(
                old(self).position(),
                final(self).position(),
                r,
                u32_at(old(self).bytes(), old(self).position()),
            ),
    {
        if self.pos <= self.buf.len() && self.buf.len() - self.pos >= 4 {
            let b0: u32 = self.buf[self.pos] as u32;
            let b1: u32 = self.buf[self.pos + 1] as u32;
            let b2: u32 = self.buf[self.pos + 2] as u32;
            let b3: u32 = self.buf[self.pos + 3] as u32;
            self.pos += 4;
            Ok(b0 * 0x100_0000 + b1 * 0x1_0000 + b2 * 0x100 + b3)
        } else {
            Err(MistError::IoError)
        }
    }

    fn read_4_u16(&mut self) -> (r: Result<(u16, u16, u16, u16), MistError>)
        ensures
            final(self).bytes() == old(self).bytes(),
            reads(
                old(self).position(),
                final(self).position(),
                r,
                four_u16_at(old(self).bytes(), old(self).position()),
            ),
    {
        if self.pos <= self.buf.len() && self.buf.len() - self.pos >= 8 {
            let a = self.buf[self.pos] as u16 * 0x100 + self.buf[self.pos + 1] as u16;
            let b = self.buf[self.pos + 2] as u16 * 0x100 + self.buf[self.pos + 3] as u16;
            let c = self.buf[self.pos + 4] as u16 * 0x100 + self.buf[self.pos + 5] as u16;
            let d = self.buf[self.pos + 6] as u16 * 0x100 + self.buf[self.pos + 7] as u16;
            self.pos += 8;
            Ok((a, b, c, d))
        } else {
            Err(MistError::IoError)
        }
    }

    fn read_bytes(&mut self, count: usize) -> (r: Result<Vec<u8>, MistError>)
        ensures
            final(self).bytes() == old(self).bytes(),
            match bytes_at(old(self).bytes(), old(self).position(), count as int) {
                Ok((raw, end)) => r is Ok && r->Ok_0@ == raw && final(self).position() == end,
                Err(e) => r is Err && r->Err_0 == e && final(self).position() == old(self).position(),
            },
    {
        if self.pos <= self.buf.len() && self.buf.len() - self.pos >= count {
            let mut out: Vec<u8> = Vec::new();
            let start = self.pos;
            let mut i: usize = 0;
            while i < count
                invariant
                    i <= count,
                    start + count <= self.buf@.len(),
                    start + count <= usize::MAX,
                    out@ == self.buf@.subrange(start as int, start + i),
                decreases count - i,
            {
                out.push(self.buf[start + i]);
                i += 1;
            }
            self.pos = start + count;
            Ok(out)
        } else {
            Err(MistError::IoError)
        }
    }

    /// Reads the header: the magic number, which has to be `0xCAFEBABE`, then
    /// the minor version, the major version and the constant-pool count.
    pub fn read_header(&mut self) -> (r: Result<(u16, u16, u16), MistError>)
        ensures
            final(self).bytes() == old(self).bytes(),
            reads(
                old(self).position(),
                final(self).position(),
                r,
                header_at(old(self).bytes(), old(self).position()),
            ),
    {
        let start = self.pos;
        let r = self.header();
        if r.is_err() {
            self.pos = start;
        }
        r
    }

    fn header(&mut self) -> (r: Result<(u16, u16, u16), MistError>)
        ensures
            final(self).bytes() == old(self).bytes(),
            match header_at(old(self).bytes(), old(self).position()) {
                Ok((v, end)) => r == Ok::<(u16, u16, u16), MistError>(v) && final(self).position()
                    == end,
                Err(e) => r == Err::<(u16, u16, u16), MistError>(e),
            },
    {
        let magic = self.read_u32()?;
        if magic != MAGIC {
            return Err(MistError::InvalidFormat);
        }
        let minor_version = self.read_u16()?;
        let major_version = self.read_u16()?;
        let constant_pool_count = self.read_u16()?;
        Ok((minor_version, major_version, constant_pool_count))
    }

    fn text(&mut self) -> (r: Result<String, MistError>)
        ensures
            final(self).bytes() == old(self).bytes(),
            match text_at(old(self).bytes(), old(self).position()) {
                Ok((v, end)) => r is Ok && r->Ok_0@ == v && final(self).position() == end,
                Err(e) => r is Err && r->Err_0 == e,
            },
    {
        let length = self.read_u16()?;
        let raw = self.read_bytes(length as usize)?;
        match string_from_utf8(raw) {
            Some(text) => Ok(text),
            None => Err(MistError::InvalidFormat),
        }
    }

    fn index_pair(&mut self) -> (r: Result<(u16, u16), MistError>)
        ensures
            final(self).bytes() == old(self).bytes(),
            match index_pair_at(old(self).bytes(), old(self).position()) {
                Ok((v, end)) => r == Ok::<(u16, u16), MistError>(v) && final(self).position()
                    == end,
                Err(e) => r == Err::<(u16, u16), MistError>(e),
            },
    {
        let first = self.read_u16()?;
        let second = self.read_u16()?;
        Ok((first, second))
    }

    fn word_pair(&mut self) -> (r: Result<(u32, u32), MistError>)
        ensures
            final(self).bytes() == old(self).bytes(),
            match word_pair_at(old(self).bytes(), old(self).position()) {
                Ok((v, end)) => r == Ok::<(u32, u32), MistError>(v) && final(self).position()
                    == end,
                Err(e) => r == Err::<(u32, u32), MistError>(e),
            },
    {
        let first = self.read_u32()?;
        let second = self.read_u32()?;
        Ok((first, second))
    }

    fn entry(&mut self) -> (r: Result<Entry, MistError>)
        ensures
            final(self).bytes() == old(self).bytes(),
            match entry_at(old(self).bytes(), old(self).position()) {
                Ok((v, end)) => r is Ok && r->Ok_0@ == v && final(self).position() == end,
                Err(e) => r is Err && r->Err_0 == e,
            },
    {
        let tag = self.read_u8()?;
        if tag == pool::UTF_8 {
            let bytes = self.text()?;
            Ok(Entry::Utf8Info { bytes })
        } else if tag == pool::INTEGER {
            let bytes = self.read_u32()?;
            Ok(Entry::IntegerInfo { bytes })
        } else if tag == pool::FLOAT {
            let bytes = self.read_u32()?;
            Ok(Entry::FloatInfo { bytes })
        } else if tag == pool::LONG {
            let (high_bytes, low_bytes) = self.word_pair()?;
            Ok(Entry::LongInfo { high_bytes, low_bytes })
        } else if tag == pool::DOUBLE {
            let (high_bytes, low_bytes) = self.word_pair()?;
            Ok(Entry::DoubleInfo { high_bytes, low_bytes })
        } else if tag == pool::CLASS {
            let name_index = self.read_u16()?;
            Ok(Entry::ClassInfo { name_index })
        } else if tag == pool::STRING {
            let string_index = self.read_u16()?;
            Ok(Entry::StringInfo { string_index })
        } else if tag == pool::FIELD_REF {
            let (class_index, name_and_type_index) = self.index_pair()?;
            Ok(Entry::FieldRefInfo { class_index, name_and_type_index })
        } else if tag == pool::METHOD_REF {
            let (class_index, name_and_type_index) = self.index_pair()?;
            Ok(Entry::MethodRefInfo { class_index, name_and_type_index })
        } else if tag == pool::INTERFACE_METHOD_REF {
            let (class_index, name_and_type_index) = self.index_pair()?;
            Ok(Entry::InterfaceMethodRefInfo { class_index, name_and_type_index })
        } else if tag == pool::NAME_AND_TYPE {
            let (index, descriptor_index) = self.index_pair()?;
            Ok(Entry::NameAndTypeInfo { index, descriptor_index })
        } else if tag == pool::METHOD_HANDLE || tag == pool::METHOD_TYPE || tag
            == pool::INVOKE_DYNAMIC {
            Err(MistError::Unsupported)
        } else {
            Err(MistError::InvalidFormat)
        }
    }

    #[verifier::loop_isolation(false)]
    fn constant_pool(&mut self, count: u16) -> (r: Result<Vec<Entry>, MistError>)
        ensures
            final(self).bytes() == old(self).bytes(),
            match pool_at(old(self).bytes(), old(self).position(), count) {
                Ok((v, end)) => r is Ok && pool_view(r->Ok_0@) == v && final(self).position()
                    == end,
                Err(e) => r is Err && r->Err_0 == e,
            },
    {
        if count == 0 {
            return Err(MistError::InvalidFormat);
        }
        let mut entries: Vec<Entry> = Vec::new();
        let mut i: u16 = 0;
        while i < count
            invariant
                i <= count,
                pool_view(entries@) == Seq::new(i as nat, |k: int| unused_slot()),
            decreases count - i,
        {
            proof {
                lemma_pool_view(entries@, Entry::IntegerInfo { bytes: 0 }, 0);
            }
            entries.push(Entry::IntegerInfo { bytes: 0 });
            assert(pool_view(entries@) =~= Seq::new((i + 1) as nat, |k: int| unused_slot()));
            i += 1;
        }
        let ghost bytes = self.buf@;
        let ghost start = self.pos as int;
        let ghost blank = pool_view(entries@);
        let limit = count as usize;
        let mut slot: usize = 1;
        while slot < limit
            invariant
                self.buf@ == bytes,
                limit == count,
                1 <= slot <= limit + 1,
                entries@.len() == limit,
                pool_from(bytes, start, 1, count as int, blank) == pool_from(
                    bytes,
                    self.pos as int,
                    slot as int,
                    count as int,
                    pool_view(entries@),
                ),
            decreases limit + 1 - slot,
        {
            let item = self.entry()?;
            let width: usize = match item {
                Entry::LongInfo { .. } => 2,
                Entry::DoubleInfo { .. } => 2,
                _ => 1,
            };
            proof {
                lemma_pool_view(entries@, item, slot as int);
            }
            entries[slot] = item;
            slot += width;
        }
        Ok(entries)
    }

    /// Reads a constant pool of `constant_pool_count` slots. Slot 0 and the
    /// slot after a long or a double hold the int 0.
    pub fn read_constant_pool(&mut self, constant_pool_count: u16) -> (r: Result<
        Vec<Entry>,
        MistError,
    >)
        ensures
            final(self).bytes() == old(self).bytes(),
            match pool_at(old(self).bytes(), old(self).position(), constant_pool_count) {
                Ok((v, end)) => r is Ok && pool_view(r->Ok_0@) == v && final(self).position()
                    == end,
                Err(e) => r is Err && r->Err_0 == e && final(self).position() == old(self).position(),
            },
    {
        let start = self.pos;
        let r = self.constant_pool(constant_pool_count);
        if r.is_err() {
            self.pos = start;
        }
        r
    }

    /// Reads the class's flags, the pool indices of its own and of its
    /// superclass's name, and the number of its interfaces.
    pub fn read_type_info(&mut self) -> (r: Result<(u16, u16, u16, u16), MistError>)
        ensures
            final(self).bytes() == old(self).bytes(),
            reads(
                old(self).position(),
                final(self).position(),
                r,
                type_info_at(old(self).bytes(), old(self).position()),
            ),
    {
        self.read_4_u16()
    }

    /// Reads `interfaces_count` interface indices.
    #[verifier::loop_isolation(false)]
    pub fn read_interfaces(&mut self, interfaces_count: u16) -> (r: Result<Vec<u16>, MistError>)
        ensures
            final(self).bytes() == old(self).bytes(),
            match interfaces_at(old(self).bytes(), old(self).position(), interfaces_count) {
                Ok((v, end)) => r is Ok && r->Ok_0@ == v && final(self).position() == end,
                Err(e) => r is Err && r->Err_0 == e && final(self).position() == old(self).position(),
            },
    {
        let count = interfaces_count as usize;
        if !(self.pos <= self.buf.len() && (self.buf.len() - self.pos) / 2 >= count) {
            return Err(MistError::IoError);
        }
        let ghost bytes = self.buf@;
        let ghost start = self.pos as int;
        let mut interfaces: Vec<u16> = Vec::new();
        let mut i: usize = 0;
        while i < count
            invariant
                i <= count,
                self.buf@ == bytes,
                self.pos == start + 2 * i,
                start + 2 * count <= bytes.len(),
                interfaces@ == Seq::new(i as nat, |k: int| be16(bytes, start + 2 * k)),
            decreases count - i,
        {
            let v = match self.read_u16() {
                Ok(v) => v,
                Err(e) => {
                    return Err(e);
                },
            };
            interfaces.push(v);
            assert(interfaces@ =~= Seq::new((i + 1) as nat, |k: int| be16(bytes, start + 2 * k)));
            i += 1;
        }
        Ok(interfaces)
    }

    #[verifier::loop_isolation(false)]
    fn line_numbers(&mut self) -> (r: Result<Vec<LineNumberTableInfo>, MistError>)
        ensures
            final(self).bytes() == old(self).bytes(),
            match line_numbers_at(old(self).bytes(), old(self).position()) {
                Ok((v, end)) => r is Ok && r->Ok_0@ == v && final(self).position() == end,
                Err(e) => r is Err && r->Err_0 == e,
            },
    {
        let count = self.read_u16()? as usize;
        if (self.buf.len() - self.pos) / 4 < count {
            return Err(MistError::IoError);
        }
        let ghost bytes = self.buf@;
        let ghost start = self.pos as int;
        let mut rows: Vec<LineNumberTableInfo> = Vec::new();
        let mut i: usize = 0;
        while i < count
            invariant
                i <= count,
                self.buf@ == bytes,
                self.pos == start + 4 * i,
                start + 4 * count <= bytes.len(),
                rows@ == Seq::new(i as nat, |k: int| line_number_at(bytes, start + 4 * k)),
            decreases count - i,
        {
            let start_pc = self.read_u16()?;
            let line_number = self.read_u16()?;
            rows.push(LineNumberTableInfo { start_pc, line_number });
            assert(rows@ =~= Seq::new((i + 1) as nat, |k: int| line_number_at(bytes, start + 4 * k)));
            i += 1;
        }
        Ok(rows)
    }

    #[verifier::loop_isolation(false)]
    fn exception_table(&mut self) -> (r: Result<Vec<ExceptionTableInfo>, MistError>)
        ensures
            final(self).bytes() == old(self).bytes(),
            match exception_table_at(old(self).bytes(), old(self).position()) {
                Ok((v, end)) => r is Ok && r->Ok_0@ == v && final(self).position() == end,
                Err(e) => r is Err && r->Err_0 == e,
            },
    {
        let count = self.read_u16()? as usize;
        if (self.buf.len() - self.pos) / 8 < count {
            return Err(MistError::IoError);
        }
        let ghost bytes = self.buf@;
        let ghost start = self.pos as int;
        let mut rows: Vec<ExceptionTableInfo> = Vec::new();
        let mut i: usize = 0;
        while i < count
            invariant
                i <= count,
                self.buf@ == bytes,
                self.pos == start + 8 * i,
                start + 8 * count <= bytes.len(),
                rows@ == Seq::new(i as nat, |k: int| exception_row_at(bytes, start + 8 * k)),
            decreases count - i,
        {
            let (start_pc, end_pc, handler_pc, catch_type) = self.read_4_u16()?;
            rows.push(ExceptionTableInfo { start_pc, end_pc, handler_pc, catch_type });
            assert(rows@ =~= Seq::new(
                (i + 1) as nat,
                |k: int| exception_row_at(bytes, start + 8 * k),
            ));
            i += 1;
        }
        Ok(rows)
    }

    fn attribute(&mut self, constant_pool: &[Entry]) -> (r: Result<AttributeInfo, MistError>)
        ensures
            final(self).bytes() == old(self).bytes(),
            match attribute_at(old(self).bytes(), old(self).position(), pool_view(constant_pool@)) {
                Ok((v, end)) => r is Ok && r->Ok_0@ == v && final(self).position() == end,
                Err(e) => r is Err && r->Err_0 == e,
            },
        decreases old(self).bytes().len() - old(self).position(), 1nat,
    {
        let attribute_name_index = self.read_u16()?;
        let attribute_length = self.read_u32()?;
        let name = match pool::utf8(constant_pool, attribute_name_index) {
            Ok(name) => name,
            Err(_) => {
                return Err(MistError::InvalidFormat);
            },
        };
        let start = self.pos;
        if same_text(name, "LineNumberTable") {
            let line_number_table = self.line_numbers()?;
            if self.pos as u128 != start as u128 + attribute_length as u128 {
                return Err(MistError::InvalidFormat);
            }
            Ok(
                AttributeInfo::LineNumberTable(
                    LineNumberTable { attribute_name_index, attribute_length, line_number_table },
                ),
            )
        } else if same_text(name, "Code") {
            let code = self.code(constant_pool)?;
            if self.pos as u128 != start as u128 + attribute_length as u128 {
                return Err(MistError::InvalidFormat);
            }
            Ok(AttributeInfo::Code(code))
        } else {
            let payload = self.read_bytes(attribute_length as usize)?;
            Ok(AttributeInfo::Bytes(payload))
        }
    }

    fn code(&mut self, constant_pool: &[Entry]) -> (r: Result<Code, MistError>)
        ensures
            final(self).bytes() == old(self).bytes(),
            match code_at(old(self).bytes(), old(self).position(), pool_view(constant_pool@)) {
                Ok((v, end)) => r is Ok && r->Ok_0@ == v && final(self).position() == end,
                Err(e) => r is Err && r->Err_0 == e,
            },
        decreases old(self).bytes().len() - old(self).position(), 0nat,
    {
        let (max_stack, max_local) = self.index_pair()?;
        let code_length = self.read_u32()?;
        let code = self.read_bytes(code_length as usize)?;
        let exception_table = self.exception_table()?;
        let attributes_count = self.read_u16()?;
        let attributes = self.attributes(constant_pool, attributes_count)?;
        let code = Code {
            native: None,
            max_stack,
            max_local,
            code,
            exception_table,
            attributes,
        };
        proof {
            lemma_code_attributes(code);
        }
        Ok(code)
    }

    #[verifier::loop_isolation(false)]
    fn attributes(&mut self, constant_pool: &[Entry], count: u16) -> (r: Result<
        Vec<AttributeInfo>,
        MistError,
    >)
        ensures
            final(self).bytes() == old(self).bytes(),
            match attributes_from(
                old(self).bytes(),
                old(self).position(),
                pool_view(constant_pool@),
                count as nat,
                Seq::empty(),
            ) {
                Ok((v, end)) => r is Ok && attributes_view(r->Ok_0@) == v
                    && final(self).position() == end,
                Err(e) => r is Err && r->Err_0 == e,
            },
        decreases old(self).bytes().len() - old(self).position(), count + 2,
    {
        let ghost bytes = self.buf@;
        let ghost start = self.pos as int;
        let ghost pool = pool_view(constant_pool@);
        let mut attributes: Vec<AttributeInfo> = Vec::new();
        assert(attributes_view(attributes@) =~= Seq::empty());
        let mut i: u16 = 0;
        while i < count
            invariant
                i <= count,
                self.buf@ == bytes,
                start <= self.pos,
                self.pos == start || self.pos <= bytes.len(),
                attributes_from(bytes, start, pool, count as nat, Seq::empty()) == attributes_from(
                    bytes,
                    self.pos as int,
                    pool,
                    (count - i) as nat,
                    attributes_view(attributes@),
                ),
            decreases count - i,
        {
            proof {
                lemma_attribute_end(bytes, self.pos as int, pool);
            }
            let attribute = self.attribute(constant_pool)?;
            let ghost before = attributes_view(attributes@);
            attributes.push(attribute);
            assert(attributes_view(attributes@) =~= before.push(attribute@));
            i += 1;
        }
        Ok(attributes)
    }

    fn member(&mut self, constant_pool: &[Entry]) -> (r: Result<
        (u16, String, String, Vec<AttributeInfo>),
        MistError,
    >)
        ensures
            final(self).bytes() == old(self).bytes(),
            match member_at(old(self).bytes(), old(self).position(), pool_view(constant_pool@)) {
                Ok(((access_flags, name, descriptor, attributes), end)) => r is Ok && r->Ok_0.0
                    == access_flags && r->Ok_0.1@ == name && r->Ok_0.2@ == descriptor
                    && attributes_view(r->Ok_0.3@) == attributes && final(self).position() == end,
                Err(e) => r is Err && r->Err_0 == e,
            },
    {
        let (access_flags, name_index, descriptor_index, attributes_count) = self.read_4_u16()?;
        let name = match pool::utf8(constant_pool, name_index) {
            Ok(name) => name.to_owned(),
            Err(_) => {
                return Err(MistError::InvalidFormat);
            },
        };
        let descriptor = match pool::utf8(constant_pool, descriptor_index) {
            Ok(descriptor) => descriptor.to_owned(),
            Err(_) => {
                return Err(MistError::InvalidFormat);
            },
        };
        let attributes = self.attributes(constant_pool, attributes_count)?;
        Ok((access_flags, name, descriptor, attributes))
    }

    #[verifier::loop_isolation(false)]
    fn fields(&mut self, constant_pool: &[Entry]) -> (r: Result<Vec<FieldInfo>, MistError>)
        ensures
            final(self).bytes() == old(self).bytes(),
            match fields_at(old(self).bytes(), old(self).position(), pool_view(constant_pool@)) {
                Ok((v, end)) => r is Ok && fields_view(r->Ok_0@) == v && final(self).position()
                    == end,
                Err(e) => r is Err && r->Err_0 == e,
            },
    {
        let fields_count = self.read_u16()?;
        let ghost bytes = self.buf@;
        let ghost start = self.pos as int;
        let ghost pool = pool_view(constant_pool@);
        let mut fields: Vec<FieldInfo> = Vec::new();
        assert(fields_view(fields@) =~= Seq::empty());
        let mut i: u16 = 0;
        while i < fields_count
            invariant
                i <= fields_count,
                self.buf@ == bytes,
                fields_from(bytes, start, pool, fields_count as nat, Seq::empty()) == fields_from(
                    bytes,
                    self.pos as int,
                    pool,
                    (fields_count - i) as nat,
                    fields_view(fields@),
                ),
            decreases fields_count - i,
        {
            let (access_flags, name, descriptor, attributes) = self.member(constant_pool)?;
            let field = FieldInfo { access_flags, name, descriptor, attributes };
            let ghost before = fields_view(fields@);
            let ghost view = field@;
            fields.push(field);
            assert(fields_view(fields@) =~= before.push(view));
            i += 1;
        }
        Ok(fields)
    }

    #[verifier::loop_isolation(false)]
    fn methods(&mut self, constant_pool: &[Entry]) -> (r: Result<Vec<MethodInfo>, MistError>)
        ensures
            final(self).bytes() == old(self).bytes(),
            match methods_at(old(self).bytes(), old(self).position(), pool_view(constant_pool@)) {
                Ok((v, end)) => r is Ok && methods_view(r->Ok_0@) == v && final(self).position()
                    == end,
                Err(e) => r is Err && r->Err_0 == e,
            },
    {
        let methods_count = self.read_u16()?;
        let ghost bytes = self.buf@;
        let ghost start = self.pos as int;
        let ghost pool = pool_view(constant_pool@);
        let mut methods: Vec<MethodInfo> = Vec::new();
        assert(methods_view(methods@) =~= Seq::empty());
        let mut i: u16 = 0;
        while i < methods_count
            invariant
                i <= methods_count,
                self.buf@ == bytes,
                methods_from(bytes, start, pool, methods_count as nat, Seq::empty())
                    == methods_from(
                    bytes,
                    self.pos as int,
                    pool,
                    (methods_count - i) as nat,
                    methods_view(methods@),
                ),
            decreases methods_count - i,
        {
            let (access_flags, name, descriptor, attributes) = self.member(constant_pool)?;
            let method = MethodInfo { access_flags, name, descriptor, attributes };
            let ghost before = methods_view(methods@);
            let ghost view = method@;
            methods.push(method);
            assert(methods_view(methods@) =~= before.push(view));
            i += 1;
        }
        Ok(methods)
    }

    fn class(&mut self) -> (r: Result<Class, MistError>)
        ensures
            final(self).bytes() == old(self).bytes(),
            match class_at(old(self).bytes(), old(self).position()) {
                Ok((v, end)) => r is Ok && r->Ok_0@ == v && final(self).position() == end,
                Err(e) => r is Err && r->Err_0 == e,
            },
    {
        let (minor_version, major_version, constant_pool_count) = self.header()?;
        let constant_pool = self.constant_pool(constant_pool_count)?;
        if !pool::is_resolved(constant_pool.as_slice()) {
            return Err(MistError::InvalidFormat);
        }
        let (access_flags, this_class, super_class, interfaces_count) = self.read_type_info()?;
        let this_class = match pool::class_name(constant_pool.as_slice(), this_class) {
            Ok(name) => name.to_owned(),
            Err(_) => {
                return Err(MistError::InvalidFormat);
            },
        };
        let super_class = match pool::class_name(constant_pool.as_slice(), super_class) {
            Ok(name) => name.to_owned(),
            Err(_) => {
                return Err(MistError::InvalidFormat);
            },
        };
        let interfaces = self.read_interfaces(interfaces_count)?;
        let fields = self.fields(constant_pool.as_slice())?;
        let methods = self.methods(constant_pool.as_slice())?;
        let attributes: Vec<AttributeInfo> = Vec::new();
        assert(attributes_view(attributes@) =~= Seq::empty());
        Ok(
            Class {
                minor_version,
                major_version,
                constant_pool,
                access_flags,
                this_class,
                super_class,
                interfaces,
                fields,
                methods,
                attributes,
            },
        )
    }

    /// Reads a whole class. The bytes behind its methods are left unread.
    pub fn read_class(&mut self) -> (r: Result<Class, MistError>)
        ensures
            final(self).bytes() == old(self).bytes(),
            match class_at(old(self).bytes(), old(self).position()) {
                Ok((v, end)) => r is Ok && r->Ok_0@ == v && final(self).position() == end
                    && resolves(v.constant_pool),
                Err(e) => r is Err && r->Err_0 == e && final(self).position() == old(self).position(),
            },
    {
        let start = self.pos;
        let r = self.class();
        if r.is_err() {
            self.pos = start;
        }
        r
    }

    /// Reads the fields of a class: their number, then each field, whose
    /// name and descriptor are looked up in `constant_pool`.
    pub fn read_fields(&mut self, constant_pool: &[Entry]) -> (r: Result<Vec<FieldInfo>, MistError>)
        ensures
            final(self).bytes() == old(self).bytes(),
            match fields_at(old(self).bytes(), old(self).position(), pool_view(constant_pool@)) {
                Ok((v, end)) => r is Ok && fields_view(r->Ok_0@) == v && final(self).position()
                    == end,
                Err(e) => r is Err && r->Err_0 == e && final(self).position() == old(self).position(),
            },
    {
        let start = self.pos;
        let r = self.fields(constant_pool);
        if r.is_err() {
            self.pos = start;
        }
        r
    }

    /// Reads the methods of a class: their number, then each method, whose
    /// name and descriptor are looked up in `constant_pool`.
    pub fn read_methods(&mut self, constant_pool: &[Entry]) -> (r: Result<
        Vec<MethodInfo>,
        MistError,
    >)
        ensures
            final(self).bytes() == old(self).bytes(),
            match methods_at(old(self).bytes(), old(self).position(), pool_view(constant_pool@)) {
                Ok((v, end)) => r is Ok && methods_view(r->Ok_0@) == v && final(self).position()
                    == end,
                Err(e) => r is Err && r->Err_0 == e && final(self).position() == old(self).position(),
            },
    {
        let start = self.pos;
        let r = self.methods(constant_pool);
        if r.is_err() {
            self.pos = start;
        }
        r
    }

    /// Reads one attribute of a method, or of a method's code.
    pub fn read_method_attribute(&mut self, constant_pool: &[Entry]) -> (r: Result<
        AttributeInfo,
        MistError,
    >)
        ensures
            final(self).bytes() == old(self).bytes(),
            match attribute_at(old(self).bytes(), old(self).position(), pool_view(constant_pool@)) {
                Ok((v, end)) => r is Ok && r->Ok_0@ == v && final(self).position() == end,
                Err(e) => r is Err && r->Err_0 == e && final(self).position() == old(self).position(),
            },
    {
        let start = self.pos;
        let r = self.attribute(constant_pool);
        if r.is_err() {
            self.pos = start;
        }
        r
    }

    /// Reads one attribute of a field; attributes are laid out alike wherever
    /// they stand.
    pub fn read_field_attribute(&mut self, constant_pool: &[Entry]) -> (r: Result<
        AttributeInfo,
        MistError,
    >)
        ensures
            final(self).bytes() == old(self).bytes(),
            match attribute_at(old(self).bytes(), old(self).position(), pool_view(constant_pool@)) {
                Ok((v, end)) => r is Ok && r->Ok_0@ == v && final(self).position() == end,
                Err(e) => r is Err && r->Err_0 == e && final(self).position() == old(self).position(),
            },
    {
        self.read_method_attribute(constant_pool)
    }
}

} // verus!
