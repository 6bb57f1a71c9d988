//! What a loaded class says about the bytes it was loaded from.
//!
//! The loader keeps the structural fields of a class file as they stand.
//! Written out again big-endian, they are the very bytes of the file: the
//! magic number, the versions, the constant-pool count, the access flags, the
//! number of methods, and of each method the name, the descriptor and the
//! content of its code.

use super::attribute_info::{AttributeView, CodeView};
use super::method::MethodView;
use super::pool::{utf8_at, EntryView};
use super::reader::{
    attribute_at, attributes_from, be16, class_at, code_at, entry_at, fields_at, four_u16_at,
    header_at, interfaces_at, member_at, method_at, methods_from, pool_at, pool_from, slots_of,
    type_info_at, u16_at, u32_at, unused_slot, MAGIC,
};
use crate::error::MistError;
use vstd::prelude::*;

verus! {

/// The two bytes of `v`, the high one first.
pub open spec fn u16_bytes(v: u16) -> Seq<u8> {
    seq![(v / 0x100) as u8, (v % 0x100) as u8]
}

/// The four bytes of `v`, the highest first.
pub open spec fn u32_bytes(v: u32) -> Seq<u8> {
    seq![
        (v / 0x100_0000) as u8,
        (v / 0x1_0000 % 0x100) as u8,
        (v / 0x100 % 0x100) as u8,
        (v % 0x100) as u8,
    ]
}

/// The header of a class file with these versions and this constant-pool
/// count.
pub open spec fn header_bytes(minor_version: u16, major_version: u16, count: u16) -> Seq<u8> {
    u32_bytes(MAGIC) + u16_bytes(minor_version) + u16_bytes(major_version) + u16_bytes(count)
}

/// The head of a `Code` payload: the two limits, the length of the bytecode
/// and the bytecode.
pub open spec fn code_bytes(code: CodeView) -> Seq<u8> {
    u16_bytes(code.max_stack) + u16_bytes(code.max_local) + u32_bytes(code.code.len() as u32)
        + code.code
}

/// A 16-bit number that was read, written out again, is the bytes it was
/// read from.
pub proof fn lemma_u16_bytes(bytes: Seq<u8>, pos: int)
    requires
        u16_at(bytes, pos) is Ok,
    ensures
        bytes.subrange(pos, pos + 2) == u16_bytes(u16_at(bytes, pos).unwrap().0),
        u16_at(bytes, pos).unwrap().0 == be16(bytes, pos),
{
    assert(bytes.subrange(pos, pos + 2) =~= u16_bytes(u16_at(bytes, pos).unwrap().0));
}

/// The four bytes of a number made of the bytes `b0` to `b3`, the highest
/// first, are those bytes.
proof fn lemma_word_of_bytes(b0: u8, b1: u8, b2: u8, b3: u8)
    by (bit_vector)
    ensures
        ({
            let v: u32 = ((b0 as u32) * 0x100_0000u32 + (b1 as u32) * 0x1_0000u32 + (b2 as u32)
                * 0x100u32 + (b3 as u32)) as u32;
            &&& v / 0x100_0000u32 == b0 as u32
            &&& (v / 0x1_0000u32) % 0x100u32 == b1 as u32
            &&& (v / 0x100u32) % 0x100u32 == b2 as u32
            &&& v % 0x100u32 == b3 as u32
        }),
{
}

/// A 32-bit number that was read, written out again, is the bytes it was
/// read from.
pub proof fn lemma_u32_bytes(bytes: Seq<u8>, pos: int)
    requires
        u32_at(bytes, pos) is Ok,
    ensures
        bytes.subrange(pos, pos + 4) == u32_bytes(u32_at(bytes, pos).unwrap().0),
{
    lemma_word_of_bytes(bytes[pos], bytes[pos + 1], bytes[pos + 2], bytes[pos + 3]);
    assert(bytes.subrange(pos, pos + 4) =~= u32_bytes(u32_at(bytes, pos).unwrap().0));
}

/// A header that was read, written out again, is the ten bytes it was read
/// from; and a header written out reads back as what was written.
pub proof fn lemma_header_round_trip(bytes: Seq<u8>, pos: int, minor: u16, major: u16, count: u16)
    ensures
        header_at(bytes, pos) matches Ok((v, end)) ==> end == pos + 10 && bytes.subrange(pos, end)
            == header_bytes(v.0, v.1, v.2),
        header_at(header_bytes(minor, major, count) + bytes, 0) == Ok::<
            ((u16, u16, u16), int),
            MistError,
        >(((minor, major, count), 10)),
{
    if header_at(bytes, pos) is Ok {
        let (v, end) = header_at(bytes, pos).unwrap();
        lemma_u32_bytes(bytes, pos);
        lemma_u16_bytes(bytes, pos + 4);
        lemma_u16_bytes(bytes, pos + 6);
        lemma_u16_bytes(bytes, pos + 8);
        assert(bytes.subrange(pos, end) =~= bytes.subrange(pos, pos + 4) + bytes.subrange(
            pos + 4,
            pos + 6,
        ) + bytes.subrange(pos + 6, pos + 8) + bytes.subrange(pos + 8, pos + 10));
    }
    let written = header_bytes(minor, major, count) + bytes;
    assert(written[0] == 0xCA && written[1] == 0xFE && written[2] == 0xBA && written[3] == 0xBE);
    assert(written[4] == (minor / 0x100) as u8 && written[5] == (minor % 0x100) as u8);
    assert(written[6] == (major / 0x100) as u8 && written[7] == (major % 0x100) as u8);
    assert(written[8] == (count / 0x100) as u8 && written[9] == (count % 0x100) as u8);
}

/// Filling a pool keeps the number of its slots.
pub proof fn lemma_pool_slots(bytes: Seq<u8>, pos: int, slot: int, count: int, acc: Seq<EntryView>)
    requires
        0 <= slot,
        acc.len() == count,
    ensures
        pool_from(bytes, pos, slot, count, acc) matches Ok((pool, _)) ==> pool.len() == count,
    decreases
            (if slot < count {
                count - slot
            } else {
                0
            }),
{
    if slot < count {
        match entry_at(bytes, pos) {
            Err(_) => {},
            Ok((entry, end)) => {
                lemma_pool_slots(bytes, end, slot + slots_of(entry), count, acc.update(slot, entry));
            },
        }
    }
}

/// The position of method number `n` of those from `pos` on.
pub open spec fn method_position(bytes: Seq<u8>, pos: int, pool: Seq<EntryView>, n: nat) -> int
    decreases n,
{
    if n == 0 {
        pos
    } else {
        match method_at(bytes, pos, pool) {
            Ok((_, end)) => method_position(bytes, end, pool, (n - 1) as nat),
            Err(_) => pos,
        }
    }
}

/// A list of methods that was read holds `acc` and then, one by one, the
/// methods that stand at the positions of the list.
pub proof fn lemma_methods_from(
    bytes: Seq<u8>,
    pos: int,
    pool: Seq<EntryView>,
    remaining: nat,
    acc: Seq<MethodView>,
    n: nat,
)
    requires
        methods_from(bytes, pos, pool, remaining, acc) is Ok,
    ensures
        methods_from(bytes, pos, pool, remaining, acc).unwrap().0.len() == acc.len() + remaining,
        forall|k: int|
            0 <= k < acc.len() ==> methods_from(bytes, pos, pool, remaining, acc).unwrap().0[k]
                == acc[k],
        n < remaining ==> method_at(bytes, method_position(bytes, pos, pool, n), pool) is Ok
            && method_at(bytes, method_position(bytes, pos, pool, n), pool).unwrap().0
            == methods_from(bytes, pos, pool, remaining, acc).unwrap().0[(acc.len() + n) as int],
    decreases remaining,
{
    if remaining > 0 {
        let (method, end) = method_at(bytes, pos, pool).unwrap();
        let grown = acc.push(method);
        if n > 0 {
            lemma_methods_from(bytes, end, pool, (remaining - 1) as nat, grown, (n - 1) as nat);
        } else {
            lemma_methods_from(bytes, end, pool, (remaining - 1) as nat, grown, 0);
            assert(grown[acc.len() as int] == method);
        }
        assert forall|k: int| 0 <= k < acc.len() implies methods_from(
            bytes,
            pos,
            pool,
            remaining,
            acc,
        ).unwrap().0[k] == acc[k] by {
            assert(grown[k] == acc[k]);
        }
    }
}

/// The position of attribute number `n` of those from `pos` on.
pub open spec fn attribute_position(bytes: Seq<u8>, pos: int, pool: Seq<EntryView>, n: nat) -> int
    decreases n,
{
    if n == 0 {
        pos
    } else {
        match attribute_at(bytes, pos, pool) {
            Ok((_, end)) => attribute_position(bytes, end, pool, (n - 1) as nat),
            Err(_) => pos,
        }
    }
}

/// A list of attributes that was read holds `acc` and then, one by one, the
/// attributes that stand at the positions of the list.
pub proof fn lemma_attributes_from(
    bytes: Seq<u8>,
    pos: int,
    pool: Seq<EntryView>,
    remaining: nat,
    acc: Seq<AttributeView>,
    n: nat,
)
    requires
        attributes_from(bytes, pos, pool, remaining, acc) is Ok,
    ensures
        attributes_from(bytes, pos, pool, remaining, acc).unwrap().0.len() == acc.len()
            + remaining,
        forall|k: int|
            0 <= k < acc.len() ==> attributes_from(bytes, pos, pool, remaining, acc).unwrap().0[k]
                == acc[k],
        n < remaining ==> attribute_at(bytes, attribute_position(bytes, pos, pool, n), pool) is Ok
            && attribute_at(bytes, attribute_position(bytes, pos, pool, n), pool).unwrap().0
            == attributes_from(bytes, pos, pool, remaining, acc).unwrap().0[(acc.len() + n) as int],
    decreases remaining,
{
    if remaining > 0 {
        let (attribute, end) = attribute_at(bytes, pos, pool).unwrap();
        let grown = acc.push(attribute);
        if n > 0 {
            lemma_attributes_from(bytes, end, pool, (remaining - 1) as nat, grown, (n - 1) as nat);
        } else {
            lemma_attributes_from(bytes, end, pool, (remaining - 1) as nat, grown, 0);
            assert(grown[acc.len() as int] == attribute);
        }
        assert forall|k: int| 0 <= k < acc.len() implies attributes_from(
            bytes,
            pos,
            pool,
            remaining,
            acc,
        ).unwrap().0[k] == acc[k] by {
            assert(grown[k] == acc[k]);
        }
    }
}

/// The content of a `Code` that was read, written out again, is the bytes it
/// was read from: the limits, the length of the bytecode and the bytecode.
pub proof fn lemma_code_round_trip(bytes: Seq<u8>, pos: int, pool: Seq<EntryView>)
    requires
        code_at(bytes, pos, pool) is Ok,
    ensures
        code_at(bytes, pos, pool) matches Ok((code, _)) && code.code.len() <= u32::MAX
            && bytes.subrange(pos, pos + 8 + code.code.len()) == code_bytes(code),
{
    let (code, _) = code_at(bytes, pos, pool).unwrap();
    lemma_u16_bytes(bytes, pos);
    lemma_u16_bytes(bytes, pos + 2);
    lemma_u32_bytes(bytes, pos + 4);
    let n = code.code.len();
    assert(bytes.subrange(pos, pos + 8 + n) =~= bytes.subrange(pos, pos + 2) + bytes.subrange(
        pos + 2,
        pos + 4,
    ) + bytes.subrange(pos + 4, pos + 8) + bytes.subrange(pos + 8, pos + 8 + n));
}

/// A `Code` attribute that was read holds the `Code` that stands behind its
/// six-byte header.
pub proof fn lemma_code_attribute(bytes: Seq<u8>, pos: int, pool: Seq<EntryView>)
    requires
        attribute_at(bytes, pos, pool) is Ok,
        attribute_at(bytes, pos, pool).unwrap().0 is Code,
    ensures
        code_at(bytes, pos + 6, pool) is Ok,
        code_at(bytes, pos + 6, pool).unwrap().0 == attribute_at(bytes, pos, pool).unwrap().0->Code_0,
        utf8_at(pool, be16(bytes, pos) as int) == Ok::<Seq<char>, MistError>("Code"@),
{
}

/// Where the access flags of the class file `bytes` stand: behind its
/// constant pool.
pub open spec fn flags_position(bytes: Seq<u8>) -> int {
    pool_at(bytes, 10, header_at(bytes, 0).unwrap().0.2).unwrap().1
}

/// Where the methods of the class file `bytes` start: behind its fields.

pub open spec fn methods_start(bytes: Seq<u8>) -> int {
    let count = header_at(bytes, 0).unwrap().0.2;
    let (pool, pos2) = pool_at(bytes, 10, count).unwrap();
    let (info, pos3) = type_info_at(bytes, pos2).unwrap();
    let pos4 = interfaces_at(bytes, pos3, info.3).unwrap().1;
    fields_at(bytes, pos4, pool).unwrap().1
}

/// Round trip of the structural fields.
///
/// Of a class `class` that was loaded from `bytes`: the header written out
/// from its versions and the number of slots of its pool is the first ten
/// bytes; its access flags written out are the two bytes behind the pool; the
/// number of its methods written out is the two bytes at the start of the
/// methods; method number `n` is the one that stands at its position in the
/// bytes, its flags are the bytes there, and its name and descriptor are the
/// texts of the pool entries whose indices stand there.
pub proof fn lemma_class_round_trip(bytes: Seq<u8>, n: nat)
    requires
        class_at(bytes, 0) is Ok,
    ensures
        ({
            let class = class_at(bytes, 0).unwrap().0;
            let at = method_position(bytes, methods_start(bytes) + 2, class.constant_pool, n);
            &&& class.constant_pool.len() <= u16::MAX
            &&& class.methods.len() <= u16::MAX
            &&& bytes.subrange(0, 10) == header_bytes(
                class.minor_version,
                class.major_version,
                class.constant_pool.len() as u16,
            )
            &&& bytes.subrange(flags_position(bytes), flags_position(bytes) + 2) == u16_bytes(
                class.access_flags,
            )
            &&& bytes.subrange(methods_start(bytes), methods_start(bytes) + 2) == u16_bytes(
                class.methods.len() as u16,
            )
            &&& n < class.methods.len() ==> {
                &&& method_at(bytes, at, class.constant_pool) is Ok
                &&& method_at(bytes, at, class.constant_pool).unwrap().0 == class.methods[n as int]
                &&& bytes.subrange(at, at + 2) == u16_bytes(class.methods[n as int].access_flags)
                &&& utf8_at(class.constant_pool, be16(bytes, at + 2) as int) == Ok::<
                    Seq<char>,
                    MistError,
                >(class.methods[n as int].name)
                &&& utf8_at(class.constant_pool, be16(bytes, at + 4) as int) == Ok::<
                    Seq<char>,
                    MistError,
                >(class.methods[n as int].descriptor)
            }
        }),
{
    let class = class_at(bytes, 0).unwrap().0;
    lemma_header_round_trip(bytes, 0, 0, 0, 0);
    let count = header_at(bytes, 0).unwrap().0.2;
    lemma_pool_slots(bytes, 10, 1, count as int, Seq::new(count as nat, |i: int| unused_slot()));
    let (pool, pos2) = pool_at(bytes, 10, count).unwrap();
    let (info, pos3) = type_info_at(bytes, pos2).unwrap();
    lemma_u16_bytes(bytes, pos2);
    let pos4 = interfaces_at(bytes, pos3, info.3).unwrap().1;
    let pos5 = fields_at(bytes, pos4, pool).unwrap().1;
    lemma_u16_bytes(bytes, pos5);
    let methods_count = u16_at(bytes, pos5).unwrap().0;
    lemma_methods_from(bytes, pos5 + 2, pool, methods_count as nat, Seq::empty(), n);
    if n < class.methods.len() {
        let at = method_position(bytes, pos5 + 2, pool, n);
        assert(member_at(bytes, at, pool) is Ok);
        lemma_u16_bytes(bytes, at);
        lemma_u16_bytes(bytes, at + 2);
        lemma_u16_bytes(bytes, at + 4);
    }
}

/// Round trip of the code of a method.
///
/// Of the method that stands at `at` in `bytes`: attribute number `k` is the
/// one that stands at its position behind the method's eight-byte head; and
/// if it is a `Code`, then its limits, the length of its bytecode and its
/// bytecode, written out, are the bytes behind the attribute's six-byte
/// header.
pub proof fn lemma_method_code_round_trip(bytes: Seq<u8>, at: int, pool: Seq<EntryView>, k: nat)
    requires
        method_at(bytes, at, pool) is Ok,
        k < method_at(bytes, at, pool).unwrap().0.attributes.len(),
    ensures
        ({
            let method = method_at(bytes, at, pool).unwrap().0;
            let position = attribute_position(bytes, at + 8, pool, k);
            &&& attribute_at(bytes, position, pool) is Ok
            &&& attribute_at(bytes, position, pool).unwrap().0 == method.attributes[k as int]
            &&& method.attributes[k as int] matches AttributeView::Code(code) ==> bytes.subrange(
                position + 6,
                position + 14 + code.code.len(),
            ) == code_bytes(code)
        }),
{
    let method = method_at(bytes, at, pool).unwrap().0;
    let count = four_u16_at(bytes, at).unwrap().0.3;
    lemma_attributes_from(bytes, at + 8, pool, count as nat, Seq::empty(), 0);
    lemma_attributes_from(bytes, at + 8, pool, count as nat, Seq::empty(), k);
    let position = attribute_position(bytes, at + 8, pool, k);
    if method.attributes[k as int] is Code {
        lemma_code_attribute(bytes, position, pool);
        lemma_code_round_trip(bytes, position + 6, pool);
    }
}

} // verus!
