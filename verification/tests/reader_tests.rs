use mist::class::attribute_info::{
    AttributeInfo, Code, ExceptionTableInfo, LineNumberTable, LineNumberTableInfo,
};
use mist::class::pool::Entry;
use mist::class::{Class, Context, Reader};
use mist::error::MistError;
use mist::run::{RuntimeContext, Step};
use mist::value::MistValue;

fn u16_bytes(v: u16) -> Vec<u8> {
    v.to_be_bytes().to_vec()
}

fn u32_bytes(v: u32) -> Vec<u8> {
    v.to_be_bytes().to_vec()
}

fn utf8_entry(text: &str) -> Vec<u8> {
    let mut out = vec![1];
    out.extend(u16_bytes(text.len() as u16));
    out.extend(text.as_bytes());
    out
}

fn pair_entry(tag: u8, first: u16, second: u16) -> Vec<u8> {
    let mut out = vec![tag];
    out.extend(u16_bytes(first));
    out.extend(u16_bytes(second));
    out
}

fn index_entry(tag: u8, index: u16) -> Vec<u8> {
    let mut out = vec![tag];
    out.extend(u16_bytes(index));
    out
}

const CODE: [u8; 5] = [0x05, 0x08, 0x60, 0x85, 0xad];

fn pool_bytes() -> Vec<u8> {
    let mut out = Vec::new();
    out.extend(utf8_entry("Main")); // 1
    out.extend(index_entry(7, 1)); // 2
    out.extend(utf8_entry("java/lang/Object")); // 3
    out.extend(index_entry(7, 3)); // 4
    out.extend(utf8_entry("main")); // 5
    out.extend(utf8_entry("([Ljava/lang/String;)J")); // 6
    out.extend(utf8_entry("Code")); // 7
    out.extend(utf8_entry("LineNumberTable")); // 8
    out.push(5); // 9 and 10
    out.extend(u32_bytes(1));
    out.extend(u32_bytes(2));
    out.push(3); // 11
    out.extend(u32_bytes(42));
    out.extend(utf8_entry("SourceFile")); // 12
    out.extend(utf8_entry("value")); // 13
    out.extend(utf8_entry("I")); // 14
    out.extend(pair_entry(12, 5, 6)); // 15
    out.extend(pair_entry(10, 2, 15)); // 16
    out.extend(pair_entry(9, 2, 18)); // 17
    out.extend(pair_entry(12, 13, 14)); // 18
    out.extend(index_entry(8, 1)); // 19
    out.push(4); // 20
    out.extend(u32_bytes(0x3f80_0000));
    out.push(6); // 21 and 22
    out.extend(u32_bytes(0x4000_0000));
    out.extend(u32_bytes(0));
    out.extend(pair_entry(11, 2, 15)); // 23
    out
}

fn code_attribute() -> Vec<u8> {
    let mut payload = Vec::new();
    payload.extend(u16_bytes(2)); // max stack
    payload.extend(u16_bytes(1)); // max local
    payload.extend(u32_bytes(CODE.len() as u32));
    payload.extend(CODE);
    payload.extend(u16_bytes(1)); // exception rows
    payload.extend([0, 0, 0, 4, 0, 4, 0, 0]);
    payload.extend(u16_bytes(1)); // nested attributes
    payload.extend(u16_bytes(8));
    payload.extend(u32_bytes(6));
    payload.extend(u16_bytes(1));
    payload.extend([0, 0, 0, 3]);
    let mut out = Vec::new();
    out.extend(u16_bytes(7));
    out.extend(u32_bytes(payload.len() as u32));
    out.extend(payload);
    out
}

struct Parts {
    header: Vec<u8>,
    pool: Vec<u8>,
    type_info: Vec<u8>,
    interfaces: Vec<u8>,
    fields: Vec<u8>,
    methods: Vec<u8>,
}

fn parts() -> Parts {
    let mut header = vec![0xca, 0xfe, 0xba, 0xbe];
    header.extend(u16_bytes(3)); // minor
    header.extend(u16_bytes(52)); // major
    header.extend(u16_bytes(24)); // pool count
    let mut type_info = Vec::new();
    type_info.extend(u16_bytes(0x0021));
    type_info.extend(u16_bytes(2));
    type_info.extend(u16_bytes(4));
    type_info.extend(u16_bytes(1));
    let interfaces = u16_bytes(4);
    let mut fields = u16_bytes(1);
    fields.extend(u16_bytes(0x0002));
    fields.extend(u16_bytes(13));
    fields.extend(u16_bytes(14));
    fields.extend(u16_bytes(1));
    fields.extend(u16_bytes(12));
    fields.extend(u32_bytes(2));
    fields.extend([0, 1]);
    let mut methods = u16_bytes(1);
    methods.extend(u16_bytes(0x0009));
    methods.extend(u16_bytes(5));
    methods.extend(u16_bytes(6));
    methods.extend(u16_bytes(1));
    methods.extend(code_attribute());
    Parts { header, pool: pool_bytes(), type_info, interfaces, fields, methods }
}

fn join(parts: &Parts) -> Vec<u8> {
    let mut out = Vec::new();
    out.extend(&parts.header);
    out.extend(&parts.pool);
    out.extend(&parts.type_info);
    out.extend(&parts.interfaces);
    out.extend(&parts.fields);
    out.extend(&parts.methods);
    out
}

fn class_bytes() -> Vec<u8> {
    join(&parts())
}

fn load(bytes: Vec<u8>) -> Result<Class, MistError> {
    Reader::new(bytes).read_class()
}

fn expected_pool() -> Vec<Entry> {
    let utf8 = |s: &str| Entry::Utf8Info { bytes: s.to_string() };
    vec![
        Entry::IntegerInfo { bytes: 0 },
        utf8("Main"),
        Entry::ClassInfo { name_index: 1 },
        utf8("java/lang/Object"),
        Entry::ClassInfo { name_index: 3 },
        utf8("main"),
        utf8("([Ljava/lang/String;)J"),
        utf8("Code"),
        utf8("LineNumberTable"),
        Entry::LongInfo { high_bytes: 1, low_bytes: 2 },
        Entry::IntegerInfo { bytes: 0 },
        Entry::IntegerInfo { bytes: 42 },
        utf8("SourceFile"),
        utf8("value"),
        utf8("I"),
        Entry::NameAndTypeInfo { index: 5, descriptor_index: 6 },
        Entry::MethodRefInfo { class_index: 2, name_and_type_index: 15 },
        Entry::FieldRefInfo { class_index: 2, name_and_type_index: 18 },
        Entry::NameAndTypeInfo { index: 13, descriptor_index: 14 },
        Entry::StringInfo { string_index: 1 },
        Entry::FloatInfo { bytes: 0x3f80_0000 },
        Entry::DoubleInfo { high_bytes: 0x4000_0000, low_bytes: 0 },
        Entry::IntegerInfo { bytes: 0 },
        Entry::InterfaceMethodRefInfo { class_index: 2, name_and_type_index: 15 },
    ]
}

fn expected_code() -> Code {
    Code {
        native: None,
        max_stack: 2,
        max_local: 1,
        code: CODE.to_vec(),
        exception_table: vec![ExceptionTableInfo {
            start_pc: 0,
            end_pc: 4,
            handler_pc: 4,
            catch_type: 0,
        }],
        attributes: vec![AttributeInfo::LineNumberTable(LineNumberTable {
            attribute_name_index: 8,
            attribute_length: 6,
            line_number_table: vec![LineNumberTableInfo { start_pc: 0, line_number: 3 }],
        })],
    }
}

#[test]
fn reads_a_whole_class() {
    let bytes = class_bytes();
    let length = bytes.len();
    let mut reader = Reader::new(bytes);
    let class = reader.read_class().unwrap();
    assert_eq!(reader.offset(), length);
    assert_eq!(class.minor_version, 3);
    assert_eq!(class.major_version, 52);
    assert_eq!(class.access_flags, 0x0021);
    assert_eq!(class.this_class, "Main");
    assert_eq!(class.super_class, "java/lang/Object");
    assert_eq!(class.interfaces, vec![4]);
    assert_eq!(class.constant_pool, expected_pool());
    assert_eq!(class.fields.len(), 1);
    assert_eq!(class.fields[0].access_flags, 0x0002);
    assert_eq!(class.fields[0].name, "value");
    assert_eq!(class.fields[0].descriptor, "I");
    assert_eq!(class.fields[0].attributes, vec![AttributeInfo::Bytes(vec![0, 1])]);
    assert_eq!(class.methods.len(), 1);
    assert_eq!(class.methods[0].access_flags, 0x0009);
    assert_eq!(class.methods[0].name, "main");
    assert_eq!(class.methods[0].descriptor, "([Ljava/lang/String;)J");
    assert_eq!(class.methods[0].attributes, vec![AttributeInfo::Code(expected_code())]);
    assert!(class.attributes.is_empty());
}

#[test]
fn trailing_bytes_are_left_unread() {
    let mut bytes = class_bytes();
    let length = bytes.len();
    bytes.extend([0, 0, 9, 9]);
    let mut reader = Reader::new(bytes);
    assert!(reader.read_class().is_ok());
    assert_eq!(reader.offset(), length);
}

#[test]
fn structural_fields_round_trip() {
    let parts = parts();
    let bytes = join(&parts);
    let class = load(bytes.clone()).unwrap();
    let mut header = vec![0xca, 0xfe, 0xba, 0xbe];
    header.extend(u16_bytes(class.minor_version));
    header.extend(u16_bytes(class.major_version));
    header.extend(u16_bytes(class.constant_pool.len() as u16));
    assert_eq!(header, bytes[..10]);
    let flags_at = parts.header.len() + parts.pool.len();
    assert_eq!(u16_bytes(class.access_flags), bytes[flags_at..flags_at + 2]);
    let methods_at = bytes.len() - parts.methods.len();
    assert_eq!(u16_bytes(class.methods.len() as u16), bytes[methods_at..methods_at + 2]);
    let method = &class.methods[0];
    let at = methods_at + 2;
    assert_eq!(u16_bytes(method.access_flags), bytes[at..at + 2]);
    let name_index = u16::from_be_bytes([bytes[at + 2], bytes[at + 3]]);
    let descriptor_index = u16::from_be_bytes([bytes[at + 4], bytes[at + 5]]);
    assert_eq!(
        class.constant_pool[name_index as usize],
        Entry::Utf8Info { bytes: method.name.clone() }
    );
    assert_eq!(
        class.constant_pool[descriptor_index as usize],
        Entry::Utf8Info { bytes: method.descriptor.clone() }
    );
    let code = method.code().unwrap();
    let mut emitted = Vec::new();
    emitted.extend(u16_bytes(code.max_stack));
    emitted.extend(u16_bytes(code.max_local));
    emitted.extend(u32_bytes(code.code.len() as u32));
    emitted.extend(&code.code);
    let payload_at = at + 8 + 6;
    assert_eq!(emitted, bytes[payload_at..payload_at + emitted.len()]);
}

#[test]
fn loaded_class_runs() {
    let class = load(class_bytes()).unwrap();
    let mut context = Context::new();
    context.add_class(class).unwrap();
    let mut machine = RuntimeContext::boot(&context, "Main").unwrap();
    assert_eq!(machine.run(100), Step::Returned(Some(MistValue::Long(7))));
}

#[test]
fn every_truncation_is_an_io_error() {
    let bytes = class_bytes();
    for length in 0..bytes.len() {
        let mut reader = Reader::new(bytes[..length].to_vec());
        assert_eq!(reader.read_class(), Err(MistError::IoError), "at {length}");
        assert_eq!(reader.offset(), 0);
    }
}

#[test]
fn wrong_magic_is_an_invalid_format() {
    let mut bytes = class_bytes();
    bytes[3] = 0xbf;
    assert_eq!(load(bytes), Err(MistError::InvalidFormat));
    let mut reader = Reader::new(vec![0xca, 0xfe, 0xba, 0xbf, 0, 0]);
    assert_eq!(reader.read_header(), Err(MistError::InvalidFormat));
    assert_eq!(reader.offset(), 0);
    assert_eq!(Reader::new(vec![0xca, 0xfe, 0xba]).read_header(), Err(MistError::IoError));
}

#[test]
fn header_alone() {
    let mut reader = Reader::new(vec![0xca, 0xfe, 0xba, 0xbe, 0x00, 0x03, 0x00, 0x34, 0x01, 0x02, 0xff]);
    assert_eq!(reader.read_header(), Ok((3, 52, 0x0102)));
    assert_eq!(reader.offset(), 10);
    assert_eq!(reader.read_header(), Err(MistError::IoError));
    assert_eq!(reader.offset(), 10);
}

#[test]
fn constant_pool_alone() {
    let mut reader = Reader::new(pool_bytes());
    assert_eq!(reader.read_constant_pool(24), Ok(expected_pool()));
    assert_eq!(reader.offset(), pool_bytes().len());
    let mut reader = Reader::new(pool_bytes());
    assert_eq!(reader.read_constant_pool(25), Err(MistError::IoError));
    assert_eq!(reader.offset(), 0);
    assert_eq!(Reader::new(pool_bytes()).read_constant_pool(0), Err(MistError::InvalidFormat));
    assert_eq!(
        Reader::new(Vec::new()).read_constant_pool(1),
        Ok(vec![Entry::IntegerInfo { bytes: 0 }])
    );
}

#[test]
fn long_at_the_last_slot_fills_it() {
    let mut bytes = vec![5];
    bytes.extend(u32_bytes(0));
    bytes.extend(u32_bytes(9));
    let mut reader = Reader::new(bytes);
    assert_eq!(
        reader.read_constant_pool(2),
        Ok(vec![Entry::IntegerInfo { bytes: 0 }, Entry::LongInfo { high_bytes: 0, low_bytes: 9 }])
    );
}

#[test]
fn unknown_pool_tag_is_an_invalid_format() {
    assert_eq!(Reader::new(vec![2, 0, 0]).read_constant_pool(2), Err(MistError::InvalidFormat));
    assert_eq!(Reader::new(vec![0, 0, 0]).read_constant_pool(2), Err(MistError::InvalidFormat));
    assert_eq!(Reader::new(vec![19, 0, 0]).read_constant_pool(2), Err(MistError::InvalidFormat));
}

#[test]
fn unhandled_pool_tag_is_unsupported() {
    for tag in [15u8, 16, 18] {
        assert_eq!(
            Reader::new(vec![tag, 0, 0, 0, 0]).read_constant_pool(2),
            Err(MistError::Unsupported)
        );
    }
}

#[test]
fn text_is_decoded_as_utf8() {
    let mut reader = Reader::new(utf8_entry("h\u{e9}llo \u{4e16}\u{754c}"));
    assert_eq!(
        reader.read_constant_pool(2),
        Ok(vec![
            Entry::IntegerInfo { bytes: 0 },
            Entry::Utf8Info { bytes: "h\u{e9}llo \u{4e16}\u{754c}".to_string() }
        ])
    );
    assert_eq!(
        Reader::new(vec![1, 0, 2, 0xc3, 0x28]).read_constant_pool(2),
        Err(MistError::InvalidFormat)
    );
    assert_eq!(
        Reader::new(vec![1, 0, 1, 0xff]).read_constant_pool(2),
        Err(MistError::InvalidFormat)
    );
    assert_eq!(
        Reader::new(vec![1, 0, 0]).read_constant_pool(2),
        Ok(vec![Entry::IntegerInfo { bytes: 0 }, Entry::Utf8Info { bytes: String::new() }])
    );
}

#[test]
fn type_info_and_interfaces_alone() {
    let mut reader = Reader::new(vec![0, 0x21, 0, 2, 0, 4, 0, 2, 0, 7, 1, 0]);
    assert_eq!(reader.read_type_info(), Ok((0x21, 2, 4, 2)));
    assert_eq!(reader.read_interfaces(2), Ok(vec![7, 256]));
    assert_eq!(reader.offset(), 12);
    assert_eq!(reader.read_interfaces(0), Ok(Vec::new()));
    assert_eq!(reader.read_interfaces(1), Err(MistError::IoError));
    assert_eq!(reader.read_type_info(), Err(MistError::IoError));
    let mut reader = Reader::new(vec![0, 1, 0]);
    assert_eq!(reader.read_interfaces(2), Err(MistError::IoError));
    assert_eq!(reader.offset(), 0);
}

#[test]
fn fields_and_methods_alone() {
    let parts = parts();
    let pool = expected_pool();
    let mut reader = Reader::new(parts.fields.clone());
    let fields = reader.read_fields(&pool).unwrap();
    assert_eq!(fields.len(), 1);
    assert_eq!(fields[0].name, "value");
    assert_eq!(reader.offset(), parts.fields.len());
    let mut reader = Reader::new(parts.methods.clone());
    let methods = reader.read_methods(&pool).unwrap();
    assert_eq!(methods.len(), 1);
    assert_eq!(methods[0].code(), Some(&expected_code()));
    let mut reader = Reader::new(vec![0, 0]);
    assert_eq!(reader.read_methods(&pool), Ok(Vec::new()));
}

#[test]
fn attributes_alone() {
    let pool = expected_pool();
    let mut reader = Reader::new(code_attribute());
    assert_eq!(reader.read_method_attribute(&pool), Ok(AttributeInfo::Code(expected_code())));
    let mut reader = Reader::new(vec![0, 12, 0, 0, 0, 3, 7, 8, 9, 10]);
    assert_eq!(reader.read_field_attribute(&pool), Ok(AttributeInfo::Bytes(vec![7, 8, 9])));
    assert_eq!(reader.offset(), 9);
    let mut reader = Reader::new(vec![0, 12, 0, 0, 0, 3, 7, 8]);
    assert_eq!(reader.read_field_attribute(&pool), Err(MistError::IoError));
    assert_eq!(reader.offset(), 0);
}

#[test]
fn attribute_name_has_to_be_text() {
    let pool = expected_pool();
    for index in [0u16, 2, 11, 24, 500] {
        let mut bytes = u16_bytes(index);
        bytes.extend(u32_bytes(0));
        let mut reader = Reader::new(bytes);
        assert_eq!(reader.read_method_attribute(&pool), Err(MistError::InvalidFormat));
        assert_eq!(reader.offset(), 0);
    }
}

#[test]
fn attribute_length_has_to_fit() {
    let pool = expected_pool();
    let mut bytes = code_attribute();
    bytes[5] += 1;
    bytes.push(0);
    assert_eq!(Reader::new(bytes).read_method_attribute(&pool), Err(MistError::InvalidFormat));
    let mut bytes = code_attribute();
    bytes[5] -= 1;
    assert_eq!(Reader::new(bytes).read_method_attribute(&pool), Err(MistError::InvalidFormat));
    let mut table = u16_bytes(8);
    table.extend(u32_bytes(7));
    table.extend([0, 1, 0, 0, 0, 3, 0]);
    assert_eq!(Reader::new(table).read_method_attribute(&pool), Err(MistError::InvalidFormat));
}

#[test]
fn member_names_have_to_be_text() {
    let pool = expected_pool();
    let mut parts = parts();
    parts.methods[5] = 2;
    assert_eq!(Reader::new(parts.methods.clone()).read_methods(&pool), Err(MistError::InvalidFormat));
    assert_eq!(load(join(&parts)), Err(MistError::InvalidFormat));
    let mut parts = self::parts();
    parts.fields[7] = 2;
    assert_eq!(load(join(&parts)), Err(MistError::InvalidFormat));
}

#[test]
fn class_names_have_to_resolve() {
    let mut parts = parts();
    parts.type_info[3] = 1;
    assert_eq!(load(join(&parts)), Err(MistError::InvalidFormat));
    let mut parts = self::parts();
    parts.type_info[5] = 0;
    assert_eq!(load(join(&parts)), Err(MistError::InvalidFormat));
    let mut parts = self::parts();
    parts.type_info[5] = 200;
    assert_eq!(load(join(&parts)), Err(MistError::InvalidFormat));
}

#[test]
fn pool_indices_have_to_resolve() {
    // entry 2 is a class whose name index leads to itself
    let mut parts = parts();
    let at = utf8_entry("Main").len() + 2;
    assert_eq!(parts.pool[at - 2], 7);
    parts.pool[at] = 2;
    assert_eq!(load(join(&parts)), Err(MistError::InvalidFormat));
    // the pool alone is read as it stands
    let mut reader = Reader::new(parts.pool.clone());
    let pool = reader.read_constant_pool(24).unwrap();
    assert_eq!(pool[2], Entry::ClassInfo { name_index: 2 });
    assert!(!mist::class::pool::is_resolved(&pool));
    assert!(mist::class::pool::is_resolved(&expected_pool()));
    assert!(mist::class::pool::is_resolved(&[]));
}

#[test]
fn reference_to_the_slot_behind_a_long_does_not_resolve() {
    let pool = vec![
        Entry::IntegerInfo { bytes: 0 },
        Entry::LongInfo { high_bytes: 0, low_bytes: 1 },
        Entry::IntegerInfo { bytes: 0 },
        Entry::StringInfo { string_index: 2 },
    ];
    assert!(!mist::class::pool::is_resolved(&pool));
    let pool = vec![
        Entry::IntegerInfo { bytes: 0 },
        Entry::Utf8Info { bytes: String::from("a") },
        Entry::NameAndTypeInfo { index: 1, descriptor_index: 1 },
        Entry::ClassInfo { name_index: 1 },
        Entry::InterfaceMethodRefInfo { class_index: 3, name_and_type_index: 2 },
        Entry::FieldRefInfo { class_index: 3, name_and_type_index: 2 },
    ];
    assert!(mist::class::pool::is_resolved(&pool));
    let pool = vec![
        Entry::IntegerInfo { bytes: 0 },
        Entry::Utf8Info { bytes: String::from("a") },
        Entry::NameAndTypeInfo { index: 1, descriptor_index: 0 },
    ];
    assert!(!mist::class::pool::is_resolved(&pool));
}
