use mist::class::attribute_info::{AttributeInfo, Code};
use mist::class::method::MethodInfo;
use mist::class::native;
use mist::class::pool::{class_name, field_ref, method_ref, utf8, Entry};
use mist::class::{Class, Context};
use mist::descriptor::{parameter_widths, place_arguments};
use mist::error::MistError;
use mist::text::same_text;
use mist::value::MistValue;

fn text(s: &str) -> Entry {
    Entry::Utf8Info { bytes: s.to_string() }
}

fn pool() -> Vec<Entry> {
    vec![
        Entry::IntegerInfo { bytes: 0 },
        text("java/lang/Math"),
        Entry::ClassInfo { name_index: 1 },
        text("sqrt"),
        text("(D)D"),
        Entry::NameAndTypeInfo { index: 3, descriptor_index: 4 },
        Entry::MethodRefInfo { class_index: 2, name_and_type_index: 5 },
        Entry::FieldRefInfo { class_index: 2, name_and_type_index: 5 },
        Entry::ClassInfo { name_index: 2 },
        Entry::MethodRefInfo { class_index: 1, name_and_type_index: 5 },
        Entry::MethodRefInfo { class_index: 2, name_and_type_index: 11 },
        Entry::NameAndTypeInfo { index: 3, descriptor_index: 2 },
        Entry::MethodRefInfo { class_index: 8, name_and_type_index: 5 },
    ]
}

#[test]
fn utf8_lookup() {
    let pool = pool();
    assert_eq!(utf8(&pool, 1), Ok("java/lang/Math"));
    assert_eq!(utf8(&pool, 4), Ok("(D)D"));
    assert_eq!(utf8(&pool, 0), Err(MistError::InvalidReference));
    assert_eq!(utf8(&pool, 2), Err(MistError::InvalidReference));
    assert_eq!(utf8(&pool, 13), Err(MistError::InvalidReference));
    assert_eq!(utf8(&[], 0), Err(MistError::InvalidReference));
}

#[test]
fn class_name_lookup() {
    let pool = pool();
    assert_eq!(class_name(&pool, 2), Ok("java/lang/Math"));
    assert_eq!(class_name(&pool, 1), Err(MistError::InvalidReference));
    assert_eq!(class_name(&pool, 8), Err(MistError::InvalidReference));
    assert_eq!(class_name(&pool, 0), Err(MistError::InvalidReference));
    assert_eq!(class_name(&pool, 99), Err(MistError::InvalidReference));
}

#[test]
fn method_and_field_reference_lookup() {
    let pool = pool();
    let method = method_ref(&pool, 6).unwrap();
    assert_eq!(method.class_name, "java/lang/Math");
    assert_eq!(method.name, "sqrt");
    assert_eq!(method.descriptor, "(D)D");
    let field = field_ref(&pool, 7).unwrap();
    assert_eq!(field.class_name, "java/lang/Math");
    assert_eq!(field.name, "sqrt");
    assert_eq!(field.descriptor, "(D)D");
    for index in [0u16, 5, 7, 9, 10, 12, 13] {
        assert_eq!(method_ref(&pool, index).err(), Some(MistError::InvalidReference), "{index}");
    }
    for index in [0u16, 5, 6, 13] {
        assert_eq!(field_ref(&pool, index).err(), Some(MistError::InvalidReference), "{index}");
    }
}

#[test]
fn same_text_compares_characters() {
    assert!(same_text("", ""));
    assert!(same_text("Code", "Code"));
    assert!(!same_text("Code", "code"));
    assert!(!same_text("Code", "Codes"));
    assert!(same_text("\u{4e16}\u{754c}", "\u{4e16}\u{754c}"));
    assert!(!same_text("\u{4e16}\u{754c}", "\u{4e16}\u{754d}"));
}

fn named(name: &str) -> Class {
    let mut class = Class::empty();
    class.this_class = name.to_string();
    class
}

#[test]
fn new_registry_holds_the_builtins() {
    let context = Context::new();
    assert_eq!(context.len(), 2);
    let system = context.lookup_class("java/lang/System").unwrap();
    assert_eq!(system.methods.len(), 1);
    assert_eq!(system.methods[0].name, "currentTimeMillis");
    assert_eq!(system.methods[0].descriptor, "()J");
    assert_eq!(
        system.methods[0].attributes,
        vec![AttributeInfo::Code(Code::native(native::CURRENT_TIME_MILLIS, 0))]
    );
    let sqrt = context.lookup_method("java/lang/Math", "sqrt", "(D)D").unwrap();
    let code = sqrt.code().unwrap();
    assert!(code.is_native());
    assert_eq!(code.native, Some(native::SQRT));
    assert_eq!(code.max_local, 1);
    assert_eq!(code.max_stack, 0);
    assert!(code.code.is_empty());
}

#[test]
fn registration_is_write_once() {
    let mut context = Context::new();
    assert!(context.lookup_class("Main").is_none());
    assert_eq!(context.add_class(named("Main")), Ok(()));
    assert_eq!(context.len(), 3);
    assert!(context.lookup_class("Main").is_some());
    let mut again = named("Main");
    again.major_version = 9;
    assert_eq!(context.add_class(again), Err(MistError::DuplicateClass));
    assert_eq!(context.len(), 3);
    assert_eq!(context.lookup_class("Main").unwrap().major_version, 0);
    assert_eq!(context.add_class(named("java/lang/Math")), Err(MistError::DuplicateClass));
    assert_eq!(context.add_class(named("main")), Ok(()));
}

fn method(name: &str, descriptor: &str, flags: u16) -> MethodInfo {
    MethodInfo {
        access_flags: flags,
        name: name.to_string(),
        descriptor: descriptor.to_string(),
        attributes: Vec::new(),
    }
}

#[test]
fn method_lookup_is_exact_on_name_and_descriptor() {
    let mut class = named("Main");
    class.methods = vec![
        method("f", "()V", 1),
        method("f", "(I)V", 2),
        method("g", "(I)V", 3),
        method("f", "(I)V", 4),
    ];
    assert_eq!(class.find_method("f").unwrap().access_flags, 1);
    assert_eq!(class.find_method("g").unwrap().access_flags, 3);
    assert!(class.find_method("h").is_none());
    assert_eq!(class.lookup_method_with_descriptor("f", "(I)V").unwrap().access_flags, 2);
    assert_eq!(class.lookup_method_with_descriptor("g", "(I)V").unwrap().access_flags, 3);
    assert!(class.lookup_method_with_descriptor("g", "()V").is_none());
    assert!(class.lookup_method_with_descriptor("F", "()V").is_none());
    assert!(class.methods[0].code().is_none());
    let mut context = Context::new();
    context.add_class(class).unwrap();
    assert_eq!(context.lookup_method("Main", "f", "(I)V").unwrap().access_flags, 2);
    assert!(context.lookup_method("Main", "f", "(J)V").is_none());
    assert!(context.lookup_method("Other", "f", "(I)V").is_none());
}

#[test]
fn default_class_is_empty() {
    let class = Class::default();
    assert_eq!(class, Class::empty());
    assert_eq!(class.this_class, "");
    assert!(class.methods.is_empty());
}

#[test]
fn descriptor_parameters() {
    assert_eq!(parameter_widths("()V"), Some(vec![]));
    assert_eq!(parameter_widths("(D)D"), Some(vec![true]));
    assert_eq!(parameter_widths("(IJFDZBCS)V"), Some(vec![false, true, false, true, false, false, false, false]));
    assert_eq!(parameter_widths("([Ljava/lang/String;)J"), Some(vec![false]));
    assert_eq!(parameter_widths("([[J[DLa/B;I)V"), Some(vec![false, false, false, false]));
    assert_eq!(parameter_widths("(I)"), Some(vec![false]));
    assert_eq!(parameter_widths(""), None);
    assert_eq!(parameter_widths("I)V"), None);
    assert_eq!(parameter_widths("(I"), None);
    assert_eq!(parameter_widths("(Ljava/lang/String)V"), None);
    assert_eq!(parameter_widths("(Q)V"), None);
    assert_eq!(parameter_widths("([)V"), None);
    assert_eq!(parameter_widths("(["), None);
}

#[test]
fn arguments_fill_the_frame_from_slot_zero() {
    let widths = vec![false, true, false];
    let arguments = vec![MistValue::Integer(1), MistValue::Long(2), MistValue::Integer(3)];
    let local = place_arguments(&widths, &arguments, false, 5).unwrap();
    assert_eq!(local.load(0), Ok(MistValue::Integer(1)));
    assert_eq!(local.load(1), Ok(MistValue::Long(2)));
    assert_eq!(local.load(2), Ok(MistValue::Integer(0)));
    assert_eq!(local.load(3), Ok(MistValue::Integer(3)));
    assert_eq!(local.load(4), Ok(MistValue::Integer(0)));
    let compact = place_arguments(&widths, &arguments, true, 3).unwrap();
    assert_eq!(compact.load(1), Ok(MistValue::Long(2)));
    assert_eq!(compact.load(2), Ok(MistValue::Integer(3)));
    assert_eq!(place_arguments(&widths, &arguments, false, 3).err(), Some(MistError::LocalIndex));
    assert_eq!(place_arguments(&vec![], &vec![], false, 0).unwrap().len(), 0);
}
