use mist::error::MistError;
use mist::value::MistValue;
use std::cmp::Ordering;

fn all_kinds() -> Vec<MistValue> {
    vec![
        MistValue::Boolean(true),
        MistValue::Byte(-1),
        MistValue::Short(7),
        MistValue::Integer(7),
        MistValue::Float(0x3f80_0000),
        MistValue::Long(7),
        MistValue::Double(0x3ff0_0000_0000_0000),
        MistValue::Char(65),
        MistValue::ObjectReference(3),
    ]
}

#[test]
fn short_name_of_each_kind() {
    let names: Vec<char> = all_kinds().iter().map(|v| v.short_name()).collect();
    assert_eq!(names, vec!['Z', 'B', 'S', 'I', 'F', 'J', 'D', 'C', 'A']);
}

#[test]
fn tag_names_the_kind_of_its_cell() {
    for v in all_kinds() {
        let zero = MistValue::from_tag(v.short_name()).unwrap();
        assert_eq!(zero.short_name(), v.short_name());
        assert_eq!(std::mem::discriminant(&zero), std::mem::discriminant(&v));
    }
}

#[test]
fn zero_of_each_tag() {
    assert_eq!(MistValue::from_tag('Z'), Some(MistValue::Boolean(false)));
    assert_eq!(MistValue::from_tag('B'), Some(MistValue::Byte(0)));
    assert_eq!(MistValue::from_tag('S'), Some(MistValue::Short(0)));
    assert_eq!(MistValue::from_tag('I'), Some(MistValue::Integer(0)));
    assert_eq!(MistValue::from_tag('F'), Some(MistValue::Float(0)));
    assert_eq!(MistValue::from_tag('J'), Some(MistValue::Long(0)));
    assert_eq!(MistValue::from_tag('D'), Some(MistValue::Double(0)));
    assert_eq!(MistValue::from_tag('C'), Some(MistValue::Char(0)));
    assert_eq!(MistValue::from_tag('A'), Some(MistValue::ObjectReference(0)));
    assert_eq!(MistValue::from_tag('L'), None);
    assert_eq!(MistValue::from_tag('z'), None);
}

#[test]
fn default_is_integer_zero() {
    assert_eq!(MistValue::default(), MistValue::Integer(0));
}

#[test]
fn ordering_becomes_an_int() {
    assert_eq!(MistValue::from_ordering(Ordering::Less), MistValue::Integer(-1));
    assert_eq!(MistValue::from_ordering(Ordering::Equal), MistValue::Integer(0));
    assert_eq!(MistValue::from_ordering(Ordering::Greater), MistValue::Integer(1));
    assert_eq!(MistValue::try_from_ordering(Some(Ordering::Less)), Some(MistValue::Integer(-1)));
    assert_eq!(MistValue::try_from_ordering(None), None);
    assert_eq!(
        MistValue::try_from_ordering(1.0f64.partial_cmp(&f64::NAN)).unwrap_or(MistValue::Integer(1)),
        MistValue::Integer(1)
    );
}

#[test]
fn payload_accessors() {
    assert_eq!(MistValue::Boolean(true).as_boolean(), Some(true));
    assert_eq!(MistValue::Byte(-3).as_byte(), Some(-3));
    assert_eq!(MistValue::Short(-3).as_short(), Some(-3));
    assert_eq!(MistValue::Integer(-3).as_integer(), Some(-3));
    assert_eq!(MistValue::Float(9).as_float(), Some(9));
    assert_eq!(MistValue::Long(-3).as_long(), Some(-3));
    assert_eq!(MistValue::Double(9).as_double(), Some(9));
    assert_eq!(MistValue::Char(9).as_char(), Some(9));
    assert_eq!(MistValue::ObjectReference(9).as_reference(), Some(9));
    assert_eq!(MistValue::Integer(1).as_long(), None);
    assert_eq!(MistValue::Long(1).as_integer(), None);
    assert_eq!(MistValue::Float(1).as_double(), None);
    assert_eq!(MistValue::Double(1).as_float(), None);
    assert_eq!(MistValue::Integer(1).as_boolean(), None);
    assert_eq!(MistValue::Integer(1).as_reference(), None);
}

#[test]
fn error_names() {
    assert_eq!(MistError::IoError.name(), "IoError");
    assert_eq!(MistError::ArithmeticError.name(), "ArithmeticError");
    assert_eq!(MistError::DuplicateClass.name(), "DuplicateClass");
    assert_eq!(MistError::TypeMismatch.name(), "TypeMismatch");
}
