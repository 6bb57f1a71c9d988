use mist::error::MistError;
use mist::heap::{Heap, Object, T_BOOLEAN, T_BYTE, T_CHAR, T_DOUBLE, T_FLOAT, T_INT, T_LONG, T_SHORT};
use mist::local::Local;
use mist::value::MistValue;

#[test]
fn new_locals_hold_integer_zero() {
    let local = Local::new(3);
    assert_eq!(local.len(), 3);
    for i in 0..3 {
        assert_eq!(local.load(i), Ok(MistValue::Integer(0)));
    }
    assert_eq!(Local::new(0).len(), 0);
}

#[test]
fn load_after_store_gives_the_value() {
    let mut local = Local::new(4);
    local.store(2, MistValue::Double(77)).unwrap();
    assert_eq!(local.load(2), Ok(MistValue::Double(77)));
    assert_eq!(local.load(1), Ok(MistValue::Integer(0)));
    local.store(2, MistValue::ObjectReference(5)).unwrap();
    assert_eq!(local.load(2), Ok(MistValue::ObjectReference(5)));
}

#[test]
fn local_index_out_of_range() {
    let mut local = Local::new(2);
    assert_eq!(local.load(2), Err(MistError::LocalIndex));
    assert_eq!(local.store(2, MistValue::Integer(1)), Err(MistError::LocalIndex));
    assert_eq!(local.iinc(5, 1), Err(MistError::LocalIndex));
    assert_eq!(local, Local::new(2));
}

#[test]
fn iinc_adds_and_wraps() {
    let mut local = Local::new(1);
    local.iinc(0, 5).unwrap();
    local.iinc(0, -7).unwrap();
    assert_eq!(local.load(0), Ok(MistValue::Integer(-2)));
    local.store(0, MistValue::Integer(i32::MAX)).unwrap();
    local.iinc(0, 1).unwrap();
    assert_eq!(local.load(0), Ok(MistValue::Integer(i32::MIN)));
    local.store(0, MistValue::Long(1)).unwrap();
    assert_eq!(local.iinc(0, 1), Err(MistError::TypeMismatch));
    assert_eq!(local.load(0), Ok(MistValue::Long(1)));
}

#[test]
fn null_object_is_empty() {
    let null = Object::null();
    assert_eq!(null.id, 0);
    assert_eq!(null.class, 0);
    assert!(null.mem.is_empty());
}

#[test]
fn new_heap_holds_only_null() {
    let heap = Heap::new();
    assert_eq!(heap.len(), 1);
    assert_eq!(heap.load(0, 0), Err(MistError::NullReference));
    assert_eq!(heap.load(1, 0), Err(MistError::InvalidReference));
}

#[test]
fn identifiers_are_dense_from_one() {
    let mut heap = Heap::new();
    assert_eq!(heap.newarray(T_INT, 3), Ok(1));
    assert_eq!(heap.newarray(T_LONG, 0), Ok(2));
    assert_eq!(heap.newarray(T_BYTE, 1), Ok(3));
    assert_eq!(heap.len(), 4);
    assert_eq!(heap.newarray(T_INT, -1), Err(MistError::ArrayBounds));
    assert_eq!(heap.len(), 4);
    assert_eq!(heap.newarray(T_INT, 1), Ok(4));
}

#[test]
fn fresh_elements_hold_the_default_of_their_kind() {
    let mut heap = Heap::new();
    let kinds = [
        (T_BOOLEAN, MistValue::Boolean(false)),
        (T_CHAR, MistValue::Char(0)),
        (T_FLOAT, MistValue::Float(0)),
        (T_DOUBLE, MistValue::Double(0)),
        (T_BYTE, MistValue::Byte(0)),
        (T_SHORT, MistValue::Short(0)),
        (T_INT, MistValue::Integer(0)),
        (T_LONG, MistValue::Long(0)),
        (0, MistValue::ObjectReference(0)),
        (12, MistValue::ObjectReference(0)),
    ];
    for (atype, default) in kinds {
        let id = heap.newarray(atype, 2).unwrap();
        assert_eq!(heap.load(id, 0), Ok(default));
        assert_eq!(heap.load(id, 1), Ok(default));
        assert_eq!(heap.load(id, 2), Err(MistError::ArrayBounds));
        assert_eq!(heap.load(id, -1), Err(MistError::ArrayBounds));
    }
}

#[test]
fn store_then_load_element() {
    let mut heap = Heap::new();
    let a = heap.newarray(T_INT, 3).unwrap();
    let b = heap.newarray(T_INT, 3).unwrap();
    heap.iastore(a, 1, 42).unwrap();
    assert_eq!(heap.iaload(a, 1), Ok(42));
    assert_eq!(heap.iaload(a, 0), Ok(0));
    assert_eq!(heap.iaload(b, 1), Ok(0));
    heap.store(b, 2, MistValue::Long(5)).unwrap();
    assert_eq!(heap.load(b, 2), Ok(MistValue::Long(5)));
    assert_eq!(heap.iaload(b, 2), Err(MistError::TypeMismatch));
}

#[test]
fn store_errors_change_nothing() {
    let mut heap = Heap::new();
    let a = heap.newarray(T_INT, 1).unwrap();
    assert_eq!(heap.iastore(0, 0, 1), Err(MistError::NullReference));
    assert_eq!(heap.iastore(a, 1, 1), Err(MistError::ArrayBounds));
    assert_eq!(heap.iastore(a, -1, 1), Err(MistError::ArrayBounds));
    assert_eq!(heap.iastore(a + 1, 0, 1), Err(MistError::InvalidReference));
    assert_eq!(heap.iaload(a, 0), Ok(0));
    assert_eq!(heap.len(), 2);
}
