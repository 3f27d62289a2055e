use yew_widgets::forms::storage::FormStorage;
use yew_widgets::validations::{ValidationError, Validator};

#[test]
fn new_storage_holds_its_value() {
    let storage = FormStorage::new(7u32);
    assert_eq!(storage.unchecked_value(), 7);
    assert_eq!(storage.value().expect("a fresh storage is not invalid"), 7);
    assert!(storage.validate().is_ok());
}

#[test]
fn update_replaces_the_value() {
    let mut storage = FormStorage::new(String::from("a"));
    storage.update(String::from("b"));
    assert_eq!(storage.unchecked_value(), "b");
    assert_eq!(*storage.value_ref().expect("not invalid"), "b");
}

#[test]
fn invalid_hint_hides_the_value() {
    let mut storage = FormStorage::new(1u8);
    storage.update_with_invalid_hint(2, true);
    assert!(matches!(storage.value(), Err(ValidationError::InvalidValue)));
    assert!(matches!(storage.value_ref(), Err(ValidationError::InvalidValue)));
    assert!(matches!(storage.validate(), Err(ValidationError::InvalidValue)));
    assert_eq!(storage.unchecked_value(), 2);
    storage.update_invalid_hint(false);
    assert_eq!(storage.value().expect("the hint was cleared"), 2);
}

#[test]
fn update_with_invalid_hint_false_keeps_the_value_readable() {
    let mut storage = FormStorage::new(1u8);
    storage.update_with_invalid_hint(9, false);
    assert_eq!(storage.value().expect("not invalid"), 9);
}

#[test]
fn duplicate_is_independent() {
    let mut storage = FormStorage::new(3i64);
    let copy = storage.duplicate();
    storage.update_with_invalid_hint(4, true);
    assert_eq!(copy.value().expect("the copy keeps its marks"), 3);
    assert_eq!(storage.unchecked_value(), 4);
}
