use std::rc::Rc;
use yew_widgets::forms::storage::FormStorage;
use yew_widgets::validations::combinators::{AndValidation, OrValidation};
use yew_widgets::validations::present::{AbsentValidation, PresentValidation, Presentable};
use yew_widgets::validations::{
    ErrorSet, FieldError, ModelValidator, Validatable, ValidatableStorage, ValidationError, Validator,
    ValidatorCombinators,
};

#[test]
fn test_combinators() {
    let present_value = 1;
    let absent_value = 0;

    present_value
        .is_present()
        .or(absent_value.is_present())
        .validate()
        .expect("true or false = true");

    present_value
        .is_present()
        .or(present_value.is_present())
        .validate()
        .expect("true or true = true");

    absent_value
        .is_present()
        .or(present_value.is_present())
        .validate()
        .expect("false or true = true");

    absent_value
        .is_present()
        .or(absent_value.is_present())
        .validate()
        .expect_err("false or false = false");

    present_value
        .is_present()
        .and(absent_value.is_present())
        .validate()
        .expect_err("true and false = false");

    present_value
        .is_present()
        .and(present_value.is_present())
        .validate()
        .expect("true and true = true");

    absent_value
        .is_present()
        .and(present_value.is_present())
        .validate()
        .expect_err("false and true = false");

    absent_value
        .is_present()
        .and(absent_value.is_present())
        .validate()
        .expect_err("false and false = false");
}

#[test]
fn present_strings() {
    String::new()
        .is_present()
        .validate()
        .expect_err("New string should not be considered present");
    String::from("value")
        .is_present()
        .validate()
        .expect("Value should be considered present");
}

#[test]
fn present_unsigned_ints() {
    0u8.is_present()
        .validate()
        .expect_err("New string should not be considered present");
    1u8.is_present()
        .validate()
        .expect("Value should be considered present");
    0u16.is_present()
        .validate()
        .expect_err("New string should not be considered present");
    1u16.is_present()
        .validate()
        .expect("Value should be considered present");
    0u32.is_present()
        .validate()
        .expect_err("New string should not be considered present");
    1u32.is_present()
        .validate()
        .expect("Value should be considered present");
    0u64.is_present()
        .validate()
        .expect_err("New string should not be considered present");
    1u64.is_present()
        .validate()
        .expect("Value should be considered present");
    0u128
        .is_present()
        .validate()
        .expect_err("New string should not be considered present");
    1u128
        .is_present()
        .validate()
        .expect("Value should be considered present");
    0usize
        .is_present()
        .validate()
        .expect_err("New string should not be considered present");
    1usize
        .is_present()
        .validate()
        .expect("Value should be considered present");
}

#[test]
fn present_signed_ints() {
    0i8.is_present()
        .validate()
        .expect_err("New string should not be considered present");
    1i8.is_present()
        .validate()
        .expect("Value should be considered present");
    0i16.is_present()
        .validate()
        .expect_err("New string should not be considered present");
    1i16.is_present()
        .validate()
        .expect("Value should be considered present");
    0i32.is_present()
        .validate()
        .expect_err("New string should not be considered present");
    1i32.is_present()
        .validate()
        .expect("Value should be considered present");
    0i64.is_present()
        .validate()
        .expect_err("New string should not be considered present");
    1i64.is_present()
        .validate()
        .expect("Value should be considered present");
    0i128
        .is_present()
        .validate()
        .expect_err("New string should not be considered present");
    1i128
        .is_present()
        .validate()
        .expect("Value should be considered present");
    0isize
        .is_present()
        .validate()
        .expect_err("New string should not be considered present");
    1isize
        .is_present()
        .validate()
        .expect("Value should be considered present");
}

#[test]
fn negative_numbers_are_present() {
    assert!((-1i32).present());
    assert!(!(-1i32).absent());
    assert!(0i64.absent());
}

#[test]
fn optional_values_are_present_when_their_content_is() {
    assert!(Some(3u8).present());
    assert!(!Some(0u8).present());
    assert!(!Option::<u8>::None.present());
    assert!(Some(String::from("x")).present());
    assert!(Some(String::new()).absent());
}

#[test]
fn absent_validation_reports_not_absent() {
    assert!(matches!(7u32.is_absent().validate(), Err(ValidationError::NotAbsent)));
    assert!(matches!(0u32.is_absent().validate(), Ok(())));
    assert!(matches!(String::from("x").is_absent().validate(), Err(ValidationError::NotAbsent)));
}

#[test]
fn present_validation_reports_not_present() {
    assert!(matches!(0u32.is_present().validate(), Err(ValidationError::NotPresent)));
}

#[test]
fn invalid_storage_fails_before_presence_is_asked() {
    let mut storage = FormStorage::new(5u32);
    storage.update_invalid_hint(true);
    assert!(matches!(storage.is_present().validate(), Err(ValidationError::InvalidValue)));
    assert!(matches!(storage.is_absent().validate(), Err(ValidationError::InvalidValue)));
    let present = PresentValidation { value: storage.clone() };
    assert!(matches!(present.validate(), Err(ValidationError::InvalidValue)));
    let absent = AbsentValidation { value: storage };
    assert!(matches!(absent.validate(), Err(ValidationError::InvalidValue)));
}

#[test]
fn a_storage_stands_for_a_copy_of_itself() {
    let mut storage = FormStorage::new(String::from("a"));
    storage.update(String::from("a"));
    let copy = storage.as_form_storage();
    assert_eq!(copy.unchecked_value(), "a");
    let fresh = String::from("b").as_form_storage();
    assert_eq!(fresh.unchecked_value(), "b");
    assert!(fresh.value().is_ok());
}

#[test]
fn and_returns_the_left_failure_first() {
    let both = AndValidation { left: 0u8.is_present(), right: 1u8.is_absent() };
    assert!(matches!(both.validate(), Err(ValidationError::NotPresent)));
    let both = AndValidation { left: 1u8.is_present(), right: 1u8.is_absent() };
    assert!(matches!(both.validate(), Err(ValidationError::NotAbsent)));
}

#[test]
fn or_returns_the_right_failure_when_both_fail() {
    let either = OrValidation { left: 0u8.is_present(), right: 1u8.is_absent() };
    assert!(matches!(either.validate(), Err(ValidationError::NotAbsent)));
    let either = OrValidation { left: 0u8.is_present(), right: 0u8.is_absent() };
    assert!(matches!(either.validate(), Ok(())));
}

#[test]
fn error_messages() {
    assert_eq!(ValidationError::NotPresent.message(), "is required");
    assert_eq!(ValidationError::NotAbsent.message(), "should be blank");
    assert_eq!(ValidationError::InvalidValue.message(), "invalid value");
    assert_eq!(ValidationError::Custom("too short").message(), "custom error: too short");
}

#[test]
fn model_without_rules_finds_nothing() {
    assert!(ModelValidator::<u8>::default().validate().is_none());
}

#[test]
fn model_with_passing_rules_finds_nothing() {
    let model = ModelValidator::default()
        .with_field(1u8, 4u32.is_present())
        .with_custom(2u8, String::from("x").is_present(), "name is missing");
    assert!(model.validate().is_none());
}

#[test]
fn model_collects_failures_in_rule_order() {
    let model = ModelValidator::default()
        .with_field(1u8, 0u32.is_present())
        .with_field(2u8, 9u32.is_present())
        .with_custom(3u8, String::new().is_present(), "name is missing")
        .with_fields(vec![4u8, 5u8], 1u32.is_absent(), "must stay empty");
    let found: Rc<ErrorSet<u8>> = model.validate().expect("three rules fail");
    let errors: &Vec<FieldError<u8>> = found.errors();
    assert_eq!(errors.len(), 3);
    assert_eq!(errors[0].fields, vec![1u8]);
    assert!(matches!(errors[0].error, ValidationError::NotPresent));
    assert_eq!(errors[0].primary_field(), 1u8);
    assert_eq!(errors[1].fields, vec![3u8]);
    assert!(matches!(errors[1].error, ValidationError::Custom("name is missing")));
    assert_eq!(errors[2].fields, vec![4u8, 5u8]);
    assert!(matches!(errors[2].error, ValidationError::Custom("must stay empty")));
    assert_eq!(errors[2].primary_field(), 4u8);
}

#[test]
fn a_field_named_twice_counts_once() {
    let model = ModelValidator::default().with_fields(
        vec![4u8, 5u8, 4u8, 6u8, 5u8],
        0u32.is_present(),
        "one of these is required",
    );
    let found = model.validate().expect("the rule fails");
    let errors = found.errors();
    assert_eq!(errors.len(), 1);
    assert_eq!(errors[0].fields, vec![4u8, 5u8, 6u8]);
    assert_eq!(errors[0].primary_field(), 4u8);
    assert!(matches!(errors[0].error, ValidationError::Custom("one of these is required")));
}

#[test]
fn a_passing_rule_with_a_message_reports_nothing() {
    let model = ModelValidator::default().with_fields(vec![1u8, 2u8], 1u32.is_present(), "required");
    assert!(model.validate().is_none());
}
