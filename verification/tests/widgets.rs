use yew_widgets::flash::{is_showing, notification_class, Kind};
use yew_widgets::forms::button::{button_class, is_loading};
use yew_widgets::forms::radio::control_class;
use yew_widgets::forms::storage::FormStorage;
use yew_widgets::forms::text_input::{input_class, record_input};
use yew_widgets::modal::css_class;
use yew_widgets::title::{default_size, effective_size, primary_class, title_class, title_tag};

#[test]
fn each_kind_has_its_class() {
    assert_eq!(Kind::Primary.css_class(), "is-primary");
    assert_eq!(Kind::Link.css_class(), "is-link");
    assert_eq!(Kind::Info.css_class(), "is-info");
    assert_eq!(Kind::Success.css_class(), "is-success");
    assert_eq!(Kind::Warning.css_class(), "is-warning");
    assert_eq!(Kind::Danger.css_class(), "is-danger");
}

#[test]
fn a_notification_is_coloured_by_its_kind() {
    assert_eq!(notification_class(&Kind::Danger), "notification is-danger");
    assert_eq!(notification_class(&Kind::Info), "notification is-info");
}

#[test]
fn a_notice_shows_until_its_time_is_up() {
    assert!(is_showing(1_000, 1_000, 500));
    assert!(is_showing(1_499, 1_000, 500));
    assert!(!is_showing(1_500, 1_000, 500));
    assert!(!is_showing(2_000, 1_000, 500));
    assert!(!is_showing(1_000, 1_000, 0));
    assert!(is_showing(999, 1_000, 0));
}

#[test]
fn showing_does_not_overflow() {
    assert!(is_showing(i64::MAX, i64::MAX, 1));
    assert!(is_showing(i64::MAX, 0, u64::MAX));
    assert!(!is_showing(i64::MAX, i64::MIN, 5));
    assert!(is_showing(i64::MIN, i64::MIN, u64::MAX));
}

#[test]
fn modal_is_active_while_visible() {
    assert_eq!(css_class(true), "modal is-active");
    assert_eq!(css_class(false), "modal");
}

#[test]
fn title_sizes() {
    assert_eq!(default_size(false), 3);
    assert_eq!(default_size(true), 5);
    assert_eq!(effective_size(None, false), 3);
    assert_eq!(effective_size(None, true), 5);
    assert_eq!(effective_size(Some(1), false), 1);
    assert_eq!(effective_size(Some(6), true), 6);
    assert_eq!(effective_size(Some(0), false), 3);
    assert_eq!(effective_size(Some(7), true), 5);
    assert_eq!(effective_size(Some(-1), false), 3);
    assert_eq!(effective_size(Some(i8::MAX), true), 5);
}

#[test]
fn title_classes_and_tags() {
    assert_eq!(primary_class(false), "title");
    assert_eq!(primary_class(true), "subtitle");
    assert_eq!(title_class(None, false), "title is-3");
    assert_eq!(title_class(None, true), "subtitle is-5");
    assert_eq!(title_class(Some(1), true), "subtitle is-1");
    assert_eq!(title_class(Some(9), false), "title is-3");
    assert_eq!(title_tag(None, false), "h3");
    assert_eq!(title_tag(Some(6), false), "h6");
    assert_eq!(title_tag(Some(0), true), "h5");
}

#[test]
fn button_classes() {
    assert_eq!(is_loading(true), "is-loading");
    assert_eq!(is_loading(false), "");
    assert_eq!(button_class("is-danger", true), "button is-danger is-loading");
    assert_eq!(button_class("is-danger", false), "button is-danger ");
    assert_eq!(button_class("", false), "button  ");
}

#[test]
fn failures_mark_inputs_and_groups() {
    assert_eq!(input_class(true), "input is-danger");
    assert_eq!(input_class(false), "input");
    assert_eq!(control_class(true), "control is-danger");
    assert_eq!(control_class(false), "control");
}

#[test]
fn empty_text_stores_no_value() {
    let mut storage = FormStorage::new(Some(4u32));
    storage.update_invalid_hint(true);
    let announced = record_input(&mut storage, "", None);
    assert_eq!(announced, None);
    assert_eq!(storage.value().expect("the mark was cleared"), None);
}

#[test]
fn text_that_converts_is_stored_and_announced() {
    let mut storage = FormStorage::new(None);
    storage.update_invalid_hint(true);
    let announced = record_input(&mut storage, "12", Some(12u32));
    assert_eq!(announced, Some(12));
    assert_eq!(storage.value().expect("the mark was cleared"), Some(12));
}

#[test]
fn text_that_does_not_convert_marks_the_storage() {
    let mut storage = FormStorage::new(Some(4u32));
    let announced = record_input(&mut storage, "four", None);
    assert_eq!(announced, None);
    assert!(storage.value().is_err());
    assert_eq!(storage.unchecked_value(), Some(4));
}
