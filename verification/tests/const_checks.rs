use formoxus::checks::{
    constraint_checks, widget_checks, ConstraintCheck, ConstraintKey, ConstraintTest,
    GivenConstraints, WidgetCheck,
};
use formoxus::field_kind::WidgetClass;
use formoxus::vocab::WidgetName;

fn given(min: bool, max: bool, min_length: bool, max_length: bool, pattern: bool) -> GivenConstraints {
    GivenConstraints { min, max, min_length, max_length, pattern }
}

fn messages(g: GivenConstraints) -> Vec<String> {
    constraint_checks(&g).iter().map(|c| c.message()).collect()
}

#[test]
fn a_body_without_constraints_plants_no_check() {
    assert!(constraint_checks(&given(false, false, false, false, false)).is_empty());
}

#[test]
fn length_keys_ask_for_a_string_field() {
    assert_eq!(
        messages(given(false, false, true, true, true)),
        vec![
            "`min_length` applies only to a String field".to_string(),
            "`max_length` applies only to a String field".to_string(),
            "`pattern` applies only to a String field".to_string(),
            "`min_length` must not exceed `max_length`".to_string(),
        ]
    );
}

#[test]
fn each_bound_asks_for_a_number_and_three_fits() {
    assert_eq!(
        messages(given(true, true, false, false, false)),
        vec![
            "`min` applies only to a number field".to_string(),
            "`max` applies only to a number field".to_string(),
            "`min` is outside the range of the field's type".to_string(),
            "`min` must be a whole number, because the field is an integer".to_string(),
            "`min` is an integer too large to hold exactly as an f64".to_string(),
            "`max` is outside the range of the field's type".to_string(),
            "`max` must be a whole number, because the field is an integer".to_string(),
            "`max` is an integer too large to hold exactly as an f64".to_string(),
            "`min` must not exceed `max`".to_string(),
        ]
    );
}

#[test]
fn an_ordering_check_is_spanned_onto_the_upper_side() {
    let checks = constraint_checks(&given(true, true, true, true, false));
    let ordering: Vec<ConstraintCheck> = checks
        .into_iter()
        .filter(|c| matches!(c.test, ConstraintTest::MinNotAboveMax | ConstraintTest::MinLengthNotAboveMaxLength))
        .collect();
    assert_eq!(
        ordering,
        vec![
            ConstraintCheck { test: ConstraintTest::MinNotAboveMax, key: ConstraintKey::Max },
            ConstraintCheck { test: ConstraintTest::MinLengthNotAboveMaxLength, key: ConstraintKey::MaxLength },
        ]
    );
}

#[test]
fn a_custom_widget_only_needs_a_single_value() {
    let checks = widget_checks(&WidgetName::Custom, false);
    assert_eq!(checks, vec![WidgetCheck::SingleValue]);
    assert_eq!(
        checks[0].message(),
        "a widget applies only to a single-value field, not a struct, list or enum"
    );
}

#[test]
fn a_radio_group_refuses_an_optional_field() {
    let checks = widget_checks(&WidgetName::Named("radio_group"), true);
    assert_eq!(
        checks,
        vec![
            WidgetCheck::SingleValue,
            WidgetCheck::NotOptional,
            WidgetCheck::Renders { class: WidgetClass::Chooser, has_choices: true },
        ]
    );
    assert_eq!(
        checks[1].message(),
        "`radio_group` cannot render an optional field \u{2014} a picked radio can't be un-picked; use `select`"
    );
    assert_eq!(checks[2].message(), "this widget needs `choices` unless the field is a bool");
}

#[test]
fn a_named_widget_asks_its_class_to_render_the_field() {
    assert_eq!(
        widget_checks(&WidgetName::Named("email"), false),
        vec![
            WidgetCheck::SingleValue,
            WidgetCheck::Renders { class: WidgetClass::Input, has_choices: false },
        ]
    );
    assert_eq!(
        WidgetCheck::Renders { class: WidgetClass::Textarea, has_choices: false }.message(),
        "`textarea` can only render a String field"
    );
}
