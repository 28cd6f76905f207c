use formoxus::error::FieldError;
use formoxus::fields::{
    default_widget, try_validate_value, validate_value, value_kind, FieldValue, IntTextConstraints,
    Scalar, ValueKind,
};
use formoxus::vocab::{ControlType, InputType};

fn text(min_length: Option<usize>, max_length: Option<usize>, pattern: Option<&'static str>) -> ValueKind {
    ValueKind::Text { min_length, max_length, pattern }
}

fn messages(kind: &ValueKind, raw: &str) -> Vec<String> {
    kind.check(raw).into_iter().map(|e| e.0).collect()
}

// ── Text: lengths ────────────────────────────────────────────────────────

#[test]
fn a_text_field_with_no_constraints_never_complains() {
    assert!(messages(&text(None, None, None), "").is_empty());
    assert!(messages(&text(None, None, None), "anything at all").is_empty());
}

#[test]
fn min_length_is_inclusive() {
    let kind = text(Some(3), None, None);
    assert_eq!(messages(&kind, "ab"), vec!["length must be at least 3".to_string()]);
    assert!(messages(&kind, "abc").is_empty());
    assert!(messages(&kind, "abcd").is_empty());
}

#[test]
fn max_length_is_inclusive() {
    let kind = text(None, Some(3), None);
    assert!(messages(&kind, "abc").is_empty());
    assert_eq!(messages(&kind, "abcd"), vec!["length must be at most 3".to_string()]);
}

#[test]
fn length_counts_characters_not_bytes() {
    assert!(messages(&text(None, Some(4), None), "José").is_empty());
    assert!(messages(&text(Some(4), None, None), "José").is_empty());
    assert_eq!("José".len(), 5);
}

#[test]
fn an_emoji_counts_as_one_character() {
    assert!(messages(&text(None, Some(1), None), "🦀").is_empty());
}

#[test]
fn both_length_bounds_can_fail_independently() {
    let kind = text(Some(2), Some(4), None);
    assert_eq!(messages(&kind, "a").len(), 1);
    assert!(messages(&kind, "abc").is_empty());
    assert_eq!(messages(&kind, "abcde").len(), 1);
}

// ── Text: pattern ────────────────────────────────────────────────────────

#[test]
fn a_pattern_accepts_what_it_describes() {
    assert!(messages(&text(None, None, Some(r"\d{5}")), "90210").is_empty());
}

#[test]
fn a_pattern_must_match_the_entire_value() {
    let kind = text(None, None, Some(r"\d{5}"));
    assert_eq!(
        messages(&kind, "abc12345xyz"),
        vec![r"input should match the regular expression \d{5}".to_string()]
    );
    assert_eq!(messages(&kind, "90210-1234").len(), 1);
}

#[test]
fn an_alternation_is_grouped_before_it_is_anchored() {
    let kind = text(None, None, Some("cat|dog"));
    assert!(messages(&kind, "cat").is_empty());
    assert!(messages(&kind, "dog").is_empty());
    assert_eq!(messages(&kind, "catfish").len(), 1);
    assert_eq!(messages(&kind, "hotdog").len(), 1);
}

#[test]
fn a_length_and_a_pattern_both_report() {
    let kind = text(Some(10), None, Some(r"\d+"));
    assert_eq!(
        messages(&kind, "abc"),
        vec![
            "length must be at least 10".to_string(),
            r"input should match the regular expression \d+".to_string(),
        ]
    );
}

#[test]
fn anchors_and_dot_follow_javascript_not_perl() {
    let five = text(None, None, Some(r"\d{5}"));
    assert_eq!(messages(&five, "12345\n67890").len(), 1);
    assert_eq!(messages(&five, "12345\n").len(), 1);
    assert_eq!(messages(&text(None, None, Some(r".+")), "a\nb").len(), 1);
    assert!(messages(&text(None, None, Some(r"(.|\n)+")), "a\nb").is_empty());
}

#[test]
fn a_pattern_is_compiled_with_the_v_flag() {
    let letters = text(None, None, Some(r"\p{L}+"));
    assert!(messages(&letters, "héllo").is_empty());
    assert_eq!(messages(&letters, "p{L}").len(), 1);
}

/// The pattern's verdict is taken as given: the same text fails or passes
/// the pattern by what the verdict says, not by what is in it.
#[test]
fn the_pattern_verdict_decides_the_pattern_message() {
    let kind = text(None, None, Some(r"\d{5}"));
    let failed: Vec<String> = kind.check_given("90210", false).into_iter().map(|e| e.0).collect();
    assert_eq!(failed, vec![r"input should match the regular expression \d{5}".to_string()]);
    assert!(kind.check_given("abc", true).is_empty());
}

// ── Int ──────────────────────────────────────────────────────────────────

#[test]
fn an_int_with_no_bounds_never_complains() {
    let kind = ValueKind::Int { min: None, max: None };
    assert!(messages(&kind, "0").is_empty());
    assert!(messages(&kind, "-170141183460469231731687303715884105728").is_empty());
}

#[test]
fn int_bounds_are_inclusive() {
    let kind = ValueKind::Int { min: Some(1), max: Some(10) };
    assert_eq!(
        messages(&kind, "0"),
        vec!["number must be in the range 1 up to (and including) 10".to_string()]
    );
    assert!(messages(&kind, "1").is_empty());
    assert!(messages(&kind, "10").is_empty());
    assert_eq!(messages(&kind, "11").len(), 1);
}

#[test]
fn a_one_sided_int_bound_says_which_side() {
    let low = ValueKind::Int { min: Some(0), max: None };
    assert_eq!(messages(&low, "-1"), vec!["number must be at least 0".to_string()]);
    let high = ValueKind::Int { min: None, max: Some(100) };
    assert_eq!(messages(&high, "101"), vec!["number must be at most 100".to_string()]);
}

#[test]
fn a_negative_bound_is_written_with_its_sign() {
    let kind = ValueKind::Int { min: Some(-5), max: Some(-2) };
    assert_eq!(
        messages(&kind, "-7"),
        vec!["number must be in the range -5 up to (and including) -2".to_string()]
    );
    assert!(messages(&kind, "-3").is_empty());
}

// ── Bool ─────────────────────────────────────────────────────────────────

#[test]
fn a_bool_has_nothing_to_constrain() {
    assert!(messages(&ValueKind::Bool, "true").is_empty());
    assert!(messages(&ValueKind::Bool, "false").is_empty());
}

// ── One field's errors ───────────────────────────────────────────────────

fn errors_of(value: &FieldValue<i32>, unticked: bool, raw: &str, kind: &ValueKind, choices: Option<&Vec<String>>) -> Vec<String> {
    validate_value(value, unticked, raw, kind, Vec::new(), choices)
        .into_iter()
        .map(|e| e.0)
        .collect()
}

#[test]
fn an_empty_field_is_required_unless_it_is_an_unticked_checkbox() {
    let kind = ValueKind::Bool;
    assert_eq!(
        errors_of(&FieldValue::Empty, false, "", &kind, None),
        vec!["This field is required.".to_string()]
    );
    assert!(errors_of(&FieldValue::Empty, true, "", &kind, None).is_empty());
}

#[test]
fn a_parse_error_is_the_only_error() {
    let value = FieldValue::Invalid {
        raw: "abc".to_string(),
        error: FieldError("\"abc\" isn't a valid i32".to_string()),
    };
    let kind = ValueKind::Int { min: Some(1), max: None };
    assert_eq!(
        errors_of(&value, false, "abc", &kind, None),
        vec!["\"abc\" isn't a valid i32".to_string()]
    );
}

#[test]
fn a_valid_value_is_checked_then_matched_against_the_choices() {
    let kind = ValueKind::Int { min: Some(10), max: None };
    let choices = vec!["1".to_string(), "20".to_string()];
    assert_eq!(
        errors_of(&FieldValue::Valid(5), false, "5", &kind, Some(&choices)),
        vec![
            "number must be at least 10".to_string(),
            "not one of the available choices".to_string(),
        ]
    );
    assert!(errors_of(&FieldValue::Valid(20), false, "20", &kind, Some(&choices)).is_empty());
    assert_eq!(
        errors_of(&FieldValue::Valid(1), false, "1", &kind, Some(&choices)),
        vec!["number must be at least 10".to_string()]
    );
}

#[test]
fn a_float_field_takes_its_bound_errors_as_given() {
    let given = vec![FieldError("number must be at most 1".to_string())];
    let out: Vec<String> = validate_value(&FieldValue::Valid(2.5_f64), false, "2.5", &ValueKind::Float, given, None)
        .into_iter()
        .map(|e| e.0)
        .collect();
    assert_eq!(out, vec!["number must be at most 1".to_string()]);
}

// ── Value family and default widget ──────────────────────────────────────

#[test]
fn each_scalar_takes_its_own_constraints() {
    let c = IntTextConstraints { min: Some(1), max: Some(9), min_length: Some(2), max_length: None, pattern: Some("x") };
    assert!(matches!(
        value_kind(Scalar::String, &c),
        ValueKind::Text { min_length: Some(2), max_length: None, pattern: Some("x") }
    ));
    assert!(matches!(value_kind(Scalar::Int, &c), ValueKind::Int { min: Some(1), max: Some(9) }));
    assert!(matches!(value_kind(Scalar::Bool, &c), ValueKind::Bool));
    assert!(matches!(value_kind(Scalar::Float, &c), ValueKind::Float));
}

#[test]
fn numbers_render_as_text_and_an_optional_bool_as_a_select() {
    let int = ValueKind::Int { min: None, max: None };
    assert_eq!(default_widget(&int, false), ControlType::Input(InputType::Text));
    assert_eq!(default_widget(&text(None, None, None), true), ControlType::Input(InputType::Text));
    assert_eq!(default_widget(&ValueKind::Bool, false), ControlType::Checkbox);
    assert_eq!(default_widget(&ValueKind::Bool, true), ControlType::Select);
}

// ── Where a check cannot run ─────────────────────────────────────────────

#[test]
fn a_check_runs_only_where_it_can() {
    let broken = text(None, None, Some("(\\d"));
    assert!(!broken.can_check("1"));
    assert!(broken.try_check("1").is_none());
    let int = ValueKind::Int { min: Some(0), max: None };
    assert!(!int.can_check("not a number"));
    assert!(int.try_check("not a number").is_none());
    assert_eq!(
        int.try_check("-3").map(|v| v.into_iter().map(|e| e.0).collect::<Vec<_>>()),
        Some(vec!["number must be at least 0".to_string()])
    );
    assert!(!ValueKind::Float.can_check("1.5"));
}

#[test]
fn validation_is_refused_only_for_a_value_it_cannot_check() {
    let int = ValueKind::Int { min: Some(0), max: None };
    assert!(try_validate_value(&FieldValue::Valid(1), false, "x", &int, Vec::new(), None).is_none());
    assert_eq!(
        try_validate_value(&FieldValue::<i32>::Empty, false, "", &int, Vec::new(), None)
            .map(|v| v.into_iter().map(|e| e.0).collect::<Vec<_>>()),
        Some(vec!["This field is required.".to_string()])
    );
}
