use formoxus::label_case::{LabelCase, ToCase};
use formoxus::vocab::parse_label_case;

#[test]
fn camel_lower() {
    assert_eq!("opt_flag".to_case(LabelCase::CamelLower), "optFlag");
}

#[test]
fn camel_upper() {
    assert_eq!("opt_flag".to_case(LabelCase::CamelCapitalized), "OptFlag");
}

#[test]
fn kebab_lower() {
    assert_eq!("opt_flag".to_case(LabelCase::KebabLower), "opt-flag");
}

#[test]
fn kebab_upper() {
    assert_eq!("opt_flag".to_case(LabelCase::KebabCapitalized), "Opt-Flag");
}

#[test]
fn kebab_all_caps() {
    assert_eq!("opt_flag".to_case(LabelCase::KebabAllCaps), "OPT-FLAG");
}

#[test]
fn snake_lower_is_the_identity_on_an_already_snake_case_ident() {
    assert_eq!("opt_flag".to_case(LabelCase::SnakeLower), "opt_flag");
}

#[test]
fn snake_upper() {
    assert_eq!("opt_flag".to_case(LabelCase::SnakeCapitalized), "Opt_Flag");
}

#[test]
fn snake_all_caps() {
    assert_eq!("opt_flag".to_case(LabelCase::SnakeAllCaps), "OPT_FLAG");
}

#[test]
fn title() {
    assert_eq!("opt_flag".to_case(LabelCase::Title), "Opt Flag");
}

#[test]
fn lower() {
    assert_eq!("opt_flag".to_case(LabelCase::Lower), "opt flag");
}

#[test]
fn all_caps_separates_words_with_spaces_not_underscores() {
    assert_eq!("opt_flag".to_case(LabelCase::AllCaps), "OPT FLAG");
}

#[test]
fn every_case_handles_a_single_word_ident_without_a_stray_separator() {
    assert_eq!("name".to_case(LabelCase::CamelCapitalized), "Name");
    assert_eq!("name".to_case(LabelCase::SnakeAllCaps), "NAME");
    assert_eq!("name".to_case(LabelCase::Title), "Name");
    assert_eq!("name".to_case(LabelCase::AllCaps), "NAME");
}

/// Each written key of `label_case:` means the casing that writes it.
#[test]
fn every_label_case_key_is_what_its_case_writes() {
    let keys = [
        "labelCase",
        "LabelCase",
        "label-case",
        "Label-Case",
        "LABEL-CASE",
        "label_case",
        "Label_Case",
        "LABEL_CASE",
        "Label Case",
        "label case",
        "LABEL CASE",
    ];
    for key in keys {
        let case = parse_label_case(key).unwrap();
        assert_eq!("label_case".to_case(case), key, "{key}");
    }
}

#[test]
fn an_unknown_label_case_lists_every_spelling() {
    let message = parse_label_case("Title Case").unwrap_err();
    assert!(message.starts_with("unknown label case \"Title Case\""), "{message}");
    assert!(message.contains("\"Label Case\""), "{message}");
    assert!(message.contains("\"labelCase\""), "{message}");
}
