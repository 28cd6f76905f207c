use formoxus::buttons::{ButtonType, Invocation};
use formoxus::vocab::{
    control_for, control_names, parse_button_type, parse_control, parse_invocation, parse_widget,
    reject_choices_unless_chooser, rule, unknown_widget, ControlType, InputType, Rule, WidgetName,
};

#[test]
fn every_name_in_the_table_parses_and_resolves() {
    let names = control_names();
    assert_eq!(names.len(), 21);
    for name in names {
        assert!(parse_control(name).is_ok(), "{name}");
        assert!(control_for(name).is_some(), "{name}");
    }
}

#[test]
fn a_name_resolves_to_its_control() {
    assert_eq!(parse_control("password"), Ok(ControlType::Input(InputType::Password)));
    assert_eq!(parse_control("textarea"), Ok(ControlType::Textarea));
    assert_eq!(parse_control("tel"), Ok(ControlType::Input(InputType::Telephone)));
    assert_eq!(parse_control("datetime_local"), Ok(ControlType::Input(InputType::DatetimeLocal)));
    assert_eq!(parse_control("number"), Ok(ControlType::Input(InputType::Number)));
}

#[test]
fn a_near_miss_is_suggested() {
    let msg = parse_control("passwrod").unwrap_err();
    assert_eq!(msg, "unknown control `passwrod` \u{2014} did you mean `password`?");
}

#[test]
fn the_enum_spelling_is_named_as_a_case_error() {
    assert_eq!(
        parse_control("Password").unwrap_err(),
        "unknown control `Password` \u{2014} control names are lowercase, write `password`"
    );
    assert!(parse_control("DatetimeLocal").unwrap_err().contains("write `datetime_local`"));
}

#[test]
fn a_nonsense_control_lists_the_vocabulary() {
    let msg = parse_control("zzzzzzzzzz").unwrap_err();
    assert!(msg.starts_with("unknown control `zzzzzzzzzz` \u{2014} expected one of text, password, hidden,"), "{msg}");
    assert!(msg.ends_with("radio_group, file, or `custom(MyWidget)`"), "{msg}");
}

#[test]
fn number_is_selectable_but_spelled_only_one_way() {
    assert!(parse_control("number").is_ok());
    assert!(parse_control("integer").unwrap_err().starts_with("unknown control `integer`"));
}

#[test]
fn a_widget_that_nothing_renders_is_refused_while_parsing() {
    for name in ["select_multiple", "checkbox_multiple", "file"] {
        assert_eq!(
            parse_widget(name).unwrap_err(),
            format!("`{name}` is not supported yet \u{2014} nothing renders it, so the field would silently vanish from the form")
        );
    }
    assert_eq!(parse_widget("radio_group"), Ok(ControlType::RadioGroup));
    assert!(unknown_widget("texarea").contains("did you mean `textarea`?"));
}

#[test]
fn each_rendered_control_has_its_rule() {
    match rule("textarea") {
        Rule::Checked { message, .. } => assert_eq!(message, "`textarea` can only render a String field"),
        Rule::NotYet => panic!("textarea is rendered"),
    }
    assert!(matches!(rule("file"), Rule::NotYet));
}

#[test]
fn choices_are_refused_outside_a_chooser() {
    assert!(reject_choices_unless_chooser(&WidgetName::Named("select")).is_ok());
    assert_eq!(
        reject_choices_unless_chooser(&WidgetName::Named("text")).unwrap_err(),
        "`text` takes no `choices` \u{2014} they apply to `select`, `radio_group`"
    );
    assert_eq!(
        reject_choices_unless_chooser(&WidgetName::Custom).unwrap_err(),
        "a custom widget supplies its own choices"
    );
}

#[test]
fn button_types_and_invocations_parse_by_name() {
    assert_eq!(parse_button_type("destructive"), Ok(ButtonType::Destructive));
    assert_eq!(
        parse_button_type("sumbit").unwrap_err(),
        "unknown button type `sumbit` \u{2014} did you mean `submit`?"
    );
    assert_eq!(
        parse_button_type("Cancel").unwrap_err(),
        "unknown button type `Cancel` \u{2014} type names are lowercase, write `cancel`"
    );
    assert_eq!(parse_invocation("unconditional"), Ok(Invocation::Unconditional));
    assert_eq!(
        parse_invocation("always").unwrap_err(),
        "unknown invocation `always` \u{2014} expected if_model_validates or unconditional"
    );
}
