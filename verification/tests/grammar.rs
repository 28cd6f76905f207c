use formoxus::buttons::{ButtonSpec, ButtonType, Invocation};
use formoxus::grammar::{
    check_button_name, check_entries, check_fn_names, finish_buttons, handler_shape, parse_switch,
    pattern_verdict, ButtonBody, ButtonKey, EntryKind, EntryLog, FieldBodyKeys, FieldKey,
    Form2BodyKeys, Form2Key, HandlerShape, WidgetArgKeys,
};
use formoxus::spec_path::{bracket_each, Segment, SpecPath};
use formoxus::vocab::WidgetName;

fn path(segments: &[(&str, bool)]) -> SpecPath {
    SpecPath {
        segments: segments
            .iter()
            .map(|(ident, each)| Segment { ident: ident.to_string(), each: *each })
            .collect(),
    }
}

// ── Entries ─────────────────────────────────────────────────────────────

#[test]
fn a_second_title_is_rejected() {
    let entries = [EntryKind::Title, EntryKind::Field("notes"), EntryKind::Title];
    assert_eq!(check_entries(&entries), Err("`title` is given twice".to_string()));
}

#[test]
fn a_second_validator_is_rejected() {
    let entries = [EntryKind::Validator, EntryKind::Validator];
    assert_eq!(check_entries(&entries), Err("`validator` is given twice".to_string()));
}

#[test]
fn a_repeated_path_is_rejected() {
    let entries = [EntryKind::Field("notes"), EntryKind::Field("title_text"), EntryKind::Field("notes")];
    assert_eq!(
        check_entries(&entries),
        Err("`notes` is specified twice \u{2014} merge the two bodies into one".to_string())
    );
}

#[test]
fn a_repeated_row_selector_is_rejected() {
    let key = path(&[("venues", true), ("city", false)]).key();
    assert_eq!(key, "venues[].city");
    let entries = [EntryKind::Field(&key), EntryKind::Field(&key)];
    assert_eq!(
        check_entries(&entries),
        Err("`venues[].city` is specified twice \u{2014} merge the two bodies into one".to_string())
    );
}

#[test]
fn a_list_and_its_rows_are_different_paths() {
    let list = path(&[("answers", false)]).key();
    let rows = path(&[("answers", true)]).key();
    assert_eq!(list, "answers");
    assert_eq!(rows, "answers[]");
    assert!(check_entries(&[EntryKind::Field(&list), EntryKind::Field(&rows)]).is_ok());
}

#[test]
fn brackets_may_appear_more_than_once() {
    assert_eq!(path(&[("rows", true), ("cells", true)]).key(), "rows[].cells[]");
    assert_eq!(path(&[("venue", false), ("city", false)]).key(), "venue.city");
}

#[test]
fn an_indexed_bracket_is_rejected() {
    assert_eq!(bracket_each(true), Ok(true));
    assert_eq!(
        bracket_each(false),
        Err("`[]` must be empty \u{2014} a spec applies to every row, not one index".to_string())
    );
}

#[test]
fn the_entry_log_reports_only_the_repeat() {
    let mut log = EntryLog::new();
    assert!(log.check_duplicate(&EntryKind::Buttons).is_ok());
    assert!(log.check_duplicate(&EntryKind::LabelCase).is_ok());
    assert!(log.check_duplicate(&EntryKind::Field("a.b")).is_ok());
    assert_eq!(log.check_duplicate(&EntryKind::Buttons), Err("`buttons` is given twice".to_string()));
    assert!(log.check_duplicate(&EntryKind::Field("a")).is_ok());
}

// ── Field bodies ────────────────────────────────────────────────────────

#[test]
fn an_empty_field_body_is_rejected() {
    assert_eq!(FieldBodyKeys::new().finish(None), Err("empty field body".to_string()));
    assert_eq!(Form2BodyKeys::new().finish(), Err("empty field body".to_string()));
}

#[test]
fn an_unknown_key_lists_every_legal_one() {
    let mut keys = FieldBodyKeys::new();
    assert_eq!(
        keys.accept("maxlen"),
        Err("unknown key maxlen, expected one of: widget, label, min, max, min_length, max_length, pattern".to_string())
    );
}

#[test]
fn the_duplicate_check_covers_a_constraint_key_too() {
    let mut keys = FieldBodyKeys::new();
    assert_eq!(keys.accept("max_length"), Ok(FieldKey::MaxLength));
    assert_eq!(keys.accept("max_length"), Err("`max_length` is given twice".to_string()));
    assert_eq!(keys.accept("label"), Ok(FieldKey::Label));
    assert_eq!(keys.accept("label"), Err("`label` is given twice".to_string()));
}

#[test]
fn a_pattern_that_does_not_compile_is_rejected() {
    let mut keys = FieldBodyKeys::new();
    assert_eq!(keys.accept("pattern"), Ok(FieldKey::Pattern));
    let msg = keys.finish(Some("(\\d{5}")).unwrap_err();
    assert!(msg.starts_with("`pattern` is not a valid regular expression: "), "{msg}");
    assert!(msg.contains("Unbalanced parenthesis"), "{msg}");
}

#[test]
fn a_pattern_that_compiles_is_accepted() {
    let mut keys = FieldBodyKeys::new();
    keys.accept("pattern").unwrap();
    assert_eq!(keys.finish(Some("\\d{5}(-\\d{4})?")), Ok(()));
}

#[test]
fn a_pattern_must_compile_before_it_is_wrapped() {
    let mut keys = FieldBodyKeys::new();
    keys.accept("pattern").unwrap();
    assert!(keys.finish(Some("a)|(b")).unwrap_err().starts_with("`pattern` is not a valid regular expression"));
}

#[test]
fn a_pattern_is_checked_with_the_v_flag() {
    let mut keys = FieldBodyKeys::new();
    keys.accept("pattern").unwrap();
    assert!(keys.finish(Some("[a-z-]")).unwrap_err().contains("Invalid class set character"));
}

#[test]
fn the_bare_compilation_error_is_reported_before_the_anchored_one() {
    assert_eq!(pattern_verdict(None, None), Ok(()));
    assert_eq!(
        pattern_verdict(Some("bare".to_string()), Some("anchored".to_string())),
        Err("`pattern` is not a valid regular expression: bare".to_string())
    );
    assert_eq!(
        pattern_verdict(None, Some("anchored".to_string())),
        Err("`pattern` is not a valid regular expression: anchored".to_string())
    );
}

#[test]
fn a_form2_body_takes_a_control_and_a_label_once_each() {
    let mut keys = Form2BodyKeys::new();
    assert_eq!(keys.accept("control"), Ok(Form2Key::Control));
    assert_eq!(keys.accept("control"), Err("duplicate control key".to_string()));
    assert_eq!(keys.accept("label"), Ok(Form2Key::Label));
    assert_eq!(keys.accept("label"), Err("duplicate label".to_string()));
    assert_eq!(keys.accept("contrl"), Err("unknown key contrl, expected control or label".to_string()));
    assert_eq!(keys.finish(), Ok(()));
}

// ── Buttons ─────────────────────────────────────────────────────────────

#[test]
fn a_button_body_takes_each_key_once() {
    let mut body = ButtonBody::new();
    assert_eq!(body.accept_key("type"), Ok(ButtonKey::Type));
    body.ty = Some(ButtonType::Submit);
    assert_eq!(body.accept_key("type"), Err("duplicate type".to_string()));
    assert_eq!(body.accept_key("text"), Ok(ButtonKey::Text));
    assert_eq!(body.accept_key("invocation"), Ok(ButtonKey::Invocation));
    assert_eq!(
        body.accept_key("label"),
        Err("unknown key label, expected type, text, or invocation".to_string())
    );
}

#[test]
fn a_button_needs_a_type() {
    let body = ButtonBody::new();
    assert_eq!(
        body.finish("save").unwrap_err(),
        "`save` needs a `type` \u{2014} one of submit, reset, cancel, destructive, button"
    );
}

#[test]
fn a_button_body_becomes_its_spec() {
    let mut body = ButtonBody::new();
    body.ty = Some(ButtonType::Cancel);
    body.invocation = Some(Invocation::IfModelValidates);
    let spec = body.finish("back").unwrap();
    assert_eq!(spec, ButtonSpec::new("back", ButtonType::Cancel).with_invocation(Invocation::IfModelValidates));
}

#[test]
fn a_button_name_is_declared_once() {
    let declared = vec![ButtonSpec::new("save", ButtonType::Submit)];
    assert!(check_button_name(&declared, "cancel").is_ok());
    assert_eq!(
        check_button_name(&declared, "save"),
        Err("`save` is specified twice \u{2014} merge the two bodies into one".to_string())
    );
    assert_eq!(finish_buttons(&[]), Err("empty buttons block".to_string()));
    assert!(finish_buttons(&declared).is_ok());
}

#[test]
fn widget_arguments_take_choices_once_and_only_for_a_chooser() {
    let mut args = WidgetArgKeys::new();
    assert_eq!(
        args.finish(),
        Err("empty widget arguments \u{2014} drop the braces if there are none".to_string())
    );
    assert_eq!(
        args.accept("options", &WidgetName::Named("select")),
        Err("unknown widget argument `options` \u{2014} expected `choices`".to_string())
    );
    assert!(args.accept("choices", &WidgetName::Named("select")).is_ok());
    assert_eq!(
        args.accept("choices", &WidgetName::Named("select")),
        Err("duplicate `choices`".to_string())
    );
    assert!(args.finish().is_ok());
    let mut other = WidgetArgKeys::new();
    assert!(other.accept("choices", &WidgetName::Named("textarea")).is_err());
}

#[test]
fn browser_validation_is_on_or_off() {
    assert_eq!(parse_switch("on"), Ok(true));
    assert_eq!(parse_switch("off"), Ok(false));
    assert_eq!(
        parse_switch("yes"),
        Err("Expected `on` or `off` after `browser_validation`".to_string())
    );
}

// ── using_fns! ──────────────────────────────────────────────────────────

#[test]
fn arity_picks_the_handler_kind() {
    assert_eq!(handler_shape(Some(0)), Ok(HandlerShape::Unchecked));
    assert_eq!(handler_shape(Some(1)), Ok(HandlerShape::Validated));
    assert_eq!(
        handler_shape(Some(2)),
        Err("a button fn takes the model or nothing, not 2 arguments".to_string())
    );
    assert!(handler_shape(None).unwrap_err().starts_with("expected a closure:"));
}

#[test]
fn one_fn_per_button() {
    assert!(check_fn_names(&vec!["save", "cancel"]).is_ok());
    assert_eq!(
        check_fn_names(&vec!["save", "cancel", "cancel", "save"]),
        Err("`cancel` is given twice \u{2014} one fn per button".to_string())
    );
}
