use formoxus::field_kind::{
    is_number, is_optional, is_single_value, kind, renders, takes_bound, takes_length, Kind,
    ShapeInfo, WidgetClass,
};

fn prim(name: &str) -> ShapeInfo {
    ShapeInfo {
        defined_in: None,
        type_identifier: name.to_string(),
        option_of: None,
        one_field_tuple_struct: false,
        inner: None,
    }
}

fn user(module: &str, name: &str) -> ShapeInfo {
    ShapeInfo {
        defined_in: Some(module.to_string()),
        type_identifier: name.to_string(),
        option_of: None,
        one_field_tuple_struct: false,
        inner: None,
    }
}

fn string() -> ShapeInfo {
    user("alloc::string", "String")
}

fn option(of: ShapeInfo) -> ShapeInfo {
    ShapeInfo {
        defined_in: Some("core::option".to_string()),
        type_identifier: "Option".to_string(),
        option_of: Some(Box::new(of)),
        one_field_tuple_struct: false,
        inner: None,
    }
}

fn list() -> ShapeInfo {
    user("alloc::vec", "Vec")
}

/// `struct Markdown(String)`: a newtype whose inside is out of reach.
fn markdown() -> ShapeInfo {
    ShapeInfo {
        defined_in: Some("app".to_string()),
        type_identifier: "Markdown".to_string(),
        option_of: None,
        one_field_tuple_struct: true,
        inner: None,
    }
}

/// `#[facet(transparent)] struct Slug(String)` or `struct Flag(bool)`.
fn transparent(name: &str, inner: ShapeInfo) -> ShapeInfo {
    ShapeInfo {
        defined_in: Some("app".to_string()),
        type_identifier: name.to_string(),
        option_of: None,
        one_field_tuple_struct: true,
        inner: Some(Box::new(inner)),
    }
}

#[test]
fn text_takes_lengths_and_not_bounds() {
    assert!(takes_length(&string()));
    assert!(!takes_bound(&string()));
}

#[test]
fn every_supported_number_takes_bounds_and_not_lengths() {
    for name in ["i8", "i16", "i32", "i64", "u8", "u16", "u32", "u64", "f32", "f64"] {
        assert!(takes_bound(&prim(name)), "{name}");
        assert!(!takes_length(&prim(name)), "{name}");
        assert!(is_number(&prim(name)), "{name}");
    }
}

#[test]
fn integer_kinds_carry_the_range_of_their_type() {
    assert_eq!(kind(&prim("i8")), Kind::Int { min: -128, max: 127 });
    assert_eq!(kind(&prim("u8")), Kind::Int { min: 0, max: 255 });
    assert_eq!(
        kind(&prim("i64")),
        Kind::Int { min: i64::MIN as i128, max: i64::MAX as i128 }
    );
    assert_eq!(kind(&prim("u64")), Kind::Int { min: 0, max: u64::MAX as i128 });
    assert_eq!(kind(&prim("f32")), Kind::Float { single: true });
    assert_eq!(kind(&prim("f64")), Kind::Float { single: false });
}

#[test]
fn an_input_renders_text_and_numbers_but_not_a_bool() {
    for shape in [string(), prim("u32"), prim("f64")] {
        assert!(renders(&shape, WidgetClass::Input, false));
    }
    assert!(!renders(&prim("bool"), WidgetClass::Input, false));
}

#[test]
fn a_textarea_renders_only_text() {
    assert!(renders(&string(), WidgetClass::Textarea, false));
    assert!(!renders(&prim("u32"), WidgetClass::Textarea, false));
    assert!(!renders(&prim("bool"), WidgetClass::Textarea, false));
}

#[test]
fn a_checkbox_renders_only_a_bool_optional_or_not() {
    assert!(renders(&prim("bool"), WidgetClass::Checkbox, false));
    assert!(renders(&option(prim("bool")), WidgetClass::Checkbox, false));
    assert!(!renders(&string(), WidgetClass::Checkbox, false));
}

#[test]
fn a_chooser_needs_choices_except_for_a_bool() {
    assert!(renders(&prim("bool"), WidgetClass::Chooser, false));
    assert!(!renders(&prim("u32"), WidgetClass::Chooser, false));
    assert!(renders(&prim("u32"), WidgetClass::Chooser, true));
    assert!(renders(&string(), WidgetClass::Chooser, true));
}

#[test]
fn is_optional_sees_the_option_itself_not_what_it_holds() {
    assert!(is_optional(&option(prim("bool"))));
    assert!(is_optional(&option(string())));
    assert!(!is_optional(&prim("bool")));
    assert!(!is_optional(&string()));
}

#[test]
fn only_a_single_value_can_have_a_widget() {
    assert!(is_single_value(&string()));
    assert!(is_single_value(&option(prim("bool"))));
    assert!(is_single_value(&markdown()));
    assert!(!is_single_value(&list()));
}

#[test]
fn renders_leaves_structs_and_opaque_newtypes_to_other_checks() {
    assert!(renders(&list(), WidgetClass::Textarea, false));
    assert!(renders(&markdown(), WidgetClass::Checkbox, false));
}

#[test]
fn a_bool_takes_nothing() {
    assert!(!takes_length(&prim("bool")));
    assert!(!takes_bound(&prim("bool")));
}

#[test]
fn unsupported_scalars_take_nothing() {
    for name in ["usize", "isize", "char"] {
        assert!(!takes_bound(&prim(name)), "{name}");
        assert!(!takes_length(&prim(name)), "{name}");
    }
}

#[test]
fn an_option_is_classified_by_what_it_holds() {
    assert!(takes_length(&option(string())));
    assert!(takes_bound(&option(prim("u32"))));
    assert!(!takes_bound(&option(string())));
}

#[test]
fn a_list_takes_nothing() {
    assert!(!takes_length(&list()));
    assert!(!takes_bound(&list()));
}

#[test]
fn a_plain_newtype_takes_either() {
    assert!(takes_length(&markdown()));
    assert!(takes_bound(&markdown()));
    assert_eq!(kind(&markdown()), Kind::Unknown);
}

#[test]
fn a_transparent_newtype_is_classified_by_what_it_wraps() {
    assert!(takes_length(&transparent("Slug", string())));
    assert!(!takes_bound(&transparent("Slug", string())));
    assert!(!takes_length(&transparent("Flag", prim("bool"))));
}

#[test]
fn a_user_type_named_like_a_scalar_is_not_one() {
    assert!(!takes_bound(&user("app", "u8")));
    assert!(!takes_length(&user("app", "String")));
}
