use formoxus::defaults::Formoxus;
use formoxus::error::FormAccessError;
use formoxus::label_case::{replace_hyphens, LabelCase};
use formoxus::path::Path;
use formoxus::suggest::{edit_distance, nearest_name, to_snake, unknown_name};
use formoxus::text::{i128_to_string, join_strs, parse_i128, str_eq, str_lt, usize_to_string};

#[test]
fn to_snake_splits_at_each_capital() {
    assert_eq!(to_snake("DatetimeLocal"), "datetime_local");
    assert_eq!(to_snake("Password"), "password");
    assert_eq!(to_snake("already_snake"), "already_snake");
    assert_eq!(to_snake(""), "");
}

#[test]
fn edit_distance_counts_single_character_edits() {
    assert_eq!(edit_distance("kitten", "sitting"), 3);
    assert_eq!(edit_distance("passwrod", "password"), 2);
    assert_eq!(edit_distance("", "abc"), 3);
    assert_eq!(edit_distance("abc", ""), 3);
    assert_eq!(edit_distance("same", "same"), 0);
    assert_eq!(edit_distance("🦀a", "a"), 1);
}

#[test]
fn the_nearest_name_is_the_first_closest_within_two_edits() {
    let names = vec!["text", "textarea", "tel"];
    assert_eq!(nearest_name("texx", &names), Some(0));
    assert_eq!(nearest_name("tex", &names), Some(0));
    assert_eq!(nearest_name("zzzzzz", &names), None);
}

#[test]
fn an_unknown_name_message_takes_the_likeliest_reading() {
    let names = vec!["submit", "reset"];
    assert_eq!(
        unknown_name("thing", "thing", "Reset", &names, "!"),
        "unknown thing `Reset` \u{2014} thing names are lowercase, write `reset`"
    );
    assert_eq!(
        unknown_name("thing", "thing", "resett", &names, "!"),
        "unknown thing `resett` \u{2014} did you mean `reset`?"
    );
    assert_eq!(
        unknown_name("thing", "thing", "qqqqqqq", &names, "!"),
        "unknown thing `qqqqqqq` \u{2014} expected one of submit, reset!"
    );
}

#[test]
fn decimal_writing_and_reading_round_trip() {
    assert_eq!(usize_to_string(0), "0");
    assert_eq!(usize_to_string(1234), "1234");
    assert_eq!(i128_to_string(-170141183460469231731687303715884105728), "-170141183460469231731687303715884105728");
    assert_eq!(i128_to_string(i128::MAX), "170141183460469231731687303715884105727");
    assert_eq!(parse_i128("42"), Some(42));
    assert_eq!(parse_i128("-42"), Some(-42));
    assert_eq!(parse_i128("+7"), Some(7));
    assert_eq!(parse_i128("170141183460469231731687303715884105728"), None);
    assert_eq!(parse_i128("-170141183460469231731687303715884105728"), Some(i128::MIN));
    assert_eq!(parse_i128(""), None);
    assert_eq!(parse_i128("-"), None);
    assert_eq!(parse_i128("1x"), None);
}

#[test]
fn strings_compare_by_characters() {
    assert!(str_eq("José", "José"));
    assert!(!str_eq("José", "Jose"));
    assert!(str_lt("apple", "banana"));
    assert!(str_lt("app", "apple"));
    assert!(!str_lt("apple", "app"));
    assert!(!str_lt("same", "same"));
    assert_eq!(join_strs(&vec!["a", "b", "c"], ", "), "a, b, c");
    assert_eq!(join_strs(&vec![], ", "), "");
}

#[test]
fn hyphens_become_underscores() {
    assert_eq!(replace_hyphens("Opt-Flag-x"), "Opt_Flag_x");
}

#[test]
fn a_path_is_its_wire_spelling() {
    struct Bare;
    let a: Path<Bare> = Path::__new("venue.city");
    let b = a;
    assert!(a == b);
    assert_eq!(a.as_str(), "venue.city");
}

#[test]
fn two_paths_with_the_same_spelling_are_the_same_path() {
    struct Model;
    let a: Path<Model> = Path::__new("email");
    let b: Path<Model> = Path::__new("email");
    let c: Path<Model> = Path::__new("bio");
    assert!(a == b);
    assert!(a != c);
}

#[test]
fn the_built_in_defaults_are_title_case_and_browser_validation() {
    let d = Formoxus::new();
    assert_eq!(d.label_case, LabelCase::Title);
    assert!(d.use_browser_validation);
    assert_eq!(Formoxus::new(), Formoxus::default());
    let d = Formoxus::default().with_label_case(LabelCase::Lower).use_browser_validation(false);
    assert_eq!(d.label_case, LabelCase::Lower);
    assert!(!d.use_browser_validation);
}

#[test]
fn an_access_error_displays_its_message() {
    let e = FormAccessError("venues.#3 is not a row".to_string());
    assert_eq!(e.message(), "venues.#3 is not a row");
}
