use formoxus::error::{FieldError, FormError};
use formoxus::members::{apply, collect_errors, leaves, push_field_error, qualify_path, owns_path, Member};

fn field(name: &str, raw: &str) -> Member {
    Member::Field { name: name.to_string(), errors: Vec::new(), raw: raw.to_string() }
}

fn tree() -> Vec<Member> {
    vec![
        field("email", "a@b.c"),
        Member::FieldSet {
            name: "venue".to_string(),
            errors: Vec::new(),
            members: vec![field("city", "Oslo")],
        },
        Member::ListSet {
            name: "answers".to_string(),
            errors: Vec::new(),
            rows: vec![field("#0", "yes"), field("#2", "no")],
        },
        Member::VariantSet {
            name: "shape".to_string(),
            errors: Vec::new(),
            chosen: Some("Circle".to_string()),
            members: vec![field("radius", "3")],
        },
        Member::VariantSet { name: "filter".to_string(), errors: Vec::new(), chosen: None, members: Vec::new() },
    ]
}

fn pairs(v: &[(&str, &str)]) -> Vec<(String, String)> {
    v.iter().map(|(a, b)| (a.to_string(), b.to_string())).collect()
}

#[test]
fn paths_are_qualified_by_dots() {
    assert_eq!(qualify_path("", "email"), "email");
    assert_eq!(qualify_path("venue", "city"), "venue.city");
    assert!(owns_path("venue", "venue.city"));
    assert!(owns_path("venue", "venue"));
    assert!(!owns_path("venue", "venues.city"));
    assert!(!owns_path("venue", "ven"));
}

#[test]
fn the_leaves_are_every_field_by_its_qualified_path() {
    assert_eq!(
        leaves(&tree()),
        pairs(&[
            ("email", "a@b.c"),
            ("venue.city", "Oslo"),
            ("answers.#0", "yes"),
            ("answers.#2", "no"),
            ("shape.$Circle.radius", "3"),
        ])
    );
}

#[test]
fn applying_the_leaves_gives_them_back() {
    let mut t = tree();
    let out = leaves(&t);
    apply(&mut t, &out);
    assert_eq!(leaves(&t), out);
}

#[test]
fn values_come_back_in_by_path_and_the_last_one_wins() {
    let mut t = tree();
    apply(&mut t, &pairs(&[("venue.city", "Bergen"), ("answers.#2", "maybe"), ("venue.city", "Tromsø"), ("nowhere", "x")]));
    let out = leaves(&t);
    assert_eq!(out[1], ("venue.city".to_string(), "Tromsø".to_string()));
    assert_eq!(out[3], ("answers.#2".to_string(), "maybe".to_string()));
    assert_eq!(out[0], ("email".to_string(), "a@b.c".to_string()));
}

#[test]
fn a_field_error_lands_on_the_field_its_path_names() {
    let mut t = tree();
    assert!(push_field_error(&mut t, "venue.city", "no such town").is_ok());
    assert!(push_field_error(&mut t, "shape", "pick a shape").is_ok());
    assert!(push_field_error(&mut t, "answers.#2", "too vague").is_ok());
    let errors = collect_errors(&t, &vec![FormError("wrong password".to_string())]);
    assert_eq!(errors.form, vec![FormError("wrong password".to_string())]);
    assert_eq!(
        errors.fields,
        vec![
            ("venue.city".to_string(), vec![FieldError("no such town".to_string())]),
            ("answers.#2".to_string(), vec![FieldError("too vague".to_string())]),
            ("shape".to_string(), vec![FieldError("pick a shape".to_string())]),
        ]
    );
}

#[test]
fn an_unplaceable_path_is_refused_and_changes_nothing() {
    let mut t = tree();
    for path in ["venue", "venue.street", "answers.#1", "filter.$None.x", "emails", "answers"] {
        let e = push_field_error(&mut t, path, "x").unwrap_err();
        assert_eq!(e.0, format!("no field at `{path}`"));
    }
    assert!(collect_errors(&t, &Vec::new()).fields.is_empty());
    assert_eq!(leaves(&t), leaves(&tree()));
}

#[test]
fn a_cross_field_failure_leaves_the_field_list_empty() {
    let errors = collect_errors(&tree(), &vec![FormError("end date precedes start".to_string())]);
    assert!(errors.fields.is_empty());
    assert_eq!(errors.form.len(), 1);
}
