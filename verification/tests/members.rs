use formoxus::rows::{row_segment, Rows};
use formoxus::variant::{lookup_variant, VariantChoice};

fn keys(rows: &Rows<&'static str>) -> Vec<usize> {
    rows.rows().iter().map(|(k, _)| *k).collect()
}

#[test]
fn a_row_is_named_by_its_key() {
    assert_eq!(row_segment(0), "#0");
    assert_eq!(row_segment(17), "#17");
}

#[test]
fn rows_are_added_under_fresh_keys_at_the_position_asked() {
    let mut rows: Rows<&'static str> = Rows::new();
    assert_eq!(rows.add_row("venues", None, "a"), Ok(0));
    assert_eq!(rows.add_row("venues", None, "b"), Ok(1));
    assert_eq!(rows.add_row("venues", Some(0), "c"), Ok(2));
    assert_eq!(keys(&rows), vec![2, 0, 1]);
    assert_eq!(rows.len(), 3);
}

#[test]
fn removing_a_row_renames_none_of_the_others() {
    let mut rows: Rows<&'static str> = Rows::new();
    for r in ["a", "b", "c"] {
        rows.add_row("venues", None, r).unwrap();
    }
    assert!(rows.remove_row("venues", 1).is_ok());
    assert_eq!(keys(&rows), vec![0, 2]);
    assert_eq!(rows.add_row("venues", None, "d"), Ok(3), "a removed key is never reused");
}

#[test]
fn out_of_range_positions_are_refused() {
    let mut rows: Rows<&'static str> = Rows::new();
    rows.add_row("shapes", None, "a").unwrap();
    assert_eq!(
        rows.add_row("shapes", Some(5), "b").unwrap_err().0,
        "cannot insert at 5 in shapes: it has 1 rows"
    );
    assert_eq!(
        rows.remove_row("shapes", 1).unwrap_err().0,
        "cannot remove row 1 from shapes: it has 1 rows"
    );
    assert_eq!(keys(&rows), vec![0]);
}

#[test]
fn a_variant_is_found_by_name() {
    let variants = vec!["None", "ByDate", "ByName"];
    assert_eq!(lookup_variant(&variants, "ByDate", "filter"), Ok(1));
    assert_eq!(lookup_variant(&variants, "None", "filter"), Ok(0));
}

#[test]
fn an_unknown_variant_lists_the_real_ones() {
    let variants = vec!["Circle", "Square"];
    assert_eq!(
        lookup_variant(&variants, "Triangle", "shapes.#0").unwrap_err(),
        "\"Triangle\" is not a variant of the enum at shapes.#0 (expected one of [\"Circle\", \"Square\"])"
    );
    let expected = format!(
        "{:?} is not a variant of the enum at {} (expected one of {:?})",
        "Triangle", "shapes.#0", variants
    );
    assert_eq!(lookup_variant(&variants, "Triangle", "shapes.#0").unwrap_err(), expected);
}

#[test]
fn the_chosen_variant_reads_back() {
    assert_eq!(VariantChoice::Unchosen.chosen(), None);
    assert_eq!(VariantChoice::Named("ByDate".to_string()).chosen(), Some("ByDate".to_string()));
}
