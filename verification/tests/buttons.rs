use formoxus::buttons::{
    button_views, submit_handler, ButtonFn, ButtonSpec, ButtonType, Fns, HandlerKind, Invocation,
};

type TestFns = Fns<&'static str, &'static str>;

fn fns(entries: &[(&str, ButtonFn<&'static str, &'static str>)]) -> TestFns {
    let mut f = Fns::new();
    for (name, slot) in entries {
        let slot = match slot {
            ButtonFn::Validated(h) => ButtonFn::Validated(*h),
            ButtonFn::Unchecked(g) => ButtonFn::Unchecked(*g),
        };
        f = f.with(name, slot);
    }
    f
}

fn submit(name: &str) -> ButtonSpec {
    ButtonSpec::new(name, ButtonType::Submit)
}

fn cancel(name: &str) -> ButtonSpec {
    ButtonSpec::new(name, ButtonType::Cancel)
}

#[test]
fn each_type_renders_with_its_html_type_and_class() {
    assert_eq!(ButtonType::Submit.html_type(), "submit");
    assert_eq!(ButtonType::Reset.html_type(), "reset");
    assert_eq!(ButtonType::Cancel.html_type(), "button");
    assert_eq!(ButtonType::Destructive.html_type(), "button");
    assert_eq!(ButtonType::Button.html_type(), "button");
    assert_eq!(ButtonType::Submit.default_class(), "primary");
    assert_eq!(ButtonType::Reset.default_class(), "outline danger");
    assert_eq!(ButtonType::Cancel.default_class(), "outline secondary");
    assert_eq!(ButtonType::Destructive.default_class(), "danger");
    assert_eq!(ButtonType::Button.default_class(), "secondary");
}

#[test]
fn only_submit_and_button_validate_by_default() {
    assert_eq!(ButtonType::Submit.default_invocation(), Invocation::IfModelValidates);
    assert_eq!(ButtonType::Button.default_invocation(), Invocation::IfModelValidates);
    for ty in [ButtonType::Cancel, ButtonType::Reset, ButtonType::Destructive] {
        assert_eq!(ty.default_invocation(), Invocation::Unconditional);
        assert_eq!(ty.default_handler_kind(), HandlerKind::Unchecked);
    }
    assert_eq!(ButtonType::Submit.default_handler_kind(), HandlerKind::Validated);
}

#[test]
fn display_order_puts_destructive_first_and_submit_last() {
    assert_eq!(ButtonType::Destructive.display_order(), 0);
    assert_eq!(ButtonType::Reset.display_order(), 10);
    assert_eq!(ButtonType::Cancel.display_order(), 11);
    assert_eq!(ButtonType::Button.display_order(), 12);
    assert_eq!(ButtonType::Submit.display_order(), 13);
}

#[test]
fn explicit_text_wins_over_the_title_cased_name() {
    assert_eq!(submit("sign_in").label(), "Sign In");
    assert_eq!(submit("sign_in").with_text("Log me in").label(), "Log me in");
}

#[test]
fn an_explicit_invocation_wins_over_the_type() {
    assert_eq!(cancel("back").invocation(), Invocation::Unconditional);
    assert_eq!(
        cancel("back").with_invocation(Invocation::IfModelValidates).invocation(),
        Invocation::IfModelValidates
    );
}

#[test]
fn a_handler_read_back_is_the_one_written() {
    let f = fns(&[("save", ButtonFn::Validated("v1")), ("back", ButtonFn::Unchecked("u1"))]);
    assert!(matches!(f.get("save"), Some(ButtonFn::Validated("v1"))));
    assert!(matches!(f.get("back"), Some(ButtonFn::Unchecked("u1"))));
    assert!(f.get("other").is_none());
    let f = f.with("save", ButtonFn::Validated("v2"));
    assert!(matches!(f.get("save"), Some(ButtonFn::Validated("v2"))));
    assert!(!f.is_empty());
    assert!(TestFns::new().is_empty());
}

#[test]
fn a_clean_pairing_has_nothing_to_report() {
    let f = fns(&[("save", ButtonFn::Validated("v")), ("back", ButtonFn::Unchecked("u"))]);
    assert!(f.reconcile(&[submit("save"), cancel("back")]).is_empty());
}

#[test]
fn every_mismatch_is_reported() {
    let f = fns(&[("back", ButtonFn::Validated("v")), ("stray", ButtonFn::Unchecked("u"))]);
    let problems = f.reconcile(&[submit("save"), cancel("back"), submit("again")]);
    assert_eq!(problems.len(), 5, "{problems:?}");
    assert!(problems.iter().any(|p| p.contains("`save`") && p.contains("no fn supplied")), "{problems:?}");
    assert!(problems.iter().any(|p| p.contains("`stray`")), "{problems:?}");
}

#[test]
fn the_button_row_follows_the_handlers() {
    let f = fns(&[("save", ButtonFn::Validated("v")), ("reset_all", ButtonFn::Unchecked("u"))]);
    let buttons = [
        submit("save"),
        ButtonSpec::new("reset_all", ButtonType::Reset),
        cancel("back").with_text("Go back"),
    ];
    let views = button_views(&f, &buttons);
    assert_eq!(views.len(), 3);
    assert_eq!(views[0].key, "save");
    assert_eq!(views[0].html_type, "submit");
    assert_eq!(views[0].class, "primary");
    assert!(!views[0].disabled);
    assert!(!views[0].runs_on_click, "the form's submit runs it");
    assert_eq!(views[0].label, "Save");
    assert!(views[1].runs_on_click);
    assert_eq!(views[1].label, "Reset All");
    assert!(views[2].disabled, "no handler was supplied");
    assert!(!views[2].runs_on_click);
    assert_eq!(views[2].label, "Go back");
}

#[test]
fn the_form_submits_through_the_first_submit_button() {
    let f = fns(&[("save", ButtonFn::Validated("v")), ("draft", ButtonFn::Validated("d"))]);
    assert!(matches!(
        submit_handler(&f, &[cancel("back"), submit("save"), submit("draft")]),
        Some(ButtonFn::Validated("v"))
    ));
    assert!(submit_handler(&f, &[cancel("back")]).is_none());
    assert!(submit_handler(&f, &[submit("missing")]).is_none());
}

#[test]
fn button_specs_compare_by_every_field() {
    assert_eq!(submit("a"), submit("a"));
    assert_ne!(submit("a"), submit("b"));
    assert_ne!(submit("a"), submit("a").with_text("A"));
    assert_ne!(submit("a"), ButtonSpec::new("a", ButtonType::Button));
}
