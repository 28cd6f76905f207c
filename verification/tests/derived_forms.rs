use formoxus::button_meta::{ButtonInfo, FormMeta};
use formoxus::buttons::{ButtonType, HandlerKind};
use formoxus::field_meta::{
    required_fields, CaseSource, FieldMeta, FieldShape, LabelPlan, RenderPlan, WidgetPlan,
};

fn button(name: &str, ty: ButtonType) -> ButtonInfo {
    ButtonInfo { name: name.to_string(), ty, text: None, class: None, handler: None }
}

fn form(buttons: Vec<ButtonInfo>) -> FormMeta {
    FormMeta { buttons }
}

fn field(name: &str) -> FieldMeta {
    FieldMeta {
        name: name.to_string(),
        field_set: false,
        list: false,
        optional: false,
        component: false,
        provided: false,
        label: None,
        case: false,
    }
}

// ── Buttons ─────────────────────────────────────────────────────────────

#[test]
fn a_form_declares_exactly_one_submit_button() {
    let none = [button("back", ButtonType::Cancel)];
    assert_eq!(
        form(none.to_vec()).validate().unwrap_err(),
        "a form must declare exactly one `#[form(button(type = submit, ...))]` (found 0) \u{2014} every button now needs an explicit handler, so the submit button is no longer synthesized automatically"
    );
    let two = [button("a", ButtonType::Submit), button("b", ButtonType::Submit)];
    assert!(form(two.to_vec()).validate().unwrap_err().contains("(found 2)"));
    let one = [button("save", ButtonType::Submit), button("back", ButtonType::Cancel)];
    assert!(form(one.to_vec()).validate().is_ok());
    assert_eq!(form(one.to_vec()).submit_button(), 0);
}

#[test]
fn a_button_name_is_unique() {
    let buttons = [
        button("save", ButtonType::Submit),
        button("back", ButtonType::Cancel),
        button("back", ButtonType::Reset),
    ];
    assert_eq!(
        form(buttons.to_vec()).validate().unwrap_err(),
        "duplicate button name `back` \u{2014} button names must be unique, they become both the `\u{2026}Handlers` struct field and the local variable bound to it"
    );
}

#[test]
fn the_button_row_puts_destructive_first_and_keeps_declaration_order() {
    let buttons = [
        button("save", ButtonType::Submit),
        button("preview", ButtonType::Button),
        button("delete", ButtonType::Destructive),
        button("back", ButtonType::Cancel),
        button("clear", ButtonType::Reset),
        button("help", ButtonType::Button),
        button("purge", ButtonType::Destructive),
    ];
    assert_eq!(form(buttons.to_vec()).button_order(), vec![2, 6, 4, 3, 1, 5, 0]);
    assert!(form(Vec::new()).button_order().is_empty());
}

#[test]
fn a_declared_handler_and_class_win_over_the_type() {
    let mut b = button("back", ButtonType::Cancel);
    assert_eq!(b.handler_kind(), HandlerKind::Unchecked);
    assert_eq!(b.class(), "outline secondary");
    b.handler = Some(HandlerKind::Validated);
    b.class = Some("link".to_string());
    assert_eq!(b.handler_kind(), HandlerKind::Validated);
    assert_eq!(b.class(), "link");
}

// ── Fields ──────────────────────────────────────────────────────────────

#[test]
fn a_field_cannot_be_named_errors() {
    assert_eq!(
        field("errors").validate().unwrap_err(),
        "a field can't be named `errors` \u{2014} that name is reserved for the form-level errors formoxus adds to every generated state struct"
    );
}

#[test]
fn provided_needs_a_component() {
    let mut f = field("source");
    f.provided = true;
    assert_eq!(
        f.validate().unwrap_err(),
        "`provided` needs a `component` to provide to \u{2014} add `#[form(component = SomeWidget, provided)]`"
    );
    f.component = true;
    assert!(f.validate().is_ok());
}

#[test]
fn field_level_case_wins_over_form_level_label_case() {
    let mut f = field("opt_flag");
    f.case = true;
    assert!(matches!(
        f.render_plan(true),
        RenderPlan::Widget { label: LabelPlan::CasedName(CaseSource::Field), .. }
    ));
}

#[test]
fn custom_label_without_a_case_override_is_used_verbatim() {
    let mut f = field("opt_flag");
    f.label = Some("Custom Label".to_string());
    assert!(matches!(f.render_plan(true), RenderPlan::Widget { label: LabelPlan::Verbatim, .. }));
}

#[test]
fn custom_label_with_a_case_override_applies_it() {
    let mut f = field("opt_flag");
    f.label = Some("Custom Label".to_string());
    f.case = true;
    assert!(matches!(f.render_plan(true), RenderPlan::Widget { label: LabelPlan::CasedLabel, .. }));
}

#[test]
fn form_level_label_case_applies_when_field_has_no_override() {
    assert!(matches!(
        field("opt_flag").render_plan(true),
        RenderPlan::Widget { label: LabelPlan::CasedName(CaseSource::Container), .. }
    ));
}

#[test]
fn defaults_to_title_case_when_neither_is_set() {
    assert!(matches!(
        field("opt_flag").render_plan(false),
        RenderPlan::Widget { label: LabelPlan::CasedName(CaseSource::Title), .. }
    ));
}

#[test]
fn empty_string_label_override_is_used_verbatim_not_treated_as_absent() {
    let mut f = field("opt_flag");
    f.label = Some(String::new());
    assert!(matches!(f.render_plan(false), RenderPlan::Widget { label: LabelPlan::Verbatim, .. }));
}

#[test]
fn a_field_renders_by_its_shape_and_component() {
    let mut rows = field("rows");
    rows.field_set = true;
    rows.list = true;
    assert_eq!(rows.field_shape(), FieldShape::FieldSetList);
    assert!(matches!(rows.render_plan(false), RenderPlan::Rows));
    rows.list = false;
    assert!(matches!(rows.render_plan(false), RenderPlan::Nested));

    let mut f = field("source");
    f.optional = true;
    assert!(matches!(
        f.render_plan(false),
        RenderPlan::Widget { widget: WidgetPlan::Default, required: false, .. }
    ));
    f.component = true;
    assert!(matches!(f.render_plan(false), RenderPlan::Widget { widget: WidgetPlan::Component, .. }));
    f.provided = true;
    assert!(matches!(f.render_plan(false), RenderPlan::Widget { widget: WidgetPlan::Provided, .. }));
}

#[test]
fn only_fields_that_are_not_options_are_required() {
    let mut maybe = field("nickname");
    maybe.optional = true;
    let fields = [field("name"), maybe, field("age")];
    assert_eq!(required_fields(&fields), vec![0, 2]);
}
