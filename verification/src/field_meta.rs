//! Fields of a derived form (`#[form(...)]` on a struct field): which field
//! attributes are accepted, and how each field is rendered and validated.
use vstd::prelude::*;

use crate::text::{owned, str_eq};

verus! {

/// What the derive reads of one field and its `#[form(...)]` attribute.
pub struct FieldMeta {
    /// The field's name.
    pub name: String,
    /// `#[form(field_set)]`: the field nests another derived form.
    pub field_set: bool,
    /// The declared type is a bare `Vec<…>`.
    pub list: bool,
    /// The declared type is a bare `Option<…>`.
    pub optional: bool,
    /// `#[form(component = …)]` was given.
    pub component: bool,
    /// `#[form(provided)]` was given.
    pub provided: bool,
    /// `#[form(label = …)]`, as written.
    pub label: Option<String>,
    /// `#[form(case = …)]` was given.
    pub case: bool,
}

/// The message for a field named `errors`.
pub open spec fn reserved_name_message() -> Seq<char> {
    "a field can't be named `errors` \u{2014} that name is reserved for the form-level errors formoxus adds to every generated state struct"@
}

/// The message for `provided` without a `component`.
pub open spec fn provided_without_component_message() -> Seq<char> {
    "`provided` needs a `component` to provide to \u{2014} add `#[form(component = SomeWidget, provided)]`"@
}

impl FieldMeta {
    /// Check one field's attributes: `errors` is reserved, and `provided` needs
    /// a component to provide to.
    pub fn validate(&self) -> (r: Result<(), String>)
        ensures
            self.name@ == "errors"@ ==> (r matches Err(m) && m@ == reserved_name_message()),
            self.name@ != "errors"@ && self.provided && !self.component ==> (r matches Err(m) && m@
                == provided_without_component_message()),
            self.name@ != "errors"@ && !(self.provided && !self.component) ==> r is Ok,
    {
        if str_eq(self.name.as_str(), "errors") {
            return Err(
                owned(
                    "a field can't be named `errors` \u{2014} that name is reserved for the form-level errors formoxus adds to every generated state struct",
                ),
            );
        }
        if self.provided && !self.component {
            return Err(
                owned(
                    "`provided` needs a `component` to provide to \u{2014} add `#[form(component = SomeWidget, provided)]`",
                ),
            );
        }
        Ok(())
    }
}

/// How a field is held in the generated state.
#[derive(Clone, Copy, Debug, PartialEq, Eq, Structural)]
pub enum FieldShape {
    /// A `Vec` of nested forms: a repeating group of rows.
    FieldSetList,
    /// One nested form.
    FieldSet,
    /// One value.
    Scalar,
}

/// The shape a field's attributes and type give it.
pub open spec fn field_shape_of(meta: FieldMeta) -> FieldShape {
    if meta.field_set && meta.list {
        FieldShape::FieldSetList
    } else if meta.field_set {
        FieldShape::FieldSet
    } else {
        FieldShape::Scalar
    }
}

impl FieldMeta {
    /// How the field is held in the generated state.
    pub fn field_shape(&self) -> (r: FieldShape)
        ensures
            r == field_shape_of(*self),
    {
        if self.field_set && self.list {
            FieldShape::FieldSetList
        } else if self.field_set {
            FieldShape::FieldSet
        } else {
            FieldShape::Scalar
        }
    }
}

/// Which casing a label goes through.
#[derive(Clone, Copy, Debug, PartialEq, Eq, Structural)]
pub enum CaseSource {
    /// The field's own `case`.
    Field,
    /// The form's `label_case`.
    Container,
    /// Title case, when neither is set.
    Title,
}

/// Where a label's text comes from and what casing it goes through.
#[derive(Clone, Copy, Debug, PartialEq, Eq, Structural)]
pub enum LabelPlan {
    /// The field's `label`, shown exactly as written.
    Verbatim,
    /// The field's `label`, run through its own `case`.
    CasedLabel,
    /// The field's name, run through this casing.
    CasedName(CaseSource),
}

/// Which widget renders a single-value field.
#[derive(Clone, Copy, Debug, PartialEq, Eq, Structural)]
pub enum WidgetPlan {
    /// The `component`, fed by a provider.
    Provided,
    /// The `component`.
    Component,
    /// The value type's default widget.
    Default,
}

/// How one field renders.
#[derive(Clone, Copy, Debug, PartialEq, Eq, Structural)]
pub enum RenderPlan {
    /// Each row's own render, with a Remove button per row and an Add button.
    Rows,
    /// The nested form's own render.
    Nested,
    /// One widget with a label; `required` unless the field is optional.
    Widget { label: LabelPlan, widget: WidgetPlan, required: bool },
}

/// The label of a single-value field. An explicit `label` is shown as
/// written unless the field also has a `case`; without a `label` the field's
/// name is cased by the field's `case`, else the form's, else title case.
pub open spec fn label_plan_of(meta: FieldMeta, container_has_case: bool) -> LabelPlan {
    match meta.label {
        Some(_) => if meta.case {
            LabelPlan::CasedLabel
        } else {
            LabelPlan::Verbatim
        },
        None => LabelPlan::CasedName(
            if meta.case {
                CaseSource::Field
            } else if container_has_case {
                CaseSource::Container
            } else {
                CaseSource::Title
            },
        ),
    }
}

/// How a field renders, given whether its form sets a `label_case`.
pub open spec fn render_plan_of(meta: FieldMeta, container_has_case: bool) -> RenderPlan {
    match field_shape_of(meta) {
        FieldShape::FieldSetList => RenderPlan::Rows,
        FieldShape::FieldSet => RenderPlan::Nested,
        FieldShape::Scalar => RenderPlan::Widget {
            label: label_plan_of(meta, container_has_case),
            widget: if meta.component && meta.provided {
                WidgetPlan::Provided
            } else if meta.component {
                WidgetPlan::Component
            } else {
                WidgetPlan::Default
            },
            required: !meta.optional,
        },
    }
}

/// Which casing a single-value field's label gets, by precedence: an explicit
/// `label` is never overridden by the form, and is cased only by the field's
/// own `case`; without a `label`, the field's own `case` wins whatever the
/// form sets, the form's `label_case` applies only when the field has none,
/// and title case only when neither is set.
pub proof fn lemma_label_case_precedence(meta: FieldMeta, container_has_case: bool)
    requires
        !meta.field_set,
    ensures
        render_plan_of(meta, container_has_case) matches RenderPlan::Widget { label, .. } && label
            == label_plan_of(meta, container_has_case),
        meta.label is None && meta.case ==> label_plan_of(meta, container_has_case)
            == LabelPlan::CasedName(CaseSource::Field),
        meta.label is None && !meta.case && container_has_case ==> label_plan_of(
            meta,
            container_has_case,
        ) == LabelPlan::CasedName(CaseSource::Container),
        meta.label is None && !meta.case && !container_has_case ==> label_plan_of(
            meta,
            container_has_case,
        ) == LabelPlan::CasedName(CaseSource::Title),
        meta.label is Some && meta.case ==> label_plan_of(meta, container_has_case)
            == LabelPlan::CasedLabel,
        meta.label is Some && !meta.case ==> label_plan_of(meta, container_has_case)
            == LabelPlan::Verbatim,
        meta.label is Some || meta.case ==> label_plan_of(meta, true) == label_plan_of(meta, false),
{
}

impl FieldMeta {
    /// How the field renders, given whether its form sets a `label_case`.
    pub fn render_plan(&self, container_has_case: bool) -> (r: RenderPlan)
        ensures
            r == render_plan_of(*self, container_has_case),
    {
        match self.field_shape() {
            FieldShape::FieldSetList => RenderPlan::Rows,
            FieldShape::FieldSet => RenderPlan::Nested,
            FieldShape::Scalar => {
                let label = match &self.label {
                    Some(_) => if self.case {
                        LabelPlan::CasedLabel
                    } else {
                        LabelPlan::Verbatim
                    },
                    None => {
                        let source = if self.case {
                            CaseSource::Field
                        } else if container_has_case {
                            CaseSource::Container
                        } else {
                            CaseSource::Title
                        };
                        LabelPlan::CasedName(source)
                    },
                };
                let widget = if self.component && self.provided {
                    WidgetPlan::Provided
                } else if self.component {
                    WidgetPlan::Component
                } else {
                    WidgetPlan::Default
                };
                RenderPlan::Widget { label, widget, required: !self.optional }
            },
        }
    }
}

/// The positions of the fields that must hold a value for the model to be
/// built: every field whose type is not an `Option`, in declaration order.
pub open spec fn required_positions(fields: Seq<FieldMeta>, n: int) -> Seq<int>
    decreases n,
{
    if n <= 0 {
        Seq::empty()
    } else if !fields[n - 1].optional {
        required_positions(fields, n - 1).push(n - 1)
    } else {
        required_positions(fields, n - 1)
    }
}

/// The positions of the fields the model cannot be built without.
pub fn required_fields(fields: &[FieldMeta]) -> (r: Vec<usize>)
    ensures
        r@.map_values(|i: usize| i as int) == required_positions(fields@, fields@.len() as int),
{
    let mut out: Vec<usize> = Vec::new();
    let mut i: usize = 0;
    while i < fields.len()
        invariant
            i <= fields@.len(),
            out@.map_values(|i: usize| i as int) == required_positions(fields@, i as int),
        decreases fields.len() - i,
    {
        let ghost before = out@.map_values(|i: usize| i as int);
        if !fields[i].optional {
            out.push(i);
            proof {
                assert(out@.map_values(|i: usize| i as int) =~= before.push(i as int));
            }
        }
        i = i + 1;
    }
    out
}

} // verus!
