//! The compile-time checks `form!` plants for one field.
//!
//! Each constraint key and each widget turns into free `const _` assertions
//! over the field's shape. Which assertions, in which order, carrying which
//! fixed message and on whose span, is decided here; the tokens themselves
//! are written around this plan.
use vstd::prelude::*;

use crate::field_kind::WidgetClass;
use crate::text::{owned, push_str, str_eq};
use crate::vocab::{control_for, control_named, control_rule, rule_for, ControlType, Rule, WidgetName};

verus! {

/// A constraint key of a field body; a check is spanned onto its value.
#[derive(Clone, Copy, Debug, PartialEq, Eq, Structural)]
pub enum ConstraintKey {
    Min,
    Max,
    MinLength,
    MaxLength,
    Pattern,
}

/// The key as the author writes it.
pub open spec fn key_name(key: ConstraintKey) -> Seq<char> {
    match key {
        ConstraintKey::Min => "min"@,
        ConstraintKey::Max => "max"@,
        ConstraintKey::MinLength => "min_length"@,
        ConstraintKey::MaxLength => "max_length"@,
        ConstraintKey::Pattern => "pattern"@,
    }
}

impl ConstraintKey {
    /// The key as the author writes it.
    pub fn name(&self) -> (r: &'static str)
        ensures
            r@ == key_name(*self),
    {
        match self {
            ConstraintKey::Min => "min",
            ConstraintKey::Max => "max",
            ConstraintKey::MinLength => "min_length",
            ConstraintKey::MaxLength => "max_length",
            ConstraintKey::Pattern => "pattern",
        }
    }
}

/// What one assertion asks.
#[derive(Clone, Copy, Debug, PartialEq, Eq, Structural)]
pub enum ConstraintTest {
    /// The field is a `String` (`field_kind::takes_length`).
    TakesLength,
    /// The field is a number (`field_kind::takes_bound`).
    TakesBound,
    /// The bound lies in the range of the field's type.
    BoundInRange,
    /// The bound is whole when the field is an integer.
    BoundIsWhole,
    /// An integer bound survives the trip through `f64`.
    BoundIsExact,
    /// `min <= max`, both taken as `f64`.
    MinNotAboveMax,
    /// `min_length <= max_length`.
    MinLengthNotAboveMaxLength,
}

/// One assertion: what it asks, and the key whose value carries its span.
#[derive(Clone, Copy, Debug, PartialEq, Eq, Structural)]
pub struct ConstraintCheck {
    pub test: ConstraintTest,
    pub key: ConstraintKey,
}

/// The fixed message a failed assertion shows.
pub open spec fn constraint_message(c: ConstraintCheck) -> Seq<char> {
    let k = "`"@ + key_name(c.key) + "`"@;
    match c.test {
        ConstraintTest::TakesLength => k + " applies only to a String field"@,
        ConstraintTest::TakesBound => k + " applies only to a number field"@,
        ConstraintTest::BoundInRange => k + " is outside the range of the field's type"@,
        ConstraintTest::BoundIsWhole => k
            + " must be a whole number, because the field is an integer"@,
        ConstraintTest::BoundIsExact => k + " is an integer too large to hold exactly as an f64"@,
        ConstraintTest::MinNotAboveMax => "`min` must not exceed `max`"@,
        ConstraintTest::MinLengthNotAboveMaxLength => "`min_length` must not exceed `max_length`"@,
    }
}

impl ConstraintCheck {
    /// The fixed message a failed assertion shows.
    pub fn message(&self) -> (r: String)
        ensures
            r@ == constraint_message(*self),
    {
        match self.test {
            ConstraintTest::MinNotAboveMax => owned("`min` must not exceed `max`"),
            ConstraintTest::MinLengthNotAboveMaxLength => owned(
                "`min_length` must not exceed `max_length`",
            ),
            _ => {
                let mut m = owned("`");
                push_str(&mut m, self.key.name());
                push_str(&mut m, "`");
                let problem = match self.test {
                    ConstraintTest::TakesLength => " applies only to a String field",
                    ConstraintTest::TakesBound => " applies only to a number field",
                    ConstraintTest::BoundInRange => " is outside the range of the field's type",
                    ConstraintTest::BoundIsWhole => " must be a whole number, because the field is an integer",
                    _ => " is an integer too large to hold exactly as an f64",
                };
                push_str(&mut m, problem);
                m
            },
        }
    }
}

/// Which constraint keys a field body gave.
#[derive(Clone, Copy, Debug, PartialEq, Eq, Structural)]
pub struct GivenConstraints {
    pub min: bool,
    pub max: bool,
    pub min_length: bool,
    pub max_length: bool,
    pub pattern: bool,
}

/// `s` when `b` holds, nothing otherwise.
pub open spec fn when<A>(b: bool, s: Seq<A>) -> Seq<A> {
    if b {
        s
    } else {
        Seq::empty()
    }
}

/// The three checks every bound gets.
pub open spec fn bound_checks(key: ConstraintKey) -> Seq<ConstraintCheck> {
    seq![
        ConstraintCheck { test: ConstraintTest::BoundInRange, key },
        ConstraintCheck { test: ConstraintTest::BoundIsWhole, key },
        ConstraintCheck { test: ConstraintTest::BoundIsExact, key },
    ]
}

/// Every check a field body plants, in order: one shape check per key given
/// (lengths and pattern first, then the bounds), the three fit checks per
/// bound, then `min <= max` and `min_length <= max_length` where both sides
/// are given, each spanned onto the upper side.
pub open spec fn constraint_plan(g: GivenConstraints) -> Seq<ConstraintCheck> {
    when(g.min_length, seq![ConstraintCheck { test: ConstraintTest::TakesLength, key: ConstraintKey::MinLength }])
        + when(g.max_length, seq![ConstraintCheck { test: ConstraintTest::TakesLength, key: ConstraintKey::MaxLength }])
        + when(g.pattern, seq![ConstraintCheck { test: ConstraintTest::TakesLength, key: ConstraintKey::Pattern }])
        + when(g.min, seq![ConstraintCheck { test: ConstraintTest::TakesBound, key: ConstraintKey::Min }])
        + when(g.max, seq![ConstraintCheck { test: ConstraintTest::TakesBound, key: ConstraintKey::Max }])
        + when(g.min, bound_checks(ConstraintKey::Min))
        + when(g.max, bound_checks(ConstraintKey::Max))
        + when(g.min && g.max, seq![ConstraintCheck { test: ConstraintTest::MinNotAboveMax, key: ConstraintKey::Max }])
        + when(
            g.min_length && g.max_length,
            seq![ConstraintCheck { test: ConstraintTest::MinLengthNotAboveMaxLength, key: ConstraintKey::MaxLength }],
        )
}

/// Append the three fit checks for one bound.
fn push_bound_checks(v: &mut Vec<ConstraintCheck>, key: ConstraintKey)
    ensures
        final(v)@ == old(v)@ + bound_checks(key),
{
    v.push(ConstraintCheck { test: ConstraintTest::BoundInRange, key });
    v.push(ConstraintCheck { test: ConstraintTest::BoundIsWhole, key });
    v.push(ConstraintCheck { test: ConstraintTest::BoundIsExact, key });
    proof {
        assert(final(v)@ =~= old(v)@ + bound_checks(key));
    }
}

/// The checks a field body with these keys plants.
pub fn constraint_checks(given: &GivenConstraints) -> (r: Vec<ConstraintCheck>)
    ensures
        r@ == constraint_plan(*given),
{
    let g = *given;
    let mut v: Vec<ConstraintCheck> = Vec::new();
    let ghost mut expect: Seq<ConstraintCheck> = Seq::empty();
    if g.min_length {
        v.push(ConstraintCheck { test: ConstraintTest::TakesLength, key: ConstraintKey::MinLength });
    }
    proof {
        expect = when(g.min_length, seq![ConstraintCheck { test: ConstraintTest::TakesLength, key: ConstraintKey::MinLength }]);
        assert(v@ =~= expect);
    }
    if g.max_length {
        v.push(ConstraintCheck { test: ConstraintTest::TakesLength, key: ConstraintKey::MaxLength });
    }
    proof {
        expect = expect + when(g.max_length, seq![ConstraintCheck { test: ConstraintTest::TakesLength, key: ConstraintKey::MaxLength }]);
        assert(v@ =~= expect);
    }
    if g.pattern {
        v.push(ConstraintCheck { test: ConstraintTest::TakesLength, key: ConstraintKey::Pattern });
    }
    proof {
        expect = expect + when(g.pattern, seq![ConstraintCheck { test: ConstraintTest::TakesLength, key: ConstraintKey::Pattern }]);
        assert(v@ =~= expect);
    }
    if g.min {
        v.push(ConstraintCheck { test: ConstraintTest::TakesBound, key: ConstraintKey::Min });
    }
    proof {
        expect = expect + when(g.min, seq![ConstraintCheck { test: ConstraintTest::TakesBound, key: ConstraintKey::Min }]);
        assert(v@ =~= expect);
    }
    if g.max {
        v.push(ConstraintCheck { test: ConstraintTest::TakesBound, key: ConstraintKey::Max });
    }
    proof {
        expect = expect + when(g.max, seq![ConstraintCheck { test: ConstraintTest::TakesBound, key: ConstraintKey::Max }]);
        assert(v@ =~= expect);
    }
    if g.min {
        push_bound_checks(&mut v, ConstraintKey::Min);
    }
    proof {
        expect = expect + when(g.min, bound_checks(ConstraintKey::Min));
        assert(v@ =~= expect);
    }
    if g.max {
        push_bound_checks(&mut v, ConstraintKey::Max);
    }
    proof {
        expect = expect + when(g.max, bound_checks(ConstraintKey::Max));
        assert(v@ =~= expect);
    }
    if g.min && g.max {
        v.push(ConstraintCheck { test: ConstraintTest::MinNotAboveMax, key: ConstraintKey::Max });
    }
    proof {
        expect = expect + when(g.min && g.max, seq![ConstraintCheck { test: ConstraintTest::MinNotAboveMax, key: ConstraintKey::Max }]);
        assert(v@ =~= expect);
    }
    if g.min_length && g.max_length {
        v.push(ConstraintCheck { test: ConstraintTest::MinLengthNotAboveMaxLength, key: ConstraintKey::MaxLength });
    }
    proof {
        expect = expect + when(
            g.min_length && g.max_length,
            seq![ConstraintCheck { test: ConstraintTest::MinLengthNotAboveMaxLength, key: ConstraintKey::MaxLength }],
        );
        assert(v@ =~= expect);
        assert(expect == constraint_plan(g));
    }
    v
}

// ── The widget's checks ─────────────────────────────────────────────────

/// What one widget assertion asks of the field.
#[derive(Clone, Copy, Debug, PartialEq, Eq, Structural)]
pub enum WidgetCheck {
    /// The field holds one value (`field_kind::is_single_value`).
    SingleValue,
    /// The field is not an `Option` (`radio_group` only).
    NotOptional,
    /// A widget of this class can render the field (`field_kind::renders`).
    Renders { class: WidgetClass, has_choices: bool },
}

/// The message for a field that a widget of `class` cannot render.
pub open spec fn renders_message(class: WidgetClass) -> Seq<char> {
    match class {
        WidgetClass::Input => "an `<input>` widget cannot render a bool field; use `checkbox` or `select`"@,
        WidgetClass::Textarea => "`textarea` can only render a String field"@,
        WidgetClass::Checkbox => "`checkbox` can only render a bool field"@,
        WidgetClass::Chooser => "this widget needs `choices` unless the field is a bool"@,
    }
}

/// The fixed message a failed widget assertion shows.
pub open spec fn widget_message(c: WidgetCheck) -> Seq<char> {
    match c {
        WidgetCheck::SingleValue => "a widget applies only to a single-value field, not a struct, list or enum"@,
        WidgetCheck::NotOptional => "`radio_group` cannot render an optional field \u{2014} a picked radio can't be un-picked; use `select`"@,
        WidgetCheck::Renders { class, .. } => renders_message(class),
    }
}

impl WidgetCheck {
    /// The fixed message a failed widget assertion shows.
    pub fn message(&self) -> (r: &'static str)
        ensures
            r@ == widget_message(*self),
    {
        match self {
            WidgetCheck::SingleValue => "a widget applies only to a single-value field, not a struct, list or enum",
            WidgetCheck::NotOptional => "`radio_group` cannot render an optional field \u{2014} a picked radio can't be un-picked; use `select`",
            WidgetCheck::Renders { class, .. } => match class {
                WidgetClass::Input => "an `<input>` widget cannot render a bool field; use `checkbox` or `select`",
                WidgetClass::Textarea => "`textarea` can only render a String field",
                WidgetClass::Checkbox => "`checkbox` can only render a bool field",
                WidgetClass::Chooser => "this widget needs `choices` unless the field is a bool",
            },
        }
    }
}

/// Whether a widget passed parsing: `custom(…)`, or a named control that
/// something renders.
pub open spec fn widget_parsed(widget: WidgetName) -> bool {
    match widget {
        WidgetName::Named(name) => control_named(name@) is Some && rule_for(
            control_named(name@)->0,
        ) is Some,
        WidgetName::Custom => true,
    }
}

/// The checks a widget plants: a custom widget only asks for a single value;
/// a named one also asks its class to render the field, and `radio_group`
/// first refuses an optional field.
pub open spec fn widget_plan(widget: WidgetName, has_choices: bool) -> Seq<WidgetCheck>
    recommends
        widget_parsed(widget),
{
    match widget {
        WidgetName::Custom => seq![WidgetCheck::SingleValue],
        WidgetName::Named(name) => seq![WidgetCheck::SingleValue] + when(
            name@ == "radio_group"@,
            seq![WidgetCheck::NotOptional],
        ) + seq![
            WidgetCheck::Renders {
                class: rule_for(control_named(name@).unwrap()).unwrap().0,
                has_choices,
            },
        ],
    }
}

/// The message a render check shows is the one its control's rule carries.
pub proof fn lemma_render_message_is_rule_message(class: WidgetClass, message: Seq<char>, control: ControlType)
    requires
        rule_for(control) == Some((class, message)),
    ensures
        message == renders_message(class),
{
}

/// The checks a parsed widget plants.
pub fn widget_checks(widget: &WidgetName, has_choices: bool) -> (r: Vec<WidgetCheck>)
    requires
        widget_parsed(*widget),
    ensures
        r@ == widget_plan(*widget, has_choices),
{
    let mut v: Vec<WidgetCheck> = Vec::new();
    v.push(WidgetCheck::SingleValue);
    match widget {
        WidgetName::Custom => {
            proof {
                assert(v@ =~= seq![WidgetCheck::SingleValue]);
            }
            v
        },
        WidgetName::Named(name) => {
            let radio = str_eq(name, "radio_group");
            if radio {
                v.push(WidgetCheck::NotOptional);
            }
            let control = match control_for(name) {
                Some(c) => c,
                None => {
                    proof {
                        assert(false);
                    }
                    return v;
                },
            };
            match control_rule(control) {
                Rule::Checked { class, .. } => {
                    v.push(WidgetCheck::Renders { class, has_choices });
                },
                Rule::NotYet => {
                    proof {
                        assert(false);
                    }
                },
            }
            proof {
                assert(v@ =~= widget_plan(*widget, has_choices));
            }
            v
        },
    }
}

} // verus!
