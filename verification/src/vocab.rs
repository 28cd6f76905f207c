//! The author-facing vocabulary of `form!`: control names, button types,
//! invocations and label casings, each with the message for a word it does
//! not know.
use vstd::prelude::*;

use crate::buttons::{ButtonType, Invocation};
use crate::field_kind::WidgetClass;
use crate::label_case::LabelCase;
use crate::suggest::{unknown_name, unknown_name_message};
use crate::text::{contains_str, join, owned, push_str, str_eq, views};

verus! {

/// The `type=` of an `<input>`.
#[derive(Clone, Copy, Debug, PartialEq, Eq, Structural)]
pub enum InputType {
    Text,
    Password,
    Hidden,
    Number,
    Email,
    Telephone,
    Url,
    Search,
    Color,
    Date,
    Time,
    DatetimeLocal,
    Month,
    Week,
}

/// The control a name in `form!` means.
#[derive(Clone, Copy, Debug, PartialEq, Eq, Structural)]
pub enum ControlType {
    Input(InputType),
    Textarea,
    Select,
    SelectMultiple,
    Checkbox,
    CheckboxMultiple,
    RadioGroup,
    File,
}

/// Every control name `form!` accepts, in table order. Names follow HTML
/// where HTML has one (`tel`, `datetime_local` for `datetime-local`).
pub open spec fn control_names_spec() -> Seq<Seq<char>> {
    seq![
        "text"@, "password"@, "hidden"@, "number"@, "email"@, "tel"@, "url"@, "search"@,
        "color"@, "date"@, "time"@, "datetime_local"@, "month"@, "week"@, "textarea"@,
        "select"@, "select_multiple"@, "checkbox"@, "checkbox_multiple"@, "radio_group"@,
        "file"@,
    ]
}

/// The control a name means, if it is one.
pub open spec fn control_named(name: Seq<char>) -> Option<ControlType> {
    if name == "text"@ {
        Some(ControlType::Input(InputType::Text))
    } else if name == "password"@ {
        Some(ControlType::Input(InputType::Password))
    } else if name == "hidden"@ {
        Some(ControlType::Input(InputType::Hidden))
    } else if name == "number"@ {
        Some(ControlType::Input(InputType::Number))
    } else if name == "email"@ {
        Some(ControlType::Input(InputType::Email))
    } else if name == "tel"@ {
        Some(ControlType::Input(InputType::Telephone))
    } else if name == "url"@ {
        Some(ControlType::Input(InputType::Url))
    } else if name == "search"@ {
        Some(ControlType::Input(InputType::Search))
    } else if name == "color"@ {
        Some(ControlType::Input(InputType::Color))
    } else if name == "date"@ {
        Some(ControlType::Input(InputType::Date))
    } else if name == "time"@ {
        Some(ControlType::Input(InputType::Time))
    } else if name == "datetime_local"@ {
        Some(ControlType::Input(InputType::DatetimeLocal))
    } else if name == "month"@ {
        Some(ControlType::Input(InputType::Month))
    } else if name == "week"@ {
        Some(ControlType::Input(InputType::Week))
    } else if name == "textarea"@ {
        Some(ControlType::Textarea)
    } else if name == "select"@ {
        Some(ControlType::Select)
    } else if name == "select_multiple"@ {
        Some(ControlType::SelectMultiple)
    } else if name == "checkbox"@ {
        Some(ControlType::Checkbox)
    } else if name == "checkbox_multiple"@ {
        Some(ControlType::CheckboxMultiple)
    } else if name == "radio_group"@ {
        Some(ControlType::RadioGroup)
    } else if name == "file"@ {
        Some(ControlType::File)
    } else {
        None
    }
}

/// A name resolves to a control exactly when it is in the name list, so the
/// list an error message reads from and the lookup cannot disagree.
pub proof fn lemma_control_table_agrees(name: Seq<char>)
    ensures
        control_named(name) is Some <==> control_names_spec().contains(name),
{
    let names = control_names_spec();
    if control_named(name) is Some {
        if name == "text"@ { assert(names[0] == name); }
        else if name == "password"@ { assert(names[1] == name); }
        else if name == "hidden"@ { assert(names[2] == name); }
        else if name == "number"@ { assert(names[3] == name); }
        else if name == "email"@ { assert(names[4] == name); }
        else if name == "tel"@ { assert(names[5] == name); }
        else if name == "url"@ { assert(names[6] == name); }
        else if name == "search"@ { assert(names[7] == name); }
        else if name == "color"@ { assert(names[8] == name); }
        else if name == "date"@ { assert(names[9] == name); }
        else if name == "time"@ { assert(names[10] == name); }
        else if name == "datetime_local"@ { assert(names[11] == name); }
        else if name == "month"@ { assert(names[12] == name); }
        else if name == "week"@ { assert(names[13] == name); }
        else if name == "textarea"@ { assert(names[14] == name); }
        else if name == "select"@ { assert(names[15] == name); }
        else if name == "select_multiple"@ { assert(names[16] == name); }
        else if name == "checkbox"@ { assert(names[17] == name); }
        else if name == "checkbox_multiple"@ { assert(names[18] == name); }
        else if name == "radio_group"@ { assert(names[19] == name); }
        else { assert(names[20] == name); }
    }
}

/// The name `form!` writes for each control: the `<input>` type, or the
/// element, as HTML names it (`tel`, `datetime_local` for `datetime-local`).
pub open spec fn control_name_of(c: ControlType) -> Seq<char> {
    match c {
        ControlType::Input(t) => match t {
            InputType::Text => "text"@,
            InputType::Password => "password"@,
            InputType::Hidden => "hidden"@,
            InputType::Number => "number"@,
            InputType::Email => "email"@,
            InputType::Telephone => "tel"@,
            InputType::Url => "url"@,
            InputType::Search => "search"@,
            InputType::Color => "color"@,
            InputType::Date => "date"@,
            InputType::Time => "time"@,
            InputType::DatetimeLocal => "datetime_local"@,
            InputType::Month => "month"@,
            InputType::Week => "week"@,
        },
        ControlType::Textarea => "textarea"@,
        ControlType::Select => "select"@,
        ControlType::SelectMultiple => "select_multiple"@,
        ControlType::Checkbox => "checkbox"@,
        ControlType::CheckboxMultiple => "checkbox_multiple"@,
        ControlType::RadioGroup => "radio_group"@,
        ControlType::File => "file"@,
    }
}

/// Each name resolves to the control it names: whatever a name resolves to is
/// the control whose HTML name it is, so no two names resolve to the same
/// control.
pub proof fn lemma_control_named_by_its_name(name: Seq<char>, other: Seq<char>)
    ensures
        control_named(name) matches Some(c) ==> control_name_of(c) == name,
        control_named(name) is Some && control_named(name) == control_named(other) ==> name == other,
{
}

/// Every control is reached by its own name: looking up the name of a
/// control gives back that control, so the table names each control once.
pub proof fn lemma_control_name_round_trip(c: ControlType)
    ensures
        control_named(control_name_of(c)) == Some(c),
        control_names_spec().contains(control_name_of(c)),
{
    reveal_strlit("text");
    reveal_strlit("password");
    reveal_strlit("hidden");
    reveal_strlit("number");
    reveal_strlit("email");
    reveal_strlit("tel");
    reveal_strlit("url");
    reveal_strlit("search");
    reveal_strlit("color");
    reveal_strlit("date");
    reveal_strlit("time");
    reveal_strlit("datetime_local");
    reveal_strlit("month");
    reveal_strlit("week");
    reveal_strlit("textarea");
    reveal_strlit("select");
    reveal_strlit("select_multiple");
    reveal_strlit("checkbox");
    reveal_strlit("checkbox_multiple");
    reveal_strlit("radio_group");
    reveal_strlit("file");
    match c {
        ControlType::Input(InputType::Text) => {},
        ControlType::Input(InputType::Password) => {
            assert("password"@.len() != "text"@.len());
        },
        ControlType::Input(InputType::Hidden) => {
            assert("hidden"@.len() != "text"@.len());
            assert("hidden"@.len() != "password"@.len());
        },
        ControlType::Input(InputType::Number) => {
            assert("number"@.len() != "text"@.len());
            assert("number"@.len() != "password"@.len());
            assert("number"@[0] != "hidden"@[0]);
        },
        ControlType::Input(InputType::Email) => {
            assert("email"@.len() != "text"@.len());
            assert("email"@.len() != "password"@.len());
            assert("email"@.len() != "hidden"@.len());
            assert("email"@.len() != "number"@.len());
        },
        ControlType::Input(InputType::Telephone) => {
            assert("tel"@.len() != "text"@.len());
            assert("tel"@.len() != "password"@.len());
            assert("tel"@.len() != "hidden"@.len());
            assert("tel"@.len() != "number"@.len());
            assert("tel"@.len() != "email"@.len());
        },
        ControlType::Input(InputType::Url) => {
            assert("url"@.len() != "text"@.len());
            assert("url"@.len() != "password"@.len());
            assert("url"@.len() != "hidden"@.len());
            assert("url"@.len() != "number"@.len());
            assert("url"@.len() != "email"@.len());
            assert("url"@[0] != "tel"@[0]);
        },
        ControlType::Input(InputType::Search) => {
            assert("search"@.len() != "text"@.len());
            assert("search"@.len() != "password"@.len());
            assert("search"@[0] != "hidden"@[0]);
            assert("search"@[0] != "number"@[0]);
            assert("search"@.len() != "email"@.len());
            assert("search"@.len() != "tel"@.len());
            assert("search"@.len() != "url"@.len());
        },
        ControlType::Input(InputType::Color) => {
            assert("color"@.len() != "text"@.len());
            assert("color"@.len() != "password"@.len());
            assert("color"@.len() != "hidden"@.len());
            assert("color"@.len() != "number"@.len());
            assert("color"@[0] != "email"@[0]);
            assert("color"@.len() != "tel"@.len());
            assert("color"@.len() != "url"@.len());
            assert("color"@.len() != "search"@.len());
        },
        ControlType::Input(InputType::Date) => {
            assert("date"@[0] != "text"@[0]);
            assert("date"@.len() != "password"@.len());
            assert("date"@.len() != "hidden"@.len());
            assert("date"@.len() != "number"@.len());
            assert("date"@.len() != "email"@.len());
            assert("date"@.len() != "tel"@.len());
            assert("date"@.len() != "url"@.len());
            assert("date"@.len() != "search"@.len());
            assert("date"@.len() != "color"@.len());
        },
        ControlType::Input(InputType::Time) => {
            assert("time"@[1] != "text"@[1]);
            assert("time"@.len() != "password"@.len());
            assert("time"@.len() != "hidden"@.len());
            assert("time"@.len() != "number"@.len());
            assert("time"@.len() != "email"@.len());
            assert("time"@.len() != "tel"@.len());
            assert("time"@.len() != "url"@.len());
            assert("time"@.len() != "search"@.len());
            assert("time"@.len() != "color"@.len());
            assert("time"@[0] != "date"@[0]);
        },
        ControlType::Input(InputType::DatetimeLocal) => {
            assert("datetime_local"@.len() != "text"@.len());
            assert("datetime_local"@.len() != "password"@.len());
            assert("datetime_local"@.len() != "hidden"@.len());
            assert("datetime_local"@.len() != "number"@.len());
            assert("datetime_local"@.len() != "email"@.len());
            assert("datetime_local"@.len() != "tel"@.len());
            assert("datetime_local"@.len() != "url"@.len());
            assert("datetime_local"@.len() != "search"@.len());
            assert("datetime_local"@.len() != "color"@.len());
            assert("datetime_local"@.len() != "date"@.len());
            assert("datetime_local"@.len() != "time"@.len());
        },
        ControlType::Input(InputType::Month) => {
            assert("month"@.len() != "text"@.len());
            assert("month"@.len() != "password"@.len());
            assert("month"@.len() != "hidden"@.len());
            assert("month"@.len() != "number"@.len());
            assert("month"@[0] != "email"@[0]);
            assert("month"@.len() != "tel"@.len());
            assert("month"@.len() != "url"@.len());
            assert("month"@.len() != "search"@.len());
            assert("month"@[0] != "color"@[0]);
            assert("month"@.len() != "date"@.len());
            assert("month"@.len() != "time"@.len());
            assert("month"@.len() != "datetime_local"@.len());
        },
        ControlType::Input(InputType::Week) => {
            assert("week"@[0] != "text"@[0]);
            assert("week"@.len() != "password"@.len());
            assert("week"@.len() != "hidden"@.len());
            assert("week"@.len() != "number"@.len());
            assert("week"@.len() != "email"@.len());
            assert("week"@.len() != "tel"@.len());
            assert("week"@.len() != "url"@.len());
            assert("week"@.len() != "search"@.len());
            assert("week"@.len() != "color"@.len());
            assert("week"@[0] != "date"@[0]);
            assert("week"@[0] != "time"@[0]);
            assert("week"@.len() != "datetime_local"@.len());
            assert("week"@.len() != "month"@.len());
        },
        ControlType::Textarea => {
            assert("textarea"@.len() != "text"@.len());
            assert("textarea"@[0] != "password"@[0]);
            assert("textarea"@.len() != "hidden"@.len());
            assert("textarea"@.len() != "number"@.len());
            assert("textarea"@.len() != "email"@.len());
            assert("textarea"@.len() != "tel"@.len());
            assert("textarea"@.len() != "url"@.len());
            assert("textarea"@.len() != "search"@.len());
            assert("textarea"@.len() != "color"@.len());
            assert("textarea"@.len() != "date"@.len());
            assert("textarea"@.len() != "time"@.len());
            assert("textarea"@.len() != "datetime_local"@.len());
            assert("textarea"@.len() != "month"@.len());
            assert("textarea"@.len() != "week"@.len());
        },
        ControlType::Select => {
            assert("select"@.len() != "text"@.len());
            assert("select"@.len() != "password"@.len());
            assert("select"@[0] != "hidden"@[0]);
            assert("select"@[0] != "number"@[0]);
            assert("select"@.len() != "email"@.len());
            assert("select"@.len() != "tel"@.len());
            assert("select"@.len() != "url"@.len());
            assert("select"@[2] != "search"@[2]);
            assert("select"@.len() != "color"@.len());
            assert("select"@.len() != "date"@.len());
            assert("select"@.len() != "time"@.len());
            assert("select"@.len() != "datetime_local"@.len());
            assert("select"@.len() != "month"@.len());
            assert("select"@.len() != "week"@.len());
            assert("select"@.len() != "textarea"@.len());
        },
        ControlType::SelectMultiple => {
            assert("select_multiple"@.len() != "text"@.len());
            assert("select_multiple"@.len() != "password"@.len());
            assert("select_multiple"@.len() != "hidden"@.len());
            assert("select_multiple"@.len() != "number"@.len());
            assert("select_multiple"@.len() != "email"@.len());
            assert("select_multiple"@.len() != "tel"@.len());
            assert("select_multiple"@.len() != "url"@.len());
            assert("select_multiple"@.len() != "search"@.len());
            assert("select_multiple"@.len() != "color"@.len());
            assert("select_multiple"@.len() != "date"@.len());
            assert("select_multiple"@.len() != "time"@.len());
            assert("select_multiple"@.len() != "datetime_local"@.len());
            assert("select_multiple"@.len() != "month"@.len());
            assert("select_multiple"@.len() != "week"@.len());
            assert("select_multiple"@.len() != "textarea"@.len());
            assert("select_multiple"@.len() != "select"@.len());
        },
        ControlType::Checkbox => {
            assert("checkbox"@.len() != "text"@.len());
            assert("checkbox"@[0] != "password"@[0]);
            assert("checkbox"@.len() != "hidden"@.len());
            assert("checkbox"@.len() != "number"@.len());
            assert("checkbox"@.len() != "email"@.len());
            assert("checkbox"@.len() != "tel"@.len());
            assert("checkbox"@.len() != "url"@.len());
            assert("checkbox"@.len() != "search"@.len());
            assert("checkbox"@.len() != "color"@.len());
            assert("checkbox"@.len() != "date"@.len());
            assert("checkbox"@.len() != "time"@.len());
            assert("checkbox"@.len() != "datetime_local"@.len());
            assert("checkbox"@.len() != "month"@.len());
            assert("checkbox"@.len() != "week"@.len());
            assert("checkbox"@[0] != "textarea"@[0]);
            assert("checkbox"@.len() != "select"@.len());
            assert("checkbox"@.len() != "select_multiple"@.len());
        },
        ControlType::CheckboxMultiple => {
            assert("checkbox_multiple"@.len() != "text"@.len());
            assert("checkbox_multiple"@.len() != "password"@.len());
            assert("checkbox_multiple"@.len() != "hidden"@.len());
            assert("checkbox_multiple"@.len() != "number"@.len());
            assert("checkbox_multiple"@.len() != "email"@.len());
            assert("checkbox_multiple"@.len() != "tel"@.len());
            assert("checkbox_multiple"@.len() != "url"@.len());
            assert("checkbox_multiple"@.len() != "search"@.len());
            assert("checkbox_multiple"@.len() != "color"@.len());
            assert("checkbox_multiple"@.len() != "date"@.len());
            assert("checkbox_multiple"@.len() != "time"@.len());
            assert("checkbox_multiple"@.len() != "datetime_local"@.len());
            assert("checkbox_multiple"@.len() != "month"@.len());
            assert("checkbox_multiple"@.len() != "week"@.len());
            assert("checkbox_multiple"@.len() != "textarea"@.len());
            assert("checkbox_multiple"@.len() != "select"@.len());
            assert("checkbox_multiple"@.len() != "select_multiple"@.len());
            assert("checkbox_multiple"@.len() != "checkbox"@.len());
        },
        ControlType::RadioGroup => {
            assert("radio_group"@.len() != "text"@.len());
            assert("radio_group"@.len() != "password"@.len());
            assert("radio_group"@.len() != "hidden"@.len());
            assert("radio_group"@.len() != "number"@.len());
            assert("radio_group"@.len() != "email"@.len());
            assert("radio_group"@.len() != "tel"@.len());
            assert("radio_group"@.len() != "url"@.len());
            assert("radio_group"@.len() != "search"@.len());
            assert("radio_group"@.len() != "color"@.len());
            assert("radio_group"@.len() != "date"@.len());
            assert("radio_group"@.len() != "time"@.len());
            assert("radio_group"@.len() != "datetime_local"@.len());
            assert("radio_group"@.len() != "month"@.len());
            assert("radio_group"@.len() != "week"@.len());
            assert("radio_group"@.len() != "textarea"@.len());
            assert("radio_group"@.len() != "select"@.len());
            assert("radio_group"@.len() != "select_multiple"@.len());
            assert("radio_group"@.len() != "checkbox"@.len());
            assert("radio_group"@.len() != "checkbox_multiple"@.len());
        },
        ControlType::File => {
            assert("file"@[0] != "text"@[0]);
            assert("file"@.len() != "password"@.len());
            assert("file"@.len() != "hidden"@.len());
            assert("file"@.len() != "number"@.len());
            assert("file"@.len() != "email"@.len());
            assert("file"@.len() != "tel"@.len());
            assert("file"@.len() != "url"@.len());
            assert("file"@.len() != "search"@.len());
            assert("file"@.len() != "color"@.len());
            assert("file"@[0] != "date"@[0]);
            assert("file"@[0] != "time"@[0]);
            assert("file"@.len() != "datetime_local"@.len());
            assert("file"@.len() != "month"@.len());
            assert("file"@[0] != "week"@[0]);
            assert("file"@.len() != "textarea"@.len());
            assert("file"@.len() != "select"@.len());
            assert("file"@.len() != "select_multiple"@.len());
            assert("file"@.len() != "checkbox"@.len());
            assert("file"@.len() != "checkbox_multiple"@.len());
            assert("file"@.len() != "radio_group"@.len());
        },
    }
    lemma_control_table_agrees(control_name_of(c));
}

/// Every control name `form!` accepts, in table order.
pub fn control_names() -> (r: Vec<&'static str>)
    ensures
        views(r@) == control_names_spec(),
{
    let r = vec![
        "text", "password", "hidden", "number", "email", "tel", "url", "search", "color",
        "date", "time", "datetime_local", "month", "week", "textarea", "select",
        "select_multiple", "checkbox", "checkbox_multiple", "radio_group", "file",
    ];
    proof {
        assert(views(r@) =~= control_names_spec());
    }
    r
}

/// The control a name means, or `None` if it is not one.
pub fn control_for(name: &str) -> (r: Option<ControlType>)
    ensures
        r == control_named(name@),
{
    if str_eq(name, "text") {
        Some(ControlType::Input(InputType::Text))
    } else if str_eq(name, "password") {
        Some(ControlType::Input(InputType::Password))
    } else if str_eq(name, "hidden") {
        Some(ControlType::Input(InputType::Hidden))
    } else if str_eq(name, "number") {
        Some(ControlType::Input(InputType::Number))
    } else if str_eq(name, "email") {
        Some(ControlType::Input(InputType::Email))
    } else if str_eq(name, "tel") {
        Some(ControlType::Input(InputType::Telephone))
    } else if str_eq(name, "url") {
        Some(ControlType::Input(InputType::Url))
    } else if str_eq(name, "search") {
        Some(ControlType::Input(InputType::Search))
    } else if str_eq(name, "color") {
        Some(ControlType::Input(InputType::Color))
    } else if str_eq(name, "date") {
        Some(ControlType::Input(InputType::Date))
    } else if str_eq(name, "time") {
        Some(ControlType::Input(InputType::Time))
    } else if str_eq(name, "datetime_local") {
        Some(ControlType::Input(InputType::DatetimeLocal))
    } else if str_eq(name, "month") {
        Some(ControlType::Input(InputType::Month))
    } else if str_eq(name, "week") {
        Some(ControlType::Input(InputType::Week))
    } else if str_eq(name, "textarea") {
        Some(ControlType::Textarea)
    } else if str_eq(name, "select") {
        Some(ControlType::Select)
    } else if str_eq(name, "select_multiple") {
        Some(ControlType::SelectMultiple)
    } else if str_eq(name, "checkbox") {
        Some(ControlType::Checkbox)
    } else if str_eq(name, "checkbox_multiple") {
        Some(ControlType::CheckboxMultiple)
    } else if str_eq(name, "radio_group") {
        Some(ControlType::RadioGroup)
    } else if str_eq(name, "file") {
        Some(ControlType::File)
    } else {
        None
    }
}

/// Which fields a named control can render, decided by the control.
#[derive(Clone, Copy, Debug)]
pub enum Rule {
    /// Checked against the field's type with this widget class, showing this
    /// fixed message when the check fails.
    Checked { class: WidgetClass, message: &'static str },
    /// Nothing renders it for any field, so `form!` rejects it while parsing.
    NotYet,
}

/// The rule for a control: its widget class and message, or `NotYet`.
pub open spec fn rule_for(control: ControlType) -> Option<(WidgetClass, Seq<char>)> {
    match control {
        ControlType::Input(_) => Some(
            (
                WidgetClass::Input,
                "an `<input>` widget cannot render a bool field; use `checkbox` or `select`"@,
            ),
        ),
        ControlType::Textarea => Some(
            (WidgetClass::Textarea, "`textarea` can only render a String field"@),
        ),
        ControlType::Checkbox => Some(
            (WidgetClass::Checkbox, "`checkbox` can only render a bool field"@),
        ),
        ControlType::Select | ControlType::RadioGroup => Some(
            (WidgetClass::Chooser, "this widget needs `choices` unless the field is a bool"@),
        ),
        _ => None,
    }
}

/// Whether a rule is the spec's `rule_for`.
pub open spec fn rule_is(r: Rule, expected: Option<(WidgetClass, Seq<char>)>) -> bool {
    match (r, expected) {
        (Rule::Checked { class, message }, Some((c, m))) => class == c && message@ == m,
        (Rule::NotYet, None) => true,
        _ => false,
    }
}

/// The rule a control follows.
pub fn control_rule(control: ControlType) -> (r: Rule)
    ensures
        rule_is(r, rule_for(control)),
{
    match control {
        ControlType::Input(_) => Rule::Checked {
            class: WidgetClass::Input,
            message: "an `<input>` widget cannot render a bool field; use `checkbox` or `select`",
        },
        ControlType::Textarea => Rule::Checked {
            class: WidgetClass::Textarea,
            message: "`textarea` can only render a String field",
        },
        ControlType::Checkbox => Rule::Checked {
            class: WidgetClass::Checkbox,
            message: "`checkbox` can only render a bool field",
        },
        ControlType::Select | ControlType::RadioGroup => Rule::Checked {
            class: WidgetClass::Chooser,
            message: "this widget needs `choices` unless the field is a bool",
        },
        ControlType::SelectMultiple | ControlType::CheckboxMultiple | ControlType::File => {
            Rule::NotYet
        },
    }
}

/// The rule for a control name from the table.
pub fn rule(name: &str) -> (r: Rule)
    requires
        control_named(name@) is Some,
    ensures
        rule_is(r, rule_for(control_named(name@)->0)),
{
    match control_for(name) {
        Some(control) => control_rule(control),
        None => Rule::NotYet,
    }
}

/// The message for a control name that is not in the table (`form2!`).
pub open spec fn unknown_control_message(written: Seq<char>) -> Seq<char> {
    unknown_name_message(
        "control"@,
        "control"@,
        written,
        control_names_spec(),
        ", or `custom(MyWidget)`"@,
    )
}

/// The message for a widget name that is not in the table (`form!`).
pub open spec fn unknown_widget_message(written: Seq<char>) -> Seq<char> {
    unknown_name_message(
        "widget"@,
        "widget"@,
        written,
        control_names_spec(),
        ", or `custom(MyWidget)`"@,
    )
}

/// The message for a control name that is not in the table.
pub fn unknown_control(written: &str) -> (r: String)
    ensures
        r@ == unknown_control_message(written@),
{
    let names = control_names();
    unknown_name("control", "control", written, &names, ", or `custom(MyWidget)`")
}

/// The message for a widget name that is not in the table.
pub fn unknown_widget(written: &str) -> (r: String)
    ensures
        r@ == unknown_widget_message(written@),
{
    let names = control_names();
    unknown_name("widget", "widget", written, &names, ", or `custom(MyWidget)`")
}

/// What `control: <name>` in `form2!` resolves to.
pub fn parse_control(name: &str) -> (r: Result<ControlType, String>)
    ensures
        match control_named(name@) {
            Some(c) => r == Ok::<ControlType, String>(c),
            None => r matches Err(m) && m@ == unknown_control_message(name@),
        },
{
    match control_for(name) {
        Some(c) => Ok(c),
        None => Err(unknown_control(name)),
    }
}

/// The message for a control that nothing renders yet.
pub open spec fn not_yet_message(name: Seq<char>) -> Seq<char> {
    "`"@ + name
        + "` is not supported yet \u{2014} nothing renders it, so the field would silently vanish from the form"@
}

/// What `widget: <name>` in `form!` resolves to: a known name that something
/// renders.
pub fn parse_widget(name: &str) -> (r: Result<ControlType, String>)
    ensures
        match control_named(name@) {
            Some(c) => if rule_for(c) is Some {
                r == Ok::<ControlType, String>(c)
            } else {
                r matches Err(m) && m@ == not_yet_message(name@)
            },
            None => r matches Err(m) && m@ == unknown_widget_message(name@),
        },
{
    match control_for(name) {
        None => Err(unknown_widget(name)),
        Some(c) => match control_rule(c) {
            Rule::NotYet => {
                let mut m = owned("`");
                push_str(&mut m, name);
                push_str(
                    &mut m,
                    "` is not supported yet \u{2014} nothing renders it, so the field would silently vanish from the form",
                );
                Err(m)
            },
            Rule::Checked { .. } => Ok(c),
        },
    }
}

/// The controls that can be handed a list to choose from.
pub open spec fn chooser_names_spec() -> Seq<Seq<char>> {
    seq!["select"@, "select_multiple"@, "checkbox_multiple"@, "radio_group"@]
}

/// The choosers something renders, each in backticks: what a message
/// offers instead of a control that takes no `choices`.
pub open spec fn rendered_choosers(names: Seq<Seq<char>>) -> Seq<Seq<char>>
    decreases names.len(),
{
    if names.len() == 0 {
        Seq::empty()
    } else {
        let rest = rendered_choosers(names.drop_last());
        let n = names.last();
        if control_named(n) matches Some(c) && rule_for(c) is Some {
            rest.push("`"@ + n + "`"@)
        } else {
            rest
        }
    }
}

/// Which control a `form!` field names: one from the table, or `custom(…)`.
pub enum WidgetName<'a> {
    Named(&'a str),
    Custom,
}

/// The message for `choices` given to a control that takes none.
pub open spec fn no_choices_message(widget: WidgetName) -> Option<Seq<char>> {
    match widget {
        WidgetName::Named(name) => if chooser_names_spec().contains(name@) {
            None
        } else {
            Some(
                "`"@ + name@ + "` takes no `choices` \u{2014} they apply to "@ + join(
                    rendered_choosers(chooser_names_spec()),
                    ", "@,
                ),
            )
        },
        WidgetName::Custom => Some("a custom widget supplies its own choices"@),
    }
}

/// `choices` are accepted only by a chooser; a custom widget supplies its own.
pub fn reject_choices_unless_chooser(widget: &WidgetName) -> (r: Result<(), String>)
    ensures
        match no_choices_message(*widget) {
            None => r is Ok,
            Some(m) => r matches Err(e) && e@ == m,
        },
{
    let choosers: Vec<&str> = vec!["select", "select_multiple", "checkbox_multiple", "radio_group"];
    proof {
        assert(views(choosers@) =~= chooser_names_spec());
    }
    match widget {
        WidgetName::Named(name) => {
            if contains_str(&choosers, name) {
                return Ok(());
            }
            let mut offered: Vec<String> = Vec::new();
            let mut i: usize = 0;
            while i < choosers.len()
                invariant
                    i <= choosers@.len(),
                    views(choosers@) == chooser_names_spec(),
                    offered@.map_values(|s: String| s@) == rendered_choosers(
                        chooser_names_spec().take(i as int),
                    ),
                decreases choosers.len() - i,
            {
                let c = choosers[i];
                proof {
                    assert(chooser_names_spec().take(i + 1).drop_last() =~= chooser_names_spec().take(
                        i as int,
                    ));
                    assert(chooser_names_spec().take(i + 1).last() == c@);
                }
                match control_for(c) {
                    Some(ctl) => match control_rule(ctl) {
                        Rule::Checked { .. } => {
                            let mut q = owned("`");
                            push_str(&mut q, c);
                            push_str(&mut q, "`");
                            offered.push(q);
                            proof {
                                assert(offered@.map_values(|s: String| s@) =~= rendered_choosers(
                                    chooser_names_spec().take(i as int),
                                ).push("`"@ + c@ + "`"@));
                            }
                        },
                        Rule::NotYet => {},
                    },
                    None => {},
                }
                i = i + 1;
            }
            proof {
                assert(chooser_names_spec().take(4) =~= chooser_names_spec());
            }
            let mut m = owned("`");
            push_str(&mut m, name);
            push_str(&mut m, "` takes no `choices` \u{2014} they apply to ");
            let all = crate::text::join_strings(&offered, ", ");
            push_str(&mut m, all.as_str());
            Err(m)
        },
        WidgetName::Custom => Err(owned("a custom widget supplies its own choices")),
    }
}

/// Every button type `form!` accepts, in table order.
pub open spec fn button_type_names_spec() -> Seq<Seq<char>> {
    seq!["submit"@, "reset"@, "cancel"@, "destructive"@, "button"@]
}

/// The button type a name means, if it is one.
pub open spec fn button_type_named(name: Seq<char>) -> Option<ButtonType> {
    if name == "submit"@ {
        Some(ButtonType::Submit)
    } else if name == "reset"@ {
        Some(ButtonType::Reset)
    } else if name == "cancel"@ {
        Some(ButtonType::Cancel)
    } else if name == "destructive"@ {
        Some(ButtonType::Destructive)
    } else if name == "button"@ {
        Some(ButtonType::Button)
    } else {
        None
    }
}

/// A name is a button type exactly when it is in the list an unknown type's
/// message offers.
pub proof fn lemma_button_type_table_agrees(name: Seq<char>)
    ensures
        button_type_named(name) is Some <==> button_type_names_spec().contains(name),
{
    let names = button_type_names_spec();
    if button_type_named(name) is Some {
        if name == "submit"@ { assert(names[0] == name); }
        else if name == "reset"@ { assert(names[1] == name); }
        else if name == "cancel"@ { assert(names[2] == name); }
        else if name == "destructive"@ { assert(names[3] == name); }
        else { assert(names[4] == name); }
    }
}

/// Every button type name, in table order.
pub fn button_type_names() -> (r: Vec<&'static str>)
    ensures
        views(r@) == button_type_names_spec(),
{
    let r = vec!["submit", "reset", "cancel", "destructive", "button"];
    proof {
        assert(views(r@) =~= button_type_names_spec());
    }
    r
}

/// The message for a button type that is not in the table.
pub open spec fn unknown_button_type_message(written: Seq<char>) -> Seq<char> {
    unknown_name_message("button type"@, "type"@, written, button_type_names_spec(), ""@)
}

/// The message for a button type that is not in the table.
pub fn unknown_button_type(written: &str) -> (r: String)
    ensures
        r@ == unknown_button_type_message(written@),
{
    let names = button_type_names();
    unknown_name("button type", "type", written, &names, "")
}

/// What `type: <name>` in a button body resolves to.
pub fn parse_button_type(name: &str) -> (r: Result<ButtonType, String>)
    ensures
        match button_type_named(name@) {
            Some(t) => r == Ok::<ButtonType, String>(t),
            None => r matches Err(m) && m@ == unknown_button_type_message(name@),
        },
{
    if str_eq(name, "submit") {
        Ok(ButtonType::Submit)
    } else if str_eq(name, "reset") {
        Ok(ButtonType::Reset)
    } else if str_eq(name, "cancel") {
        Ok(ButtonType::Cancel)
    } else if str_eq(name, "destructive") {
        Ok(ButtonType::Destructive)
    } else if str_eq(name, "button") {
        Ok(ButtonType::Button)
    } else {
        Err(unknown_button_type(name))
    }
}

/// The invocation a name means, if it is one.
pub open spec fn invocation_named(name: Seq<char>) -> Option<Invocation> {
    if name == "if_model_validates"@ {
        Some(Invocation::IfModelValidates)
    } else if name == "unconditional"@ {
        Some(Invocation::Unconditional)
    } else {
        None
    }
}

/// What `invocation: <name>` in a button body resolves to.
pub fn parse_invocation(name: &str) -> (r: Result<Invocation, String>)
    ensures
        match invocation_named(name@) {
            Some(i) => r == Ok::<Invocation, String>(i),
            None => r matches Err(m) && m@ == "unknown invocation `"@ + name@
                + "` \u{2014} expected if_model_validates or unconditional"@,
        },
{
    if str_eq(name, "if_model_validates") {
        Ok(Invocation::IfModelValidates)
    } else if str_eq(name, "unconditional") {
        Ok(Invocation::Unconditional)
    } else {
        let mut m = owned("unknown invocation `");
        push_str(&mut m, name);
        push_str(&mut m, "` \u{2014} expected if_model_validates or unconditional");
        Err(m)
    }
}

/// How `{:?}` writes a string: quoted, with `str`'s debug escapes.
pub uninterp spec fn debug_quoted(s: Seq<char>) -> Seq<char>;

/// `format!("{s:?}")`; claims only that the result is a function of `s`.
#[verifier::external_body]
pub(crate) fn debug_str(s: &str) -> (r: String)
    ensures
        r@ == debug_quoted(s@),
{
    format!("{s:?}")
}

/// Every `label_case:` spelling, each one what its casing does to the words
/// "label case".
pub open spec fn label_case_keys_spec() -> Seq<Seq<char>> {
    seq![
        "labelCase"@, "LabelCase"@, "label-case"@, "Label-Case"@, "LABEL-CASE"@, "label_case"@,
        "Label_Case"@, "LABEL_CASE"@, "Label Case"@, "label case"@, "LABEL CASE"@,
    ]
}

/// The casing a `label_case:` spelling names, if it is one.
pub open spec fn label_case_named(key: Seq<char>) -> Option<LabelCase> {
    if key == "labelCase"@ {
        Some(LabelCase::CamelLower)
    } else if key == "LabelCase"@ {
        Some(LabelCase::CamelCapitalized)
    } else if key == "label-case"@ {
        Some(LabelCase::KebabLower)
    } else if key == "Label-Case"@ {
        Some(LabelCase::KebabCapitalized)
    } else if key == "LABEL-CASE"@ {
        Some(LabelCase::KebabAllCaps)
    } else if key == "label_case"@ {
        Some(LabelCase::SnakeLower)
    } else if key == "Label_Case"@ {
        Some(LabelCase::SnakeCapitalized)
    } else if key == "LABEL_CASE"@ {
        Some(LabelCase::SnakeAllCaps)
    } else if key == "Label Case"@ {
        Some(LabelCase::Title)
    } else if key == "label case"@ {
        Some(LabelCase::Lower)
    } else if key == "LABEL CASE"@ {
        Some(LabelCase::AllCaps)
    } else {
        None
    }
}

/// A spelling names a casing exactly when it is in the list an unknown
/// spelling's message offers.
pub proof fn lemma_label_case_table_agrees(key: Seq<char>)
    ensures
        label_case_named(key) is Some <==> label_case_keys_spec().contains(key),
{
    let keys = label_case_keys_spec();
    if label_case_named(key) is Some {
        if key == "labelCase"@ { assert(keys[0] == key); }
        else if key == "LabelCase"@ { assert(keys[1] == key); }
        else if key == "label-case"@ { assert(keys[2] == key); }
        else if key == "Label-Case"@ { assert(keys[3] == key); }
        else if key == "LABEL-CASE"@ { assert(keys[4] == key); }
        else if key == "label_case"@ { assert(keys[5] == key); }
        else if key == "Label_Case"@ { assert(keys[6] == key); }
        else if key == "LABEL_CASE"@ { assert(keys[7] == key); }
        else if key == "Label Case"@ { assert(keys[8] == key); }
        else if key == "label case"@ { assert(keys[9] == key); }
        else { assert(keys[10] == key); }
    }
}

/// The message for a `label_case:` spelling that is not one of the eleven,
/// listing every valid spelling in full.
pub open spec fn unknown_label_case_message(written: Seq<char>) -> Seq<char> {
    "unknown label case "@ + debug_quoted(written) + " \u{2014} write one of: "@ + join(
        label_case_keys_spec().map_values(|k: Seq<char>| debug_quoted(k)),
        ", "@,
    )
}

/// What `label_case: "…"` resolves to.
pub fn parse_label_case(written: &str) -> (r: Result<LabelCase, String>)
    ensures
        match label_case_named(written@) {
            Some(c) => r == Ok::<LabelCase, String>(c),
            None => r matches Err(m) && m@ == unknown_label_case_message(written@),
        },
{
    if str_eq(written, "labelCase") {
        return Ok(LabelCase::CamelLower);
    } else if str_eq(written, "LabelCase") {
        return Ok(LabelCase::CamelCapitalized);
    } else if str_eq(written, "label-case") {
        return Ok(LabelCase::KebabLower);
    } else if str_eq(written, "Label-Case") {
        return Ok(LabelCase::KebabCapitalized);
    } else if str_eq(written, "LABEL-CASE") {
        return Ok(LabelCase::KebabAllCaps);
    } else if str_eq(written, "label_case") {
        return Ok(LabelCase::SnakeLower);
    } else if str_eq(written, "Label_Case") {
        return Ok(LabelCase::SnakeCapitalized);
    } else if str_eq(written, "LABEL_CASE") {
        return Ok(LabelCase::SnakeAllCaps);
    } else if str_eq(written, "Label Case") {
        return Ok(LabelCase::Title);
    } else if str_eq(written, "label case") {
        return Ok(LabelCase::Lower);
    } else if str_eq(written, "LABEL CASE") {
        return Ok(LabelCase::AllCaps);
    }
    let keys: Vec<&str> = vec![
        "labelCase", "LabelCase", "label-case", "Label-Case", "LABEL-CASE", "label_case",
        "Label_Case", "LABEL_CASE", "Label Case", "label case", "LABEL CASE",
    ];
    proof {
        assert(views(keys@) =~= label_case_keys_spec());
    }
    let mut quoted: Vec<String> = Vec::new();
    let mut i: usize = 0;
    while i < keys.len()
        invariant
            i <= keys@.len(),
            views(keys@) == label_case_keys_spec(),
            quoted@.len() == i,
            forall|j: int| 0 <= j < i ==> (#[trigger] quoted@[j])@ == debug_quoted(
                label_case_keys_spec()[j],
            ),
        decreases keys.len() - i,
    {
        let q = debug_str(keys[i]);
        proof {
            assert(views(keys@)[i as int] == keys@[i as int]@);
        }
        quoted.push(q);
        i = i + 1;
    }
    proof {
        assert(quoted@.map_values(|s: String| s@) =~= label_case_keys_spec().map_values(
            |k: Seq<char>| debug_quoted(k),
        ));
    }
    let mut m = owned("unknown label case ");
    let w = debug_str(written);
    push_str(&mut m, w.as_str());
    push_str(&mut m, " \u{2014} write one of: ");
    let all = crate::text::join_strings(&quoted, ", ");
    push_str(&mut m, all.as_str());
    Err(m)
}

} // verus!
