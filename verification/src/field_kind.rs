//! Which constraints and widgets a field's type can take.
//!
//! `form!` emits one compile-time assertion per constraint key and widget,
//! and these predicates are what those assertions ask. They classify a field
//! by its facet shape; [`ShapeInfo`] holds what they read of one.
use vstd::prelude::*;

use crate::text::str_eq;

verus! {

/// What the classification reads of a facet shape.
pub struct ShapeInfo {
    /// The module the type is defined in; `None` for a primitive.
    pub defined_in: Option<String>,
    /// The type's name, as facet records it.
    pub type_identifier: String,
    /// For an `Option<T>`, the shape of `T`.
    pub option_of: Option<Box<ShapeInfo>>,
    /// Whether the type is a tuple struct with exactly one field.
    pub one_field_tuple_struct: bool,
    /// The wrapped type's shape, when facet records it (`#[facet(transparent)]`).
    pub inner: Option<Box<ShapeInfo>>,
}

/// What a field holds, as far as constraints and widgets care.
#[derive(Clone, Copy, Debug, PartialEq, Eq, Structural)]
pub enum Kind {
    Text,
    /// The range of the integer type, widened to `i128`.
    Int { min: i128, max: i128 },
    /// A float; `single` for `f32`, whose largest finite value is smaller.
    Float { single: bool },
    Bool,
    /// Something that is not one value: a struct, a list, an enum, or an
    /// unsupported scalar.
    Other,
    /// A newtype whose inner type is out of reach.
    Unknown,
}

/// The widgets `form!` can check, grouped by the rule they share.
#[derive(Clone, Copy, Debug, PartialEq, Eq, Structural)]
pub enum WidgetClass {
    /// Every `<input type=…>`.
    Input,
    Textarea,
    Checkbox,
    /// `select` and `radio_group`, which pick one value from `choices`.
    Chooser,
}

/// The kind of a primitive type, by name. `usize`, `isize` and `char` are not
/// supported as fields, so they are `Other`.
pub open spec fn primitive_kind(name: Seq<char>) -> Kind {
    if name == "i8"@ {
        Kind::Int { min: i8::MIN as i128, max: i8::MAX as i128 }
    } else if name == "i16"@ {
        Kind::Int { min: i16::MIN as i128, max: i16::MAX as i128 }
    } else if name == "i32"@ {
        Kind::Int { min: i32::MIN as i128, max: i32::MAX as i128 }
    } else if name == "i64"@ {
        Kind::Int { min: i64::MIN as i128, max: i64::MAX as i128 }
    } else if name == "u8"@ {
        Kind::Int { min: 0, max: u8::MAX as i128 }
    } else if name == "u16"@ {
        Kind::Int { min: 0, max: u16::MAX as i128 }
    } else if name == "u32"@ {
        Kind::Int { min: 0, max: u32::MAX as i128 }
    } else if name == "u64"@ {
        Kind::Int { min: 0, max: u64::MAX as i128 }
    } else if name == "f32"@ {
        Kind::Float { single: true }
    } else if name == "f64"@ {
        Kind::Float { single: false }
    } else if name == "bool"@ {
        Kind::Bool
    } else {
        Kind::Other
    }
}

/// The kind of a shape: an `Option` by what it holds, a primitive by its name,
/// `String` as text, a newtype by what it wraps when that is known.
pub open spec fn kind_of(shape: ShapeInfo) -> Kind
    decreases shape,
{
    match shape.option_of {
        Some(t) => kind_of(*t),
        None => match shape.defined_in {
            None => primitive_kind(shape.type_identifier@),
            Some(module) => if shape.type_identifier@ == "String"@ && module@ == "alloc::string"@ {
                Kind::Text
            } else if shape.one_field_tuple_struct {
                match shape.inner {
                    Some(inner) => kind_of(*inner),
                    None => Kind::Unknown,
                }
            } else {
                Kind::Other
            },
        },
    }
}

fn primitive(name: &str) -> (k: Kind)
    ensures
        k == primitive_kind(name@),
{
    if str_eq(name, "i8") {
        Kind::Int { min: -128, max: 127 }
    } else if str_eq(name, "i16") {
        Kind::Int { min: -32768, max: 32767 }
    } else if str_eq(name, "i32") {
        Kind::Int { min: -2147483648, max: 2147483647 }
    } else if str_eq(name, "i64") {
        Kind::Int { min: -9223372036854775808, max: 9223372036854775807 }
    } else if str_eq(name, "u8") {
        Kind::Int { min: 0, max: 255 }
    } else if str_eq(name, "u16") {
        Kind::Int { min: 0, max: 65535 }
    } else if str_eq(name, "u32") {
        Kind::Int { min: 0, max: 4294967295 }
    } else if str_eq(name, "u64") {
        Kind::Int { min: 0, max: 18446744073709551615 }
    } else if str_eq(name, "f32") {
        Kind::Float { single: true }
    } else if str_eq(name, "f64") {
        Kind::Float { single: false }
    } else if str_eq(name, "bool") {
        Kind::Bool
    } else {
        Kind::Other
    }
}

/// The kind of a shape, looking through `Option` and transparent newtypes.
pub fn kind(shape: &ShapeInfo) -> (k: Kind)
    ensures
        k == kind_of(*shape),
    decreases shape,
{
    if let Some(t) = &shape.option_of {
        return kind(t);
    }
    match &shape.defined_in {
        None => primitive(shape.type_identifier.as_str()),
        Some(module) => {
            if str_eq(shape.type_identifier.as_str(), "String") && str_eq(
                module.as_str(),
                "alloc::string",
            ) {
                Kind::Text
            } else if shape.one_field_tuple_struct {
                match &shape.inner {
                    Some(inner) => kind(inner),
                    None => Kind::Unknown,
                }
            } else {
                Kind::Other
            }
        },
    }
}

/// Each integer primitive's kind carries exactly its type's range, so a bound
/// is accepted on a field precisely when its type can hold it.
pub proof fn lemma_integer_primitive_ranges(shape: ShapeInfo)
    requires
        shape.option_of is None,
        shape.defined_in is None,
    ensures
        shape.type_identifier@ == "i8"@ ==> kind_of(shape) == (Kind::Int { min: -128i128, max: 127 }),
        shape.type_identifier@ == "i16"@ ==> kind_of(shape) == (Kind::Int { min: -32768i128, max: 32767 }),
        shape.type_identifier@ == "i32"@ ==> kind_of(shape) == (Kind::Int {
            min: -2147483648i128,
            max: 2147483647,
        }),
        shape.type_identifier@ == "i64"@ ==> kind_of(shape) == (Kind::Int {
            min: -9223372036854775808i128,
            max: 9223372036854775807,
        }),
        shape.type_identifier@ == "u8"@ ==> kind_of(shape) == (Kind::Int { min: 0, max: 255 }),
        shape.type_identifier@ == "u16"@ ==> kind_of(shape) == (Kind::Int { min: 0, max: 65535 }),
        shape.type_identifier@ == "u32"@ ==> kind_of(shape) == (Kind::Int { min: 0, max: 4294967295 }),
        shape.type_identifier@ == "u64"@ ==> kind_of(shape) == (Kind::Int {
            min: 0,
            max: 18446744073709551615,
        }),
{
    reveal_strlit("i8");
    reveal_strlit("i16");
    reveal_strlit("i32");
    reveal_strlit("i64");
    reveal_strlit("u8");
    reveal_strlit("u16");
    reveal_strlit("u32");
    reveal_strlit("u64");
    assert("i16"@.len() != "i8"@.len());
    assert("i32"@.len() != "i8"@.len());
    assert("i32"@[1] != "i16"@[1]);
    assert("i64"@.len() != "i8"@.len());
    assert("i64"@[1] != "i16"@[1]);
    assert("i64"@[1] != "i32"@[1]);
    assert("u8"@[0] != "i8"@[0]);
    assert("u8"@.len() != "i16"@.len());
    assert("u8"@.len() != "i32"@.len());
    assert("u8"@.len() != "i64"@.len());
    assert("u16"@.len() != "i8"@.len());
    assert("u16"@[0] != "i16"@[0]);
    assert("u16"@[0] != "i32"@[0]);
    assert("u16"@[0] != "i64"@[0]);
    assert("u16"@.len() != "u8"@.len());
    assert("u32"@.len() != "i8"@.len());
    assert("u32"@[0] != "i16"@[0]);
    assert("u32"@[0] != "i32"@[0]);
    assert("u32"@[0] != "i64"@[0]);
    assert("u32"@.len() != "u8"@.len());
    assert("u32"@[1] != "u16"@[1]);
    assert("u64"@.len() != "i8"@.len());
    assert("u64"@[0] != "i16"@[0]);
    assert("u64"@[0] != "i32"@[0]);
    assert("u64"@[0] != "i64"@[0]);
    assert("u64"@.len() != "u8"@.len());
    assert("u64"@[1] != "u16"@[1]);
    assert("u64"@[1] != "u32"@[1]);
}

/// A primitive is an integer kind only under an integer type's name, and then
/// its range is that type's.
pub proof fn lemma_integer_kind_names(shape: ShapeInfo, min: i128, max: i128)
    requires
        shape.option_of is None,
        shape.defined_in is None,
        kind_of(shape) == (Kind::Int { min, max }),
    ensures
        ({
            let name = shape.type_identifier@;
            ||| name == "i8"@ && min == -128 && max == 127
            ||| name == "i16"@ && min == -32768 && max == 32767
            ||| name == "i32"@ && min == -2147483648 && max == 2147483647
            ||| name == "i64"@ && min == -9223372036854775808 && max == 9223372036854775807
            ||| name == "u8"@ && min == 0 && max == 255
            ||| name == "u16"@ && min == 0 && max == 65535
            ||| name == "u32"@ && min == 0 && max == 4294967295
            ||| name == "u64"@ && min == 0 && max == 18446744073709551615
        }),
{
}

/// Whether `min_length`, `max_length` or `pattern` can apply to this field.
pub fn takes_length(shape: &ShapeInfo) -> (r: bool)
    ensures
        r == (kind_of(*shape) is Text || kind_of(*shape) is Unknown),
{
    match kind(shape) {
        Kind::Text | Kind::Unknown => true,
        _ => false,
    }
}

/// Whether `min` or `max` can apply to this field.
pub fn takes_bound(shape: &ShapeInfo) -> (r: bool)
    ensures
        r == (kind_of(*shape) is Int || kind_of(*shape) is Float || kind_of(*shape) is Unknown),
{
    match kind(shape) {
        Kind::Int { .. } | Kind::Float { .. } | Kind::Unknown => true,
        _ => false,
    }
}

/// Whether the field is one value, and so can have a widget at all.
pub fn is_single_value(shape: &ShapeInfo) -> (r: bool)
    ensures
        r == !(kind_of(*shape) is Other),
{
    !matches!(kind(shape), Kind::Other)
}

/// Whether `widget` can render a single-value field of this kind; `true` for
/// anything that is not one value, or is out of reach, so that those report
/// once, from other checks.
pub open spec fn renders_kind(k: Kind, widget: WidgetClass, has_choices: bool) -> bool {
    if k is Other || k is Unknown {
        true
    } else {
        match widget {
            WidgetClass::Input => !(k is Bool),
            WidgetClass::Textarea => k is Text,
            WidgetClass::Checkbox => k is Bool,
            WidgetClass::Chooser => k is Bool || has_choices,
        }
    }
}

/// Whether `widget` can render this field. `has_choices` is whether `form!`
/// was given `choices` for it.
pub fn renders(shape: &ShapeInfo, widget: WidgetClass, has_choices: bool) -> (r: bool)
    ensures
        r == renders_kind(kind_of(*shape), widget, has_choices),
{
    let k = kind(shape);
    if matches!(k, Kind::Other | Kind::Unknown) {
        return true;
    }
    let is_bool = matches!(k, Kind::Bool);
    match widget {
        WidgetClass::Input => !is_bool,
        WidgetClass::Textarea => matches!(k, Kind::Text),
        WidgetClass::Checkbox => is_bool,
        WidgetClass::Chooser => is_bool || has_choices,
    }
}

/// A field that is not one value passes every render check, so a widget on
/// a struct, list or enum is reported once, by `is_single_value`.
pub proof fn lemma_renders_defers_to_single_value(shape: ShapeInfo, widget: WidgetClass, has_choices: bool)
    requires
        kind_of(shape) is Other,
    ensures
        renders_kind(kind_of(shape), widget, has_choices),
{
}

/// Whether the field is a number.
pub fn is_number(shape: &ShapeInfo) -> (r: bool)
    ensures
        r == (kind_of(*shape) is Int || kind_of(*shape) is Float),
{
    matches!(kind(shape), Kind::Int { .. } | Kind::Float { .. })
}

/// Whether the field itself is an `Option`. Unlike every other predicate
/// here, this does not look through the `Option`.
pub fn is_optional(shape: &ShapeInfo) -> (r: bool)
    ensures
        r == shape.option_of is Some,
{
    shape.option_of.is_some()
}

} // verus!
