//! Leaf members: a single input, its parsed value, and the checks its value
//! must pass.
use vstd::prelude::*;

use crate::error::FieldError;
use crate::pattern::{regex_compiles, regex_finds, Pattern};
use crate::vocab::{ControlType, InputType};
use crate::text::{
    chars_of, decimal, i128_to_string, owned, parse_i128, parse_i128_spec, push_str, signed_decimal,
    str_eq, usize_to_string,
};

verus! {

/// What one input currently holds.
#[derive(Clone, Debug, PartialEq)]
pub enum FieldValue<T> {
    /// Nothing typed: an empty input means "unfilled".
    Empty,
    /// A value that parsed.
    Valid(T),
    /// Text that did not parse, with the reason.
    Invalid { raw: String, error: FieldError },
}

/// The value family a field carries, with the constraints that apply to it.
///
/// Integer bounds are `i128`, the one type that holds the range of every
/// supported integer. A float field's bounds are checked outside this crate,
/// which holds no floating-point values, so `Float` carries none here.
#[derive(Clone, Debug, PartialEq)]
pub enum ValueKind {
    Text { min_length: Option<usize>, max_length: Option<usize>, pattern: Option<&'static str> },
    Int { min: Option<i128>, max: Option<i128> },
    Float,
    Bool,
}

/// `pattern` wrapped as HTML wraps it: anchored at both ends, grouped first so
/// that an alternation is anchored as a whole.
pub open spec fn anchored(pattern: Seq<char>) -> Seq<char> {
    "^(?:"@ + pattern + ")$"@
}

/// The flags a `pattern` is compiled with: `v`, as HTML compiles it.
pub open spec fn pattern_flags() -> Seq<char> {
    "v"@
}

/// Whether `check` may run on `raw` for this kind: a number must already have
/// parsed, a pattern must compile, and a float is checked elsewhere.
pub open spec fn checkable(kind: ValueKind, raw: Seq<char>) -> bool {
    match kind {
        ValueKind::Text { pattern, .. } => pattern matches Some(p) ==> regex_compiles(
            anchored(p@),
            pattern_flags(),
        ),
        ValueKind::Int { .. } => parse_i128_spec(raw) is Some,
        ValueKind::Float => false,
        ValueKind::Bool => true,
    }
}

/// The messages `check` reports for `raw`, in order, given whether the
/// anchored pattern (if any) matched it.
pub open spec fn check_messages_given(kind: ValueKind, raw: Seq<char>, pattern_matches: bool) -> Seq<Seq<char>> {
    match kind {
        ValueKind::Text { min_length, max_length, pattern } => {
            (match min_length {
                Some(min) => if raw.len() < min {
                    seq!["length must be at least "@ + decimal(min as nat)]
                } else {
                    Seq::empty()
                },
                None => Seq::empty(),
            }) + (match max_length {
                Some(max) => if raw.len() > max {
                    seq!["length must be at most "@ + decimal(max as nat)]
                } else {
                    Seq::empty()
                },
                None => Seq::empty(),
            }) + (match pattern {
                Some(p) => if !pattern_matches {
                    seq!["input should match the regular expression "@ + p@]
                } else {
                    Seq::empty()
                },
                None => Seq::empty(),
            })
        },
        ValueKind::Int { min, max } => {
            let n = parse_i128_spec(raw)->0;
            match (min, max) {
                (Some(lo), Some(hi)) => if n < lo || n > hi {
                    seq![
                        "number must be in the range "@ + signed_decimal(lo as int)
                            + " up to (and including) "@ + signed_decimal(hi as int),
                    ]
                } else {
                    Seq::empty()
                },
                (Some(lo), None) => if n < lo {
                    seq!["number must be at least "@ + signed_decimal(lo as int)]
                } else {
                    Seq::empty()
                },
                (None, Some(hi)) => if n > hi {
                    seq!["number must be at most "@ + signed_decimal(hi as int)]
                } else {
                    Seq::empty()
                },
                (None, None) => Seq::empty(),
            }
        },
        _ => Seq::empty(),
    }
}

/// Whether the anchored pattern of a text kind matches `raw`; `true` when
/// there is no pattern.
pub open spec fn pattern_matches(kind: ValueKind, raw: Seq<char>) -> bool {
    match kind {
        ValueKind::Text { pattern: Some(p), .. } => regex_finds(anchored(p@), pattern_flags(), raw),
        _ => true,
    }
}

/// The messages `check` reports for `raw`, in order.
pub open spec fn check_messages(kind: ValueKind, raw: Seq<char>) -> Seq<Seq<char>> {
    check_messages_given(kind, raw, pattern_matches(kind, raw))
}

/// A lower bound is inclusive: a number at or above `min` passes, and one
/// below it gets exactly the one "at least" message.
pub proof fn lemma_int_min_inclusive(lo: i128, raw: Seq<char>, n: int)
    requires
        parse_i128_spec(raw) == Some(n),
    ensures
        lo <= n ==> check_messages(ValueKind::Int { min: Some(lo), max: None }, raw).len() == 0,
        n < lo ==> check_messages(ValueKind::Int { min: Some(lo), max: None }, raw)
            == seq!["number must be at least "@ + signed_decimal(lo as int)],
{
}

/// An upper bound is inclusive: a number at or below `max` passes, and one
/// above it gets exactly the one "at most" message.
pub proof fn lemma_int_max_inclusive(hi: i128, raw: Seq<char>, n: int)
    requires
        parse_i128_spec(raw) == Some(n),
    ensures
        n <= hi ==> check_messages(ValueKind::Int { min: None, max: Some(hi) }, raw).len() == 0,
        hi < n ==> check_messages(ValueKind::Int { min: None, max: Some(hi) }, raw)
            == seq!["number must be at most "@ + signed_decimal(hi as int)],
{
}

/// With both bounds, a number passes exactly when `min <= n <= max`, both
/// ends included; outside, it gets the one range message. With no bounds,
/// every number passes.
pub proof fn lemma_int_range_inclusive(lo: i128, hi: i128, raw: Seq<char>, n: int)
    requires
        parse_i128_spec(raw) == Some(n),
    ensures
        lo <= n <= hi ==> check_messages(ValueKind::Int { min: Some(lo), max: Some(hi) }, raw).len()
            == 0,
        (n < lo || hi < n) ==> check_messages(ValueKind::Int { min: Some(lo), max: Some(hi) }, raw)
            == seq![
            "number must be in the range "@ + signed_decimal(lo as int)
                + " up to (and including) "@ + signed_decimal(hi as int),
        ],
        check_messages(ValueKind::Int { min: None, max: None }, raw).len() == 0,
{
}

/// Length bounds are inclusive: a text of `min_length` or `max_length`
/// characters passes them; one shorter or longer gets the matching message.
pub proof fn lemma_text_length_inclusive(min_length: Option<usize>, max_length: Option<usize>, raw: Seq<char>)
    ensures
        ({
            let msgs = check_messages(
                ValueKind::Text { min_length, max_length, pattern: None },
                raw,
            );
            &&& msgs.len() == 0 <==> ((min_length matches Some(lo) ==> lo <= raw.len())
                && (max_length matches Some(hi) ==> raw.len() <= hi))
            &&& (min_length is Some && raw.len() < min_length->0) ==> msgs[0]
                == "length must be at least "@ + decimal(min_length->0 as nat)
            &&& (max_length is Some && raw.len() > max_length->0 && !(min_length is Some
                && raw.len() < min_length->0)) ==> msgs == seq![
                "length must be at most "@ + decimal(max_length->0 as nat),
            ]
        }),
{
    let msgs = check_messages(ValueKind::Text { min_length, max_length, pattern: None }, raw);
    let a: Seq<Seq<char>> = match min_length {
        Some(min) => if raw.len() < min {
            seq!["length must be at least "@ + decimal(min as nat)]
        } else {
            Seq::empty()
        },
        None => Seq::empty(),
    };
    let b: Seq<Seq<char>> = match max_length {
        Some(max) => if raw.len() > max {
            seq!["length must be at most "@ + decimal(max as nat)]
        } else {
            Seq::empty()
        },
        None => Seq::empty(),
    };
    assert(msgs =~= a + b + Seq::empty());
    assert(a + b + Seq::<Seq<char>>::empty() =~= a + b);
    if a.len() > 0 {
        assert((a + b)[0] == a[0]);
    } else {
        assert(a + b =~= b);
    }
}

/// The messages of a list of errors.
pub open spec fn error_messages(errors: Seq<FieldError>) -> Seq<Seq<char>> {
    errors.map_values(|e: FieldError| e.0@)
}

fn push_error(errors: &mut Vec<FieldError>, m: String)
    ensures
        error_messages(final(errors)@) == error_messages(old(errors)@).push(m@),
{
    errors.push(FieldError(m));
    proof {
        assert(error_messages(final(errors)@) =~= error_messages(old(errors)@).push(m@));
    }
}

impl ValueKind {
    /// The constraint errors for `raw`, which has already parsed as this kind.
    ///
    /// Lengths count characters, not bytes, and both length bounds and both
    /// number bounds are inclusive. A pattern must match the whole value: it
    /// is anchored as HTML anchors it and compiled with the `v` flag.
    pub fn check(&self, raw: &str) -> (r: Vec<FieldError>)
        requires
            checkable(*self, raw@),
        ensures
            error_messages(r@) == check_messages(*self, raw@),
    {
        let mut matched = true;
        if let ValueKind::Text { pattern: Some(patt), .. } = self {
            let mut wrapped = owned("^(?:");
            push_str(&mut wrapped, patt);
            push_str(&mut wrapped, ")$");
            match Pattern::compile(wrapped.as_str(), "v") {
                Ok(re) => {
                    matched = re.finds(raw);
                },
                Err(_) => {
                    proof {
                        assert(false);
                    }
                },
            }
        }
        self.check_given(raw, matched)
    }

    /// Whether `check` can run on `raw`: the anchored pattern, if any,
    /// compiles, and an integer field's text parses. Never for a float.
    pub fn can_check(&self, raw: &str) -> (r: bool)
        ensures
            r == checkable(*self, raw@),
    {
        match self {
            ValueKind::Text { pattern, .. } => match pattern {
                Some(patt) => {
                    let mut wrapped = owned("^(?:");
                    push_str(&mut wrapped, patt);
                    push_str(&mut wrapped, ")$");
                    Pattern::compile(wrapped.as_str(), "v").is_ok()
                },
                None => true,
            },
            ValueKind::Int { .. } => parse_i128(raw).is_some(),
            ValueKind::Float => false,
            ValueKind::Bool => true,
        }
    }

    /// `check` where it can run, `None` where it cannot.
    pub fn try_check(&self, raw: &str) -> (r: Option<Vec<FieldError>>)
        ensures
            r is Some <==> checkable(*self, raw@),
            r matches Some(v) ==> error_messages(v@) == check_messages(*self, raw@),
    {
        if self.can_check(raw) {
            Some(self.check(raw))
        } else {
            None
        }
    }

    /// The constraint errors for `raw`, given whether the anchored pattern
    /// (if any) matched it.
    pub fn check_given(&self, raw: &str, pattern_matches: bool) -> (r: Vec<FieldError>)
        requires
            self is Int ==> parse_i128_spec(raw@) is Some,
        ensures
            error_messages(r@) == check_messages_given(*self, raw@, pattern_matches),
    {
        let mut errors: Vec<FieldError> = Vec::new();
        match self {
            ValueKind::Text { min_length, max_length, pattern } => {
                let count = chars_of(raw).len();
                if let Some(min) = min_length {
                    if count < *min {
                        let mut m = owned("length must be at least ");
                        let d = usize_to_string(*min);
                        push_str(&mut m, d.as_str());
                        push_error(&mut errors, m);
                    }
                }
                if let Some(max) = max_length {
                    if count > *max {
                        let mut m = owned("length must be at most ");
                        let d = usize_to_string(*max);
                        push_str(&mut m, d.as_str());
                        push_error(&mut errors, m);
                    }
                }
                if let Some(patt) = pattern {
                    if !pattern_matches {
                        let mut m = owned("input should match the regular expression ");
                        push_str(&mut m, patt);
                        push_error(&mut errors, m);
                    }
                }
                proof {
                    assert(error_messages(errors@) =~= check_messages_given(*self, raw@, pattern_matches));
                }
            },
            ValueKind::Int { min, max } => {
                let n = match parse_i128(raw) {
                    Some(n) => n,
                    None => {
                        proof {
                            assert(false);
                        }
                        0
                    },
                };
                match (min, max) {
                    (Some(lo), Some(hi)) => {
                        if n < *lo || n > *hi {
                            let mut m = owned("number must be in the range ");
                            let a = i128_to_string(*lo);
                            push_str(&mut m, a.as_str());
                            push_str(&mut m, " up to (and including) ");
                            let b = i128_to_string(*hi);
                            push_str(&mut m, b.as_str());
                            push_error(&mut errors, m);
                        }
                    },
                    (Some(lo), None) => {
                        if n < *lo {
                            let mut m = owned("number must be at least ");
                            let a = i128_to_string(*lo);
                            push_str(&mut m, a.as_str());
                            push_error(&mut errors, m);
                        }
                    },
                    (None, Some(hi)) => {
                        if n > *hi {
                            let mut m = owned("number must be at most ");
                            let b = i128_to_string(*hi);
                            push_str(&mut m, b.as_str());
                            push_error(&mut errors, m);
                        }
                    },
                    (None, None) => {},
                }
                proof {
                    assert(error_messages(errors@) =~= check_messages_given(*self, raw@, pattern_matches));
                }
            },
            ValueKind::Float => {},
            ValueKind::Bool => {
                proof {
                    assert(error_messages(errors@) =~= check_messages_given(*self, raw@, pattern_matches));
                }
            },
        }
        errors
    }
}

/// Whether `raw` is one of the offered choice values.
pub open spec fn offered(choices: Seq<String>, raw: Seq<char>) -> bool {
    exists|k: int| 0 <= k < choices.len() && choices[k]@ == raw
}

/// Everything wrong with one field's value, in the order `validate` records it.
///
/// An empty field is required unless it is an unticked checkbox, and an
/// empty field fails no constraint. A value that did not parse carries its
/// own error and nothing else, so it never also collects "required". A value
/// that parsed is checked against its kind (`float_errors` standing in for the
/// check of a float, which is done outside this crate) and then against the
/// offered choices, if any.
pub open spec fn value_errors<T>(
    value: FieldValue<T>,
    unticked_checkbox: bool,
    raw: Seq<char>,
    kind: ValueKind,
    float_errors: Seq<Seq<char>>,
    choices: Option<Seq<String>>,
) -> Seq<Seq<char>> {
    match value {
        FieldValue::Empty => if unticked_checkbox {
            Seq::empty()
        } else {
            seq!["This field is required."@]
        },
        FieldValue::Invalid { error, .. } => seq![error.0@],
        FieldValue::Valid(_) => (if kind is Float {
            float_errors
        } else {
            check_messages(kind, raw)
        }) + match choices {
            Some(cs) => if offered(cs, raw) {
                Seq::empty()
            } else {
                seq!["not one of the available choices"@]
            },
            None => Seq::empty(),
        },
    }
}

/// An empty required field and a field that did not parse each get exactly
/// one error, and an empty field is never checked against its constraints.
pub proof fn lemma_one_error_when_missing_or_unparsed<T>(
    value: FieldValue<T>,
    unticked_checkbox: bool,
    raw: Seq<char>,
    kind: ValueKind,
    float_errors: Seq<Seq<char>>,
    choices: Option<Seq<String>>,
)
    ensures
        value is Invalid ==> value_errors(value, unticked_checkbox, raw, kind, float_errors, choices).len() == 1,
        value is Empty ==> value_errors(value, unticked_checkbox, raw, kind, float_errors, choices)
            == if unticked_checkbox {
            Seq::<Seq<char>>::empty()
        } else {
            seq!["This field is required."@]
        },
{
}

/// Validate one field: the errors `FormField::validate` leaves on it.
///
/// `raw` is the field's displayed value and `unticked_checkbox` whether it is
/// an empty checkbox; `float_errors` is the outcome of a float field's own
/// bounds check.
pub fn validate_value<T>(
    value: &FieldValue<T>,
    unticked_checkbox: bool,
    raw: &str,
    kind: &ValueKind,
    float_errors: Vec<FieldError>,
    choices: Option<&Vec<String>>,
) -> (r: Vec<FieldError>)
    requires
        value is Valid && !(kind is Float) ==> checkable(*kind, raw@),
    ensures
        error_messages(r@) == value_errors(
            *value,
            unticked_checkbox,
            raw@,
            *kind,
            error_messages(float_errors@),
            match choices {
                Some(cs) => Some(cs@),
                None => None,
            },
        ),
{
    match value {
        FieldValue::Empty => {
            let mut errors = Vec::new();
            if !unticked_checkbox {
                push_error(&mut errors, owned("This field is required."));
            } else {
                proof {
                    assert(error_messages(errors@) =~= Seq::<Seq<char>>::empty());
                }
            }
            errors
        },
        FieldValue::Invalid { error, .. } => {
            let mut errors = Vec::new();
            push_error(&mut errors, owned(error.0.as_str()));
            proof {
                assert(error_messages(errors@) =~= seq![error.0@]);
            }
            errors
        },
        FieldValue::Valid(_) => {
            let mut errors = match kind {
                ValueKind::Float => float_errors,
                _ => kind.check(raw),
            };
            let ghost before = error_messages(errors@);
            match choices {
                Some(cs) => {
                    let mut found = false;
                    let mut k: usize = 0;
                    while k < cs.len()
                        invariant
                            k <= cs@.len(),
                            found == exists|t: int| 0 <= t < k && cs@[t]@ == raw@,
                        decreases cs.len() - k,
                    {
                        if str_eq(cs[k].as_str(), raw) {
                            found = true;
                        }
                        k = k + 1;
                    }
                    if !found {
                        push_error(&mut errors, owned("not one of the available choices"));
                    } else {
                        proof {
                            assert(error_messages(errors@) =~= before + Seq::<Seq<char>>::empty());
                        }
                    }
                },
                None => {
                    proof {
                        assert(error_messages(errors@) =~= before + Seq::<Seq<char>>::empty());
                    }
                },
            }
            errors
        },
    }
}

// ── A field's value family and default widget ──────────────────────────

/// The scalar a field holds.
#[derive(Clone, Copy, Debug, PartialEq, Eq, Structural)]
pub enum Scalar {
    String,
    Bool,
    /// Any of the fixed-width integers up to 64 bits.
    Int,
    /// `f32` or `f64`.
    Float,
}

/// The constraints on a field that this crate can hold: integer bounds
/// already widened to `i128`, and the text constraints.
#[derive(Clone, Copy, Debug)]
pub struct IntTextConstraints {
    pub min: Option<i128>,
    pub max: Option<i128>,
    pub min_length: Option<usize>,
    pub max_length: Option<usize>,
    pub pattern: Option<&'static str>,
}

/// The value family a field of this scalar carries, with the constraints that
/// apply to it: text takes the length and pattern constraints, an integer
/// the bounds, and a bool none.
pub open spec fn value_kind_of(scalar: Scalar, c: IntTextConstraints) -> ValueKind {
    match scalar {
        Scalar::String => ValueKind::Text {
            min_length: c.min_length,
            max_length: c.max_length,
            pattern: c.pattern,
        },
        Scalar::Bool => ValueKind::Bool,
        Scalar::Int => ValueKind::Int { min: c.min, max: c.max },
        Scalar::Float => ValueKind::Float,
    }
}

/// The value family a field of this scalar carries.
pub fn value_kind(scalar: Scalar, c: &IntTextConstraints) -> (r: ValueKind)
    ensures
        r == value_kind_of(scalar, *c),
{
    match scalar {
        Scalar::String => ValueKind::Text {
            min_length: c.min_length,
            max_length: c.max_length,
            pattern: c.pattern,
        },
        Scalar::Bool => ValueKind::Bool,
        Scalar::Int => ValueKind::Int { min: c.min, max: c.max },
        Scalar::Float => ValueKind::Float,
    }
}

/// The widget a field renders as when nothing overrides it. Numbers render
/// as text: a number input hands back nothing for a half-typed value. An
/// optional bool has three states, one more than a checkbox, so it gets a
/// select.
pub open spec fn default_widget_of(kind: ValueKind, optional: bool) -> ControlType {
    match kind {
        ValueKind::Bool => if optional {
            ControlType::Select
        } else {
            ControlType::Checkbox
        },
        _ => ControlType::Input(InputType::Text),
    }
}

/// The widget a field renders as when nothing overrides it.
pub fn default_widget(kind: &ValueKind, optional: bool) -> (r: ControlType)
    ensures
        r == default_widget_of(*kind, optional),
{
    match kind {
        ValueKind::Bool => if optional {
            ControlType::Select
        } else {
            ControlType::Checkbox
        },
        _ => ControlType::Input(InputType::Text),
    }
}

/// `validate_value` where it can run: `None` for a parsed value whose
/// kind cannot be checked (a pattern that does not compile, or an integer
/// text that does not parse).
pub fn try_validate_value<T>(
    value: &FieldValue<T>,
    unticked_checkbox: bool,
    raw: &str,
    kind: &ValueKind,
    float_errors: Vec<FieldError>,
    choices: Option<&Vec<String>>,
) -> (r: Option<Vec<FieldError>>)
    ensures
        r is Some <==> (value is Valid && !(kind is Float) ==> checkable(*kind, raw@)),
        r matches Some(v) ==> error_messages(v@) == value_errors(
            *value,
            unticked_checkbox,
            raw@,
            *kind,
            error_messages(float_errors@),
            match choices {
                Some(cs) => Some(cs@),
                None => None,
            },
        ),
{
    let needs_check = match value {
        FieldValue::Valid(_) => !matches!(kind, ValueKind::Float),
        _ => false,
    };
    if needs_check && !kind.can_check(raw) {
        return None;
    }
    Some(validate_value(value, unticked_checkbox, raw, kind, float_errors, choices))
}

} // verus!
