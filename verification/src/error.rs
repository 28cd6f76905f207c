//! The three kinds of message a form reports.
use vstd::prelude::*;

verus! {

/// A form-level validation message: one that belongs to the form as a whole.
#[derive(Clone, Debug, PartialEq, Eq)]
pub struct FormError(pub String);

/// A validation message attached to one field.
#[derive(Clone, Debug, PartialEq, Eq)]
pub struct FieldError(pub String);

/// A caller reached for a form path that does not exist, or a name that is
/// not declared: a bug or a hand-crafted request, not something a user fixes
/// by typing.
#[derive(Clone, Debug, PartialEq, Eq)]
pub struct FormAccessError(pub String);

/// Every error a validation left: the form-wide ones, and each field's by
/// its path. A failure can have no field errors at all (a cross-field check),
/// so success is told apart by a `Result`, never by this being empty.
#[derive(Clone, Debug)]
pub struct FormErrors {
    pub form: Vec<FormError>,
    pub fields: Vec<(String, Vec<FieldError>)>,
}

impl FormAccessError {
    /// The text the error displays as.
    pub fn message(&self) -> (r: &str)
        ensures
            r@ == self.0@,
    {
        self.0.as_str()
    }
}

} // verus!
