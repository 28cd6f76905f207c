//! App-wide defaults: what a form falls back on when it states nothing.
use vstd::prelude::*;

use crate::label_case::LabelCase;

verus! {

/// The settings a whole app can fix once.
#[derive(Clone, Debug, PartialEq, Eq, Structural)]
#[non_exhaustive]
pub struct Formoxus {
    /// How a field's name becomes its label when nothing names one explicitly.
    pub label_case: LabelCase,
    /// Whether browser validation runs before the form's own.
    pub use_browser_validation: bool,
}

impl Default for Formoxus {
    /// The built-ins: title-case labels, browser validation on.
    fn default() -> (r: Self)
        ensures
            r.label_case == LabelCase::Title,
            r.use_browser_validation,
    {
        Formoxus { label_case: LabelCase::Title, use_browser_validation: true }
    }
}

impl Formoxus {
    pub fn new() -> (r: Self)
        ensures
            r.label_case == LabelCase::Title,
            r.use_browser_validation,
    {
        Formoxus::default()
    }

    pub fn with_label_case(self, case: LabelCase) -> (r: Self)
        ensures
            r.label_case == case,
            r.use_browser_validation == self.use_browser_validation,
    {
        Formoxus { label_case: case, use_browser_validation: self.use_browser_validation }
    }

    pub fn use_browser_validation(self, value: bool) -> (r: Self)
        ensures
            r.label_case == self.label_case,
            r.use_browser_validation == value,
    {
        Formoxus { label_case: self.label_case, use_browser_validation: value }
    }
}

} // verus!
