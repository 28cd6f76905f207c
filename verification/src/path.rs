//! Compile-checked paths into a model.
//!
//! A leaf path (`email`, `venue.city`, `answers[].text`) is the wire format,
//! so it is a string at the boundary; [`Path`] keeps it typed elsewhere.
use std::marker::PhantomData;
use vstd::prelude::*;
use vstd::std_specs::cmp::PartialEqSpecImpl;

use crate::text::str_eq;

verus! {

/// One leaf path into `T`. It holds no `T`.
pub struct Path<T> {
    raw: &'static str,
    model: PhantomData<T>,
}

impl<T> Path<T> {
    /// The wire spelling, as a sequence of characters.
    pub closed spec fn spelling(self) -> Seq<char> {
        self.raw@
    }

    /// Made only by `path!`, next to a witness that the path exists on `T`.
    pub fn __new(raw: &'static str) -> (r: Self)
        ensures
            r.spelling() == raw@,
    {
        Path { raw, model: PhantomData }
    }

    /// The wire spelling: what field errors and the value map are keyed by.
    pub fn as_str(&self) -> (r: &'static str)
        ensures
            r@ == self.spelling(),
    {
        self.raw
    }
}

impl<T> Clone for Path<T> {
    fn clone(&self) -> (r: Self)
        ensures
            r.spelling() == self.spelling(),
    {
        Path { raw: self.raw, model: PhantomData }
    }
}

impl<T> Copy for Path<T> {}

impl<T> PartialEq for Path<T> {
    fn eq(&self, other: &Self) -> (r: bool) {
        str_eq(self.raw, other.raw)
    }
}

impl<T> PartialEqSpecImpl for Path<T> {
    open spec fn obeys_eq_spec() -> bool {
        true
    }

    open spec fn eq_spec(&self, other: &Self) -> bool {
        self.spelling() == other.spelling()
    }
}

impl<T> Eq for Path<T> {}

} // verus!
