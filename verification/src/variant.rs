//! An enum-typed member's answer: which variant was chosen, if any.
use vstd::prelude::*;

use crate::text::{join, owned, push_str, str_eq, views};
use crate::vocab::{debug_quoted, debug_str};

verus! {

/// The variant chosen for an enum field. Not a bare `String`: `None` may be a
/// real variant name, so "nothing chosen" is a variant of its own.
#[derive(Clone, Debug, PartialEq, Eq)]
pub enum VariantChoice {
    /// Nothing chosen, which an optional enum field allows.
    Unchosen,
    /// This variant, by name.
    Named(String),
}

impl VariantChoice {
    /// The chosen variant's name, if one is chosen.
    pub fn chosen(&self) -> (r: Option<String>)
        ensures
            match self {
                VariantChoice::Unchosen => r is None,
                VariantChoice::Named(v) => r matches Some(n) && n@ == v@,
            },
    {
        match self {
            VariantChoice::Unchosen => None,
            VariantChoice::Named(v) => Some(owned(v.as_str())),
        }
    }
}

/// The position of the first variant named `name`, if any.
pub open spec fn variant_position(variants: Seq<Seq<char>>, name: Seq<char>) -> Option<int> {
    if exists|k: int| 0 <= k < variants.len() && variants[k] == name {
        Some(
            choose|k: int|
                0 <= k < variants.len() && variants[k] == name && forall|j: int|
                    0 <= j < k ==> variants[j] != name,
        )
    } else {
        None
    }
}

/// The message for a name that is not a variant, listing the real ones as
/// `{:?}` writes a list of names.
pub open spec fn unknown_variant_message(name: Seq<char>, path: Seq<char>, variants: Seq<Seq<char>>) -> Seq<char> {
    debug_quoted(name) + " is not a variant of the enum at "@ + path + " (expected one of ["@ + join(
        variants.map_values(|v: Seq<char>| debug_quoted(v)),
        ", "@,
    ) + "])"@
}

/// Look a variant up by name: its position, or a message that lists the
/// real options.
pub fn lookup_variant(variants: &Vec<&str>, name: &str, my_path: &str) -> (r: Result<usize, String>)
    ensures
        match variant_position(views(variants@), name@) {
            Some(k) => r == Ok::<usize, String>(k as usize),
            None => r matches Err(m) && m@ == unknown_variant_message(name@, my_path@, views(variants@)),
        },
{
    let ghost vs = views(variants@);
    let mut k: usize = 0;
    while k < variants.len()
        invariant
            k <= variants@.len(),
            vs == views(variants@),
            forall|j: int| 0 <= j < k ==> vs[j] != name@,
        decreases variants.len() - k,
    {
        if str_eq(variants[k], name) {
            proof {
                assert(vs[k as int] == name@);
                let w = variant_position(vs, name@)->0;
                assert(0 <= k < vs.len() && vs[k as int] == name@ && forall|j: int|
                    0 <= j < k ==> vs[j] != name@);
                if w < k {
                } else if w > k {
                }
                assert(w == k);
            }
            return Ok(k);
        }
        k = k + 1;
    }
    let mut quoted: Vec<String> = Vec::new();
    let mut i: usize = 0;
    while i < variants.len()
        invariant
            i <= variants@.len(),
            vs == views(variants@),
            quoted@.len() == i,
            forall|j: int| 0 <= j < i ==> (#[trigger] quoted@[j])@ == debug_quoted(vs[j]),
        decreases variants.len() - i,
    {
        let q = debug_str(variants[i]);
        proof {
            assert(vs[i as int] == variants@[i as int]@);
        }
        quoted.push(q);
        i = i + 1;
    }
    proof {
        assert(quoted@.map_values(|s: String| s@) =~= vs.map_values(|v: Seq<char>| debug_quoted(v)));
    }
    let mut m = debug_str(name);
    push_str(&mut m, " is not a variant of the enum at ");
    push_str(&mut m, my_path);
    push_str(&mut m, " (expected one of [");
    let all = crate::text::join_strings(&quoted, ", ");
    push_str(&mut m, all.as_str());
    push_str(&mut m, "])");
    Err(m)
}

} // verus!
