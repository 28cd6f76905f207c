//! How a field's or button's name becomes the label a person reads.
use vstd::prelude::*;

use heck::{
    ToKebabCase, ToLowerCamelCase, ToShoutyKebabCase, ToShoutySnakeCase, ToSnakeCase, ToTitleCase,
    ToTrainCase, ToUpperCamelCase,
};

use crate::text::{chars_of, string_of};

verus! {

/// The casing a derived label is written in.
#[derive(Clone, Copy, Debug, PartialEq, Eq, Structural)]
pub enum LabelCase {
    CamelLower,
    CamelCapitalized,
    KebabLower,
    KebabCapitalized,
    KebabAllCaps,
    SnakeLower,
    SnakeCapitalized,
    SnakeAllCaps,
    Title,
    Lower,
    AllCaps,
}

/// What `heck::ToLowerCamelCase::to_lower_camel_case` returns for a string.
pub uninterp spec fn heck_lower_camel(s: Seq<char>) -> Seq<char>;

/// What `heck::ToUpperCamelCase::to_upper_camel_case` returns for a string.
pub uninterp spec fn heck_upper_camel(s: Seq<char>) -> Seq<char>;

/// What `heck::ToKebabCase::to_kebab_case` returns for a string.
pub uninterp spec fn heck_kebab(s: Seq<char>) -> Seq<char>;

/// What `heck::ToTrainCase::to_train_case` returns for a string.
pub uninterp spec fn heck_train(s: Seq<char>) -> Seq<char>;

/// What `heck::ToShoutyKebabCase::to_shouty_kebab_case` returns for a string.
pub uninterp spec fn heck_shouty_kebab(s: Seq<char>) -> Seq<char>;

/// What `heck::ToSnakeCase::to_snake_case` returns for a string.
pub uninterp spec fn heck_snake(s: Seq<char>) -> Seq<char>;

/// What `heck::ToShoutySnakeCase::to_shouty_snake_case` returns for a string.
pub uninterp spec fn heck_shouty_snake(s: Seq<char>) -> Seq<char>;

/// What `heck::ToTitleCase::to_title_case` returns for a string.
pub uninterp spec fn heck_title(s: Seq<char>) -> Seq<char>;

/// What `str::to_lowercase` returns for a string (Unicode lowercase mapping).
pub uninterp spec fn str_lowercase(s: Seq<char>) -> Seq<char>;

/// What `str::to_uppercase` returns for a string (Unicode uppercase mapping).
pub uninterp spec fn str_uppercase(s: Seq<char>) -> Seq<char>;

/// `heck`'s lowerCamelCase conversion; claims only that the result is a
/// function of the input.
#[verifier::external_body]
fn lower_camel(s: &str) -> (r: String)
    ensures
        r@ == heck_lower_camel(s@),
{
    s.to_lower_camel_case()
}

/// `heck`'s UpperCamelCase conversion; claims only that the result is a
/// function of the input.
#[verifier::external_body]
fn upper_camel(s: &str) -> (r: String)
    ensures
        r@ == heck_upper_camel(s@),
{
    s.to_upper_camel_case()
}

/// `heck`'s kebab-case conversion; claims only that the result is a function
/// of the input.
#[verifier::external_body]
fn kebab(s: &str) -> (r: String)
    ensures
        r@ == heck_kebab(s@),
{
    s.to_kebab_case()
}

/// `heck`'s Train-Case conversion; claims only that the result is a function
/// of the input.
#[verifier::external_body]
fn train(s: &str) -> (r: String)
    ensures
        r@ == heck_train(s@),
{
    s.to_train_case()
}

/// `heck`'s SHOUTY-KEBAB-CASE conversion; claims only that the result is a
/// function of the input.
#[verifier::external_body]
fn shouty_kebab(s: &str) -> (r: String)
    ensures
        r@ == heck_shouty_kebab(s@),
{
    s.to_shouty_kebab_case()
}

/// `heck`'s snake_case conversion; claims only that the result is a function
/// of the input.
#[verifier::external_body]
fn snake(s: &str) -> (r: String)
    ensures
        r@ == heck_snake(s@),
{
    s.to_snake_case()
}

/// `heck`'s SHOUTY_SNAKE_CASE conversion; claims only that the result is a
/// function of the input.
#[verifier::external_body]
fn shouty_snake(s: &str) -> (r: String)
    ensures
        r@ == heck_shouty_snake(s@),
{
    s.to_shouty_snake_case()
}

/// `heck`'s Title Case conversion; claims only that the result is a function
/// of the input.
#[verifier::external_body]
fn title(s: &str) -> (r: String)
    ensures
        r@ == heck_title(s@),
{
    s.to_title_case()
}

/// `str::to_lowercase`; claims only that the result is a function of the input.
#[verifier::external_body]
fn lowercase(s: &str) -> (r: String)
    ensures
        r@ == str_lowercase(s@),
{
    s.to_lowercase()
}

/// `str::to_uppercase`; claims only that the result is a function of the input.
#[verifier::external_body]
fn uppercase(s: &str) -> (r: String)
    ensures
        r@ == str_uppercase(s@),
{
    s.to_uppercase()
}

/// Every `-` in `s` replaced by `_`.
pub open spec fn hyphens_to_underscores(s: Seq<char>) -> Seq<char> {
    s.map_values(|c: char| if c == '-' { '_' } else { c })
}

/// `s.replace('-', "_")`.
pub fn replace_hyphens(s: &str) -> (r: String)
    ensures
        r@ == hyphens_to_underscores(s@),
{
    let cs = chars_of(s);
    let mut out: Vec<char> = Vec::new();
    let mut i: usize = 0;
    while i < cs.len()
        invariant
            cs@ == s@,
            i <= cs.len(),
            out@ == hyphens_to_underscores(cs@.take(i as int)),
        decreases cs.len() - i,
    {
        let c = if cs[i] == '-' { '_' } else { cs[i] };
        out.push(c);
        proof {
            assert(hyphens_to_underscores(cs@.take(i + 1)) =~= hyphens_to_underscores(
                cs@.take(i as int),
            ).push(c));
        }
        i = i + 1;
    }
    proof {
        assert(cs@.take(cs@.len() as int) =~= cs@);
    }
    string_of(&out)
}

/// `s` written in `case`.
pub open spec fn label_cased(s: Seq<char>, case: LabelCase) -> Seq<char> {
    match case {
        LabelCase::CamelLower => heck_lower_camel(s),
        LabelCase::CamelCapitalized => heck_upper_camel(s),
        LabelCase::KebabLower => heck_kebab(s),
        LabelCase::KebabCapitalized => heck_train(s),
        LabelCase::KebabAllCaps => heck_shouty_kebab(s),
        LabelCase::SnakeLower => heck_snake(s),
        LabelCase::SnakeCapitalized => hyphens_to_underscores(heck_train(s)),
        LabelCase::SnakeAllCaps => heck_shouty_snake(s),
        LabelCase::Title => heck_title(s),
        LabelCase::Lower => str_lowercase(heck_title(s)),
        LabelCase::AllCaps => str_uppercase(heck_title(s)),
    }
}

/// Writing a name in a label casing.
pub trait ToCase {
    fn to_case(self, case: LabelCase) -> String;
}

impl<'a> ToCase for &'a str {
    fn to_case(self, case: LabelCase) -> (r: String)
        ensures
            r@ == label_cased(self@, case),
    {
        match case {
            LabelCase::CamelLower => lower_camel(self),
            LabelCase::CamelCapitalized => upper_camel(self),
            LabelCase::KebabLower => kebab(self),
            LabelCase::KebabCapitalized => train(self),
            LabelCase::KebabAllCaps => shouty_kebab(self),
            LabelCase::SnakeLower => snake(self),
            LabelCase::SnakeCapitalized => {
                let t = train(self);
                replace_hyphens(t.as_str())
            },
            LabelCase::SnakeAllCaps => shouty_snake(self),
            LabelCase::Title => title(self),
            LabelCase::Lower => {
                let t = title(self);
                lowercase(t.as_str())
            },
            LabelCase::AllCaps => {
                let t = title(self);
                uppercase(t.as_str())
            },
        }
    }
}

} // verus!
