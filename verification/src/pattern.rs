//! `pattern` constraints: ECMAScript regular expressions, through `regress`.
use vstd::prelude::*;

verus! {

/// The compiled regular expression type of `regress`.
#[verifier::external_type_specification]
#[verifier::external_body]
pub struct ExRegex(regress::Regex);

/// Whether `regress::Regex::with_flags` accepts this pattern with these flags.
pub uninterp spec fn regex_compiles(pattern: Seq<char>, flags: Seq<char>) -> bool;

/// The text of the error `regress::Regex::with_flags` reports for this pattern
/// with these flags.
pub uninterp spec fn regex_error_text(pattern: Seq<char>, flags: Seq<char>) -> Seq<char>;

/// Whether `regress::Regex::find` finds a match in `text` for the regex
/// compiled from this pattern with these flags.
pub uninterp spec fn regex_finds(pattern: Seq<char>, flags: Seq<char>, text: Seq<char>) -> bool;

/// A compiled pattern, remembering what it was compiled from.
pub struct Pattern {
    source: String,
    flags: String,
    regex: regress::Regex,
}

impl Pattern {
    /// The pattern this was compiled from.
    pub closed spec fn source(self) -> Seq<char> {
        self.source@
    }

    /// The flags this was compiled with.
    pub closed spec fn flags(self) -> Seq<char> {
        self.flags@
    }

    /// `regress::Regex::with_flags`: compiles `source` with `flags`. The
    /// contract claims that success and the error text are functions of the
    /// two strings, and records what a success was compiled from.
    #[verifier::external_body]
    pub(crate) fn compile(source: &str, flags: &str) -> (r: Result<Pattern, String>)
        ensures
            r is Ok <==> regex_compiles(source@, flags@),
            r matches Ok(p) ==> p.source() == source@ && p.flags() == flags@,
            r matches Err(e) ==> e@ == regex_error_text(source@, flags@),
    {
        match regress::Regex::with_flags(source, flags) {
            Ok(regex) => Ok(Pattern { source: source.to_string(), flags: flags.to_string(), regex }),
            Err(e) => Err(e.text),
        }
    }

    /// `regress::Regex::find`, answering only whether there is a match. The
    /// contract claims that the answer is a function of the pattern, the flags
    /// and the text.
    #[verifier::external_body]
    pub(crate) fn finds(&self, text: &str) -> (r: bool)
        ensures
            r == regex_finds(self.source(), self.flags(), text@),
    {
        self.regex.find(text).is_some()
    }
}

} // verus!
