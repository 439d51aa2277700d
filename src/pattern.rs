//! Name patterns: globs (`*`, `?`, `[...]`, `{a,b}`) matched against a file's whole name, by
//! the globset crate.

use vstd::prelude::*;
use crate::error::LffError;

verus! {

#[verifier::external_type_specification]
#[verifier::external_body]
pub struct ExGlobSet(globset::GlobSet);

#[verifier::external_type_specification]
#[verifier::external_body]
pub struct ExGlobError(globset::Error);

/// Whether globset accepts `pattern` as a glob and builds a matcher for it.
pub uninterp spec fn glob_parses(pattern: Seq<char>) -> bool;

/// Whether the glob `pattern`, built by globset with its default options, matches `path`.
pub uninterp spec fn glob_accepts(pattern: Seq<char>, path: Seq<u8>) -> bool;

/// Relies on `globset::Glob::new`, which parses the pattern, and `globset::GlobSet::new`, which
/// builds the matcher of that one glob; each reports a failure as an error rather than a panic.
#[verifier::external_body]
fn compile_glob(text: &str) -> (r: Result<globset::GlobSet, globset::Error>)
    ensures
        r is Ok <==> glob_parses(text@),
{
    match globset::Glob::new(text) {
        Ok(glob) => globset::GlobSet::new([glob]),
        Err(e) => Err(e),
    }
}

/// Relies on `<globset::Error as Display>::fmt`, for the text of the cause.
#[verifier::external_body]
fn glob_error_text(e: &globset::Error) -> (r: String) {
    e.to_string()
}

/// A glob together with the matcher compiled from it.
pub struct NamePattern {
    text: String,
    matcher: globset::GlobSet,
}

impl View for NamePattern {
    type V = Seq<char>;

    /// The glob's text.
    closed spec fn view(&self) -> Seq<char> {
        self.text@
    }
}

impl NamePattern {
    /// Compiles the glob `text`; a malformed glob is an error that names it.
    pub fn compile(text: &str) -> (r: Result<NamePattern, LffError>)
        ensures
            r is Ok <==> glob_parses(text@),
            r matches Ok(p) ==> p@ == text@,
            r matches Err(e) ==> e matches LffError::InvalidPattern { pattern, .. } && pattern@
                == text@,
    {
        match compile_glob(text) {
            Ok(matcher) => Ok(NamePattern { text: String::from_str(text), matcher }),
            Err(e) => Err(
                LffError::InvalidPattern { pattern: String::from_str(text), cause: glob_error_text(&e) },
            ),
        }
    }

    /// The glob's text.
    pub fn text(&self) -> (r: &str)
        ensures
            r@ == self@,
    {
        self.text.as_str()
    }

    /// Relies on `globset::GlobSet::is_match_candidate`, given the name's bytes through
    /// `globset::Candidate::from_bytes`: whether the glob matches depends on the glob and the
    /// name alone. The matcher is the one `compile` built from `text` alone, and neither field
    /// changes after that.
    #[verifier::external_body]
    pub(crate) fn accepts(&self, name: &[u8]) -> (r: bool)
        ensures
            r == glob_accepts(self@, name@),
    {
        self.matcher.is_match_candidate(&globset::Candidate::from_bytes(name))
    }
}

} // verus!
