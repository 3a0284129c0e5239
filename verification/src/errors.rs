//! The error taxonomy of the templater, together with the exact text of each
//! error message, stated once as spec functions and once as verified builders.

use vstd::prelude::*;
use vstd::string::StringExecFns;

verus! {

/// Everything that can go wrong while rendering a template.
#[derive(Debug, PartialEq, Eq)]
pub enum StringTemplaterError {
    /// A placeholder was not closed by as many `}` as its form requires.
    /// Always fatal: it signals malformed template syntax.
    MissingCurvyBracket(String),
    /// A key (looked up directly or reached through mirror indirection) is
    /// absent from the flat map.
    UnknownField(String),
    /// An upstream conversion into a structured value failed; the message is
    /// passed through verbatim.
    SerializeError(String),
    /// The depth guard of the engine: recursive template expansion is allowed
    /// to nest `u64::MAX` levels deep, and this error reports that the guard
    /// was reached.  A chain of templates that expand one another that deeply
    /// cannot arise in any run that finishes, so in practice this error marks
    /// a cyclic chain, which the engine refuses to follow forever.
    RecursionLimit,
}

/// The mathematical shadow of `StringTemplaterError`: the same three
/// variants, carrying the message text as a sequence of characters.
pub enum ErrorView {
    MissingCurvyBracket(Seq<char>),
    UnknownField(Seq<char>),
    SerializeError(Seq<char>),
    RecursionLimit,
}

impl View for StringTemplaterError {
    type V = ErrorView;

    open spec fn view(&self) -> ErrorView {
        match self {
            StringTemplaterError::MissingCurvyBracket(m) => ErrorView::MissingCurvyBracket(m@),
            StringTemplaterError::UnknownField(m) => ErrorView::UnknownField(m@),
            StringTemplaterError::SerializeError(m) => ErrorView::SerializeError(m@),
            StringTemplaterError::RecursionLimit => ErrorView::RecursionLimit,
        }
    }
}

/// The English word for a count of missing closing braces (always 1 to 3).
pub open spec fn count_word(n: nat) -> Seq<char> {
    if n == 1 {
        "one"@
    } else if n == 2 {
        "two"@
    } else {
        "three"@
    }
}

/// Message of `MissingCurvyBracket`: how many `}` are missing, and the
/// scanned key text verbatim.
pub open spec fn missing_bracket_msg(n: nat, key: Seq<char>) -> Seq<char> {
    "Missing "@ + count_word(n) + " curvy bracket `}` around `"@ + key + "`."@
}

/// Message of `UnknownField`: the key that was not found.
pub open spec fn unknown_field_msg(key: Seq<char>) -> Seq<char> {
    "The field `"@ + key + "` does not exist in the hashmap."@
}

/// Builds the `MissingCurvyBracket` error for `n` missing braces around `key`.
pub fn missing_bracket_error(n: usize, key: &String) -> (r: StringTemplaterError)
    requires
        1 <= n <= 3,
    ensures
        r@ == ErrorView::MissingCurvyBracket(missing_bracket_msg(n as nat, key@)),
{
    let mut m = String::from_str("Missing ");
    if n == 1 {
        m.append("one");
    } else if n == 2 {
        m.append("two");
    } else {
        m.append("three");
    }
    m.append(" curvy bracket `}` around `");
    m.append(key.as_str());
    m.append("`.");
    StringTemplaterError::MissingCurvyBracket(m)
}

/// Builds the `UnknownField` error for `key`.
pub fn unknown_field_error(key: &String) -> (r: StringTemplaterError)
    ensures
        r@ == ErrorView::UnknownField(unknown_field_msg(key@)),
{
    let mut m = String::from_str("The field `");
    m.append(key.as_str());
    m.append("` does not exist in the hashmap.");
    StringTemplaterError::UnknownField(m)
}

} // verus!
