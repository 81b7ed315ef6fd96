//! Rewriting text with regular expressions.
use vstd::prelude::*;
use crate::text::{chars_of, string_of};
use crate::split::{replace, replace_of};

verus! {

/// Whether the engine accepts `pattern` as a regular expression.
pub uninterp spec fn regex_compiles(pattern: Seq<char>) -> bool;

/// The text that the engine makes of `text` when each match of `pattern`, from the left
/// and without overlap, is replaced by `replacement` with its group references expanded.
pub uninterp spec fn regex_replaced(
    pattern: Seq<char>,
    text: Seq<char>,
    replacement: Seq<char>,
) -> Seq<char>;

/// `regex::Regex::new`, then `Regex::replace_all` on the compiled expression: `None` for a
/// pattern that does not compile, else the text after the replacement. Both depend on
/// their arguments alone.
#[verifier::external_body]
fn regex_replace_all(pattern: &str, text: &str, replacement: &str) -> (r: Option<String>)
    ensures
        r is Some <==> regex_compiles(pattern@),
        r matches Some(s) ==> s@ == regex_replaced(pattern@, text@, replacement@),
{
    match regex::Regex::new(pattern) {
        Ok(re) => Some(re.replace_all(text, replacement).into_owned()),
        Err(_) => None,
    }
}

/// `text` after the replacement of every match of `pattern`; `text` itself where the
/// engine does not accept the pattern.
pub open spec fn rewritten(pattern: Seq<char>, text: Seq<char>, replacement: Seq<char>) -> Seq<
    char,
> {
    if regex_compiles(pattern) {
        regex_replaced(pattern, text, replacement)
    } else {
        text
    }
}

/// What is returned for each outcome of the engine.
pub fn or_unchanged(outcome: Option<String>, text: &str) -> (r: String)
    ensures
        r@ == match outcome {
            Some(s) => s@,
            None => text@,
        },
{
    match outcome {
        Some(s) => s,
        None => string_of(&chars_of(text)),
    }
}

/// Replaces every match of `pattern` in `text` by `replacement`.
pub fn rewrite(pattern: &str, text: &str, replacement: &str) -> (r: String)
    ensures
        r@ == rewritten(pattern@, text@, replacement@),
{
    or_unchanged(regex_replace_all(pattern, text, replacement), text)
}

/// Replaces every occurrence of `from` in `text` by `to`.
pub fn substitute(text: &str, from: &str, to: &str) -> (r: String)
    ensures
        r@ == replace(text@, from@, to@),
{
    string_of(&replace_of(&chars_of(text), &chars_of(from), &chars_of(to)))
}

} // verus!
