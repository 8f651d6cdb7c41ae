use vstd::prelude::*;

verus! {

/// Whether the `regex` crate compiles `pattern` (with its default size limit).
pub uninterp spec fn regex_accepts(pattern: Seq<char>) -> bool;

/// What the `regex` crate gives for `text` when every match of `pattern`,
/// leftmost-first and non-overlapping, is replaced by the empty string.
pub uninterp spec fn regex_erase(pattern: Seq<char>, text: Seq<char>) -> Seq<char>;

/// Calls `regex::Regex::new` and reports whether it succeeded.
/// Trusted: the result is `regex_accepts` of the pattern; whether a pattern
/// compiles depends on the pattern alone (its syntax and the default size limit).
#[verifier::external_body]
pub(crate) fn regex_is_valid(pattern: &str) -> (ok: bool)
    ensures
        ok == regex_accepts(pattern@),
{
    regex::Regex::new(pattern).is_ok()
}

/// Compiles `pattern` with `regex::Regex::new` and calls `Regex::replace_all`
/// on `text` with the empty replacement (which holds no `$` group reference).
/// Trusted: the result is `regex_erase(pattern, text)`. The pattern must compile;
/// the body unwraps the compiled regex.
#[verifier::external_body]
pub(crate) fn regex_erase_all(pattern: &str, text: &str) -> (r: String)
    requires
        regex_accepts(pattern@),
    ensures
        r@ == regex_erase(pattern@, text@),
{
    regex::Regex::new(pattern).unwrap().replace_all(text, "").into_owned()
}

} // verus!
