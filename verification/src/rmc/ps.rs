use vstd::prelude::*;

use crate::regex_ops::{regex_accepts, regex_erase, regex_erase_all};
use crate::rmc::common::{self, lemma_stars_lazy_from, stars_are_lazy, stars_lazy_from, comment_pattern_spec, remove_comment_spec, str_views};

verus! {

/// The single-line comment marker of PowerShell.
pub open spec fn hash_marker() -> Seq<char> {
    seq!['#']
}

/// The regex of a PowerShell block comment `<# ... #>` (non-greedy) with the
/// whitespace before it.
pub open spec fn block_comment_pattern() -> Seq<char> {
    r#"\s*?<#[\s\S]*?#>"#@
}

/// Removes from `src` the `#` comments whose text starts with one of `targets`,
/// with the whitespace before them, up to the end of the line.
pub fn remove_comment(src: &String, targets: &Vec<&str>) -> (r: String)
    requires
        regex_accepts(comment_pattern_spec(str_views(targets@), hash_marker())),
    ensures
        r@ == remove_comment_spec(src@, str_views(targets@), hash_marker()),
{
    let comment_marker = "#";
    proof {
        reveal_strlit("#");
    }
    assert(comment_marker@ == hash_marker());
    common::remove_comment(src, targets, comment_marker)
}

/// The block comment regex, as a string.
pub fn block_comment_regex() -> (r: &'static str)
    ensures
        r@ == block_comment_pattern(),
{
    r#"\s*?<#[\s\S]*?#>"#
}

/// Removes every block comment `<# ... #>` from `src`, with the whitespace
/// before it.
pub fn remove_multiline_comment(src: &String) -> (r: String)
    requires
        regex_accepts(block_comment_pattern()),
    ensures
        r@ == regex_erase(block_comment_pattern(), src@),
{
    regex_erase_all(block_comment_regex(), src.as_str())
}

/// The block comment regex repeats lazily: each match runs from a `<#` to the
/// first `#>` after it, so code between two block comments is kept.
pub proof fn law_block_comment_regex_is_lazy()
    ensures
        stars_are_lazy(block_comment_pattern()),
{
    reveal_strlit(r#"\s*?<#[\s\S]*?#>"#);
    let p = block_comment_pattern();
    assert(p =~= r#"\s*?<#[\s\S]*?#>"#@);
    reveal_with_fuel(stars_lazy_from, 60);
    assert(stars_lazy_from(p, 0));
    lemma_stars_lazy_from(p, 0);
}

} // verus!
