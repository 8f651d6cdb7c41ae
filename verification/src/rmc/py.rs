use vstd::prelude::*;

use crate::regex_ops::{regex_accepts, regex_erase, regex_erase_all};
use crate::rmc::ps;
use crate::rmc::common::{self, lemma_stars_lazy_from, stars_are_lazy, stars_lazy_from, comment_pattern_spec, remove_comment_spec, str_views};
use crate::text_util::{chars_of, string_from_chars};

verus! {

/// The single-line comment marker of Python.
pub open spec fn hash_marker() -> Seq<char> {
    seq!['#']
}

/// The regex of a Python triple-quoted string, `"""..."""` or `'''...'''`
/// (non-greedy), with the whitespace before it.
pub open spec fn triple_quote_pattern() -> Seq<char> {
    r#"\s*?"{3}[\s\S]*?"{3}|\s*?'{3}[\s\S]*?'{3}"#@
}

/// `s` without one final line break ("\n" or "\r\n").
pub open spec fn strip_line_break(s: Seq<char>) -> Seq<char> {
    if s.len() >= 2 && s[s.len() - 2] == '\r' && s[s.len() - 1] == '\n' {
        s.take(s.len() - 2)
    } else if s.len() >= 1 && s[s.len() - 1] == '\n' {
        s.drop_last()
    } else {
        s
    }
}

/// `s` without the double quotes around it, when it has a pair of them.
pub open spec fn strip_double_quotes(s: Seq<char>) -> Seq<char> {
    if s.len() >= 2 && s[0] == '"' && s[s.len() - 1] == '"' {
        s.subrange(1, s.len() - 1)
    } else {
        s
    }
}

/// Python and PowerShell single-line comments are removed in the same way:
/// both are led by `#`.
pub proof fn law_same_comment_removal_as_powershell(src: Seq<char>, keywords: Seq<Seq<char>>)
    ensures
        remove_comment_spec(src, keywords, hash_marker()) == remove_comment_spec(
            src,
            keywords,
            ps::hash_marker(),
        ),
{
}

/// Removes from `src` the `#` comments whose text starts with one of `targets`,
/// with the whitespace before them, up to the end of the line.
pub fn remove_comment(src: &String, targets: Vec<&str>) -> (r: String)
    requires
        regex_accepts(comment_pattern_spec(str_views(targets@), hash_marker())),
    ensures
        r@ == remove_comment_spec(src@, str_views(targets@), hash_marker()),
{
    let comment_marker = "#";
    proof {
        reveal_strlit("#");
    }
    assert(comment_marker@ == hash_marker());
    common::remove_comment(src, &targets, comment_marker)
}

/// The triple-quote regex, as a string.
pub fn triple_quote_regex() -> (r: &'static str)
    ensures
        r@ == triple_quote_pattern(),
{
    r#"\s*?"{3}[\s\S]*?"{3}|\s*?'{3}[\s\S]*?'{3}"#
}

/// Removes every triple-quoted string (docstrings among them) from `src`, with
/// the whitespace before it.
pub fn remove_docstring(src: &String) -> (r: String)
    requires
        regex_accepts(triple_quote_pattern()),
    ensures
        r@ == regex_erase(triple_quote_pattern(), src@),
{
    regex_erase_all(triple_quote_regex(), src.as_str())
}

/// Drops one final line break of `src`, then the pair of double quotes around
/// what is left, if it has one.
pub fn remove_head_and_tail_double_quotation(src: &String) -> (r: String)
    ensures
        r@ == strip_double_quotes(strip_line_break(src@)),
{
    let v = chars_of(src.as_str());
    let n = v.len();
    let end: usize = if n >= 2 && v[n - 2] == '\r' && v[n - 1] == '\n' {
        n - 2
    } else if n >= 1 && v[n - 1] == '\n' {
        n - 1
    } else {
        n
    };
    let ghost line = strip_line_break(src@);
    assert(line =~= v@.take(end as int));
    let (start, stop) = if end >= 2 && v[0] == '"' && v[end - 1] == '"' {
        (1usize, end - 1)
    } else {
        (0usize, end)
    };
    let mut out: Vec<char> = Vec::new();
    let mut i: usize = start;
    while i < stop
        invariant
            start <= i <= stop <= end <= n,
            n == v.len(),
            out@ == v@.subrange(start as int, i as int),
        decreases stop - i,
    {
        out.push(v[i]);
        assert(v@.subrange(start as int, i + 1) =~= v@.subrange(start as int, i as int).push(v@[i as int]));
        i = i + 1;
    }
    assert(out@ =~= strip_double_quotes(line));
    string_from_chars(&out)
}

/// The triple-quote regex repeats lazily: each match runs from three quotes to
/// the first three quotes of the same kind after them, so code between two
/// docstrings is kept.
pub proof fn law_triple_quote_regex_is_lazy()
    ensures
        stars_are_lazy(triple_quote_pattern()),
{
    reveal_strlit(r#"\s*?"{3}[\s\S]*?"{3}|\s*?'{3}[\s\S]*?'{3}"#);
    let p = triple_quote_pattern();
    assert(p =~= r#"\s*?"{3}[\s\S]*?"{3}|\s*?'{3}[\s\S]*?'{3}"#@);
    reveal_with_fuel(stars_lazy_from, 60);
    assert(stars_lazy_from(p, 0));
    lemma_stars_lazy_from(p, 0);
}

} // verus!
