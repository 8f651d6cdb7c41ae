use vstd::prelude::*;

use crate::regex_ops::{regex_accepts, regex_erase, regex_erase_all, regex_is_valid};
use crate::text_util::{chars_of, push_all, string_from_chars};

verus! {

/// The regex text `\s*?`: any whitespace, as little as possible.
pub open spec fn lazy_space() -> Seq<char> {
    seq!['\\', 's', '*', '?']
}

/// The regex text `.*`: the rest of the line.
pub open spec fn rest_of_line() -> Seq<char> {
    seq!['.', '*']
}

/// The alternative that matches one comment: optional whitespace, the comment
/// marker, optional whitespace, the keyword, and the rest of the line.
pub open spec fn comment_alternative(marker: Seq<char>, keyword: Seq<char>) -> Seq<char> {
    lazy_space() + marker + lazy_space() + keyword + rest_of_line()
}

/// `parts` joined with `sep` between neighbours.
pub open spec fn join_spec(parts: Seq<Seq<char>>, sep: Seq<char>) -> Seq<char>
    decreases parts.len(),
{
    if parts.len() == 0 {
        Seq::empty()
    } else if parts.len() == 1 {
        parts[0]
    } else {
        join_spec(parts.drop_last(), sep) + sep + parts.last()
    }
}

/// The character views of a list of string slices.
pub open spec fn str_views(v: Seq<&str>) -> Seq<Seq<char>> {
    v.map_values(|s: &str| s@)
}

/// The character views of a list of strings.
pub open spec fn string_views(v: Seq<String>) -> Seq<Seq<char>> {
    v.map_values(|s: String| s@)
}

/// Every `*` in a regex text is followed by `?`: every repetition is lazy, so
/// each match ends at the first place where the rest of the pattern matches.
pub open spec fn stars_are_lazy(p: Seq<char>) -> bool {
    forall|i: int| 0 <= i < p.len() && #[trigger] p[i] == '*' ==> i + 1 < p.len() && p[i + 1] == '?'
}

/// `stars_are_lazy` checked from index `i` on, one character at a time.
pub open spec fn stars_lazy_from(p: Seq<char>, i: int) -> bool
    decreases p.len() - i,
{
    if i < 0 || i >= p.len() {
        true
    } else {
        (p[i] == '*' ==> i + 1 < p.len() && p[i + 1] == '?') && stars_lazy_from(p, i + 1)
    }
}

/// The character-by-character check gives `stars_are_lazy`.
pub proof fn lemma_stars_lazy_from(p: Seq<char>, i: int)
    requires
        0 <= i,
        stars_lazy_from(p, i),
    ensures
        forall|j: int| i <= j < p.len() && #[trigger] p[j] == '*' ==> j + 1 < p.len() && p[j + 1] == '?',
    decreases p.len() - i,
{
    if i < p.len() {
        lemma_stars_lazy_from(p, i + 1);
    }
}

/// The comment regex of no keyword is empty; that of one keyword is
/// `\s*?`, the marker, `\s*?`, the keyword and `.*`; and adding a keyword adds
/// `|` and that keyword's alternative at the end: one alternative per keyword,
/// in the order of the keywords.
pub proof fn law_one_alternative_per_keyword(
    keywords: Seq<Seq<char>>,
    keyword: Seq<char>,
    marker: Seq<char>,
)
    ensures
        comment_pattern_spec(Seq::empty(), marker) == Seq::<char>::empty(),
        comment_pattern_spec(seq![keyword], marker) == seq!['\\', 's', '*', '?'] + marker + seq![
            '\\',
            's',
            '*',
            '?',
        ] + keyword + seq!['.', '*'],
        keywords.len() > 0 ==> comment_pattern_spec(keywords.push(keyword), marker)
            == comment_pattern_spec(keywords, marker) + seq!['|'] + comment_alternative(
            marker,
            keyword,
        ),
{
    let f = |k: Seq<char>| comment_alternative(marker, k);
    assert(Seq::<Seq<char>>::empty().map_values(f) =~= Seq::<Seq<char>>::empty());
    assert(seq![keyword].map_values(f) =~= seq![comment_alternative(marker, keyword)]);
    let longer = keywords.push(keyword).map_values(f);
    assert(longer.drop_last() =~= keywords.map_values(f));
    assert(longer.last() == comment_alternative(marker, keyword));
}

/// The regex that removes the comments led by `marker` and starting with one of
/// `keywords`: one alternative per keyword, joined by `|`.
pub open spec fn comment_pattern_spec(keywords: Seq<Seq<char>>, marker: Seq<char>) -> Seq<char> {
    join_spec(keywords.map_values(|k: Seq<char>| comment_alternative(marker, k)), seq!['|'])
}

/// What removing the comments gives: every match of the comment regex erased.
pub open spec fn remove_comment_spec(
    src: Seq<char>,
    keywords: Seq<Seq<char>>,
    marker: Seq<char>,
) -> Seq<char> {
    regex_erase(comment_pattern_spec(keywords, marker), src)
}

/// Builds the comment regex for `targets` and `comment_marker`.
/// The keywords and the marker are put into the regex as they are, unescaped.
pub fn comment_pattern(targets: &Vec<&str>, comment_marker: &str) -> (r: String)
    ensures
        r@ == comment_pattern_spec(str_views(targets@), comment_marker@),
{
    let ghost keys = str_views(targets@);
    let ghost alts = keys.map_values(|k: Seq<char>| comment_alternative(comment_marker@, k));
    let marker = chars_of(comment_marker);
    let space = vec!['\\', 's', '*', '?'];
    let rest = vec!['.', '*'];
    let mut out: Vec<char> = Vec::new();
    for i in 0..targets.len()
        invariant
            keys == str_views(targets@),
            alts == keys.map_values(|k: Seq<char>| comment_alternative(comment_marker@, k)),
            marker@ == comment_marker@,
            space@ == lazy_space(),
            rest@ == rest_of_line(),
            out@ == join_spec(alts.take(i as int), seq!['|']),
    {
        let ghost before = out@;
        if i > 0 {
            out.push('|');
        }
        let key = chars_of(targets[i]);
        push_all(&mut out, &space);
        push_all(&mut out, &marker);
        push_all(&mut out, &space);
        push_all(&mut out, &key);
        push_all(&mut out, &rest);
        proof {
            let a = alts.take(i + 1);
            assert(a.drop_last() =~= alts.take(i as int));
            assert(alts[i as int] == comment_alternative(comment_marker@, targets@[i as int]@));
            if i == 0 {
                assert(before =~= Seq::<char>::empty());
                assert(out@ =~= a[0]);
            } else {
                assert(out@ =~= join_spec(a.drop_last(), seq!['|']) + seq!['|'] + a.last());
            }
        }
    }
    assert(alts.take(targets.len() as int) =~= alts);
    string_from_chars(&out)
}

/// Removes from `src` the comments led by `comment_marker` whose text starts
/// with one of `targets`, together with the whitespace before them, up to the
/// end of the line.
pub fn remove_comment(src: &String, targets: &Vec<&str>, comment_marker: &str) -> (r: String)
    requires
        regex_accepts(comment_pattern_spec(str_views(targets@), comment_marker@)),
    ensures
        r@ == remove_comment_spec(src@, str_views(targets@), comment_marker@),
{
    let pattern = comment_pattern(targets, comment_marker);
    regex_erase_all(pattern.as_str(), src.as_str())
}

/// Whether the comment regex for `targets` and `comment_marker` compiles.
pub fn comment_pattern_is_valid(targets: &Vec<&str>, comment_marker: &str) -> (ok: bool)
    ensures
        ok == regex_accepts(comment_pattern_spec(str_views(targets@), comment_marker@)),
{
    let pattern = comment_pattern(targets, comment_marker);
    regex_is_valid(pattern.as_str())
}

/// The string slices of `v`, in order.
pub fn as_strs(v: &Vec<String>) -> (r: Vec<&str>)
    ensures
        str_views(r@) == string_views(v@),
{
    let mut r: Vec<&str> = Vec::new();
    for i in 0..v.len()
        invariant
            r@.len() == i,
            forall|j: int| 0 <= j < i ==> r@[j]@ == v@[j]@,
    {
        r.push(v[i].as_str());
    }
    assert(str_views(r@) =~= string_views(v@));
    r
}

} // verus!
