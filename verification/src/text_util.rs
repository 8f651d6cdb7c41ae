use vstd::prelude::*;

verus! {

/// `to` before every character of `s` and once more at its end: what replacing
/// the empty pattern gives.
pub open spec fn interleave(s: Seq<char>, to: Seq<char>) -> Seq<char>
    decreases s.len(),
{
    if s.len() == 0 {
        to
    } else {
        to + seq![s[0]] + interleave(s.drop_first(), to)
    }
}

/// Every non-overlapping occurrence of `from` in `s`, found from left to right,
/// replaced by `to`.
pub open spec fn replace_spec(s: Seq<char>, from: Seq<char>, to: Seq<char>) -> Seq<char>
    decreases s.len(),
{
    if from.len() == 0 {
        interleave(s, to)
    } else if s.len() < from.len() {
        s
    } else if s.take(from.len() as int) == from {
        to + replace_spec(s.skip(from.len() as int), from, to)
    } else {
        seq![s[0]] + replace_spec(s.drop_first(), from, to)
    }
}

/// `from` occurs in `s` starting at index `i`.
pub open spec fn occurs_at(s: Seq<char>, from: Seq<char>, i: int) -> bool {
    0 <= i && i + from.len() <= s.len() && s.subrange(i, i + from.len()) == from
}

/// `from` occurs somewhere in `s`.
pub open spec fn occurs_in(s: Seq<char>, from: Seq<char>) -> bool {
    exists|i: int| occurs_at(s, from, i)
}

/// The two-character line break of Windows files.
pub open spec fn crlf() -> Seq<char> {
    seq!['\r', '\n']
}

/// Line breaks "\r\n" turned into "\n".
pub open spec fn normalize_newlines_spec(s: Seq<char>) -> Seq<char> {
    replace_spec(s, crlf(), seq!['\n'])
}

/// The characters of an optional string.
pub open spec fn opt_string_view(o: Option<String>) -> Option<Seq<char>> {
    match o {
        Some(s) => Some(s@),
        None => None,
    }
}

/// The characters of an optional string slice.
pub open spec fn opt_str_view(o: Option<&str>) -> Option<Seq<char>> {
    match o {
        Some(s) => Some(s@),
        None => None,
    }
}

/// The characters of `s`, in order.
pub fn chars_of(s: &str) -> (r: Vec<char>)
    ensures
        r@ == s@,
{
    let mut r: Vec<char> = Vec::new();
    for c in it: s.chars()
        invariant
            r@ == it.seq().take(it.index() as int),
            it.seq() == s@,
    {
        r.push(c);
    }
    r
}

/// Builds a `String` holding exactly the characters of `v`
/// (std's `FromIterator<&char>` for `String`).
#[verifier::external_body]
pub(crate) fn string_from_chars(v: &Vec<char>) -> (r: String)
    ensures
        r@ == v@,
{
    v.iter().collect()
}

/// Appends all of `t` to `out`.
pub fn push_all(out: &mut Vec<char>, t: &Vec<char>)
    ensures
        final(out)@ == old(out)@ + t@,
{
    let ghost start = out@;
    for i in 0..t.len()
        invariant
            out@ == start + t@.take(i as int),
    {
        out.push(t[i]);
        assert(t@.take(i + 1) == t@.take(i as int).push(t@[i as int]));
    }
    assert(t@.take(t.len() as int) == t@);
}

/// Whether `f` occurs in `s` starting at index `i`.
pub fn matches_at(s: &Vec<char>, i: usize, f: &Vec<char>) -> (r: bool)
    requires
        i <= s.len(),
    ensures
        r == occurs_at(s@, f@, i as int),
{
    if f.len() > s.len() - i {
        return false;
    }
    let mut j: usize = 0;
    while j < f.len()
        invariant
            i + f.len() <= s.len(),
            j <= f.len(),
            forall|k: int| 0 <= k < j ==> s@[i + k] == f@[k],
        decreases f.len() - j,
    {
        if s[i + j] != f[j] {
            assert(s@.subrange(i as int, i + f.len())[j as int] != f@[j as int]);
            return false;
        }
        j = j + 1;
    }
    assert(s@.subrange(i as int, i + f.len()) =~= f@);
    true
}

proof fn lemma_replace_step_match(s: Seq<char>, from: Seq<char>, to: Seq<char>, i: int)
    requires
        from.len() > 0,
        occurs_at(s, from, i),
    ensures
        replace_spec(s.skip(i), from, to) == to + replace_spec(s.skip(i + from.len()), from, to),
{
    let t = s.skip(i);
    assert(t.take(from.len() as int) =~= s.subrange(i, i + from.len()));
    assert(t.skip(from.len() as int) =~= s.skip(i + from.len()));
}

proof fn lemma_replace_step_no_match(s: Seq<char>, from: Seq<char>, to: Seq<char>, i: int)
    requires
        from.len() > 0,
        0 <= i < s.len(),
        !occurs_at(s, from, i),
    ensures
        replace_spec(s.skip(i), from, to) == (if s.len() - i < from.len() {
            s.skip(i)
        } else {
            seq![s[i]] + replace_spec(s.skip(i + 1), from, to)
        }),
{
    let t = s.skip(i);
    if s.len() - i >= from.len() {
        assert(t.take(from.len() as int) =~= s.subrange(i, i + from.len()));
        assert(t.drop_first() =~= s.skip(i + 1));
    }
}

/// Every non-overlapping occurrence of `from` in `s`, from left to right,
/// replaced by `to`; an empty `from` puts `to` around every character.
pub fn replace_chars(s: &Vec<char>, from: &Vec<char>, to: &Vec<char>) -> (r: Vec<char>)
    ensures
        r@ == replace_spec(s@, from@, to@),
{
    let mut out: Vec<char> = Vec::new();
    if from.len() == 0 {
        let mut i: usize = 0;
        assert(s@.skip(0) =~= s@);
        assert(out@ + interleave(s@, to@) =~= interleave(s@, to@));
        while i < s.len()
            invariant
                from@.len() == 0,
                i <= s.len(),
                out@ + interleave(s@.skip(i as int), to@) == replace_spec(s@, from@, to@),
            decreases s.len() - i,
        {
            proof {
                assert(s@.skip(i as int).drop_first() =~= s@.skip(i + 1));
            }
            push_all(&mut out, to);
            out.push(s[i]);
            i = i + 1;
            proof {
                assert(out@ + interleave(s@.skip(i as int), to@) =~= replace_spec(s@, from@, to@));
            }
        }
        push_all(&mut out, to);
        proof {
            assert(s@.skip(i as int).len() == 0);
        }
        return out;
    }
    let mut i: usize = 0;
    assert(s@.skip(0) =~= s@);
    while i < s.len()
        invariant
            from@.len() > 0,
            i <= s.len(),
            out@ + replace_spec(s@.skip(i as int), from@, to@) == replace_spec(s@, from@, to@),
        decreases s.len() - i,
    {
        if matches_at(s, i, from) {
            proof {
                lemma_replace_step_match(s@, from@, to@, i as int);
            }
            push_all(&mut out, to);
            proof {
                assert(out@ + replace_spec(s@.skip(i + from.len()), from@, to@) =~= replace_spec(
                    s@,
                    from@,
                    to@,
                ));
            }
            i = i + from.len();
        } else if s.len() - i < from.len() {
            proof {
                lemma_replace_step_no_match(s@, from@, to@, i as int);
            }
            while i < s.len()
                invariant
                    i <= s.len(),
                    s.len() - i < from.len(),
                    from@.len() > 0,
                    out@ + s@.skip(i as int) == replace_spec(s@, from@, to@),
                decreases s.len() - i,
            {
                out.push(s[i]);
                proof {
                    assert(s@.skip(i as int) =~= seq![s@[i as int]] + s@.skip(i + 1));
                    assert(out@ + s@.skip(i + 1) =~= replace_spec(s@, from@, to@));
                }
                i = i + 1;
            }
            proof {
                assert(out@ =~= replace_spec(s@, from@, to@));
            }
            return out;
        } else {
            proof {
                lemma_replace_step_no_match(s@, from@, to@, i as int);
            }
            out.push(s[i]);
            proof {
                assert(out@ + replace_spec(s@.skip(i + 1), from@, to@) =~= replace_spec(
                    s@,
                    from@,
                    to@,
                ));
            }
            i = i + 1;
        }
    }
    proof {
        assert(s@.skip(i as int).len() == 0);
        assert(out@ =~= replace_spec(s@, from@, to@));
    }
    out
}

/// `s` with every non-overlapping occurrence of `from` replaced by `to`,
/// as `str::replace` does.
pub fn replace_all(s: &str, from: &str, to: &str) -> (r: String)
    ensures
        r@ == replace_spec(s@, from@, to@),
{
    let sv = chars_of(s);
    let fv = chars_of(from);
    let tv = chars_of(to);
    let rv = replace_chars(&sv, &fv, &tv);
    string_from_chars(&rv)
}

/// `s` with its "\r\n" line breaks turned into "\n".
pub fn normalize_newlines(s: &str) -> (r: String)
    ensures
        r@ == normalize_newlines_spec(s@),
{
    let sv = chars_of(s);
    let fv = vec!['\r', '\n'];
    let tv = vec!['\n'];
    assert(fv@ == crlf());
    assert(tv@ == seq!['\n']);
    let rv = replace_chars(&sv, &fv, &tv);
    string_from_chars(&rv)
}

/// Whether `f` occurs anywhere in `s`.
pub fn contains_chars(s: &Vec<char>, f: &Vec<char>) -> (r: bool)
    ensures
        r == occurs_in(s@, f@),
{
    if f.len() == 0 {
        assert(s@.subrange(0, 0) =~= f@);
        assert(occurs_at(s@, f@, 0));
        return true;
    }
    let mut i: usize = 0;
    while i < s.len()
        invariant
            i <= s.len(),
            f@.len() > 0,
            forall|k: int| 0 <= k < i ==> !occurs_at(s@, f@, k),
        decreases s.len() - i,
    {
        if matches_at(s, i, f) {
            return true;
        }
        i = i + 1;
    }
    assert forall|k: int| !occurs_at(s@, f@, k) by {
        if 0 <= k < i {
        } else {
            assert(!(0 <= k && k + f@.len() <= s@.len()));
        }
    }
    false
}

/// Whether `a` and `b` hold the same characters.
pub fn same_chars(a: &Vec<char>, b: &Vec<char>) -> (r: bool)
    ensures
        r == (a@ == b@),
{
    if a.len() != b.len() {
        return false;
    }
    for i in 0..a.len()
        invariant
            a@.len() == b@.len(),
            forall|k: int| 0 <= k < i ==> a@[k] == b@[k],
    {
        if a[i] != b[i] {
            return false;
        }
    }
    assert(a@ =~= b@);
    true
}

/// Replacing a pattern that does not occur leaves the text as it is.
pub proof fn lemma_replace_absent(s: Seq<char>, from: Seq<char>, to: Seq<char>)
    requires
        from.len() > 0,
        !occurs_in(s, from),
    ensures
        replace_spec(s, from, to) == s,
    decreases s.len(),
{
    if s.len() >= from.len() {
        assert(s.take(from.len() as int) == s.subrange(0, from.len() as int));
        assert(!occurs_at(s, from, 0));
        let t = s.drop_first();
        assert forall|i: int| !occurs_at(t, from, i) by {
            if occurs_at(t, from, i) {
                assert(s.subrange(i + 1, i + 1 + from.len()) =~= t.subrange(i, i + from.len()));
                assert(occurs_at(s, from, i + 1));
            }
        }
        lemma_replace_absent(t, from, to);
        assert(s =~= seq![s[0]] + t);
    }
}

/// A text that starts with `root`, where `root` does not occur again, is
/// rewritten to `to` followed by the rest of the text.
pub proof fn lemma_replace_leading(root: Seq<char>, rest: Seq<char>, to: Seq<char>)
    requires
        root.len() > 0,
        !occurs_in(rest, root),
    ensures
        replace_spec(root + rest, root, to) == to + rest,
{
    let s = root + rest;
    assert(s.take(root.len() as int) =~= root);
    assert(s.skip(root.len() as int) =~= rest);
    lemma_replace_absent(rest, root, to);
}

/// Text without a carriage return keeps its line breaks as they are.
pub proof fn law_normalize_without_cr(s: Seq<char>)
    requires
        forall|i: int| 0 <= i < s.len() ==> s[i] != '\r',
    ensures
        normalize_newlines_spec(s) == s,
{
    assert forall|i: int| !occurs_at(s, crlf(), i) by {
        if occurs_at(s, crlf(), i) {
            assert(s.subrange(i, i + 2)[0] == s[i]);
        }
    }
    lemma_replace_absent(s, crlf(), seq!['\n']);
}

} // verus!
