use vstd::prelude::*;

use crate::rmc::xlsm::BasFile;
use crate::text_util::{
    chars_of, contains_chars, normalize_newlines, normalize_newlines_spec, occurs_in, push_all,
    string_from_chars,
};

verus! {

/// The text that marks a module as a document or class module, not a standard
/// (`.bas`) module.
pub open spec fn not_bas_word() -> Seq<char> {
    "Attribute VB_Base"@
}

/// The extension given to the saved modules.
pub open spec fn bas_extension() -> Seq<char> {
    ".bas"@
}

/// A `.bas` file by its file name and code.
pub open spec fn bas_view(b: BasFile) -> (Seq<char>, Seq<char>) {
    (b.file_name@, b.code@)
}

/// The `.bas` files made of `modules` (name, code): each module's code with
/// "\r\n" turned into "\n"; the modules whose code holds `not_bas_word()` are
/// left out; the file name is the module name with `.bas`; the order is kept.
pub open spec fn bas_files_spec(modules: Seq<(Seq<char>, Seq<char>)>) -> Seq<(Seq<char>, Seq<char>)>
    decreases modules.len(),
{
    if modules.len() == 0 {
        Seq::empty()
    } else {
        let prev = bas_files_spec(modules.drop_last());
        let name = modules.last().0;
        let code = normalize_newlines_spec(modules.last().1);
        if occurs_in(code, not_bas_word()) {
            prev
        } else {
            prev.push((name + bas_extension(), code))
        }
    }
}

/// Every `.bas` file made from VBA modules is named with the `.bas` extension
/// and holds no document or class module marker.
pub proof fn law_bas_files_are_standard_modules(modules: Seq<(Seq<char>, Seq<char>)>)
    ensures
        forall|i: int|
            0 <= i < bas_files_spec(modules).len() ==> {
                let f = #[trigger] bas_files_spec(modules)[i];
                &&& !occurs_in(f.1, not_bas_word())
                &&& f.0.len() >= bas_extension().len()
                &&& f.0.skip(f.0.len() - bas_extension().len()) == bas_extension()
            },
    decreases modules.len(),
{
    if modules.len() > 0 {
        law_bas_files_are_standard_modules(modules.drop_last());
        let prev = bas_files_spec(modules.drop_last());
        let name = modules.last().0;
        let code = normalize_newlines_spec(modules.last().1);
        if !occurs_in(code, not_bas_word()) {
            let n = name + bas_extension();
            assert(n.skip(n.len() - bas_extension().len()) =~= bas_extension());
            assert forall|i: int| 0 <= i < bas_files_spec(modules).len() implies {
                let f = #[trigger] bas_files_spec(modules)[i];
                &&& !occurs_in(f.1, not_bas_word())
                &&& f.0.len() >= bas_extension().len()
                &&& f.0.skip(f.0.len() - bas_extension().len()) == bas_extension()
            } by {
                if i < prev.len() {
                    assert(bas_files_spec(modules)[i] == prev[i]);
                }
            }
        }
    }
}

/// The views of a list of (name, code) pairs.
pub open spec fn module_views(modules: Seq<(String, String)>) -> Seq<(Seq<char>, Seq<char>)> {
    modules.map_values(|m: (String, String)| (m.0@, m.1@))
}

/// The standard modules among the VBA modules `modules` (name, code), as
/// `.bas` files (see `bas_files_spec`).
pub fn bas_files_from_modules(modules: &Vec<(String, String)>) -> (r: Vec<BasFile>)
    ensures
        r@.map_values(|b: BasFile| bas_view(b)) == bas_files_spec(module_views(modules@)),
{
    let ghost mv = module_views(modules@);
    let word = chars_of("Attribute VB_Base");
    let ext = chars_of(".bas");
    let mut r: Vec<BasFile> = Vec::new();
    for i in 0..modules.len()
        invariant
            mv == module_views(modules@),
            word@ == not_bas_word(),
            ext@ == bas_extension(),
            r@.map_values(|b: BasFile| bas_view(b)) == bas_files_spec(mv.take(i as int)),
    {
        let ghost before = r@;
        let code = normalize_newlines(modules[i].1.as_str());
        let code_chars = chars_of(code.as_str());
        let skip = contains_chars(&code_chars, &word);
        proof {
            assert(mv.take(i + 1).drop_last() =~= mv.take(i as int));
            assert(mv.take(i + 1).last() == mv[i as int]);
        }
        if !skip {
            let mut name = chars_of(modules[i].0.as_str());
            push_all(&mut name, &ext);
            let file_name = string_from_chars(&name);
            r.push(BasFile { file_name, code });
            proof {
                assert(r@.map_values(|b: BasFile| bas_view(b)) =~= before.map_values(
                    |b: BasFile| bas_view(b),
                ).push((mv[i as int].0 + bas_extension(), normalize_newlines_spec(mv[i as int].1))));
            }
        }
    }
    assert(mv.take(modules.len() as int) =~= mv);
    r
}

} // verus!
