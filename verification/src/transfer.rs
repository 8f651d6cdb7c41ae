use vstd::prelude::*;

use crate::regex_ops::{regex_accepts, regex_erase, regex_is_valid};
use crate::rmc::common::{
    as_strs, comment_pattern_is_valid, comment_pattern_spec, remove_comment_spec, string_views,
};
use crate::rmc::{ps, py};
use crate::text_util::{
    chars_of, lemma_replace_leading, opt_str_view, opt_string_view, occurs_in, replace_all, replace_spec, same_chars,
};

verus! {

/// How a file is handled.
#[derive(Debug, PartialEq, Eq, Structural, Clone, Copy)]
pub enum ProcType {
    /// Python source: comments removed.
    Py,
    /// PowerShell source: comments removed.
    Ps,
    /// Excel workbook with macros: handed to the external VBA tool.
    Xlsm,
    /// Copied as it is.
    Copy,
    /// Left out.
    Skip,
}

/// One file to handle: where it is read, where the result is written, and how.
#[derive(Debug, PartialEq)]
pub struct TransferInfo {
    pub src: String,
    pub dst: String,
    pub proc_type: ProcType,
}

/// How a file with extension `ext` is handled, given the extensions that are
/// copied as they are.
pub open spec fn proc_type_spec(ext: Option<Seq<char>>, copies: Seq<Seq<char>>) -> ProcType {
    match ext {
        None => ProcType::Skip,
        Some(e) => {
            if e == "xlsm"@ {
                ProcType::Xlsm
            } else if e == "ps1"@ || e == "psd1"@ || e == "psm1"@ {
                ProcType::Ps
            } else if e == "py"@ {
                ProcType::Py
            } else if copies.contains(e) {
                ProcType::Copy
            } else {
                ProcType::Skip
            }
        },
    }
}

/// The index of the last `c` in `s`, or -1 when there is none.
pub open spec fn last_index_of(s: Seq<char>, c: char) -> int
    decreases s.len(),
{
    if s.len() == 0 {
        -1
    } else if s.last() == c {
        s.len() - 1
    } else {
        last_index_of(s.drop_last(), c)
    }
}

/// The extension of a file name: what follows its last dot, when that dot is
/// not its first character; none for "..".
pub open spec fn simple_extension(name: Seq<char>) -> Option<Seq<char>> {
    let k = last_index_of(name, '.');
    if name == seq!['.', '.'] || k <= 0 {
        None
    } else {
        Some(name.skip(k + 1))
    }
}

/// What follows the last `/` of `path` (all of it when there is none).
pub open spec fn final_name(path: Seq<char>) -> Seq<char> {
    path.skip(last_index_of(path, '/') + 1)
}

/// A path that every platform splits alike: no `\` and no `:` (so no Windows
/// prefix and only `/` as separator), not starting with `//`, and ending in a
/// file name that is neither empty nor ".".
pub open spec fn portable_path(path: Seq<char>) -> bool {
    &&& !path.contains('\\')
    &&& !path.contains(':')
    &&& !(path.len() >= 2 && path[0] == '/' && path[1] == '/')
    &&& final_name(path).len() > 0
    &&& final_name(path) != seq!['.']
}

/// A path separator on some platform: `/` everywhere, `\` on Windows.
pub open spec fn is_separator(c: char) -> bool {
    c == '/' || c == '\\'
}

/// The larger of two integers.
pub open spec fn max_int(a: int, b: int) -> int {
    if a > b {
        a
    } else {
        b
    }
}

/// What follows the last `/`, `\` or `:` of `path` (all of it when there is
/// none): the file name on Windows (after a drive prefix such as `C:`), and the
/// end of the file name on Unix.
pub open spec fn leaf_name(path: Seq<char>) -> Seq<char> {
    let a = last_index_of(path, '/');
    let b = last_index_of(path, '\\');
    let c = last_index_of(path, ':');
    path.skip(max_int(max_int(a, b), c) + 1)
}

/// A path whose leaf name (see `leaf_name`) has a dot after its first
/// character and is not "..", not starting with two separators (so no Windows
/// prefix but a drive letter): every platform finds the same extension in it.
pub open spec fn dotted_leaf(path: Seq<char>) -> bool {
    &&& !(path.len() >= 2 && is_separator(path[0]) && is_separator(path[1]))
    &&& leaf_name(path) != seq!['.', '.']
    &&& last_index_of(leaf_name(path), '.') > 0
}

/// What follows the last dot of the leaf name of `path`.
pub open spec fn leaf_extension(path: Seq<char>) -> Seq<char> {
    leaf_name(path).skip(last_index_of(leaf_name(path), '.') + 1)
}

/// What holds of the extension that std's `Path::extension` finds in `path`:
/// on every platform, when there is one, `path` holds a dot and the extension
/// holds none; on a portable path it is the extension of the final name; on a
/// path with a dotted leaf name it is what follows the leaf's last dot.
pub open spec fn extension_facts(path: Seq<char>, ext: Option<Seq<char>>) -> bool {
    &&& match ext {
        None => true,
        Some(e) => occurs_in(path, seq!['.']) && !occurs_in(e, seq!['.']),
    }
    &&& portable_path(path) ==> ext == simple_extension(final_name(path))
    &&& dotted_leaf(path) ==> ext == Some(leaf_extension(path))
}

/// `p` is how the file at `path` is handled, for the extension that the
/// platform's path rules find in it.
pub open spec fn proc_type_outcome(path: Seq<char>, copies: Seq<Seq<char>>, p: ProcType) -> bool {
    exists|ext: Option<Seq<char>>| extension_facts(path, ext) && p == proc_type_spec(ext, copies)
}

/// std's `Path::extension` of `path`, as a `String`.
/// Trusted: when there is an extension, `path` holds a dot and the extension
/// holds none (it is what follows the last dot of the file name). On a portable
/// path (see `portable_path`) the file name is what follows the last `/`, and
/// the extension is what follows its last dot unless that dot comes first or
/// the name is "..". On a path with a dotted leaf name (see `dotted_leaf`) the
/// extension is what follows the leaf's last dot: on Windows the leaf is the
/// file name, or ends it when a `:` that is no drive prefix stands in it; on
/// Unix, where `\` and `:` are ordinary characters, the file name ends with
/// the leaf. Either way the last dot of the file name is the leaf's, and
/// something comes before it.
/// On other paths the file name depends on the platform's separators and
/// prefixes, and nothing more is stated.
#[verifier::external_body]
pub(crate) fn path_extension(path: &str) -> (r: Option<String>)
    ensures
        extension_facts(path@, opt_string_view(r)),
{
    std::path::Path::new(path).extension().map(|e| e.to_string_lossy().into_owned())
}

/// The index of the last `c` in `s` is -1 or an index of `s` holding `c`.
pub proof fn lemma_last_index_of_bounds(s: Seq<char>, c: char)
    ensures
        -1 <= last_index_of(s, c) < s.len(),
        last_index_of(s, c) >= 0 ==> s[last_index_of(s, c)] == c,
    decreases s.len(),
{
    if s.len() > 0 && s.last() != c {
        lemma_last_index_of_bounds(s.drop_last(), c);
    }
}

/// Where the last `c` of `s + t` is: in `t` when `t` holds one, else in `s`.
pub proof fn lemma_last_index_of_concat(s: Seq<char>, t: Seq<char>, c: char)
    ensures
        last_index_of(s + t, c) == (if last_index_of(t, c) >= 0 {
            s.len() + last_index_of(t, c)
        } else {
            last_index_of(s, c)
        }),
    decreases t.len(),
{
    if t.len() == 0 {
        assert(s + t =~= s);
    } else {
        assert((s + t).last() == t.last());
        if t.last() != c {
            assert((s + t).drop_last() =~= s + t.drop_last());
            lemma_last_index_of_concat(s, t.drop_last(), c);
        }
    }
}

/// A text without `c` has no last `c`.
pub proof fn lemma_last_index_of_absent(s: Seq<char>, c: char)
    requires
        forall|i: int| 0 <= i < s.len() ==> s[i] != c,
    ensures
        last_index_of(s, c) == -1,
    decreases s.len(),
{
    if s.len() > 0 {
        lemma_last_index_of_absent(s.drop_last(), c);
    }
}

/// On a path with a dotted leaf name, the handling is that of the text after
/// the leaf's last dot, whatever the platform, whatever came back from the path
/// rules.
pub proof fn law_dotted_leaf_decides(path: Seq<char>, copies: Seq<Seq<char>>, r: ProcType)
    requires
        dotted_leaf(path),
        proc_type_outcome(path, copies, r),
    ensures
        r == proc_type_spec(Some(leaf_extension(path)), copies),
{
    let ext = choose|ext: Option<Seq<char>>| extension_facts(path, ext) && r == proc_type_spec(ext, copies);
    assert(ext == Some(leaf_extension(path)));
}

/// A name holding no `/`, `\` or `:`, after a prefix that is empty or ends in
/// one of them, is the leaf name of the whole path.
pub proof fn lemma_leaf_name_of_join(prefix: Seq<char>, name: Seq<char>)
    requires
        forall|i: int|
            0 <= i < name.len() ==> !is_separator(#[trigger] name[i]) && name[i] != ':',
        prefix.len() == 0 || is_separator(prefix.last()) || prefix.last() == ':',
    ensures
        leaf_name(prefix + name) == name,
{
    let path = prefix + name;
    lemma_last_index_of_absent(name, '/');
    lemma_last_index_of_absent(name, '\\');
    lemma_last_index_of_absent(name, ':');
    lemma_last_index_of_concat(prefix, name, '/');
    lemma_last_index_of_concat(prefix, name, '\\');
    lemma_last_index_of_concat(prefix, name, ':');
    lemma_last_index_of_bounds(prefix, '/');
    lemma_last_index_of_bounds(prefix, '\\');
    lemma_last_index_of_bounds(prefix, ':');
    if prefix.len() > 0 {
        let c = prefix.last();
        assert(prefix.drop_last() + seq![c] =~= prefix);
        lemma_last_index_of_concat(prefix.drop_last(), seq![c], c);
        assert(last_index_of(seq![c], c) == 0);
        assert(last_index_of(prefix, c) == prefix.len() - 1);
    }
    let m = max_int(
        max_int(last_index_of(path, '/'), last_index_of(path, '\\')),
        last_index_of(path, ':'),
    );
    assert(m + 1 == prefix.len());
    assert(path.skip(m + 1) =~= name);
}

/// The last dot of a stem followed by `.py` is the one before `py`.
proof fn lemma_last_dot_of_py(stem: Seq<char>)
    ensures
        last_index_of(stem + seq!['.', 'p', 'y'], '.') == stem.len(),
{
    let ext = seq!['.', 'p', 'y'];
    assert(ext.drop_last().drop_last() =~= seq!['.']);
    assert(last_index_of(seq!['.'], '.') == 0);
    assert(last_index_of(ext.drop_last(), '.') == 0);
    assert(last_index_of(ext, '.') == 0);
    lemma_last_index_of_concat(stem, ext, '.');
}

/// A file whose name is a non-empty stem and `.py`, in any directory and after
/// any drive prefix, is handled as Python, whatever extensions are copied.
pub proof fn law_python_files_are_python(
    prefix: Seq<char>,
    stem: Seq<char>,
    copies: Seq<Seq<char>>,
    r: ProcType,
)
    requires
        stem.len() > 0,
        forall|i: int|
            0 <= i < stem.len() ==> !is_separator(#[trigger] stem[i]) && stem[i] != ':',
        prefix.len() == 0 || is_separator(prefix.last()) || prefix.last() == ':',
        !({
            let path = prefix + stem + seq!['.', 'p', 'y'];
            path.len() >= 2 && is_separator(path[0]) && is_separator(path[1])
        }),
        proc_type_outcome(prefix + stem + seq!['.', 'p', 'y'], copies, r),
    ensures
        r == ProcType::Py,
{
    let ext = seq!['.', 'p', 'y'];
    let name = stem + ext;
    let path = prefix + name;
    assert(prefix + stem + ext =~= path);
    assert forall|i: int| 0 <= i < name.len() implies !is_separator(#[trigger] name[i]) && name[i]
        != ':' by {
        if i < stem.len() {
            assert(name[i] == stem[i]);
        } else {
            assert(name[i] == ext[i - stem.len()]);
        }
    }
    lemma_leaf_name_of_join(prefix, name);
    lemma_last_dot_of_py(stem);
    assert(name.last() == 'y');
    assert(leaf_name(path) != seq!['.', '.']);
    assert(dotted_leaf(path));
    assert(leaf_extension(path) =~= seq!['p', 'y']);
    law_dotted_leaf_decides(path, copies, r);
    reveal_strlit("py");
    reveal_strlit("xlsm");
    reveal_strlit("ps1");
    reveal_strlit("psd1");
    reveal_strlit("psm1");
    assert("py"@ =~= seq!['p', 'y']);
    assert(seq!['p', 'y'] != "xlsm"@);
    assert(seq!['p', 'y'] != "ps1"@);
    assert(seq!['p', 'y'] != "psd1"@);
    assert(seq!['p', 'y'] != "psm1"@);
}

/// Whether `e` is one of `list`.
pub fn listed(list: &Vec<String>, e: &Vec<char>) -> (r: bool)
    ensures
        r == string_views(list@).contains(e@),
{
    let ghost views = string_views(list@);
    for i in 0..list.len()
        invariant
            views == string_views(list@),
            forall|k: int| 0 <= k < i ==> views[k] != e@,
    {
        let item = chars_of(list[i].as_str());
        if same_chars(&item, e) {
            assert(views[i as int] == e@);
            return true;
        }
    }
    false
}

/// How a file with extension `ext` is handled: `xlsm` goes to the VBA tool,
/// `ps1`, `psd1` and `psm1` are PowerShell, `py` is Python, an extension listed
/// in `copy_extensions` is copied, and anything else is left out.
pub fn proc_type_for_extension(ext: Option<&str>, copy_extensions: &Vec<String>) -> (r: ProcType)
    ensures
        r == proc_type_spec(opt_str_view(ext), string_views(copy_extensions@)),
{
    match ext {
        None => ProcType::Skip,
        Some(e) => {
            let ev = chars_of(e);
            let xlsm = chars_of("xlsm");
            let ps1 = chars_of("ps1");
            let psd1 = chars_of("psd1");
            let psm1 = chars_of("psm1");
            let py = chars_of("py");
            if same_chars(&ev, &xlsm) {
                ProcType::Xlsm
            } else if same_chars(&ev, &ps1) || same_chars(&ev, &psd1) || same_chars(&ev, &psm1) {
                ProcType::Ps
            } else if same_chars(&ev, &py) {
                ProcType::Py
            } else if listed(copy_extensions, &ev) {
                ProcType::Copy
            } else {
                ProcType::Skip
            }
        },
    }
}

/// How the file at `path` is handled, by its extension (see
/// `proc_type_for_extension`).
pub fn obtain_proc_type(path: &str, copy_extensions: &Vec<String>) -> (r: ProcType)
    ensures
        proc_type_outcome(path@, string_views(copy_extensions@), r),
        portable_path(path@) ==> r == proc_type_spec(
            simple_extension(final_name(path@)),
            string_views(copy_extensions@),
        ),
        dotted_leaf(path@) ==> r == proc_type_spec(
            Some(leaf_extension(path@)),
            string_views(copy_extensions@),
        ),
{
    let ext = path_extension(path);
    match ext {
        None => {
            let r = proc_type_for_extension(None, copy_extensions);
            assert(extension_facts(path@, None));
            r
        },
        Some(e) => {
            let r = proc_type_for_extension(Some(e.as_str()), copy_extensions);
            assert(extension_facts(path@, Some(e@)));
            r
        },
    }
}

/// The flag text handed to the VBA tool for a boolean option.
pub open spec fn flag_spec(b: bool) -> Seq<char> {
    if b {
        "1"@
    } else {
        "0"@
    }
}

/// "1" for `true`, "0" for `false`.
pub fn convert_bool_to_str(arg: &bool) -> (r: &str)
    ensures
        r@ == flag_spec(*arg),
{
    if *arg {
        "1"
    } else {
        "0"
    }
}

/// The command-line arguments of the VBA tool for a workbook.
pub open spec fn vba_arguments_spec(
    src: Seq<char>,
    dst: Seq<char>,
    remove_multiline_comment: bool,
    remove_excel_macro_test_code: bool,
) -> Seq<Seq<char>> {
    seq![
        "--src"@,
        src,
        "--dst"@,
        dst,
        "--remove-multiline-comment"@,
        flag_spec(remove_multiline_comment),
        "--remove-excel-macro-test-code"@,
        flag_spec(remove_excel_macro_test_code),
    ]
}

/// The command-line arguments with which the VBA tool is run on the workbook
/// `src`, writing to `dst`.
pub fn vba_arguments(
    src: &str,
    dst: &str,
    remove_multiline_comment: bool,
    remove_excel_macro_test_code: bool,
) -> (r: Vec<String>)
    ensures
        string_views(r@) == vba_arguments_spec(
            src@,
            dst@,
            remove_multiline_comment,
            remove_excel_macro_test_code,
        ),
{
    let mut r: Vec<String> = Vec::new();
    r.push("--src".to_owned());
    r.push(src.to_owned());
    r.push("--dst".to_owned());
    r.push(dst.to_owned());
    r.push("--remove-multiline-comment".to_owned());
    r.push(convert_bool_to_str(&remove_multiline_comment).to_owned());
    r.push("--remove-excel-macro-test-code".to_owned());
    r.push(convert_bool_to_str(&remove_excel_macro_test_code).to_owned());
    assert(string_views(r@) =~= vba_arguments_spec(
        src@,
        dst@,
        remove_multiline_comment,
        remove_excel_macro_test_code,
    ));
    r
}

/// The code of a Python or PowerShell file once its comments are removed:
/// first, when asked, the multi-line comments (Python triple-quoted strings,
/// PowerShell `<# #>` blocks), then the `#` comments that start with one of
/// `keywords`. There is no result when one of the regexes does not compile.
pub open spec fn process_code_spec(
    proc_type: ProcType,
    code: Seq<char>,
    keywords: Seq<Seq<char>>,
    remove_multiline_comment: bool,
) -> Option<Seq<char>> {
    let block = if proc_type == ProcType::Py {
        py::triple_quote_pattern()
    } else {
        ps::block_comment_pattern()
    };
    let marker = seq!['#'];
    if remove_multiline_comment && !regex_accepts(block) {
        None
    } else if !regex_accepts(comment_pattern_spec(keywords, marker)) {
        None
    } else {
        let first = if remove_multiline_comment {
            regex_erase(block, code)
        } else {
            code
        };
        Some(remove_comment_spec(first, keywords, marker))
    }
}

/// Removes the comments from the code of a Python or PowerShell file (see
/// `process_code_spec`).
pub fn process_code(
    proc_type: ProcType,
    code: &String,
    remove_comments: &Vec<String>,
    remove_multiline_comment: bool,
) -> (r: Option<String>)
    requires
        proc_type == ProcType::Py || proc_type == ProcType::Ps,
    ensures
        opt_string_view(r) == process_code_spec(
            proc_type,
            code@,
            string_views(remove_comments@),
            remove_multiline_comment,
        ),
{
    let keys = as_strs(remove_comments);
    let marker = "#";
    proof {
        reveal_strlit("#");
    }
    assert(marker@ == seq!['#']);
    let block = if proc_type == ProcType::Py {
        py::triple_quote_regex()
    } else {
        ps::block_comment_regex()
    };
    if remove_multiline_comment && !regex_is_valid(block) {
        return None;
    }
    if !comment_pattern_is_valid(&keys, marker) {
        return None;
    }
    if proc_type == ProcType::Py {
        let first = if remove_multiline_comment {
            py::remove_docstring(code)
        } else {
            code.clone()
        };
        Some(py::remove_comment(&first, keys))
    } else {
        let first = if remove_multiline_comment {
            ps::remove_multiline_comment(code)
        } else {
            code.clone()
        };
        Some(ps::remove_comment(&first, &keys))
    }
}

/// With multi-line comment removal off, a Python or PowerShell file only loses
/// its keyword comments: its code is otherwise left as it is, and there is a
/// result exactly when the keyword regex compiles.
pub proof fn law_keyword_comments_only_when_multiline_off(
    proc_type: ProcType,
    code: Seq<char>,
    keywords: Seq<Seq<char>>,
)
    requires
        proc_type == ProcType::Py || proc_type == ProcType::Ps,
    ensures
        process_code_spec(proc_type, code, keywords, false) == (if regex_accepts(
            comment_pattern_spec(keywords, seq!['#']),
        ) {
            Some(remove_comment_spec(code, keywords, seq!['#']))
        } else {
            None::<Seq<char>>
        }),
        process_code_spec(ProcType::Py, code, keywords, false) == process_code_spec(
            ProcType::Ps,
            code,
            keywords,
            false,
        ),
{
}

/// With multi-line comment removal on, the multi-line comments of the file's
/// language (Python triple-quoted strings, PowerShell `<# #>` blocks) are
/// erased first, then the keyword comments of what is left.
pub proof fn law_multiline_then_keyword_comments(code: Seq<char>, keywords: Seq<Seq<char>>)
    ensures
        regex_accepts(py::triple_quote_pattern()) && regex_accepts(
            comment_pattern_spec(keywords, seq!['#']),
        ) ==> process_code_spec(ProcType::Py, code, keywords, true) == Some(
            remove_comment_spec(
                regex_erase(py::triple_quote_pattern(), code),
                keywords,
                seq!['#'],
            ),
        ),
        regex_accepts(ps::block_comment_pattern()) && regex_accepts(
            comment_pattern_spec(keywords, seq!['#']),
        ) ==> process_code_spec(ProcType::Ps, code, keywords, true) == Some(
            remove_comment_spec(
                regex_erase(ps::block_comment_pattern(), code),
                keywords,
                seq!['#'],
            ),
        ),
        !regex_accepts(py::triple_quote_pattern()) ==> process_code_spec(
            ProcType::Py,
            code,
            keywords,
            true,
        ) is None,
        !regex_accepts(ps::block_comment_pattern()) ==> process_code_spec(
            ProcType::Ps,
            code,
            keywords,
            true,
        ) is None,
{
}

/// Whether a directory entry named `name` is hidden: its name starts with a dot.
pub fn is_hidden_name(name: &str) -> (r: bool)
    ensures
        r == (name@.len() > 0 && name@[0] == '.'),
{
    let v = chars_of(name);
    v.len() > 0 && v[0] == '.'
}

/// The file found at `fpath` while walking the source directory `src_root`:
/// it is written where `dst_base` stands in place of `src_root` in its path,
/// and handled by its extension.
pub fn walked_transfer_info(
    fpath: &str,
    src_root: &str,
    dst_base: &str,
    copy_extensions: &Vec<String>,
) -> (r: TransferInfo)
    ensures
        r.src@ == fpath@,
        r.dst@ == replace_spec(fpath@, src_root@, dst_base@),
        proc_type_outcome(fpath@, string_views(copy_extensions@), r.proc_type),
        portable_path(fpath@) ==> r.proc_type == proc_type_spec(
            simple_extension(final_name(fpath@)),
            string_views(copy_extensions@),
        ),
        dotted_leaf(fpath@) ==> r.proc_type == proc_type_spec(
            Some(leaf_extension(fpath@)),
            string_views(copy_extensions@),
        ),
{
    TransferInfo {
        src: fpath.to_owned(),
        dst: replace_all(fpath, src_root, dst_base),
        proc_type: obtain_proc_type(fpath, copy_extensions),
    }
}

/// A file under the source directory is written to the same relative path
/// under the destination directory, when the source directory's path does not
/// occur again in the rest of the file's path.
pub proof fn law_relative_path_kept(src_root: Seq<char>, rest: Seq<char>, dst_base: Seq<char>)
    requires
        src_root.len() > 0,
        !occurs_in(rest, src_root),
    ensures
        replace_spec(src_root + rest, src_root, dst_base) == dst_base + rest,
{
    lemma_replace_leading(src_root, rest, dst_base);
}

} // verus!
