use vstd::prelude::*;

use crate::regex_ops::regex_accepts;
use crate::rmc::common::{
    self, as_strs, comment_pattern_is_valid, comment_pattern_spec, remove_comment_spec,
    string_views,
};

verus! {

/// A VBA module saved as a `.bas` file: its file name and its code.
#[derive(Debug, PartialEq)]
pub struct BasFile {
    pub file_name: String,
    pub code: String,
}

/// The comment marker of VBA.
pub open spec fn quote_marker() -> Seq<char> {
    seq!['\'']
}

impl BasFile {
    /// Removes from the code the `'` comments whose text starts with one of
    /// `targets`, with the whitespace before them, up to the end of the line.
    pub fn remove_comment(&mut self, targets: &Vec<String>)
        requires
            regex_accepts(comment_pattern_spec(string_views(targets@), quote_marker())),
        ensures
            final(self).code@ == remove_comment_spec(
                old(self).code@,
                string_views(targets@),
                quote_marker(),
            ),
            final(self).file_name == old(self).file_name,
    {
        let keys = as_strs(targets);
        let marker = "'";
        proof {
            reveal_strlit("'");
        }
        assert(marker@ == quote_marker());
        self.code = common::remove_comment(&self.code, &keys, marker);
    }

    /// Removes the comments as `remove_comment` does when the comment regex for
    /// `targets` compiles, and reports whether it did; otherwise the file is
    /// left as it was.
    pub fn try_remove_comment(&mut self, targets: &Vec<String>) -> (done: bool)
        ensures
            done == regex_accepts(comment_pattern_spec(string_views(targets@), quote_marker())),
            done ==> final(self).code@ == remove_comment_spec(
                old(self).code@,
                string_views(targets@),
                quote_marker(),
            ),
            final(self).file_name == old(self).file_name,
            !done ==> final(self).code == old(self).code,
    {
        let keys = as_strs(targets);
        let marker = "'";
        proof {
            reveal_strlit("'");
        }
        assert(marker@ == quote_marker());
        if comment_pattern_is_valid(&keys, marker) {
            self.remove_comment(targets);
            true
        } else {
            false
        }
    }
}

} // verus!
