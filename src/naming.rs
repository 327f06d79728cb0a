//! Which files are test sources, and the name a test takes from its file.

use vstd::prelude::*;
use crate::text::{ends_with, has_prefix, has_suffix, starts_with};

verus! {

/// A file name is a test source when it starts with `test_` and ends with `.rs`.
pub open spec fn is_test_source(name: Seq<char>) -> bool {
    has_prefix(name, "test_"@) && has_suffix(name, ".rs"@)
}

/// A file name with the source suffix `.rs` taken off its end, where it has one.
pub open spec fn strip_source_suffix(name: Seq<char>) -> Seq<char> {
    if has_suffix(name, ".rs"@) {
        name.subrange(0, name.len() - ".rs"@.len())
    } else {
        name
    }
}

/// Whether the file `name` is a test source.
pub fn is_test_source_name(name: &str) -> (r: bool)
    ensures
        r == is_test_source(name@),
{
    starts_with(name, "test_") && ends_with(name, ".rs")
}

/// The test's name from its source file's name: the suffix goes, the prefix stays.
pub fn test_name_of(file_name: &str) -> (r: String)
    ensures
        r@ == strip_source_suffix(file_name@),
{
    if ends_with(file_name, ".rs") {
        let n = file_name.unicode_len();
        let m = ".rs".unicode_len();
        String::from_str(file_name.substring_char(0, n - m))
    } else {
        String::from_str(file_name)
    }
}

} // verus!
