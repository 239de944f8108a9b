//! Building file paths from a directory and a file name.
//!
//! Paths are plain text here. Both `/` and `\` count as separators on every
//! platform, as they do on Windows, and a separator that has to be added is
//! `/`, which every supported platform accepts. `std::path::Path::join`
//! differs on Unix for a directory that ends in `\`: it adds a `/` there.

use vstd::prelude::*;
use crate::text::{concat, has_suffix, ends_with_text};

verus! {

/// The path of file `name` in directory `dir`: the name alone for an empty
/// directory, else the directory and the name with one separator between them.
pub open spec fn joined(dir: Seq<char>, name: Seq<char>) -> Seq<char> {
    if dir.len() == 0 {
        name
    } else if has_suffix(dir, "/"@) || has_suffix(dir, "\\"@) {
        dir + name
    } else {
        dir + "/"@ + name
    }
}

/// The path of file `name` in directory `dir`.
pub fn join_path(dir: &str, name: &str) -> (r: String)
    ensures
        r@ == joined(dir@, name@),
{
    if dir.is_empty() {
        name.to_owned()
    } else if ends_with_text(dir, "/") || ends_with_text(dir, "\\") {
        concat(dir, name)
    } else {
        let d = concat(dir, "/");
        concat(d.as_str(), name)
    }
}

} // verus!
