//! Helpers on paths.
use crate::paths::{file_name_of, is_python_path};
use crate::text::{ends_with, to_chars};
use vstd::prelude::*;

verus! {

/// Whether `path` names a Python source file.
pub fn is_python_file(path: &str) -> (r: bool)
    ensures
        r == is_python_path(path@),
{
    match file_name_of(path) {
        Some(name) => {
            let chars = to_chars(name.as_str());
            let suffix: Vec<char> = vec!['.', 'p', 'y'];
            chars.len() >= 4 && ends_with(&chars, &suffix)
        },
        None => false,
    }
}

} // verus!
