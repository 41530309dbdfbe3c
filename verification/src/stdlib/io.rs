//! The part of the language's `io` library that is plain computation: the
//! names that copies of files and folders get.
use vstd::prelude::*;
use vstd::string::StringExecFns;

verus! {

/// The path of the copy of a file or folder: the path with `_clone` behind it.
pub open spec fn clone_path_spec(path: Seq<char>) -> Seq<char> {
    path + "_clone"@
}

/// The path of the copy of a file or folder.
pub fn clone_path(path: &str) -> (copy: String)
    ensures
        copy@ == clone_path_spec(path@),
{
    let mut copy = String::from_str(path);
    copy.append("_clone");
    copy
}

} // verus!
