//! Finding the repository: the nearest ancestor of the working directory
//! that holds a `.git` entry.

use crate::error::{Error, ErrorView};
use vstd::prelude::*;
use vstd::string::StringExecFns;

verus! {

/// Whether `i` is the first ancestor that holds a `.git` entry. `marked`
/// says so for the working directory, then its parent, and so on up.
pub open spec fn is_nearest(marked: Seq<bool>, i: int) -> bool {
    &&& 0 <= i < marked.len()
    &&& marked[i]
    &&& forall|j: int| 0 <= j < i ==> !marked[j]
}

/// No ancestor holds a `.git` entry.
pub open spec fn unmarked(marked: Seq<bool>) -> bool {
    forall|j: int| 0 <= j < marked.len() ==> !marked[j]
}

/// Finds the root of the repository: how many steps up from the working
/// directory it lies. `marked` says for the working directory, then its
/// parent, and so on up, whether it holds a `.git` entry.
pub fn find_root(marked: &Vec<bool>) -> (r: Result<usize, Error>)
    ensures
        match r {
            Ok(i) => is_nearest(marked@, i as int),
            Err(e) => unmarked(marked@) && e@ == ErrorView::NotInRepository,
        },
{
    let mut i: usize = 0;
    while i < marked.len()
        invariant
            i <= marked.len(),
            forall|j: int| 0 <= j < i ==> !marked@[j],
        decreases marked.len() - i,
    {
        if marked[i] {
            return Ok(i);
        }
        i += 1;
    }
    Err(Error::NotInRepository)
}

/// Finds git's own directory: how many steps up from the working directory
/// the repository lies, and the name of git's directory in it.
pub fn find_git_root(marked: &Vec<bool>) -> (r: Result<(usize, String), Error>)
    ensures
        match r {
            Ok((i, name)) => is_nearest(marked@, i as int) && name@ == ".git"@,
            Err(e) => unmarked(marked@) && e@ == ErrorView::NotInRepository,
        },
{
    match find_root(marked) {
        Ok(i) => Ok((i, String::from_str(".git"))),
        Err(e) => Err(e),
    }
}

} // verus!
