//! File mode: browses the files under a root directory. The directory walk
//! itself happens outside this crate; the mode holds the root it starts
//! from.

use vstd::prelude::*;

verus! {

/// The mode that offers the files under a root directory.
pub struct FileMode {
    root: String,
}

impl FileMode {
    /// The root the walk starts from.
    pub closed spec fn spec_root(&self) -> Seq<char> {
        self.root@
    }

    pub fn new(root: String) -> (r: Self)
        ensures
            r.spec_root() == root@,
    {
        FileMode { root }
    }

    pub fn name(&self) -> (r: &str)
        ensures
            r@ == "Files"@,
    {
        "Files"
    }

    pub fn root(&self) -> (r: &str)
        ensures
            r@ == self.spec_root(),
    {
        self.root.as_str()
    }
}

} // verus!
