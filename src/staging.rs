use vstd::prelude::*;

verus! {

/// Records the path of a staged file that its owner must delete when done with it,
/// unless the file was handed off first (`forgive`). The record deletes nothing
/// itself: the caller holding it removes the file on every path that does not
/// release it.
pub struct DelOnDrop<'a> {
    pub path: &'a str,
}

impl<'a> DelOnDrop<'a> {
    pub fn new(path: &'a str) -> (r: DelOnDrop<'a>)
        ensures
            r.path@ == path@,
    {
        DelOnDrop { path }
    }

    /// Releases the file: it was handed off and must not be deleted. Returns its path.
    pub fn forgive(self) -> (r: &'a str)
        ensures
            r@ == self.path@,
    {
        self.path
    }
}

/// The owning form of `DelOnDrop`: a record of a staged file to delete, which
/// deletes nothing itself.
pub struct DelOnDropOwned {
    pub path: String,
}

impl DelOnDropOwned {
    pub fn new(path: String) -> (r: DelOnDropOwned)
        ensures
            r.path == path,
    {
        DelOnDropOwned { path }
    }

    /// Releases the file and hands its path back.
    pub fn forgive(self) -> (r: String)
        ensures
            r == self.path,
    {
        self.path
    }
}

/// The owner and name of a server, as used to name its packaged mod archive.
pub struct Name {
    pub account: String,
    pub server: String,
}

impl Name {
    pub fn new(account: String, server: String) -> (r: Name)
        ensures
            r.account == account,
            r.server == server,
    {
        Name { account, server }
    }
}

} // verus!
