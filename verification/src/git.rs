//! The git port: the real checkout (performed by the service binary) and
//! its double, which checks nothing out.

use vstd::prelude::*;
use crate::errors::GitError;

verus! {

/// Checks repositories out with libgit2; the checkout itself is disk and
/// network work, done by the service binary.
#[derive(Debug, Default)]
pub struct GitInfra;

/// Does nothing: a checkout that always succeeds. Tests that need files
/// seed them in the in-memory file system instead.
#[derive(Debug, Default)]
pub struct FakeGit;

impl FakeGit {
    /// A successful checkout that touches nothing.
    pub fn checkout(&self, url: &str, git_ref: &str, workdir: &str) -> (r: Result<(), GitError>)
        ensures
            r is Ok,
    {
        Ok(())
    }
}

} // verus!
