//! The error values of each port and of the deploy services. Each carries
//! its message and nothing else.

use vstd::prelude::*;
use vstd::string::*;

verus! {

/// A refused or failed caller authentication.
#[derive(Debug, Clone, PartialEq, Eq)]
pub struct AuthError(pub String);

/// A failed database operation.
#[derive(Debug, Clone, PartialEq, Eq)]
pub struct DbError(pub String);

/// A failed repository checkout.
#[derive(Debug, Clone, PartialEq, Eq)]
pub struct GitError(pub String);

/// A failed file-system operation.
#[derive(Debug, Clone, PartialEq, Eq)]
pub struct FsError(pub String);

/// A failed GitHub request.
#[derive(Debug, Clone, PartialEq, Eq)]
pub struct GithubError(pub String);

/// A failed deployment or campaign operation.
#[derive(Debug, Clone, PartialEq, Eq)]
pub struct DeployError(pub String);

impl AuthError {
    /// An error carrying `msg`.
    pub fn new(msg: &str) -> (e: Self)
        ensures
            e.0@ == msg@,
    {
        AuthError(String::from_str(msg))
    }

    /// The caller is known but lacks a permission.
    pub fn forbidden(msg: &str) -> (e: Self)
        ensures
            e.0@ == msg@,
    {
        AuthError(String::from_str(msg))
    }

    /// The caller could not be identified.
    pub fn unauthorized(msg: &str) -> (e: Self)
        ensures
            e.0@ == msg@,
    {
        AuthError(String::from_str(msg))
    }

    /// The message, as the error displays itself.
    pub fn to_string(&self) -> (s: String)
        ensures
            s@ == self.0@,
    {
        self.0.clone()
    }
}

impl DbError {
    /// An error carrying `msg`.
    pub fn new(msg: &str) -> (e: Self)
        ensures
            e.0@ == msg@,
    {
        DbError(String::from_str(msg))
    }

    /// The message, as the error displays itself.
    pub fn to_string(&self) -> (s: String)
        ensures
            s@ == self.0@,
    {
        self.0.clone()
    }
}

impl GitError {
    /// An error carrying `msg`.
    pub fn new(msg: &str) -> (e: Self)
        ensures
            e.0@ == msg@,
    {
        GitError(String::from_str(msg))
    }

    /// The message, as the error displays itself.
    pub fn to_string(&self) -> (s: String)
        ensures
            s@ == self.0@,
    {
        self.0.clone()
    }
}

impl FsError {
    /// An error carrying `msg`.
    pub fn new(msg: &str) -> (e: Self)
        ensures
            e.0@ == msg@,
    {
        FsError(String::from_str(msg))
    }

    /// The message, as the error displays itself.
    pub fn to_string(&self) -> (s: String)
        ensures
            s@ == self.0@,
    {
        self.0.clone()
    }
}

impl GithubError {
    /// An error carrying `msg`.
    pub fn new(msg: &str) -> (e: Self)
        ensures
            e.0@ == msg@,
    {
        GithubError(String::from_str(msg))
    }

    /// The message, as the error displays itself.
    pub fn to_string(&self) -> (s: String)
        ensures
            s@ == self.0@,
    {
        self.0.clone()
    }
}

impl DeployError {
    /// An error carrying `msg`.
    pub fn new(msg: &str) -> (e: Self)
        ensures
            e.0@ == msg@,
    {
        DeployError(String::from_str(msg))
    }

    /// An error whose message is `context` followed by `cause`, as
    /// `format!("{context}{cause}")` writes it.
    pub fn with_cause(context: &str, cause: &String) -> (e: Self)
        ensures
            e.0@ == context@ + cause@,
    {
        let s = String::from_str(context);
        DeployError(s.concat(cause.as_str()))
    }

    /// The message, as the error displays itself.
    pub fn to_string(&self) -> (s: String)
        ensures
            s@ == self.0@,
    {
        self.0.clone()
    }
}

} // verus!
