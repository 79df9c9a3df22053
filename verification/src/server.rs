//! The query parameters that the HTTP routes accept.

use vstd::prelude::*;

verus! {

/// Query parameters of the login redirect: where to go after logging in.
#[derive(Clone, Debug, PartialEq)]
pub struct RedirectQuery {
    pub next: Option<String>,
}

/// Query parameters with which an OpenID provider redirects back after a
/// login.
#[derive(Clone, Debug, PartialEq)]
pub struct LoginQuery {
    pub code: String,
    pub state: Option<String>,
    pub nonce: Option<String>,
}

/// An operation on a node of the virtual file system.
#[derive(Copy, Clone, Debug, PartialEq, Eq, Structural)]
pub enum FileOperation {
    /// Does the node exist?
    Exists,
    /// The node's metadata.
    Metadata,
    /// The content of a file.
    Content,
    /// The children of a directory.
    List,
}

/// Query parameters of a file system request.
#[derive(Copy, Clone, Debug, PartialEq, Eq, Structural)]
pub struct VfsQuery {
    pub operation: FileOperation,
}

} // verus!
