//! The state that travels through an OpenID login: where to go afterwards,
//! and the CSRF token that ties the login's end to its start.

use crate::error::ResponseError;
use crate::text::str_equal;
use vstd::prelude::*;
use vstd::string::StringExecFns;

verus! {

/// The CSRF token that every login carries. It is fixed, not secret.
pub open spec fn expected_csrf_token() -> Seq<char> {
    "3"@
}

/// The contents of the `state` parameter of an OpenID login.
#[derive(Clone, Debug, PartialEq)]
pub struct AuthState {
    /// The page to redirect the user to after the login.
    pub next: Option<String>,
    pub csrf_token: String,
}

impl AuthState {
    /// A new state with the given redirect target.
    pub fn new(next: Option<String>) -> (s: Self)
        ensures
            s.next == next,
            s.csrf_token@ == expected_csrf_token(),
    {
        AuthState { next, csrf_token: String::from_str("3") }
    }

    /// The page to redirect the user to after the login: the root when none
    /// was given.
    pub fn next(&self) -> (page: &str)
        ensures
            page@ == match self.next {
                Some(n) => n@,
                None => "/"@,
            },
    {
        match &self.next {
            Some(n) => n.as_str(),
            None => "/",
        }
    }

    /// Accepts the state that came back with a login, if there was one and
    /// its CSRF token is the expected one.
    pub fn accept(state: Option<AuthState>) -> (r: Result<AuthState, ResponseError>)
        ensures
            match state {
                Some(s) => if s.csrf_token@ == expected_csrf_token() {
                    r == Ok::<AuthState, ResponseError>(s)
                } else {
                    r == Err::<AuthState, ResponseError>(ResponseError::CsrfError)
                },
                None => r == Err::<AuthState, ResponseError>(ResponseError::CsrfError),
            },
    {
        match state {
            None => Err(ResponseError::CsrfError),
            Some(s) => {
                if str_equal(s.csrf_token.as_str(), "3") {
                    Ok(s)
                } else {
                    Err(ResponseError::CsrfError)
                }
            },
        }
    }
}

} // verus!
