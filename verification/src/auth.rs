//! Bearer-token validation state: requests are checked only when a token
//! is configured.

use vstd::prelude::*;
use crate::text::str_eq;

verus! {

/// The authentication state of the service.
pub struct AuthState {
    token: Option<String>,
}

impl AuthState {
    /// The configured token, as the contracts see it.
    pub closed spec fn spec_token(&self) -> Option<Seq<char>> {
        self.token.deep_view()
    }

    pub fn new(token: Option<String>) -> (r: Self)
        ensures
            r.spec_token() == token.deep_view(),
    {
        AuthState { token }
    }

    /// Whether authentication is enforced at all.
    pub fn enabled(&self) -> (r: bool)
        ensures
            r == (self.spec_token() is Some),
    {
        self.token.is_some()
    }

    /// Whether a presented token is accepted: always, when none is
    /// configured; otherwise exactly on a character-for-character match.
    pub fn is_valid(&self, token: &str) -> (r: bool)
        ensures
            r == match self.spec_token() {
                Some(expected) => expected == token@,
                None => true,
            },
    {
        match &self.token {
            Some(expected) => str_eq(expected.as_str(), token),
            None => true,
        }
    }
}

} // verus!
