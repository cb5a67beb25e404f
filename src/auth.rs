//! The decisions of the bearer-token check that guards the blog's API.

use vstd::prelude::*;
use crate::text::{has_prefix, strip_prefix};

verus! {

/// Guards a service with the JSON web tokens signed by one secret.
pub struct Authorization {
    jwt_secret: String,
}

/// A service guarded by a bearer-token check.
pub struct AuthorizationMiddleware<S> {
    service: S,
    jwt_secret: String,
}

impl Authorization {
    pub closed spec fn secret(&self) -> Seq<char> {
        self.jwt_secret@
    }

    pub fn new(jwt_secret: &str) -> (r: Self)
        ensures
            r.secret() == jwt_secret@,
    {
        Authorization { jwt_secret: String::from_str(jwt_secret) }
    }

    /// Puts `service` behind the check, with this secret.
    pub fn new_transform<S>(&self, service: S) -> (r: AuthorizationMiddleware<S>)
        ensures
            r.secret() == self.secret(),
            r.inner() == service,
    {
        AuthorizationMiddleware { service, jwt_secret: self.jwt_secret.clone() }
    }
}

impl<S> AuthorizationMiddleware<S> {
    pub closed spec fn secret(&self) -> Seq<char> {
        self.jwt_secret@
    }

    pub closed spec fn inner(&self) -> S {
        self.service
    }

    /// The secret that tokens must be signed with.
    pub fn jwt_secret(&self) -> (r: &str)
        ensures
            r@ == self.secret(),
    {
        self.jwt_secret.as_str()
    }

    /// The guarded service.
    pub fn service(&self) -> (r: &S)
        ensures
            *r == self.inner(),
    {
        &self.service
    }
}

/// The token of an `Authorization` header value of the form `Bearer <token>`.
pub fn bearer_token(auth_header: &str) -> (r: Option<String>)
    ensures
        r is Some <==> has_prefix(auth_header@, "Bearer "@),
        r matches Some(t) ==> auth_header@ == "Bearer "@ + t@,
{
    strip_prefix(auth_header, "Bearer ")
}

/// A token is accepted while the time, in seconds since the Unix epoch, is
/// before its expiry.
pub fn token_is_live(now_secs: u64, exp: u64) -> (r: bool)
    ensures
        r == (now_secs < exp),
{
    now_secs < exp
}

} // verus!
