//! The stored credential, and what a failed load of it means for the fetch
//! of check runs.
use vstd::prelude::*;

verus! {

/// An access token. It has no `Debug` and no conversion to text: the only
/// way to read it is `expose`, where it is handed to the service.
pub struct AccessToken {
    secret: String,
}

impl AccessToken {
    /// The characters of the token.
    pub closed spec fn secret(&self) -> Seq<char> {
        self.secret@
    }

    pub fn new(secret: String) -> (t: AccessToken)
        ensures
            t.secret() == secret@,
    {
        AccessToken { secret }
    }

    /// The token, for the request that needs it.
    pub fn expose(&self) -> (r: &str)
        ensures
            r@ == self.secret(),
    {
        self.secret.as_str()
    }
}

/// The access credential obtained through the device flow.
pub struct AuthConfig {
    pub access_token: AccessToken,
    pub token_type: String,
    pub scope: Vec<String>,
}

/// Why no stored credential could be read.
#[derive(Clone, Copy, Debug, PartialEq, Eq, Structural)]
pub enum CredentialError {
    /// No credential file exists.
    NotFound,
    /// The file exists but does not hold a credential.
    Corrupt,
}

/// How the hosting service is addressed.
pub enum Access {
    /// With the stored access token.
    Token(AccessToken),
    /// Without a credential, under the anonymous limits.
    Anonymous,
}

/// The access that a load of the stored credential allows: its token where
/// it was read, anonymous access on either kind of failure.
pub fn access_for(loaded: Result<AuthConfig, CredentialError>) -> (a: Access)
    ensures
        match loaded {
            Ok(c) => a matches Access::Token(t) && t.secret() == c.access_token.secret(),
            Err(_) => a matches Access::Anonymous,
        },
{
    match loaded {
        Ok(c) => Access::Token(c.access_token),
        Err(_) => Access::Anonymous,
    }
}

} // verus!
