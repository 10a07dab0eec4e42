use vstd::prelude::*;

verus! {

/// Why a session request was refused.
#[derive(Clone, Copy, Debug, PartialEq, Eq, Structural)]
pub enum Error {
    /// The provided session token has either expired, or is otherwise invalid.
    InvalidToken,
    /// The provided user credentials are not valid.
    InvalidCredential,
}

impl Error {
    /// A sentence describing the error.
    pub fn message(&self) -> (r: &'static str)
        ensures
            *self == Error::InvalidToken ==> r@ == "the provided token is invalid, it may have expired"@,
            *self == Error::InvalidCredential ==> r@ == "the provided user credentials are invalid"@,
    {
        match self {
            Error::InvalidToken => "the provided token is invalid, it may have expired",
            Error::InvalidCredential => "the provided user credentials are invalid",
        }
    }
}

/// A session token.
#[derive(Clone, Copy, Debug, PartialEq, Eq, Structural)]
pub struct Token {
    pub key: u128,
}

/// A session service, for users of the library to implement.
pub trait Api: Sync + Send {
    /// Begins a user session by verifying the user's username and password.
    /// May fail with `InvalidCredential` if the username, password, or both
    /// are invalid.
    fn auth(&self, username: &str, password_hash: u128) -> Result<Token, Error>;

    /// Gets the user ID associated with the session token. May fail with
    /// `InvalidToken` if the token has expired, or is otherwise invalid.
    fn user(&self, token: Token) -> Result<u128, Error>;
}

} // verus!
