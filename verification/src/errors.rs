use vstd::prelude::*;

verus! {

/// Every failure the pipeline can report, split into the authentication
/// failures (`MalformedHeader`, `InvalidToken`, `UnknownToken`), the domain
/// failures (`Conflict`, `SelfFriendRequest`), and the infrastructure
/// failures (`ConnectionExhausted`, `StoreUnavailable`, `QueryFailed`).
#[derive(Clone, Copy, Debug, PartialEq, Eq, Structural)]
pub enum ApiError {
    /// The authorization header is missing or does not start with `Bearer `.
    MalformedHeader,
    /// The bearer credential is not a textual 128-bit unique identifier.
    InvalidToken,
    /// The credential is well formed but matches no registered identity.
    UnknownToken,
    /// A registration collided with an existing identity.
    Conflict,
    /// A friend request whose source and target are the same identity.
    SelfFriendRequest,
    /// Every store connection is currently held.
    ConnectionExhausted,
    /// The store cannot be reached at all.
    StoreUnavailable,
    /// A submitted statement did not match the shape its parameters require.
    QueryFailed,
}

impl ApiError {
    /// The machine-readable error body sent back to the caller.
    pub fn message(&self) -> (r: String)
        ensures
            r@ == self.spec_message(),
    {
        match self {
            ApiError::MalformedHeader => "Invalid Authorization Header".to_owned(),
            ApiError::InvalidToken => "Invalid Token".to_owned(),
            ApiError::UnknownToken => "Token not found".to_owned(),
            ApiError::Conflict => "Could not insert user".to_owned(),
            ApiError::SelfFriendRequest => "Cannot befriend yourself".to_owned(),
            ApiError::ConnectionExhausted => "No store connection available".to_owned(),
            ApiError::StoreUnavailable => "Store unavailable".to_owned(),
            ApiError::QueryFailed => "Query failed".to_owned(),
        }
    }

    /// What `message` returns, variant by variant.
    pub open spec fn spec_message(self) -> Seq<char> {
        match self {
            ApiError::MalformedHeader => "Invalid Authorization Header"@,
            ApiError::InvalidToken => "Invalid Token"@,
            ApiError::UnknownToken => "Token not found"@,
            ApiError::Conflict => "Could not insert user"@,
            ApiError::SelfFriendRequest => "Cannot befriend yourself"@,
            ApiError::ConnectionExhausted => "No store connection available"@,
            ApiError::StoreUnavailable => "Store unavailable"@,
            ApiError::QueryFailed => "Query failed"@,
        }
    }
}

} // verus!
