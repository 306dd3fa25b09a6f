//! The bodies of the trusted publishing token exchange.

use vstd::prelude::*;

verus! {

/// The request: an identity token of the publishing workflow.
#[derive(Clone, Debug)]
pub struct ExchangeRequest {
    /// The signed identity token.
    pub jwt: String,
}

/// The response: the access token handed out for it.
#[derive(Clone, Debug)]
pub struct ExchangeResponse {
    /// The temporary access token.
    pub token: String,
}

impl ExchangeRequest {
    /// A request that carries the identity token `jwt`.
    pub fn new(jwt: &str) -> (request: ExchangeRequest)
        ensures
            request.jwt@ == jwt@,
    {
        ExchangeRequest { jwt: jwt.to_owned() }
    }
}

impl ExchangeResponse {
    /// A response that carries the access token `token`.
    pub fn new(token: &str) -> (response: ExchangeResponse)
        ensures
            response.token@ == token@,
    {
        ExchangeResponse { token: token.to_owned() }
    }
}

} // verus!
