//! The request that asks the documentation host to rebuild a version.

use vstd::prelude::*;
use vstd::string::StringExecFns;

verus! {

/// The detail of the refusal when no access token is configured.
pub const NOT_CONFIGURED: &'static str = "docs.rs integration is not configured";

/// Why no rebuild can be requested.
#[derive(Clone, Copy, Debug, PartialEq, Eq, Structural)]
pub enum RebuildError {
    /// The server has no access token for the documentation host.
    NotConfigured,
}

/// What is sent to the documentation host.
#[derive(Clone, Debug)]
pub struct RebuildRequest {
    /// The path of the request, below the address of the host.
    pub path: String,
    /// The access token that authorizes the request.
    pub bearer_token: String,
}

/// The path under which the documentation host takes rebuild requests for
/// the version `version` of the crate `name`.
pub open spec fn rebuild_path_for(name: Seq<char>, version: Seq<char>) -> Seq<char> {
    "/crate/"@ + name + "/"@ + version + "/rebuild"@
}

/// Builds the path of the rebuild request for a version of a crate.
pub fn rebuild_path(name: &str, version: &str) -> (path: String)
    ensures
        path@ == rebuild_path_for(name@, version@),
{
    let mut path = "/crate/".to_owned();
    path.append(name);
    path.append("/");
    path.append(version);
    path.append("/rebuild");
    path
}

/// Prepares the rebuild request for a version of a crate, given the access
/// token that the server is configured with, if any. Without a token the
/// request is refused.
pub fn rebuild_request(api_token: &Option<String>, name: &str, version: &str) -> (outcome: Result<
    RebuildRequest,
    RebuildError,
>)
    ensures
        match outcome {
            Ok(request) => api_token matches Some(token) && request.bearer_token@ == token@
                && request.path@ == rebuild_path_for(name@, version@),
            Err(e) => api_token.is_none() && e == RebuildError::NotConfigured,
        },
{
    match api_token {
        None => Err(RebuildError::NotConfigured),
        Some(token) => Ok(
            RebuildRequest { path: rebuild_path(name, version), bearer_token: token.clone() },
        ),
    }
}

} // verus!
