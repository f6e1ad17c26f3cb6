//! The messages of the scheduler's RPC service.
use vstd::prelude::*;

verus! {

/// The empty message.
pub struct Empty {}

/// A request for a resource: the resource asked for and the name of the
/// request.
pub struct AccessResource {
    pub request_resource: String,
    pub name: String,
}

/// The token of a holder.
pub struct ResourceToken {
    pub token: u64,
}

/// The answer to a request for a resource: a token when it was granted.
pub struct ResourceResult {
    pub token: Option<ResourceToken>,
}

/// The answer to a ping or a release.
pub struct ExecResult {
    pub result: bool,
}

impl ResourceResult {
    /// The granted token, as a plain value.
    pub open spec fn granted(self) -> Option<u64> {
        match self.token {
            Some(t) => Some(t.token),
            None => None,
        }
    }
}

} // verus!
