//! The errors the RPC API answers with, and the JSON-RPC error code of each.

use crate::error::KanariError;
use vstd::prelude::*;

verus! {

/// Why an RPC request failed. The texts are those of the underlying errors.
#[derive(Debug, Clone, PartialEq, Eq)]
pub enum RpcError {
    /// The service is not taking requests.
    ServiceUnavailable,
    /// A chain-level type was refused.
    KanariError(KanariError),
    /// The node failed while serving the request.
    InternalError(String),
    /// A value could not be decoded.
    BcsError(String),
    /// Anything else.
    UnexpectedError(String),
}

/// JSON-RPC's code for a server that is busy.
pub open spec fn server_is_busy_code_spec() -> i32 {
    -32009i32
}

/// The JSON-RPC code for a busy server.
///
/// Trusted: returns `jsonrpsee::types::ErrorCode::ServerIsBusy.code()`,
/// which the crate defines as its constant `SERVER_IS_BUSY_CODE`, -32009.
#[verifier::external_body]
fn server_is_busy_code() -> (r: i32)
    ensures
        r == server_is_busy_code_spec(),
{
    jsonrpsee::types::ErrorCode::ServerIsBusy.code()
}

/// The code each error is answered with: the busy-server code when the
/// service is unavailable, else 1 to 4 by the kind of error.
pub open spec fn rpc_error_code_spec(e: RpcError) -> i32 {
    match e {
        RpcError::ServiceUnavailable => server_is_busy_code_spec(),
        RpcError::KanariError(_) => 1,
        RpcError::InternalError(_) => 2,
        RpcError::BcsError(_) => 3,
        RpcError::UnexpectedError(_) => 4,
    }
}

impl RpcError {
    /// The JSON-RPC error code the error is answered with.
    pub fn code(&self) -> (r: i32)
        ensures
            r == rpc_error_code_spec(*self),
    {
        match self {
            RpcError::ServiceUnavailable => server_is_busy_code(),
            RpcError::KanariError(_) => 1,
            RpcError::InternalError(_) => 2,
            RpcError::BcsError(_) => 3,
            RpcError::UnexpectedError(_) => 4,
        }
    }
}

} // verus!
