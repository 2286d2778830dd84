use kanari::error::KanariError;
use kanari::rpc::error::RpcError;

#[test]
fn error_codes() {
    assert_eq!(RpcError::ServiceUnavailable.code(), -32009);
    assert_eq!(RpcError::KanariError(KanariError::UnknownChain("x".to_string())).code(), 1);
    assert_eq!(RpcError::InternalError("db".to_string()).code(), 2);
    assert_eq!(RpcError::BcsError("eof".to_string()).code(), 3);
    assert_eq!(RpcError::UnexpectedError("x".to_string()).code(), 4);
}
