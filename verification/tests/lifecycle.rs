use resp_client::connection::ConnectionLifecycle;
use resp_client::errors::ClientError;

#[test]
fn send_refused_after_close() {
    let mut life = ConnectionLifecycle::new();
    assert!(life.may_send());
    assert_eq!(life.close(), Ok(()));
    assert!(!life.may_send());
}

#[test]
fn double_close_is_reported() {
    let mut life = ConnectionLifecycle::new();
    assert_eq!(life.close(), Ok(()));
    assert_eq!(life.close(), Err(ClientError::Closed));
    assert!(!life.may_send());
}
