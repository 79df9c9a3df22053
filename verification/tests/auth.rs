use gdlk::auth::AuthState;
use gdlk::error::ResponseError;

#[test]
fn test_auth_state_next() {
    assert_eq!(AuthState::new(None).next(), "/");
    assert_eq!(AuthState::new(Some("/hardware".into())).next(), "/hardware");
}

#[test]
fn test_auth_state_accept() {
    let state = AuthState::new(Some("/x".into()));
    assert_eq!(AuthState::accept(Some(state.clone())), Ok(state));
    assert_eq!(AuthState::accept(None), Err(ResponseError::CsrfError));
    let forged = AuthState { next: None, csrf_token: "4".into() };
    assert_eq!(AuthState::accept(Some(forged)), Err(ResponseError::CsrfError));
}
