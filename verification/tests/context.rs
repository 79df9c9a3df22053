use gdlk::context::{AuthorizedUser, UserContext};
use gdlk::error::ResponseError;
use gdlk::models::permission::PermissionType;

#[test]
fn test_user_load_context_invalid_user_provider() {
    assert_eq!(UserContext::from_rows(7, None, vec![]).unwrap(), None);
}

#[test]
fn test_user_load_context_uninitialized_user() {
    assert_eq!(
        UserContext::from_rows(7, Some((None, None)), vec![]).unwrap(),
        Some(UserContext { user_provider_id: 7, user: None })
    );
}

#[test]
fn test_user_load_context_initialized_user() {
    let ctx = UserContext::from_rows(7, Some((Some(42), Some("user1".into()))), vec![]).unwrap();
    assert_eq!(
        ctx,
        Some(UserContext {
            user_provider_id: 7,
            user: Some(AuthorizedUser {
                id: 42,
                username: "user1".into(),
                permissions: vec![],
                is_admin: false,
            }),
        })
    );
}

#[test]
fn test_user_load_context_initialized_user_admin() {
    // An admin role without permissions, and a role with two permissions,
    // one of which repeats.
    let rows = vec![
        (None, true),
        (Some("Create Specs".to_string()), false),
        (Some("Delete All Specs".to_string()), false),
        (Some("Create Specs".to_string()), false),
    ];
    let ctx = UserContext::from_rows(7, Some((Some(42), Some("user1".into()))), rows)
        .unwrap()
        .unwrap();
    let user = ctx.user.unwrap();
    assert!(user.is_admin);
    assert_eq!(
        user.permissions,
        vec![PermissionType::CreateSpecs, PermissionType::DeleteAllSpecs]
    );
}

#[test]
fn test_user_load_context_invalid_permission_name() {
    let rows = vec![(Some("Create Specs".to_string()), false), (Some("Fly".to_string()), false)];
    assert_eq!(
        UserContext::from_rows(7, Some((Some(42), Some("user1".into()))), rows),
        Err(ResponseError::InvalidDbValue("Fly".into()))
    );
}

#[test]
fn test_permission_checks() {
    let user = AuthorizedUser {
        id: 1,
        username: "u".into(),
        permissions: vec![PermissionType::CreateSpecs],
        is_admin: false,
    };
    assert!(user.has_permission(PermissionType::CreateSpecs));
    assert!(!user.has_permission(PermissionType::ModifyAllSpecs));
    let admin = AuthorizedUser { is_admin: true, permissions: vec![], ..user.clone() };
    assert!(admin.has_permission(PermissionType::ViewAllUserPrograms));

    let ctx = Some(UserContext { user_provider_id: 1, user: Some(user) });
    assert_eq!(UserContext::check_permission(&ctx, PermissionType::CreateSpecs), Ok(()));
    assert_eq!(
        UserContext::check_permission(&ctx, PermissionType::ModifyAllSpecs),
        Err(ResponseError::PermissionDenied)
    );
    let not_set_up = Some(UserContext { user_provider_id: 1, user: None });
    assert_eq!(
        UserContext::check_permission(&not_set_up, PermissionType::CreateSpecs),
        Err(ResponseError::Unauthenticated)
    );
    assert_eq!(
        UserContext::authorized_user(&None).unwrap_err().client_message(),
        Some("Not logged in")
    );
}

#[test]
fn test_initialize_user_decisions() {
    let ctx = Some(UserContext { user_provider_id: 9, user: None });
    assert_eq!(UserContext::provider_to_initialize(&ctx), Ok(9));
    assert_eq!(UserContext::provider_to_initialize(&None), Err(ResponseError::Unauthenticated));
    assert_eq!(UserContext::check_linked(1), Ok(()));
    assert_eq!(UserContext::check_linked(0), Err(ResponseError::NotFound(None)));
}
