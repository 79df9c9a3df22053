use gdlk::error::{DatabaseErrorKind, DbError, DbErrorConverter, ResponseError};
use gdlk::validation::ValidationErrors;

fn fk_violation() -> DbError {
    DbError::DatabaseError(DatabaseErrorKind::ForeignKeyViolation, String::new())
}

fn unique_violation() -> DbError {
    DbError::DatabaseError(DatabaseErrorKind::UniqueViolation, String::new())
}

#[test]
fn test_db_error_converter_base_case() {
    let converter = DbErrorConverter::default();
    // Check all error types with all flags off
    assert_eq!(converter.convert::<i32>(Ok(3)).unwrap(), 3);
    assert_eq!(
        converter.convert::<()>(Err(fk_violation())).unwrap_err().message(),
        ResponseError::DieselError(fk_violation()).message()
    );
    assert_eq!(
        converter.convert::<()>(Err(unique_violation())).unwrap_err().message(),
        ResponseError::DieselError(unique_violation()).message()
    );
    assert_eq!(
        converter.convert::<()>(Err(fk_violation())).unwrap_err(),
        ResponseError::DieselError(fk_violation())
    );
}

#[test]
fn test_db_error_converter_fk_violation() {
    let err = DbErrorConverter { fk_violation_to_not_found: true, ..Default::default() }
        .convert::<()>(Err(fk_violation()))
        .unwrap_err();
    assert_eq!(err.message(), "Not found");
}

#[test]
fn test_db_error_converter_unique_violation() {
    let err = DbErrorConverter { unique_violation_to_exists: true, ..Default::default() }
        .convert::<()>(Err(unique_violation()))
        .unwrap_err();
    assert_eq!(err.message(), "This resource already exists");
}

#[test]
fn test_db_error_converter_query_builder() {
    let err = DbErrorConverter { query_builder_to_no_update: true, ..Default::default() }
        .convert::<()>(Err(DbError::QueryBuilderError(
            // If diesel ever changes the message, this will be invalid.
            "There are no changes to save. This query cannot be built".into(),
        )))
        .unwrap_err();
    assert_eq!(err.message(), "No fields were given to update");
}

#[test]
fn test_db_error_converter_other_query_builder_error() {
    let error = DbError::QueryBuilderError("Some other problem".into());
    let err = DbErrorConverter { query_builder_to_no_update: true, ..Default::default() }
        .convert::<()>(Err(error.clone()))
        .unwrap_err();
    assert_eq!(err, ResponseError::DieselError(error));
    assert_eq!(err.client_message(), None);
}

#[test]
fn test_db_error_converter_flags_are_independent() {
    let converter = DbErrorConverter {
        fk_violation_to_not_found: true,
        unique_violation_to_exists: false,
        query_builder_to_no_update: false,
    };
    assert_eq!(
        converter.convert::<()>(Err(unique_violation())).unwrap_err(),
        ResponseError::DieselError(unique_violation())
    );
    assert_eq!(
        converter.convert::<()>(Err(DbError::NotFound)).unwrap_err(),
        ResponseError::DieselError(DbError::NotFound)
    );
    assert_eq!(
        converter.convert::<()>(Err(fk_violation())).unwrap_err(),
        ResponseError::NotFound(Some(fk_violation()))
    );
}

#[test]
fn test_response_status_codes() {
    assert_eq!(ResponseError::CsrfError.status_code(), 401);
    let claims = ResponseError::ClaimsVerificationError("nonce mismatch".into());
    assert_eq!(claims.status_code(), 401);
    assert!(claims.is_client_error());
    assert_eq!(claims.client_message(), None);
    assert_eq!(ResponseError::PermissionDenied.status_code(), 403);
    assert_eq!(ResponseError::AlreadyExists(DbError::NotFound).status_code(), 409);
    assert_eq!(ResponseError::NotFound(None).status_code(), 400);
    assert_eq!(ResponseError::Unauthenticated.status_code(), 400);
    assert_eq!(ResponseError::ValidationErrors(ValidationErrors { errors: vec![] }).status_code(), 400);
    assert_eq!(ResponseError::PoolError("timed out".into()).status_code(), 503);
    assert_eq!(ResponseError::DieselError(DbError::NotFound).status_code(), 500);
    assert_eq!(ResponseError::MissingIdToken.status_code(), 500);
    assert_eq!(ResponseError::InvalidDbValue("x".into()).status_code(), 500);
    assert!(ResponseError::NoUpdate(DbError::NotFound).is_client_error());
    assert!(!ResponseError::MissingIdToken.is_client_error());
}

#[test]
fn test_response_error_messages() {
    assert_eq!(
        ResponseError::ClaimsVerificationError("nonce mismatch".into()).message(),
        "Claims verification failure: nonce mismatch"
    );
    assert_eq!(ResponseError::PoolError("timed out".into()).message(), "Database error: timed out");
    assert_eq!(
        ResponseError::DieselError(DbError::DatabaseError(DatabaseErrorKind::Unknown, "boom".into())).message(),
        "Database error: boom"
    );
    assert_eq!(ResponseError::DieselError(DbError::NotFound).message(), "Database error: NotFound");
    assert_eq!(
        ResponseError::ValidationErrors(ValidationErrors { errors: vec![] }).message(),
        "Validator error: 0"
    );
    assert_eq!(ResponseError::MissingIdToken.message(), "id_token field was not in OpenID response");
    assert_eq!(ResponseError::Unauthenticated.message(), "Not logged in");
    assert_eq!(ResponseError::InvalidDbValue("Fly".into()).message(), "Invalid database value: Fly");
    // GraphQL clients see a fixed message for validation errors.
    assert_eq!(
        ResponseError::ValidationErrors(ValidationErrors { errors: vec![] }).client_message(),
        Some("Input validation error(s)")
    );
}
