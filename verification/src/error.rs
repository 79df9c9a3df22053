//! Errors of the application layer: database errors, the mapping of some of
//! them to errors that blame the client, and errors of outgoing HTTP calls.

use crate::text::{occurs_in, str_contains};
use crate::validation::ValidationErrors;
use vstd::prelude::*;
use vstd::string::StringExecFns;
use vstd::utf8::encode_utf8;

verus! {

/// The kind of a database error, as the database driver reports it.
#[derive(Copy, Clone, Debug, PartialEq, Eq, Structural)]
pub enum DatabaseErrorKind {
    /// A unique constraint was violated.
    UniqueViolation,
    /// A foreign key constraint was violated.
    ForeignKeyViolation,
    /// The query could not be sent to the database.
    UnableToSendCommand,
    /// A serializable transaction failed to commit.
    SerializationFailure,
    /// Any other kind.
    Unknown,
}

/// An error of a database operation.
#[derive(Clone, Debug, PartialEq)]
pub enum DbError {
    /// The database rejected the statement; the message is its own.
    DatabaseError(DatabaseErrorKind, String),
    /// No row was found where one was required.
    NotFound,
    /// The query could not be built; the message says why.
    QueryBuilderError(String),
    /// Any other failure, with its message.
    Other(String),
}

impl DbError {
    /// The text of this error.
    pub fn message(&self) -> (m: &str)
        ensures
            m@ == db_error_text(*self),
    {
        match self {
            DbError::DatabaseError(_, m) => m.as_str(),
            DbError::NotFound => "NotFound",
            DbError::QueryBuilderError(m) => m.as_str(),
            DbError::Other(m) => m.as_str(),
        }
    }
}

/// An error to respond to a request with.
#[derive(Clone, Debug, PartialEq)]
pub enum ResponseError {
    /// The client referenced a resource that does not exist; the database
    /// error that showed it, if any.
    NotFound(Option<DbError>),
    /// The client used a unique identifier that already exists.
    AlreadyExists(DbError),
    /// The client asked for an update without any field to change.
    NoUpdate(DbError),
    /// The action needs a logged-in user.
    Unauthenticated,
    /// The logged-in user lacks the permission that the action needs.
    PermissionDenied,
    /// The CSRF token of a login was missing or did not match.
    CsrfError,
    /// The claims that the OpenID provider returned failed verification; the
    /// message says why.
    ClaimsVerificationError(String),
    /// The client's input breaks validation rules.
    ValidationErrors(ValidationErrors),
    /// No database connection could be had; the message says why.
    PoolError(String),
    /// A database failure on the server's side.
    DieselError(DbError),
    /// The OpenID provider's response had no `id_token` field.
    MissingIdToken,
    /// The database holds a value that the server cannot interpret.
    InvalidDbValue(String),
}

/// The message that a GraphQL client is given for the error, where it is
/// fixed: the error's text, except for validation errors, which read
/// `Input validation error(s)` there (their details travel beside the
/// message). `None` for an error whose text includes its cause.
pub open spec fn client_message(e: ResponseError) -> Option<Seq<char>> {
    match e {
        ResponseError::NotFound(_) => Some("Not found"@),
        ResponseError::AlreadyExists(_) => Some("This resource already exists"@),
        ResponseError::NoUpdate(_) => Some("No fields were given to update"@),
        ResponseError::Unauthenticated => Some("Not logged in"@),
        ResponseError::PermissionDenied => Some("Insufficient permissions to perform this action"@),
        ResponseError::CsrfError => Some(
            "CSRF token was not provided or did not match the expected value"@,
        ),
        ResponseError::ValidationErrors(_) => Some("Input validation error(s)"@),
        ResponseError::MissingIdToken => Some("id_token field was not in OpenID response"@),
        _ => None,
    }
}

/// The text of a database error: the database's own message, the query
/// builder's message, or `NotFound` for a missing row.
pub open spec fn db_error_text(e: DbError) -> Seq<char> {
    match e {
        DbError::DatabaseError(_, m) => m@,
        DbError::NotFound => "NotFound"@,
        DbError::QueryBuilderError(m) => m@,
        DbError::Other(m) => m@,
    }
}

/// The text of an error, as it is displayed and logged. Errors that wrap a
/// cause show the cause's text after a fixed prefix. The validation error
/// reads `Validator error: 0`: its text names none of the errors. A value
/// that the server cannot interpret is shown after `Invalid database value: `.
pub open spec fn message_text(e: ResponseError) -> Seq<char> {
    match e {
        ResponseError::NotFound(_) => "Not found"@,
        ResponseError::AlreadyExists(_) => "This resource already exists"@,
        ResponseError::NoUpdate(_) => "No fields were given to update"@,
        ResponseError::Unauthenticated => "Not logged in"@,
        ResponseError::PermissionDenied => "Insufficient permissions to perform this action"@,
        ResponseError::CsrfError => "CSRF token was not provided or did not match the expected value"@,
        ResponseError::ClaimsVerificationError(m) => "Claims verification failure: "@ + m@,
        ResponseError::ValidationErrors(_) => "Validator error: 0"@,
        ResponseError::PoolError(m) => "Database error: "@ + m@,
        ResponseError::DieselError(d) => "Database error: "@ + db_error_text(d),
        ResponseError::MissingIdToken => "id_token field was not in OpenID response"@,
        ResponseError::InvalidDbValue(v) => "Invalid database value: "@ + v@,
    }
}

/// Is the error the client's fault (as opposed to the server's)?
pub open spec fn is_client_error(e: ResponseError) -> bool {
    match e {
        ResponseError::PoolError(_) | ResponseError::DieselError(_) | ResponseError::MissingIdToken
        | ResponseError::InvalidDbValue(_) => false,
        _ => true,
    }
}

/// The HTTP status that answers a request that failed with the error: 401
/// for a failed login (CSRF or claims verification), 403 for a missing permission, 409 for a resource that
/// exists already, 400 for any other client error; 503 when no database
/// connection could be had, 500 for any other server error.
pub open spec fn status_for(e: ResponseError) -> u16 {
    match e {
        ResponseError::CsrfError | ResponseError::ClaimsVerificationError(_) => 401,
        ResponseError::PermissionDenied => 403,
        ResponseError::AlreadyExists(_) => 409,
        ResponseError::PoolError(_) => 503,
        _ => if is_client_error(e) {
            400
        } else {
            500
        },
    }
}

impl ResponseError {
    /// The text of this error, as it is displayed and logged.
    pub fn message(&self) -> (m: String)
        ensures
            m@ == message_text(*self),
    {
        match self {
            ResponseError::NotFound(_) => String::from_str("Not found"),
            ResponseError::AlreadyExists(_) => String::from_str("This resource already exists"),
            ResponseError::NoUpdate(_) => String::from_str("No fields were given to update"),
            ResponseError::Unauthenticated => String::from_str("Not logged in"),
            ResponseError::PermissionDenied => String::from_str("Insufficient permissions to perform this action"),
            ResponseError::CsrfError => String::from_str(
                "CSRF token was not provided or did not match the expected value",
            ),
            ResponseError::ClaimsVerificationError(m) => {
                let mut text = String::from_str("Claims verification failure: ");
                text.append(m.as_str());
                text
            },
            ResponseError::ValidationErrors(_) => String::from_str("Validator error: 0"),
            ResponseError::PoolError(m) => {
                let mut text = String::from_str("Database error: ");
                text.append(m.as_str());
                text
            },
            ResponseError::DieselError(d) => {
                let mut text = String::from_str("Database error: ");
                text.append(d.message());
                text
            },
            ResponseError::MissingIdToken => String::from_str("id_token field was not in OpenID response"),
            ResponseError::InvalidDbValue(v) => {
                let mut text = String::from_str("Invalid database value: ");
                text.append(v.as_str());
                text
            },
        }
    }

    /// The message that a GraphQL client is given for this error, where it
    /// is fixed.
    pub fn client_message(&self) -> (m: Option<&'static str>)
        ensures
            match m {
                Some(s) => client_message(*self) == Some(s@),
                None => client_message(*self) is None,
            },
    {
        match self {
            ResponseError::NotFound(_) => Some("Not found"),
            ResponseError::AlreadyExists(_) => Some("This resource already exists"),
            ResponseError::NoUpdate(_) => Some("No fields were given to update"),
            ResponseError::Unauthenticated => Some("Not logged in"),
            ResponseError::PermissionDenied => Some("Insufficient permissions to perform this action"),
            ResponseError::CsrfError => Some("CSRF token was not provided or did not match the expected value"),
            ResponseError::ValidationErrors(_) => Some("Input validation error(s)"),
            ResponseError::MissingIdToken => Some("id_token field was not in OpenID response"),
            _ => None,
        }
    }

    /// Is the error the client's fault (as opposed to the server's)?
    pub fn is_client_error(&self) -> (b: bool)
        ensures
            b == is_client_error(*self),
    {
        match self {
            ResponseError::PoolError(_) | ResponseError::DieselError(_) | ResponseError::MissingIdToken
            | ResponseError::InvalidDbValue(_) => false,
            _ => true,
        }
    }

    /// The HTTP status to answer a request that failed with this error.
    pub fn status_code(&self) -> (s: u16)
        ensures
            s == status_for(*self),
    {
        match self {
            ResponseError::CsrfError | ResponseError::ClaimsVerificationError(_) => 401,
            ResponseError::PermissionDenied => 403,
            ResponseError::AlreadyExists(_) => 409,
            ResponseError::PoolError(_) => 503,
            _ => if self.is_client_error() {
                400
            } else {
                500
            },
        }
    }
}

/// Which database errors to map to errors that blame the client. By default
/// every database error is a server-side problem.
#[derive(Copy, Clone, Debug)]
pub struct DbErrorConverter {
    /// Map a foreign key violation to [`ResponseError::NotFound`]: useful
    /// when inserting or modifying foreign keys.
    pub fk_violation_to_not_found: bool,
    /// Map a unique violation to [`ResponseError::AlreadyExists`]: useful for
    /// inserts, and updates that change a unique field.
    pub unique_violation_to_exists: bool,
    /// Map a query builder error about an update with nothing to change to
    /// [`ResponseError::NoUpdate`].
    pub query_builder_to_no_update: bool,
}

impl Default for DbErrorConverter {
    fn default() -> (c: Self)
        ensures
            !c.fk_violation_to_not_found,
            !c.unique_violation_to_exists,
            !c.query_builder_to_no_update,
    {
        DbErrorConverter {
            fk_violation_to_not_found: false,
            unique_violation_to_exists: false,
            query_builder_to_no_update: false,
        }
    }
}

/// The phrase by which a query builder error tells that an update had
/// nothing to change.
pub open spec fn no_changes_phrase() -> Seq<char> {
    "no changes to save"@
}

/// Is the error a rejection by the database of the given kind?
pub open spec fn is_database_error(e: DbError, kind: DatabaseErrorKind) -> bool {
    match e {
        DbError::DatabaseError(k, _) => k == kind,
        _ => false,
    }
}

/// Is the error a query builder error that tells that an update had nothing
/// to change?
pub open spec fn is_no_changes_error(e: DbError) -> bool {
    match e {
        DbError::QueryBuilderError(msg) => occurs_in(encode_utf8(msg@), encode_utf8(no_changes_phrase())),
        _ => false,
    }
}

/// The response error that a converter maps a database error to.
pub open spec fn converted(c: DbErrorConverter, e: DbError) -> ResponseError {
    if c.fk_violation_to_not_found && is_database_error(e, DatabaseErrorKind::ForeignKeyViolation) {
        ResponseError::NotFound(Some(e))
    } else if c.unique_violation_to_exists && is_database_error(e, DatabaseErrorKind::UniqueViolation) {
        ResponseError::AlreadyExists(e)
    } else if c.query_builder_to_no_update && is_no_changes_error(e) {
        ResponseError::NoUpdate(e)
    } else {
        ResponseError::DieselError(e)
    }
}

impl DbErrorConverter {
    /// Maps the error of a database result to a response error; an `Ok`
    /// result is returned as it is.
    pub fn convert<T>(self, result: Result<T, DbError>) -> (r: Result<T, ResponseError>)
        ensures
            match result {
                Ok(v) => r == Ok::<T, ResponseError>(v),
                Err(e) => r == Err::<T, ResponseError>(converted(self, e)),
            },
    {
        match result {
            Ok(v) => Ok(v),
            Err(e) => Err(self.convert_error(e)),
        }
    }

    /// Maps one database error to a response error.
    pub fn convert_error(self, error: DbError) -> (r: ResponseError)
        ensures
            r == converted(self, error),
    {
        let phrase = "no changes to save";
        let fk = self.fk_violation_to_not_found && match &error {
            DbError::DatabaseError(DatabaseErrorKind::ForeignKeyViolation, _) => true,
            _ => false,
        };
        if fk {
            return ResponseError::NotFound(Some(error));
        }
        let unique = self.unique_violation_to_exists && match &error {
            DbError::DatabaseError(DatabaseErrorKind::UniqueViolation, _) => true,
            _ => false,
        };
        if unique {
            return ResponseError::AlreadyExists(error);
        }
        let no_update = self.query_builder_to_no_update && match &error {
            DbError::QueryBuilderError(msg) => str_contains(msg.as_str(), phrase),
            _ => false,
        };
        if no_update {
            return ResponseError::NoUpdate(error);
        }
        ResponseError::DieselError(error)
    }
}

/// An error that can occur during an HTTP call made with the Actix client,
/// carrying the message of the client's own error.
#[derive(Clone, Debug, PartialEq)]
pub enum ActixClientError {
    /// The request could not be sent.
    SendRequestError(String),
    /// The response payload could not be read.
    PayloadError(String),
}

} // verus!
