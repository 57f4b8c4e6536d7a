use vstd::prelude::*;

verus! {

/// The errors that the service answers a request with.
#[derive(Debug)]
pub enum ServiceError {
    NotFound,
    InternalServerError,
    BadRequest(String),
    Unauthorized,
    JWTTokenCreationError,
    Forbidden,
    InvalidToken,
    InvalidIssuer,
}

/// An HTTP error answer: the status code and the text that the body carries
/// (the body is that text as a JSON string).
#[derive(Debug)]
pub struct ErrorResponse {
    pub status: u16,
    pub message: String,
}

/// The HTTP status code that answers each error.
pub open spec fn status_of(e: ServiceError) -> u16 {
    match e {
        ServiceError::NotFound => 404,
        ServiceError::InternalServerError => 500,
        ServiceError::BadRequest(_) => 400,
        ServiceError::Unauthorized => 401,
        ServiceError::Forbidden => 403,
        ServiceError::InvalidToken => 401,
        ServiceError::InvalidIssuer => 401,
        ServiceError::JWTTokenCreationError => 500,
    }
}

/// The text carried in the body of the answer to each error.
pub open spec fn response_text_of(e: ServiceError) -> Seq<char> {
    match e {
        ServiceError::NotFound => "Not Found"@,
        ServiceError::InternalServerError => "Internal Server Error, Please try later"@,
        ServiceError::BadRequest(message) => message@,
        ServiceError::Unauthorized => "Unauthorized"@,
        ServiceError::Forbidden => "Forbidden"@,
        ServiceError::InvalidToken => "Invalid Token"@,
        ServiceError::InvalidIssuer => "Invalid Issuer"@,
        ServiceError::JWTTokenCreationError => "JWTTOKENCREATEERROR"@,
    }
}

/// The human-readable description of each error.
pub open spec fn display_of(e: ServiceError) -> Seq<char> {
    match e {
        ServiceError::NotFound => "Not Found"@,
        ServiceError::InternalServerError => "Internal Server Error"@,
        ServiceError::BadRequest(message) => "BadRequest: "@ + message@,
        ServiceError::Unauthorized => "Unauthorized"@,
        ServiceError::JWTTokenCreationError => "Error while creating JWT token"@,
        ServiceError::Forbidden => "Forbidden"@,
        ServiceError::InvalidToken => "Invalid Token"@,
        ServiceError::InvalidIssuer => "Invalid Issuer"@,
    }
}

/// Errors the caller caused are answered with a 4xx status and the
/// service's own failures with a 5xx one; every authentication failure is
/// 401; a bad request is answered with its own message, unchanged.
pub proof fn lemma_error_status_classes(e: ServiceError)
    ensures
        400 <= status_of(e) < 500 <==> !(e is InternalServerError || e is JWTTokenCreationError),
        500 <= status_of(e) < 600 <==> (e is InternalServerError || e is JWTTokenCreationError),
        status_of(e) == 401 <==> (e is Unauthorized || e is InvalidToken || e is InvalidIssuer),
        e matches ServiceError::BadRequest(m) ==> response_text_of(e) == m@ && status_of(e) == 400,
{
}

impl ServiceError {
    /// The HTTP answer to this error: its status code and body text.
    pub fn error_response(&self) -> (r: ErrorResponse)
        ensures
            r.status == status_of(*self),
            r.message@ == response_text_of(*self),
    {
        match self {
            ServiceError::NotFound => ErrorResponse {
                status: 404,
                message: String::from_str("Not Found"),
            },
            ServiceError::InternalServerError => ErrorResponse {
                status: 500,
                message: String::from_str("Internal Server Error, Please try later"),
            },
            ServiceError::BadRequest(message) => ErrorResponse {
                status: 400,
                message: message.clone(),
            },
            ServiceError::Unauthorized => ErrorResponse {
                status: 401,
                message: String::from_str("Unauthorized"),
            },
            ServiceError::Forbidden => ErrorResponse {
                status: 403,
                message: String::from_str("Forbidden"),
            },
            ServiceError::InvalidToken => ErrorResponse {
                status: 401,
                message: String::from_str("Invalid Token"),
            },
            ServiceError::InvalidIssuer => ErrorResponse {
                status: 401,
                message: String::from_str("Invalid Issuer"),
            },
            ServiceError::JWTTokenCreationError => ErrorResponse {
                status: 500,
                message: String::from_str("JWTTOKENCREATEERROR"),
            },
        }
    }

    /// The human-readable description of this error.
    pub fn display_text(&self) -> (text: String)
        ensures
            text@ == display_of(*self),
    {
        match self {
            ServiceError::NotFound => String::from_str("Not Found"),
            ServiceError::InternalServerError => String::from_str("Internal Server Error"),
            ServiceError::BadRequest(message) => {
                let mut text = String::from_str("BadRequest: ");
                text.append(message.as_str());
                text
            },
            ServiceError::Unauthorized => String::from_str("Unauthorized"),
            ServiceError::JWTTokenCreationError => String::from_str(
                "Error while creating JWT token",
            ),
            ServiceError::Forbidden => String::from_str("Forbidden"),
            ServiceError::InvalidToken => String::from_str("Invalid Token"),
            ServiceError::InvalidIssuer => String::from_str("Invalid Issuer"),
        }
    }
}

/// The kinds of failure that the database reports for a statement.
#[derive(Debug, Clone, Copy, PartialEq, Eq, Structural)]
pub enum DatabaseErrorKind {
    UniqueViolation,
    ForeignKeyViolation,
    UnableToSendCommand,
    SerializationFailure,
    Unknown,
}

/// A failed database query, as far as the service reads it.
#[derive(Debug)]
pub enum DbError {
    /// The database refused the statement.
    DatabaseError { kind: DatabaseErrorKind, message: String, details: Option<String> },
    /// A query for one row found none.
    NotFound,
    /// Any other failure (connection, (de)serialization, transactions).
    Other,
}

/// The service error that answers a database failure: a unique-key
/// violation is the client's fault and carries the database's details
/// (or, without them, its message); a missing row is `NotFound`; anything
/// else is an internal error.
pub open spec fn service_error_of(error: DbError) -> ServiceError {
    match error {
        DbError::DatabaseError { kind, message, details } => {
            if kind == DatabaseErrorKind::UniqueViolation {
                match details {
                    Some(d) => ServiceError::BadRequest(d),
                    None => ServiceError::BadRequest(message),
                }
            } else {
                ServiceError::InternalServerError
            }
        },
        DbError::NotFound => ServiceError::NotFound,
        DbError::Other => ServiceError::InternalServerError,
    }
}

impl From<DbError> for ServiceError {
    fn from(error: DbError) -> (r: ServiceError) {
        match error {
            DbError::DatabaseError { kind, message, details } => {
                if let DatabaseErrorKind::UniqueViolation = kind {
                    return match details {
                        Some(d) => ServiceError::BadRequest(d),
                        None => ServiceError::BadRequest(message),
                    };
                }
                ServiceError::InternalServerError
            },
            DbError::NotFound => ServiceError::NotFound,
            DbError::Other => ServiceError::InternalServerError,
        }
    }
}

impl vstd::std_specs::convert::FromSpecImpl<DbError> for ServiceError {
    open spec fn obeys_from_spec() -> bool {
        true
    }

    open spec fn from_spec(error: DbError) -> ServiceError {
        service_error_of(error)
    }
}

} // verus!
