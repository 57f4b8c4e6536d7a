use whisper::errors::DatabaseErrorKind;
use whisper::errors::DbError;
use whisper::errors::ServiceError;

fn answer(e: &ServiceError) -> (u16, String) {
    let r = e.error_response();
    (r.status, r.message)
}

#[test]
fn error_responses_carry_status_and_text() {
    assert_eq!(answer(&ServiceError::NotFound), (404, "Not Found".to_string()));
    assert_eq!(
        answer(&ServiceError::InternalServerError),
        (500, "Internal Server Error, Please try later".to_string())
    );
    assert_eq!(answer(&ServiceError::BadRequest("taken".to_string())), (400, "taken".to_string()));
    assert_eq!(answer(&ServiceError::Unauthorized), (401, "Unauthorized".to_string()));
    assert_eq!(answer(&ServiceError::Forbidden), (403, "Forbidden".to_string()));
    assert_eq!(answer(&ServiceError::InvalidToken), (401, "Invalid Token".to_string()));
    assert_eq!(answer(&ServiceError::InvalidIssuer), (401, "Invalid Issuer".to_string()));
    assert_eq!(
        answer(&ServiceError::JWTTokenCreationError),
        (500, "JWTTOKENCREATEERROR".to_string())
    );
}

#[test]
fn errors_display_their_descriptions() {
    assert_eq!(ServiceError::NotFound.display_text(), "Not Found");
    assert_eq!(ServiceError::InternalServerError.display_text(), "Internal Server Error");
    assert_eq!(ServiceError::BadRequest("x".to_string()).display_text(), "BadRequest: x");
    assert_eq!(ServiceError::Unauthorized.display_text(), "Unauthorized");
    assert_eq!(
        ServiceError::JWTTokenCreationError.display_text(),
        "Error while creating JWT token"
    );
    assert_eq!(ServiceError::Forbidden.display_text(), "Forbidden");
    assert_eq!(ServiceError::InvalidToken.display_text(), "Invalid Token");
    assert_eq!(ServiceError::InvalidIssuer.display_text(), "Invalid Issuer");
}

#[test]
fn unique_violation_becomes_bad_request_with_details() {
    let e = ServiceError::from(DbError::DatabaseError {
        kind: DatabaseErrorKind::UniqueViolation,
        message: "duplicate key".to_string(),
        details: Some("Key (email)=(a@b.c) already exists.".to_string()),
    });
    assert_eq!(answer(&e), (400, "Key (email)=(a@b.c) already exists.".to_string()));
}

#[test]
fn unique_violation_without_details_uses_message() {
    let e = ServiceError::from(DbError::DatabaseError {
        kind: DatabaseErrorKind::UniqueViolation,
        message: "duplicate key".to_string(),
        details: None,
    });
    assert_eq!(answer(&e), (400, "duplicate key".to_string()));
}

#[test]
fn other_database_errors_are_internal() {
    let e = ServiceError::from(DbError::DatabaseError {
        kind: DatabaseErrorKind::ForeignKeyViolation,
        message: "fk".to_string(),
        details: Some("d".to_string()),
    });
    assert_eq!(answer(&e).0, 500);
    assert_eq!(answer(&ServiceError::from(DbError::Other)).0, 500);
}

#[test]
fn missing_row_is_not_found() {
    assert_eq!(answer(&ServiceError::from(DbError::NotFound)), (404, "Not Found".to_string()));
}
