use vstd::prelude::*;
use vstd::string::StringExecFns;

verus! {

/// The class of a failure, which decides how it is reported to a client.
#[derive(Clone, Copy, Debug, PartialEq, Eq, Structural)]
pub enum ErrorKind {
    Database,
    Validation,
    Authentication,
    NotFound,
    Conflict,
    BadRequest,
    Forbidden,
    Internal,
    Webauthn,
    Serialization,
}

/// A failure of an operation, with a message for the client or for the log.
#[derive(Debug)]
pub enum AppError {
    DatabaseError(String),
    ValidationError(String),
    AuthenticationError(String),
    NotFound(String),
    Conflict(String),
    BadRequest(String),
    Forbidden(String),
    InternalError(String),
    WebauthnError(String),
    SerializationError(String),
}

pub type AppResult<T> = Result<T, AppError>;

impl AppError {
    pub open spec fn spec_kind(&self) -> ErrorKind {
        match self {
            AppError::DatabaseError(_) => ErrorKind::Database,
            AppError::ValidationError(_) => ErrorKind::Validation,
            AppError::AuthenticationError(_) => ErrorKind::Authentication,
            AppError::NotFound(_) => ErrorKind::NotFound,
            AppError::Conflict(_) => ErrorKind::Conflict,
            AppError::BadRequest(_) => ErrorKind::BadRequest,
            AppError::Forbidden(_) => ErrorKind::Forbidden,
            AppError::InternalError(_) => ErrorKind::Internal,
            AppError::WebauthnError(_) => ErrorKind::Webauthn,
            AppError::SerializationError(_) => ErrorKind::Serialization,
        }
    }

    /// The class of this failure.
    pub fn kind(&self) -> (k: ErrorKind)
        ensures
            k == self.spec_kind(),
    {
        match self {
            AppError::DatabaseError(_) => ErrorKind::Database,
            AppError::ValidationError(_) => ErrorKind::Validation,
            AppError::AuthenticationError(_) => ErrorKind::Authentication,
            AppError::NotFound(_) => ErrorKind::NotFound,
            AppError::Conflict(_) => ErrorKind::Conflict,
            AppError::BadRequest(_) => ErrorKind::BadRequest,
            AppError::Forbidden(_) => ErrorKind::Forbidden,
            AppError::InternalError(_) => ErrorKind::Internal,
            AppError::WebauthnError(_) => ErrorKind::Webauthn,
            AppError::SerializationError(_) => ErrorKind::Serialization,
        }
    }

    /// The message that the failure was raised with.
    pub fn message(&self) -> (m: &String)
        ensures
            match self {
                AppError::DatabaseError(s) => m == s,
                AppError::ValidationError(s) => m == s,
                AppError::AuthenticationError(s) => m == s,
                AppError::NotFound(s) => m == s,
                AppError::Conflict(s) => m == s,
                AppError::BadRequest(s) => m == s,
                AppError::Forbidden(s) => m == s,
                AppError::InternalError(s) => m == s,
                AppError::WebauthnError(s) => m == s,
                AppError::SerializationError(s) => m == s,
            },
    {
        match self {
            AppError::DatabaseError(s) => s,
            AppError::ValidationError(s) => s,
            AppError::AuthenticationError(s) => s,
            AppError::NotFound(s) => s,
            AppError::Conflict(s) => s,
            AppError::BadRequest(s) => s,
            AppError::Forbidden(s) => s,
            AppError::InternalError(s) => s,
            AppError::WebauthnError(s) => s,
            AppError::SerializationError(s) => s,
        }
    }
}


impl ErrorKind {
    /// The HTTP status that reports a failure of this class.
    pub open spec fn spec_status(self) -> u16 {
        match self {
            ErrorKind::Database => 500,
            ErrorKind::Validation => 400,
            ErrorKind::Authentication => 401,
            ErrorKind::NotFound => 404,
            ErrorKind::Conflict => 409,
            ErrorKind::BadRequest => 400,
            ErrorKind::Forbidden => 403,
            ErrorKind::Internal => 500,
            ErrorKind::Webauthn => 400,
            ErrorKind::Serialization => 500,
        }
    }

    /// Whether the message of a failure of this class may reach the client;
    /// otherwise it is logged on the server only.
    pub open spec fn spec_exposed(self) -> bool {
        match self {
            ErrorKind::Validation | ErrorKind::Authentication | ErrorKind::NotFound
            | ErrorKind::Conflict | ErrorKind::BadRequest | ErrorKind::Forbidden => true,
            _ => false,
        }
    }

    /// The machine-readable code of this class.
    pub open spec fn spec_code(self) -> Seq<char> {
        match self {
            ErrorKind::Database => "DATABASE_ERROR"@,
            ErrorKind::Validation => "VALIDATION_ERROR"@,
            ErrorKind::Authentication => "AUTHENTICATION_ERROR"@,
            ErrorKind::NotFound => "NOT_FOUND"@,
            ErrorKind::Conflict => "CONFLICT"@,
            ErrorKind::BadRequest => "BAD_REQUEST"@,
            ErrorKind::Forbidden => "FORBIDDEN"@,
            ErrorKind::Internal => "INTERNAL_ERROR"@,
            ErrorKind::Webauthn => "WEBAUTHN_ERROR"@,
            ErrorKind::Serialization => "SERIALIZATION_ERROR"@,
        }
    }

    /// The fixed text shown to a client in place of a message that is not
    /// exposed.
    pub open spec fn spec_opaque_text(self) -> Seq<char> {
        match self {
            ErrorKind::Database => "Database operation failed"@,
            ErrorKind::Webauthn => "Passkey operation failed"@,
            ErrorKind::Serialization => "Data serialization failed"@,
            _ => "An internal error occurred"@,
        }
    }

    /// The heading under which a failure of this class is described.
    pub open spec fn spec_heading(self) -> Seq<char> {
        match self {
            ErrorKind::Database => "Database error: "@,
            ErrorKind::Validation => "Validation error: "@,
            ErrorKind::Authentication => "Authentication error: "@,
            ErrorKind::NotFound => "Not found: "@,
            ErrorKind::Conflict => "Conflict: "@,
            ErrorKind::BadRequest => "Bad request: "@,
            ErrorKind::Forbidden => "Forbidden: "@,
            ErrorKind::Internal => "Internal error: "@,
            ErrorKind::Webauthn => "Webauthn error: "@,
            ErrorKind::Serialization => "Serialization error: "@,
        }
    }

    pub fn status_code(&self) -> (r: u16)
        ensures
            r == self.spec_status(),
    {
        match self {
            ErrorKind::Database => 500,
            ErrorKind::Validation => 400,
            ErrorKind::Authentication => 401,
            ErrorKind::NotFound => 404,
            ErrorKind::Conflict => 409,
            ErrorKind::BadRequest => 400,
            ErrorKind::Forbidden => 403,
            ErrorKind::Internal => 500,
            ErrorKind::Webauthn => 400,
            ErrorKind::Serialization => 500,
        }
    }

    pub fn exposed(&self) -> (r: bool)
        ensures
            r == self.spec_exposed(),
    {
        match self {
            ErrorKind::Validation | ErrorKind::Authentication | ErrorKind::NotFound
            | ErrorKind::Conflict | ErrorKind::BadRequest | ErrorKind::Forbidden => true,
            _ => false,
        }
    }

    pub fn code(&self) -> (r: &'static str)
        ensures
            r@ == self.spec_code(),
    {
        proof {
            reveal_strlit("DATABASE_ERROR");
            reveal_strlit("VALIDATION_ERROR");
            reveal_strlit("AUTHENTICATION_ERROR");
            reveal_strlit("NOT_FOUND");
            reveal_strlit("CONFLICT");
            reveal_strlit("BAD_REQUEST");
            reveal_strlit("FORBIDDEN");
            reveal_strlit("INTERNAL_ERROR");
            reveal_strlit("WEBAUTHN_ERROR");
            reveal_strlit("SERIALIZATION_ERROR");
        }
        match self {
            ErrorKind::Database => "DATABASE_ERROR",
            ErrorKind::Validation => "VALIDATION_ERROR",
            ErrorKind::Authentication => "AUTHENTICATION_ERROR",
            ErrorKind::NotFound => "NOT_FOUND",
            ErrorKind::Conflict => "CONFLICT",
            ErrorKind::BadRequest => "BAD_REQUEST",
            ErrorKind::Forbidden => "FORBIDDEN",
            ErrorKind::Internal => "INTERNAL_ERROR",
            ErrorKind::Webauthn => "WEBAUTHN_ERROR",
            ErrorKind::Serialization => "SERIALIZATION_ERROR",
        }
    }
}

/// The body of an error reply.
#[derive(Debug)]
pub struct ErrorResponse {
    pub error: String,
    pub message: String,
    pub details: Option<String>,
}

impl ErrorResponse {
    /// The reply that reports `e`: its class's code, and its message where
    /// the class exposes it, a fixed text otherwise.
    pub fn from_error(e: &AppError) -> (r: ErrorResponse)
        ensures
            r.error@ == e.spec_kind().spec_code(),
            e.spec_kind().spec_exposed() ==> r.message@ == e.message_view(),
            !e.spec_kind().spec_exposed() ==> r.message@ == e.spec_kind().spec_opaque_text(),
            r.details is None,
    {
        let k = e.kind();
        let message = if k.exposed() {
            e.message().clone()
        } else {
            proof {
                reveal_strlit("Database operation failed");
                reveal_strlit("Passkey operation failed");
                reveal_strlit("Data serialization failed");
                reveal_strlit("An internal error occurred");
            }
            match k {
                ErrorKind::Database => "Database operation failed".to_owned(),
                ErrorKind::Webauthn => "Passkey operation failed".to_owned(),
                ErrorKind::Serialization => "Data serialization failed".to_owned(),
                _ => "An internal error occurred".to_owned(),
            }
        };
        ErrorResponse { error: k.code().to_owned(), message, details: None }
    }
}

/// The concatenation of `a` and `b`.
fn concat(a: &str, b: &str) -> (r: String)
    ensures
        r@ == a@ + b@,
{
    let mut r = a.to_owned();
    r.append(b);
    r
}

impl AppError {
    pub open spec fn message_view(&self) -> Seq<char> {
        match self {
            AppError::DatabaseError(s) => s@,
            AppError::ValidationError(s) => s@,
            AppError::AuthenticationError(s) => s@,
            AppError::NotFound(s) => s@,
            AppError::Conflict(s) => s@,
            AppError::BadRequest(s) => s@,
            AppError::Forbidden(s) => s@,
            AppError::InternalError(s) => s@,
            AppError::WebauthnError(s) => s@,
            AppError::SerializationError(s) => s@,
        }
    }

    /// A one-line description for the server log: the class's heading
    /// followed by the message.
    pub fn describe(&self) -> (r: String)
        ensures
            r@ == self.spec_kind().spec_heading() + self.message_view(),
    {
        let k = self.kind();
        proof {
            reveal_strlit("Database error: ");
            reveal_strlit("Validation error: ");
            reveal_strlit("Authentication error: ");
            reveal_strlit("Not found: ");
            reveal_strlit("Conflict: ");
            reveal_strlit("Bad request: ");
            reveal_strlit("Forbidden: ");
            reveal_strlit("Internal error: ");
            reveal_strlit("Webauthn error: ");
            reveal_strlit("Serialization error: ");
        }
        let heading: &str = match k {
            ErrorKind::Database => "Database error: ",
            ErrorKind::Validation => "Validation error: ",
            ErrorKind::Authentication => "Authentication error: ",
            ErrorKind::NotFound => "Not found: ",
            ErrorKind::Conflict => "Conflict: ",
            ErrorKind::BadRequest => "Bad request: ",
            ErrorKind::Forbidden => "Forbidden: ",
            ErrorKind::Internal => "Internal error: ",
            ErrorKind::Webauthn => "Webauthn error: ",
            ErrorKind::Serialization => "Serialization error: ",
        };
        concat(heading, self.message().as_str())
    }
}

} // verus!
