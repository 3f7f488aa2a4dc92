//! The library's error taxonomy: machine-readable codes with their HTTP
//! mapping, the application error carrying a code, a message and optional
//! structured details, and helpers for collecting validation failures.

use vstd::prelude::*;

use crate::ext::now_rfc3339;

verus! {

/// Every failure the service reports, by kind.
#[derive(Clone, Copy, Debug, PartialEq, Eq, Structural)]
pub enum ErrorCode {
    BadRequest,
    Unauthorized,
    Forbidden,
    NotFound,
    Conflict,
    ValidationError,
    RateLimitExceeded,
    PayloadTooLarge,
    UnsupportedMediaType,
    Internal,
    ServiceUnavailable,
    DatabaseError,
    StorageError,
    ExternalServiceError,
    ImageProcessingError,
    EmbeddingGenerationError,
    ModelError,
    TreeOperationError,
}

impl ErrorCode {
    /// The HTTP status each code maps to.
    pub open spec fn spec_http_status(self) -> u16 {
        match self {
            ErrorCode::BadRequest => 400,
            ErrorCode::Unauthorized => 401,
            ErrorCode::Forbidden => 403,
            ErrorCode::NotFound => 404,
            ErrorCode::Conflict => 409,
            ErrorCode::ValidationError => 422,
            ErrorCode::RateLimitExceeded => 429,
            ErrorCode::PayloadTooLarge => 413,
            ErrorCode::UnsupportedMediaType => 415,
            ErrorCode::Internal => 500,
            ErrorCode::ServiceUnavailable => 503,
            ErrorCode::DatabaseError => 500,
            ErrorCode::StorageError => 500,
            ErrorCode::ExternalServiceError => 502,
            ErrorCode::ImageProcessingError => 500,
            ErrorCode::EmbeddingGenerationError => 500,
            ErrorCode::ModelError => 500,
            ErrorCode::TreeOperationError => 500,
        }
    }

    /// The screaming-snake name each code renders as.
    pub open spec fn spec_name(self) -> Seq<char> {
        match self {
            ErrorCode::BadRequest => "BAD_REQUEST"@,
            ErrorCode::Unauthorized => "UNAUTHORIZED"@,
            ErrorCode::Forbidden => "FORBIDDEN"@,
            ErrorCode::NotFound => "NOT_FOUND"@,
            ErrorCode::Conflict => "CONFLICT"@,
            ErrorCode::ValidationError => "VALIDATION_ERROR"@,
            ErrorCode::RateLimitExceeded => "RATE_LIMIT_EXCEEDED"@,
            ErrorCode::PayloadTooLarge => "PAYLOAD_TOO_LARGE"@,
            ErrorCode::UnsupportedMediaType => "UNSUPPORTED_MEDIA_TYPE"@,
            ErrorCode::Internal => "INTERNAL_ERROR"@,
            ErrorCode::ServiceUnavailable => "SERVICE_UNAVAILABLE"@,
            ErrorCode::DatabaseError => "DATABASE_ERROR"@,
            ErrorCode::StorageError => "STORAGE_ERROR"@,
            ErrorCode::ExternalServiceError => "EXTERNAL_SERVICE_ERROR"@,
            ErrorCode::ImageProcessingError => "IMAGE_PROCESSING_ERROR"@,
            ErrorCode::EmbeddingGenerationError => "EMBEDDING_GENERATION_ERROR"@,
            ErrorCode::ModelError => "MODEL_ERROR"@,
            ErrorCode::TreeOperationError => "TREE_OPERATION_ERROR"@,
        }
    }

    /// The HTTP status of this code.
    pub fn http_status(&self) -> (r: u16)
        ensures
            r == self.spec_http_status(),
    {
        match self {
            ErrorCode::BadRequest => 400,
            ErrorCode::Unauthorized => 401,
            ErrorCode::Forbidden => 403,
            ErrorCode::NotFound => 404,
            ErrorCode::Conflict => 409,
            ErrorCode::ValidationError => 422,
            ErrorCode::RateLimitExceeded => 429,
            ErrorCode::PayloadTooLarge => 413,
            ErrorCode::UnsupportedMediaType => 415,
            ErrorCode::Internal => 500,
            ErrorCode::ServiceUnavailable => 503,
            ErrorCode::DatabaseError => 500,
            ErrorCode::StorageError => 500,
            ErrorCode::ExternalServiceError => 502,
            ErrorCode::ImageProcessingError => 500,
            ErrorCode::EmbeddingGenerationError => 500,
            ErrorCode::ModelError => 500,
            ErrorCode::TreeOperationError => 500,
        }
    }

    /// A code below 500 is the caller's fault.
    pub fn is_client_error(&self) -> (r: bool)
        ensures
            r == (self.spec_http_status() < 500),
    {
        self.http_status() < 500
    }

    /// A code at or above 500 is the service's fault.
    pub fn is_server_error(&self) -> (r: bool)
        ensures
            r == (self.spec_http_status() >= 500),
    {
        self.http_status() >= 500
    }

    /// The screaming-snake rendering of the code.
    pub fn as_str(&self) -> (r: &'static str)
        ensures
            r@ == self.spec_name(),
    {
        match self {
            ErrorCode::BadRequest => "BAD_REQUEST",
            ErrorCode::Unauthorized => "UNAUTHORIZED",
            ErrorCode::Forbidden => "FORBIDDEN",
            ErrorCode::NotFound => "NOT_FOUND",
            ErrorCode::Conflict => "CONFLICT",
            ErrorCode::ValidationError => "VALIDATION_ERROR",
            ErrorCode::RateLimitExceeded => "RATE_LIMIT_EXCEEDED",
            ErrorCode::PayloadTooLarge => "PAYLOAD_TOO_LARGE",
            ErrorCode::UnsupportedMediaType => "UNSUPPORTED_MEDIA_TYPE",
            ErrorCode::Internal => "INTERNAL_ERROR",
            ErrorCode::ServiceUnavailable => "SERVICE_UNAVAILABLE",
            ErrorCode::DatabaseError => "DATABASE_ERROR",
            ErrorCode::StorageError => "STORAGE_ERROR",
            ErrorCode::ExternalServiceError => "EXTERNAL_SERVICE_ERROR",
            ErrorCode::ImageProcessingError => "IMAGE_PROCESSING_ERROR",
            ErrorCode::EmbeddingGenerationError => "EMBEDDING_GENERATION_ERROR",
            ErrorCode::ModelError => "MODEL_ERROR",
            ErrorCode::TreeOperationError => "TREE_OPERATION_ERROR",
        }
    }
}

/// An application error: a code, a human-readable message, and optional
/// structured details carried through opaquely.
#[derive(Debug)]
pub struct AppError {
    pub code: ErrorCode,
    pub message: String,
    pub details: Option<serde_json::Value>,
}

impl AppError {
    /// An error with no details.
    pub fn new(code: ErrorCode, message: String) -> (r: Self)
        ensures
            r.code == code,
            r.message@ == message@,
            r.details is None,
    {
        AppError { code, message, details: None }
    }

    /// The same error with structured details attached.
    pub fn with_details(self, details: serde_json::Value) -> (r: Self)
        ensures
            r.code == self.code,
            r.message@ == self.message@,
            r.details == Some(details),
    {
        AppError { code: self.code, message: self.message, details: Some(details) }
    }

    /// A NotFound error for the named resource.
    pub fn not_found(resource: String) -> (r: Self)
        ensures
            r.code == ErrorCode::NotFound,
            r.message@ == resource@ + " not found"@,
            r.details is None,
    {
        AppError::new(ErrorCode::NotFound, resource.concat(" not found"))
    }

    /// An Unauthorized error.
    pub fn unauthorized(message: String) -> (r: Self)
        ensures
            r.code == ErrorCode::Unauthorized && r.message@ == message@ && r.details is None,
    {
        AppError::new(ErrorCode::Unauthorized, message)
    }

    /// A Forbidden error.
    pub fn forbidden(message: String) -> (r: Self)
        ensures
            r.code == ErrorCode::Forbidden && r.message@ == message@ && r.details is None,
    {
        AppError::new(ErrorCode::Forbidden, message)
    }

    /// A BadRequest error.
    pub fn bad_request(message: String) -> (r: Self)
        ensures
            r.code == ErrorCode::BadRequest && r.message@ == message@ && r.details is None,
    {
        AppError::new(ErrorCode::BadRequest, message)
    }

    /// An Internal error.
    pub fn internal(message: String) -> (r: Self)
        ensures
            r.code == ErrorCode::Internal && r.message@ == message@ && r.details is None,
    {
        AppError::new(ErrorCode::Internal, message)
    }

    /// A ValidationError error.
    pub fn validation(message: String) -> (r: Self)
        ensures
            r.code == ErrorCode::ValidationError && r.message@ == message@ && r.details is None,
    {
        AppError::new(ErrorCode::ValidationError, message)
    }

    /// A ServiceUnavailable error for the named service.
    pub fn service_unavailable(service: String) -> (r: Self)
        ensures
            r.code == ErrorCode::ServiceUnavailable,
            r.message@ == service@ + " service unavailable"@,
            r.details is None,
    {
        AppError::new(ErrorCode::ServiceUnavailable, service.concat(" service unavailable"))
    }

    /// A RateLimitExceeded error.
    pub fn rate_limit() -> (r: Self)
        ensures
            r.code == ErrorCode::RateLimitExceeded,
            r.message@ == "Rate limit exceeded"@,
            r.details is None,
    {
        AppError::new(ErrorCode::RateLimitExceeded, String::from_str("Rate limit exceeded"))
    }

    /// A Conflict error.
    pub fn conflict(message: String) -> (r: Self)
        ensures
            r.code == ErrorCode::Conflict && r.message@ == message@ && r.details is None,
    {
        AppError::new(ErrorCode::Conflict, message)
    }

    /// Renders the error as "[CODE] message".
    pub fn display_string(&self) -> (r: String)
        ensures
            r@ == "["@ + self.code.spec_name() + "] "@ + self.message@,
    {
        let mut out = String::from_str("[");
        out.append(self.code.as_str());
        out.append("] ");
        out.append(self.message.as_str());
        proof {
            assert(out@ =~= "["@ + self.code.spec_name() + "] "@ + self.message@);
        }
        out
    }
}

/// The body an HTTP error reply carries: the error, the request it belongs
/// to when known, and when it was produced.
#[derive(Debug)]
pub struct ErrorResponse {
    pub error: AppError,
    pub request_id: Option<String>,
    pub timestamp: String,
}

impl ErrorResponse {
    /// Wraps an error, stamping it with the current time.
    pub fn new(error: AppError) -> (r: Self)
        ensures
            r.error == error,
            r.request_id is None,
    {
        ErrorResponse { error, request_id: None, timestamp: now_rfc3339() }
    }

    /// The same response tagged with a request id.
    pub fn with_request_id(self, request_id: String) -> (r: Self)
        ensures
            r.error == self.error,
            r.request_id == Some(request_id),
            r.timestamp == self.timestamp,
    {
        ErrorResponse { error: self.error, request_id: Some(request_id), timestamp: self.timestamp }
    }
}

/// One field that failed validation.
#[derive(Clone, Debug)]
pub struct ValidationError {
    pub field: String,
    pub message: String,
    pub code: String,
}

impl ValidationError {
    /// A failure for a field, with the default code "INVALID".
    pub fn new(field: String, message: String) -> (r: Self)
        ensures
            r.field@ == field@,
            r.message@ == message@,
            r.code@ == "INVALID"@,
    {
        ValidationError { field, message, code: String::from_str("INVALID") }
    }

    /// The same failure with a specific code.
    pub fn with_code(self, code: String) -> (r: Self)
        ensures
            r.field@ == self.field@,
            r.message@ == self.message@,
            r.code@ == code@,
    {
        ValidationError { field: self.field, message: self.message, code }
    }
}

/// A collection of validation failures.
#[derive(Clone, Debug)]
pub struct ValidationErrors {
    pub errors: Vec<ValidationError>,
}

impl ValidationErrors {
    /// An empty collection.
    pub fn new() -> (r: Self)
        ensures
            r.errors@.len() == 0,
    {
        ValidationErrors { errors: Vec::new() }
    }

    /// Appends one failure.
    pub fn add(&mut self, error: ValidationError)
        ensures
            final(self).errors@ == old(self).errors@.push(error),
    {
        self.errors.push(error);
    }

    /// Whether nothing failed.
    pub fn is_empty(&self) -> (r: bool)
        ensures
            r == (self.errors@.len() == 0),
    {
        self.errors.len() == 0
    }

    /// Folds the collection into one ValidationError application error.
    pub fn into_app_error(self) -> (r: AppError)
        ensures
            r.code == ErrorCode::ValidationError,
            r.message@ == "Validation failed"@,
    {
        AppError::new(ErrorCode::ValidationError, String::from_str("Validation failed"))
    }
}

impl Default for ValidationErrors {
    /// The empty collection.
    fn default() -> (r: Self)
        ensures
            r.errors@.len() == 0,
    {
        ValidationErrors::new()
    }
}

/// Prefixing an error's message with what the caller was doing.
pub trait ErrorContext<T>: Sized {
    fn context(self, context: String) -> Result<T, AppError>;
}

impl<T> ErrorContext<T> for Result<T, AppError> {
    /// Keeps a success; prefixes a failure's message with the context.
    fn context(self, context: String) -> (r: Result<T, AppError>)
        ensures
            match self {
                Ok(v) => r == Ok::<T, AppError>(v),
                Err(e) => {
                    &&& r is Err
                    &&& r->Err_0.code == e.code
                    &&& r->Err_0.message@ == context@ + ": "@ + e.message@
                    &&& r->Err_0.details == e.details
                },
            },
    {
        match self {
            Ok(v) => Ok(v),
            Err(e) => {
                let ghost c0 = context@;
                let mut msg = context;
                msg.append(": ");
                msg.append(e.message.as_str());
                proof {
                    assert(msg@ =~= c0 + ": "@ + e.message@);
                }
                Err(AppError { code: e.code, message: msg, details: e.details })
            },
        }
    }
}

} // verus!
