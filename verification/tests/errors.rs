//! Tests for the error taxonomy.

use agent_core::error::{AppError, ErrorCode, ErrorContext, ValidationError, ValidationErrors};

#[test]
fn test_error_creation() {
    let err = AppError::not_found("User".to_string());
    assert_eq!(err.code, ErrorCode::NotFound);
    assert!(err.message.contains("User"));
}

#[test]
fn test_error_with_details() {
    let details: serde_json::Value = serde_json::from_str("{\"field\":\"email\"}").unwrap();
    let err = AppError::validation("Invalid input".to_string()).with_details(details);
    assert!(err.details.is_some());
}

#[test]
fn test_http_status() {
    assert_eq!(ErrorCode::NotFound.http_status(), 404);
    assert_eq!(ErrorCode::Internal.http_status(), 500);
}

#[test]
fn test_error_classification() {
    assert!(ErrorCode::BadRequest.is_client_error());
    assert!(ErrorCode::Internal.is_server_error());
}

#[test]
fn test_validation_errors() {
    let mut errors = ValidationErrors::new();
    errors.add(ValidationError::new("email".to_string(), "Invalid email".to_string()));
    errors.add(ValidationError::new("password".to_string(), "Too short".to_string()));
    assert_eq!(errors.errors.len(), 2);

    let app_error = errors.into_app_error();
    assert_eq!(app_error.code, ErrorCode::ValidationError);
}

#[test]
fn test_error_display() {
    let err = AppError::not_found("Resource".to_string());
    let display = err.display_string();
    assert!(display.contains("NOT_FOUND"));
    assert!(display.contains("Resource"));
}

#[test]
fn test_error_context_prefixes_message() {
    let base: Result<(), AppError> = Err(AppError::internal("boom".to_string()));
    let wrapped = base.context("loading tree".to_string());
    let err = wrapped.unwrap_err();
    assert_eq!(err.code, ErrorCode::Internal);
    assert_eq!(err.message, "loading tree: boom");

    let fine: Result<u8, AppError> = Ok(7);
    assert_eq!(fine.context("ignored".to_string()).unwrap(), 7);
}

#[test]
fn test_every_status_is_client_or_server() {
    let codes = [
        ErrorCode::BadRequest,
        ErrorCode::Unauthorized,
        ErrorCode::Forbidden,
        ErrorCode::NotFound,
        ErrorCode::Conflict,
        ErrorCode::ValidationError,
        ErrorCode::RateLimitExceeded,
        ErrorCode::PayloadTooLarge,
        ErrorCode::UnsupportedMediaType,
        ErrorCode::Internal,
        ErrorCode::ServiceUnavailable,
        ErrorCode::DatabaseError,
        ErrorCode::StorageError,
        ErrorCode::ExternalServiceError,
        ErrorCode::ImageProcessingError,
        ErrorCode::EmbeddingGenerationError,
        ErrorCode::ModelError,
        ErrorCode::TreeOperationError,
    ];
    for code in codes {
        assert!(code.is_client_error() != code.is_server_error());
        assert!((400..=599).contains(&code.http_status()));
    }
}

#[test]
fn test_service_unavailable_message() {
    let err = AppError::service_unavailable("ollama".to_string());
    assert_eq!(err.code, ErrorCode::ServiceUnavailable);
    assert_eq!(err.message, "ollama service unavailable");
}
