use chat_auth::response::{AppError, AppResult, Resp};

#[test]
fn test_app_error_responses() {
    // Test database error
    let db_error = AppError::database("Connection failed");
    let response = db_error.into_response();

    assert_eq!(response.0, 500);

    // Test authentication error
    let auth_error = AppError::auth("Invalid token");
    let response = auth_error.into_response();

    assert_eq!(response.0, 401);

    // Test validation error
    let validation_error = AppError::validation("Invalid input");
    let response = validation_error.into_response();

    assert_eq!(response.0, 400);

    // Test internal error
    let internal_error = AppError::internal("Server error");
    let response = internal_error.into_response();

    assert_eq!(response.0, 500);
}

#[test]
fn test_resp_success() {
    let (status, resp_json) = Resp::success("Success message", Some("test_data"));

    assert_eq!(status, 200);
    assert!(resp_json.success);
    assert_eq!(resp_json.msg, "Success message");
    assert_eq!(resp_json.data, Some("test_data"));
}

#[test]
fn test_error_scenarios() {
    // Test various error scenarios
    let error = AppError::database("Test error");
    assert!(error.to_string().contains("Database error"));

    let error = AppError::auth("Auth failed");
    assert!(error.to_string().contains("Authentication error"));

    let error = AppError::validation("Invalid input");
    assert!(error.to_string().contains("Validation error"));

    let error = AppError::internal("Server error");
    assert!(error.to_string().contains("Internal server error"));
}

#[test]
fn error_envelope_has_no_data_and_is_no_success() {
    let resp: Resp<i64> = Resp::error("Error message");
    assert!(!resp.success);
    assert_eq!(resp.msg, "Error message");
    assert_eq!(resp.data, None);
}

#[test]
fn success_envelope_may_have_no_data() {
    let (status, resp) = Resp::<()>::success("done", None);
    assert_eq!(status, 200);
    assert!(resp.success);
    assert_eq!(resp.data, None);
    assert_eq!(resp.msg, "done");
}

#[test]
fn error_text_is_the_kind_and_the_message() {
    assert_eq!(AppError::database("Test error").to_string(), "Database error: Test error");
    assert_eq!(AppError::auth("Auth failed").to_string(), "Authentication error: Auth failed");
    assert_eq!(AppError::validation("Invalid input").to_string(), "Validation error: Invalid input");
    assert_eq!(AppError::internal("Server error").to_string(), "Internal server error: Server error");
    assert_eq!(AppError::internal("").to_string(), "Internal server error: ");
}

#[test]
fn error_status_codes() {
    assert_eq!(AppError::database("x").status_code(), 500);
    assert_eq!(AppError::auth("x").status_code(), 401);
    assert_eq!(AppError::validation("x").status_code(), 400);
    assert_eq!(AppError::internal("x").status_code(), 500);
}

#[test]
fn error_response_carries_the_message() {
    let (status, body) = AppError::auth("Invalid token").into_response();
    assert_eq!(status, 401);
    assert_eq!(body.msg, "Invalid token");
    assert_eq!(body.data, None);
    assert!(!body.success);
}

#[test]
fn app_result_is_a_result_with_an_app_error() {
    let failed: AppResult<i64> = Err(AppError::validation("no"));
    assert!(matches!(failed, Err(AppError::Validation(_))));
    let fine: AppResult<i64> = Ok(1);
    assert!(matches!(fine, Ok(1)));
}
