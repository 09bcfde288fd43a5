use github_integration::errors::GITrelloError;

#[test]
fn test_status_codes() {
    assert_eq!(GITrelloError::NotAuthenticated.status_code(), 401);
    assert_eq!(
        GITrelloError::AlreadyExists { message: "x".to_string() }.status_code(),
        409
    );
    assert_eq!(
        GITrelloError::NotFound { message: "x".to_string() }.status_code(),
        404
    );
    assert_eq!(GITrelloError::PermissionDenied.status_code(), 403);
    assert_eq!(GITrelloError::InternalError.status_code(), 500);
    assert_eq!(GITrelloError::HttpRequestError.status_code(), 500);
    assert_eq!(
        GITrelloError::GitHubAPIClientError { message: "x".to_string() }.status_code(),
        500
    );
    assert_eq!(
        GITrelloError::GITrelloAPIClientError { message: "x".to_string() }.status_code(),
        500
    );
}

#[test]
fn test_error_codes() {
    assert_eq!(GITrelloError::HttpRequestError.error_code(), 102);
    assert_eq!(
        GITrelloError::GitHubAPIClientError { message: "x".to_string() }.error_code(),
        103
    );
    assert_eq!(GITrelloError::NotAuthenticated.error_code(), 104);
    assert_eq!(GITrelloError::InternalError.error_code(), 105);
    assert_eq!(
        GITrelloError::AlreadyExists { message: "x".to_string() }.error_code(),
        106
    );
    assert_eq!(
        GITrelloError::NotFound { message: "x".to_string() }.error_code(),
        107
    );
    assert_eq!(
        GITrelloError::GITrelloAPIClientError { message: "x".to_string() }.error_code(),
        108
    );
    assert_eq!(GITrelloError::PermissionDenied.error_code(), 109);
}

#[test]
fn test_messages() {
    assert_eq!(GITrelloError::NotAuthenticated.message(), "Authentication required");
    assert_eq!(GITrelloError::PermissionDenied.message(), "Permission denied");
    assert_eq!(GITrelloError::InternalError.message(), "Internal Server Error");
    assert_eq!(
        GITrelloError::NotFound { message: "missing row".to_string() }.message(),
        "missing row"
    );
}
