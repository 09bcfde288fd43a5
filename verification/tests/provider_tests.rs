use github_integration::errors::GITrelloError;
use github_integration::github_api::process_create_webhook_response;
use github_integration::github_api::process_delete_webhook_response;
use github_integration::github_api::process_get_user_response;
use github_integration::github_api::process_get_repositories_response;
use github_integration::github_api::GithubUser;
use github_integration::github_api::Repository;
use github_integration::github_api::Webhook;
use github_integration::response_data::GetGithubRepositoryResponse;
use github_integration::gitrello_api::process_board_permissions_response;
use github_integration::gitrello_api::process_create_ticket_response;
use github_integration::gitrello_api::Permissions;

#[test]
fn test_create_webhook_created() {
    let result = process_create_webhook_response(201, Some(Webhook { id: 5 }), None, "");
    assert_eq!(result.unwrap().id, 5);
}

#[test]
fn test_create_webhook_unreadable_body() {
    let result = process_create_webhook_response(201, None, None, "garbage");
    assert!(matches!(result, Err(GITrelloError::GitHubAPIClientError { .. })));
}

#[test]
fn test_create_webhook_rejected_with_message() {
    let result =
        process_create_webhook_response(422, None, Some("Validation Failed".to_string()), "raw");
    match result {
        Err(GITrelloError::GitHubAPIClientError { message }) => {
            assert_eq!(message, "Validation Failed");
        },
        _ => panic!("expected a provider rejection"),
    }
}

#[test]
fn test_create_webhook_rejected_raw_body() {
    let result = process_create_webhook_response(500, None, None, "oops");
    match result {
        Err(GITrelloError::GitHubAPIClientError { message }) => {
            assert_eq!(message, "oops");
        },
        _ => panic!("expected a provider rejection"),
    }
}

#[test]
fn test_delete_webhook_no_content() {
    assert_eq!(process_delete_webhook_response(204, None, "").unwrap(), true);
}

#[test]
fn test_delete_webhook_already_gone() {
    assert_eq!(process_delete_webhook_response(404, None, "").unwrap(), true);
}

#[test]
fn test_delete_webhook_rejected() {
    let result = process_delete_webhook_response(403, Some("Forbidden".to_string()), "raw");
    match result {
        Err(GITrelloError::GitHubAPIClientError { message }) => {
            assert_eq!(message, "Forbidden");
        },
        _ => panic!("expected a provider rejection"),
    }
}

#[test]
fn test_get_user_ok() {
    let user = GithubUser { id: 9, login: "octocat".to_string() };
    let result = process_get_user_response(200, Some(user), None, "");
    let user = result.unwrap();
    assert_eq!(user.id, 9);
    assert_eq!(user.login, "octocat");
}

#[test]
fn test_get_user_bad_credentials() {
    let result = process_get_user_response(401, None, Some("Bad credentials".to_string()), "raw");
    match result {
        Err(GITrelloError::GitHubAPIClientError { message }) => {
            assert_eq!(message, "Bad credentials");
        },
        _ => panic!("expected a provider rejection"),
    }
}

#[test]
fn test_get_repositories_ok() {
    let listed = vec![Repository { id: 1, full_name: "octocat/hello".to_string() }];
    let result = process_get_repositories_response(200, Some(listed), None, "");
    let repositories = result.unwrap();
    assert_eq!(repositories.len(), 1);
    assert_eq!(repositories[0].full_name, "octocat/hello");
}

#[test]
fn test_get_repositories_rejected() {
    let result = process_get_repositories_response(401, None, Some("Bad credentials".to_string()), "raw");
    assert!(matches!(result, Err(GITrelloError::GitHubAPIClientError { .. })));
}

#[test]
fn test_repository_response_shaping() {
    let repository = Repository { id: 1, full_name: "octocat/hello".to_string() };
    let response = GetGithubRepositoryResponse::from_repository(&repository);
    assert_eq!(response.owner, "octocat");
    assert_eq!(response.name, "hello");
}

#[test]
fn test_board_permissions_ok() {
    let permissions = Permissions { can_read: true, can_mutate: false, can_delete: false };
    let result = process_board_permissions_response(200, Some(permissions), None, "");
    let permissions = result.unwrap();
    assert!(permissions.can_read);
    assert!(!permissions.can_mutate);
}

#[test]
fn test_board_permissions_rejected() {
    let result = process_board_permissions_response(403, None, Some("denied".to_string()), "raw");
    match result {
        Err(GITrelloError::GITrelloAPIClientError { message }) => {
            assert_eq!(message, "denied");
        },
        _ => panic!("expected a rejection"),
    }
}

#[test]
fn test_create_ticket_ok() {
    assert!(process_create_ticket_response(200, None, "").is_ok());
}

#[test]
fn test_create_ticket_rejected() {
    let result = process_create_ticket_response(400, None, "bad request");
    match result {
        Err(GITrelloError::GITrelloAPIClientError { message }) => {
            assert_eq!(message, "bad request");
        },
        _ => panic!("expected a rejection"),
    }
}
