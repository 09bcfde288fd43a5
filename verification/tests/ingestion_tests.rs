use github_integration::errors::GITrelloError;
use github_integration::github_api::Issue;
use github_integration::github_api::Repository;
use github_integration::ingestion::process;
use github_integration::ingestion::process_issue_opened;
use github_integration::ingestion::WebhookPayload;
use github_integration::models::NewBoardRepository;
use github_integration::models::NewGithubWebhook;
use github_integration::request_data::IssueWebhookRequest;
use github_integration::store::LinkStore;

fn linked_store() -> LinkStore {
    let mut store = LinkStore::new();
    for board_id in [1i64, 2i64] {
        let link = store
            .create_board_repository(&NewBoardRepository {
                github_profile_id: 1,
                board_id,
                repository_name: "hello".to_string(),
                repository_owner: "octocat".to_string(),
            })
            .unwrap();
        store
            .create_github_webhook(&NewGithubWebhook {
                webhook_id: 100,
                url: "https://callback.example/webhook".to_string(),
                board_repository_id: link.id,
            })
            .unwrap();
    }
    store
}

fn issue_payload(action: &str, full_name: &str) -> WebhookPayload {
    WebhookPayload::Issue(IssueWebhookRequest {
        action: action.to_string(),
        issue: Issue {
            html_url: "https://example.test/issue/1".to_string(),
            title: "a bug".to_string(),
            body: "it breaks".to_string(),
        },
        repository: Repository { id: 5, full_name: full_name.to_string() },
    })
}

#[test]
fn test_split_full_name() {
    let repository = Repository { id: 1, full_name: "octocat/hello".to_string() };
    let parts = repository.split_full_name();
    assert_eq!(parts.0, "octocat");
    assert_eq!(parts.1, "hello");
}

#[test]
fn test_split_full_name_nested() {
    let repository = Repository { id: 1, full_name: "a/b/c".to_string() };
    let parts = repository.split_full_name();
    assert_eq!(parts.0, "a");
    assert_eq!(parts.1, "b/c");
}

#[test]
fn test_has_separator() {
    assert!(Repository { id: 1, full_name: "a/b".to_string() }.has_separator());
    assert!(!Repository { id: 1, full_name: "nosep".to_string() }.has_separator());
}

#[test]
fn test_issue_fan_out() {
    let store = linked_store();
    let repository = Repository { id: 5, full_name: "octocat/hello".to_string() };
    let issue = Issue {
        html_url: "https://example.test/issue/1".to_string(),
        title: "a bug".to_string(),
        body: "it breaks".to_string(),
    };
    let tickets = process_issue_opened(&store, &issue, &repository);
    assert_eq!(tickets.len(), 2);
    assert_eq!(tickets[0].board_id, 1);
    assert_eq!(tickets[1].board_id, 2);
    for ticket in &tickets {
        assert_eq!(ticket.title, "a bug");
        assert_eq!(ticket.body, "it breaks");
    }
}

#[test]
fn test_process_opened_issue() {
    let store = linked_store();
    let tickets = process(&store, "issues", &issue_payload("opened", "octocat/hello")).unwrap();
    assert_eq!(tickets.len(), 2);
}

#[test]
fn test_process_other_repository() {
    let store = linked_store();
    let tickets = process(&store, "issues", &issue_payload("opened", "octocat/other")).unwrap();
    assert_eq!(tickets.len(), 0);
}

#[test]
fn test_process_other_action() {
    let store = linked_store();
    let tickets = process(&store, "issues", &issue_payload("closed", "octocat/hello")).unwrap();
    assert_eq!(tickets.len(), 0);
}

#[test]
fn test_process_other_event() {
    let store = linked_store();
    let tickets = process(&store, "push", &WebhookPayload::MalformedJson).unwrap();
    assert_eq!(tickets.len(), 0);
}

#[test]
fn test_process_malformed_json() {
    let store = linked_store();
    let result = process(&store, "issues", &WebhookPayload::MalformedJson);
    assert!(matches!(result, Err(GITrelloError::InternalError)));
}

#[test]
fn test_process_unrecognized_payload() {
    let store = linked_store();
    let tickets = process(&store, "issues", &WebhookPayload::Unrecognized).unwrap();
    assert_eq!(tickets.len(), 0);
}
