use github_integration::errors::GITrelloError;
use github_integration::models::NewBoardRepository;
use github_integration::models::NewGithubWebhook;
use github_integration::store::LinkStore;

fn new_link(board_id: i64, owner: &str, name: &str) -> NewBoardRepository {
    NewBoardRepository {
        github_profile_id: 1,
        board_id,
        repository_name: name.to_string(),
        repository_owner: owner.to_string(),
    }
}

#[test]
fn test_create_and_get_by_board_id() {
    let mut store = LinkStore::new();
    let link = store.create_board_repository(&new_link(7, "octocat", "hello")).unwrap();
    assert_eq!(link.board_id, 7);
    assert_eq!(link.repository_owner, "octocat");
    assert_eq!(link.repository_name, "hello");

    let fetched = store.get_by_board_id(7).unwrap();
    assert_eq!(fetched.id, link.id);
    assert_eq!(fetched.repository_owner, "octocat");

    let by_id = store.get_by_id(link.id).unwrap();
    assert_eq!(by_id.board_id, 7);
}

#[test]
fn test_get_by_board_id_not_found() {
    let store = LinkStore::new();
    let result = store.get_by_board_id(7);
    assert!(matches!(result, Err(GITrelloError::NotFound { .. })));
}

#[test]
fn test_create_duplicate_board_conflict() {
    let mut store = LinkStore::new();
    store.create_board_repository(&new_link(7, "octocat", "hello")).unwrap();
    let second = store.create_board_repository(&new_link(7, "other", "repo"));
    assert!(matches!(second, Err(GITrelloError::AlreadyExists { .. })));
}

#[test]
fn test_links_by_owner_and_name() {
    let mut store = LinkStore::new();
    store.create_board_repository(&new_link(1, "octocat", "hello")).unwrap();
    store.create_board_repository(&new_link(2, "octocat", "hello")).unwrap();
    store.create_board_repository(&new_link(3, "octocat", "other")).unwrap();

    let links = store.get_links_by_repository_owner_and_name("octocat", "hello");
    assert_eq!(links.len(), 2);
    assert_eq!(links[0].board_id, 1);
    assert_eq!(links[1].board_id, 2);
}

#[test]
fn test_update_repository_data() {
    let mut store = LinkStore::new();
    let link = store.create_board_repository(&new_link(1, "octocat", "hello")).unwrap();
    let updated = store.update_repository_data(link.id, "newowner", "newname").unwrap();
    assert_eq!(updated.id, link.id);
    assert_eq!(updated.repository_owner, "newowner");
    assert_eq!(updated.repository_name, "newname");
    assert_eq!(store.get_by_board_id(1).unwrap().repository_name, "newname");

    let missing = store.update_repository_data(link.id + 1, "a", "b");
    assert!(matches!(missing, Err(GITrelloError::NotFound { .. })));
}

#[test]
fn test_webhook_records() {
    let mut store = LinkStore::new();
    let link = store.create_board_repository(&new_link(1, "octocat", "hello")).unwrap();

    let missing = store.get_webhook_by_board_repository_id(link.id);
    assert!(matches!(missing, Err(GITrelloError::NotFound { .. })));

    let hook = store
        .create_github_webhook(&NewGithubWebhook {
            webhook_id: 900,
            url: "https://callback.example/webhook".to_string(),
            board_repository_id: link.id,
        })
        .unwrap();
    assert_eq!(hook.webhook_id, 900);
    assert_eq!(hook.board_repository_id, link.id);

    let fetched = store.get_webhook_by_board_repository_id(link.id).unwrap();
    assert_eq!(fetched.id, hook.id);

    let by_repo = store.get_webhooks_by_repository_name_and_owner("hello", "octocat");
    assert_eq!(by_repo.len(), 1);
    assert_eq!(by_repo[0].webhook_id, 900);

    let duplicate = store.create_github_webhook(&NewGithubWebhook {
        webhook_id: 901,
        url: "https://callback.example/webhook".to_string(),
        board_repository_id: link.id,
    });
    assert!(matches!(duplicate, Err(GITrelloError::AlreadyExists { .. })));

    let orphan = store.create_github_webhook(&NewGithubWebhook {
        webhook_id: 902,
        url: "https://callback.example/webhook".to_string(),
        board_repository_id: link.id + 5,
    });
    assert!(matches!(orphan, Err(GITrelloError::NotFound { .. })));

    let updated = store.update_webhook_id(hook.id, 950).unwrap();
    assert_eq!(updated.webhook_id, 950);
    assert_eq!(store.get_webhook_by_board_repository_id(link.id).unwrap().webhook_id, 950);
}

#[test]
fn test_links_by_github_profile_id() {
    let mut store = LinkStore::new();
    store.create_board_repository(&new_link(1, "octocat", "hello")).unwrap();
    store
        .create_board_repository(&NewBoardRepository {
            github_profile_id: 2,
            board_id: 5,
            repository_name: "other".to_string(),
            repository_owner: "octocat".to_string(),
        })
        .unwrap();

    let mine = store.get_links_by_github_profile_id(1);
    assert_eq!(mine.len(), 1);
    assert_eq!(mine[0].board_id, 1);
    assert_eq!(store.get_links_by_github_profile_id(3).len(), 0);
}

#[test]
fn test_distinct_webhooks_by_profile() {
    let mut store = LinkStore::new();
    // two links of profile 1 sharing one repository, so one webhook id
    for board_id in [1i64, 2i64] {
        let link = store.create_board_repository(&new_link(board_id, "octocat", "hello")).unwrap();
        store
            .create_github_webhook(&NewGithubWebhook {
                webhook_id: 100,
                url: "https://callback.example/webhook".to_string(),
                board_repository_id: link.id,
            })
            .unwrap();
    }
    // a third link of profile 1 at another repository
    let link = store.create_board_repository(&new_link(3, "octocat", "other")).unwrap();
    store
        .create_github_webhook(&NewGithubWebhook {
            webhook_id: 200,
            url: "https://callback.example/webhook".to_string(),
            board_repository_id: link.id,
        })
        .unwrap();
    // a link of another profile, not to be reported
    let foreign = store
        .create_board_repository(&NewBoardRepository {
            github_profile_id: 2,
            board_id: 4,
            repository_name: "elsewhere".to_string(),
            repository_owner: "someone".to_string(),
        })
        .unwrap();
    store
        .create_github_webhook(&NewGithubWebhook {
            webhook_id: 300,
            url: "https://callback.example/webhook".to_string(),
            board_repository_id: foreign.id,
        })
        .unwrap();

    let distinct = store.get_distinct_webhooks_by_github_profile_id(1);
    assert_eq!(distinct.len(), 2);
    assert_eq!(distinct[0].webhook_id, 100);
    assert_eq!(distinct[1].webhook_id, 200);
}

#[test]
fn test_delete_cascades() {
    let mut store = LinkStore::new();
    let link = store.create_board_repository(&new_link(1, "octocat", "hello")).unwrap();
    store
        .create_github_webhook(&NewGithubWebhook {
            webhook_id: 900,
            url: "https://callback.example/webhook".to_string(),
            board_repository_id: link.id,
        })
        .unwrap();

    store.delete_board_repository(link.id).unwrap();
    assert!(matches!(store.get_by_id(link.id), Err(GITrelloError::NotFound { .. })));
    assert!(matches!(
        store.get_webhook_by_board_repository_id(link.id),
        Err(GITrelloError::NotFound { .. })
    ));
    assert_eq!(store.get_webhooks_by_repository_name_and_owner("hello", "octocat").len(), 0);

    let again = store.delete_board_repository(link.id);
    assert!(matches!(again, Err(GITrelloError::NotFound { .. })));
}
