use github_integration::errors::GITrelloError;
use github_integration::gitrello_api::Permissions;
use github_integration::models::BoardRepository;
use github_integration::reconciler::apply_delete;
use github_integration::reconciler::apply_upsert;
use github_integration::reconciler::get_board_repository;
use github_integration::reconciler::plan_delete;
use github_integration::reconciler::plan_upsert;
use github_integration::reconciler::UpsertPlan;
use github_integration::store::LinkStore;

const URL: &str = "https://callback.example/webhook";

fn allow_all() -> Permissions {
    Permissions { can_read: true, can_mutate: true, can_delete: true }
}

/// Run one create-or-update as the embedding program would: plan, count
/// the provider calls the plan requires, then apply. Returns the link,
/// the created flag, and the number of create-webhook and delete-webhook
/// provider calls that were (or would have been) issued.
fn upsert(
    store: &mut LinkStore,
    board_id: i64,
    owner: &str,
    name: &str,
    provider_id: i64,
) -> (BoardRepository, bool, usize, usize) {
    let permissions = allow_all();
    let plan = plan_upsert(store, &permissions, board_id, owner, name).unwrap();
    let (creates, deletes, created): (usize, usize, Option<i64>) = match &plan {
        UpsertPlan::Noop => (0, 0, None),
        UpsertPlan::CreateReuse { .. } => (0, 0, None),
        UpsertPlan::CreateNew => (1, 0, Some(provider_id)),
        UpsertPlan::Repoint { delete_old, reuse_webhook_id } => {
            let deletes = if delete_old.is_some() { 1 } else { 0 };
            if reuse_webhook_id.is_none() {
                (1, deletes, Some(provider_id))
            } else {
                (0, deletes, None)
            }
        },
    };
    let (link, created_flag) =
        apply_upsert(store, 1, board_id, owner, name, URL, &plan, created).unwrap();
    (link, created_flag, creates, deletes)
}

#[test]
fn test_create_new_link() {
    let mut store = LinkStore::new();
    let (link, created, creates, deletes) = upsert(&mut store, 1, "octocat", "hello", 100);
    assert!(created);
    assert_eq!(creates, 1);
    assert_eq!(deletes, 0);
    assert_eq!(link.board_id, 1);
    let hooks = store.get_webhooks_by_repository_name_and_owner("hello", "octocat");
    assert_eq!(hooks.len(), 1);
    assert_eq!(hooks[0].webhook_id, 100);
}

#[test]
fn test_create_idempotent() {
    let mut store = LinkStore::new();
    let (first, _, _, _) = upsert(&mut store, 1, "octocat", "hello", 100);
    let (second, created, creates, deletes) = upsert(&mut store, 1, "octocat", "hello", 999);
    assert!(!created);
    assert_eq!(creates, 0);
    assert_eq!(deletes, 0);
    assert_eq!(second.id, first.id);
    let hooks = store.get_webhooks_by_repository_name_and_owner("hello", "octocat");
    assert_eq!(hooks.len(), 1);
    assert_eq!(hooks[0].webhook_id, 100);
}

#[test]
fn test_second_link_shares_webhook() {
    let mut store = LinkStore::new();
    upsert(&mut store, 1, "octocat", "hello", 100);
    let (link2, created, creates, deletes) = upsert(&mut store, 2, "octocat", "hello", 999);
    assert!(created);
    assert_eq!(creates, 0);
    assert_eq!(deletes, 0);
    let record = store.get_webhook_by_board_repository_id(link2.id).unwrap();
    assert_eq!(record.webhook_id, 100);
    let hooks = store.get_webhooks_by_repository_name_and_owner("hello", "octocat");
    assert_eq!(hooks.len(), 2);
    assert_eq!(hooks[0].webhook_id, 100);
    assert_eq!(hooks[1].webhook_id, 100);
}

#[test]
fn test_repoint_with_shared_target() {
    let mut store = LinkStore::new();
    upsert(&mut store, 1, "owner", "repo_a", 100);
    let (link2, _, _, _) = upsert(&mut store, 2, "owner", "repo_a", 999);
    upsert(&mut store, 3, "owner", "repo_b", 200);

    let (moved, created, creates, deletes) = upsert(&mut store, 2, "owner", "repo_b", 999);
    assert!(!created);
    assert_eq!(creates, 0);
    assert_eq!(deletes, 0);
    assert_eq!(moved.id, link2.id);
    assert_eq!(moved.repository_name, "repo_b");
    let record = store.get_webhook_by_board_repository_id(link2.id).unwrap();
    assert_eq!(record.webhook_id, 200);
    assert_eq!(store.get_webhooks_by_repository_name_and_owner("repo_a", "owner").len(), 1);
    assert_eq!(store.get_webhooks_by_repository_name_and_owner("repo_b", "owner").len(), 2);
}

#[test]
fn test_repoint_sole_owner() {
    let mut store = LinkStore::new();
    let (link, _, _, _) = upsert(&mut store, 1, "owner", "repo_a", 100);

    let permissions = allow_all();
    let plan = plan_upsert(&store, &permissions, 1, "owner", "repo_b").unwrap();
    match &plan {
        UpsertPlan::Repoint { delete_old, reuse_webhook_id } => {
            let old = delete_old.as_ref().expect("the old webhook must be deleted");
            assert_eq!(old.repository_owner, "owner");
            assert_eq!(old.repository_name, "repo_a");
            assert_eq!(old.webhook_id, 100);
            assert!(reuse_webhook_id.is_none());
        },
        _ => panic!("expected a repoint plan"),
    }
    // The deletion is best-effort: apply takes no deletion outcome, so a
    // failed delete cannot block the repoint.
    let (moved, created) =
        apply_upsert(&mut store, 1, 1, "owner", "repo_b", URL, &plan, Some(300)).unwrap();
    assert!(!created);
    assert_eq!(moved.id, link.id);
    assert_eq!(moved.repository_name, "repo_b");
    let record = store.get_webhook_by_board_repository_id(link.id).unwrap();
    assert_eq!(record.webhook_id, 300);
    assert_eq!(store.get_webhooks_by_repository_name_and_owner("repo_a", "owner").len(), 0);
}

#[test]
fn test_delete_last_reference() {
    let mut store = LinkStore::new();
    let (link, _, _, _) = upsert(&mut store, 1, "owner", "repo_a", 100);

    let permissions = allow_all();
    let plan = plan_delete(&store, &permissions, link.id).unwrap();
    let old = plan.delete_webhook.expect("the last reference must delete the webhook");
    assert_eq!(old.repository_owner, "owner");
    assert_eq!(old.repository_name, "repo_a");
    assert_eq!(old.webhook_id, 100);

    apply_delete(&mut store, link.id).unwrap();
    assert!(matches!(store.get_by_id(link.id), Err(GITrelloError::NotFound { .. })));
    assert_eq!(store.get_webhooks_by_repository_name_and_owner("repo_a", "owner").len(), 0);
}

#[test]
fn test_delete_shared_reference() {
    let mut store = LinkStore::new();
    upsert(&mut store, 1, "owner", "repo_a", 100);
    let (link2, _, _, _) = upsert(&mut store, 2, "owner", "repo_a", 999);

    let permissions = allow_all();
    let plan = plan_delete(&store, &permissions, link2.id).unwrap();
    assert!(plan.delete_webhook.is_none());

    apply_delete(&mut store, link2.id).unwrap();
    assert_eq!(store.get_webhooks_by_repository_name_and_owner("repo_a", "owner").len(), 1);
    assert!(store.get_by_board_id(1).is_ok());
}

#[test]
fn test_upsert_permission_denied() {
    let store = LinkStore::new();
    let permissions = Permissions { can_read: true, can_mutate: false, can_delete: true };
    let result = plan_upsert(&store, &permissions, 1, "owner", "repo");
    assert!(matches!(result, Err(GITrelloError::PermissionDenied)));
}

#[test]
fn test_delete_permission_denied() {
    let mut store = LinkStore::new();
    let (link, _, _, _) = upsert(&mut store, 1, "owner", "repo_a", 100);
    let permissions = Permissions { can_read: true, can_mutate: true, can_delete: false };
    let result = plan_delete(&store, &permissions, link.id);
    assert!(matches!(result, Err(GITrelloError::PermissionDenied)));
}

#[test]
fn test_delete_not_found() {
    let store = LinkStore::new();
    let result = plan_delete(&store, &allow_all(), 12);
    assert!(matches!(result, Err(GITrelloError::NotFound { .. })));
}

#[test]
fn test_get_board_repository_gated() {
    let mut store = LinkStore::new();
    upsert(&mut store, 1, "owner", "repo_a", 100);

    let denied = Permissions { can_read: false, can_mutate: true, can_delete: true };
    assert!(matches!(
        get_board_repository(&store, &denied, 1),
        Err(GITrelloError::PermissionDenied)
    ));

    let link = get_board_repository(&store, &allow_all(), 1).unwrap();
    assert_eq!(link.board_id, 1);
    assert!(matches!(
        get_board_repository(&store, &allow_all(), 2),
        Err(GITrelloError::NotFound { .. })
    ));
}
