use github_integration::errors::GITrelloError;
use github_integration::models::NewGithubProfile;
use github_integration::profiles::ProfileStore;

fn new_profile(user_id: i64, github_user_id: i64) -> NewGithubProfile {
    NewGithubProfile {
        user_id,
        github_user_id,
        github_login: "octocat".to_string(),
        access_token: "test-access-token".to_string(),
    }
}

#[test]
fn test_create_and_get_profile() {
    let mut profiles = ProfileStore::new();
    let profile = profiles.create(&new_profile(7, 900)).unwrap();
    assert_eq!(profile.user_id, 7);
    assert_eq!(profile.github_user_id, 900);
    assert_eq!(profile.github_login, "octocat");

    let by_user = profiles.get_by_user_id(7).unwrap();
    assert_eq!(by_user.id, profile.id);
    let by_github_user = profiles.get_by_github_user_id(900).unwrap();
    assert_eq!(by_github_user.id, profile.id);
}

#[test]
fn test_profile_not_found() {
    let profiles = ProfileStore::new();
    assert!(matches!(profiles.get_by_user_id(7), Err(GITrelloError::NotFound { .. })));
    assert!(matches!(
        profiles.get_by_github_user_id(900),
        Err(GITrelloError::NotFound { .. })
    ));
}

#[test]
fn test_duplicate_github_account_rejected() {
    let mut profiles = ProfileStore::new();
    profiles.create(&new_profile(7, 900)).unwrap();
    let second = profiles.create(&new_profile(8, 900));
    match second {
        Err(GITrelloError::AlreadyExists { message }) => {
            assert_eq!(message, "This GitHub account is being used by another GITrello user");
        },
        _ => panic!("expected a duplicate-account rejection"),
    }
}

#[test]
fn test_duplicate_user_rejected() {
    let mut profiles = ProfileStore::new();
    profiles.create(&new_profile(7, 900)).unwrap();
    let second = profiles.create(&new_profile(7, 901));
    assert!(matches!(second, Err(GITrelloError::AlreadyExists { .. })));
}

#[test]
fn test_delete_profile_idempotent() {
    let mut profiles = ProfileStore::new();
    let profile = profiles.create(&new_profile(7, 900)).unwrap();
    profiles.delete(profile.id).unwrap();
    assert!(matches!(profiles.get_by_user_id(7), Err(GITrelloError::NotFound { .. })));
    // deleting an absent row succeeds, as the underlying deletion would
    profiles.delete(profile.id).unwrap();
}
