//! The persisted data model: board/repository links, webhook records and
//! provider profiles, with their mathematical views.

use vstd::prelude::*;

verus! {

/// One association between an external board and a repository.
pub struct BoardRepository {
    pub id: i32,
    pub github_profile_id: i32,
    pub board_id: i64,
    pub repository_name: String,
    pub repository_owner: String,
}

/// The data needed to create a `BoardRepository`; the store assigns the id.
pub struct NewBoardRepository {
    pub github_profile_id: i32,
    pub board_id: i64,
    pub repository_name: String,
    pub repository_owner: String,
}

/// Local bookkeeping of one provider-side webhook, owned by one link.
pub struct GithubWebhook {
    pub id: i32,
    pub webhook_id: i64,
    pub url: String,
    pub board_repository_id: i32,
}

/// The data needed to create a `GithubWebhook`; the store assigns the id.
pub struct NewGithubWebhook {
    pub webhook_id: i64,
    pub url: String,
    pub board_repository_id: i32,
}

/// A user's provider account, holding the credential used for provider calls.
pub struct GithubProfile {
    pub id: i32,
    pub user_id: i64,
    pub github_user_id: i64,
    pub github_login: String,
    pub access_token: String,
}

/// The data needed to create a `GithubProfile`; the store assigns the id.
pub struct NewGithubProfile {
    pub user_id: i64,
    pub github_user_id: i64,
    pub github_login: String,
    pub access_token: String,
}

/// Mathematical view of a `BoardRepository`.
pub ghost struct BoardRepositoryView {
    pub id: int,
    pub github_profile_id: int,
    pub board_id: int,
    pub repository_name: Seq<char>,
    pub repository_owner: Seq<char>,
}

/// Mathematical view of a `GithubWebhook`.
pub ghost struct GithubWebhookView {
    pub id: int,
    pub webhook_id: int,
    pub url: Seq<char>,
    pub board_repository_id: int,
}

/// Mathematical view of a `GithubProfile`.
pub ghost struct GithubProfileView {
    pub id: int,
    pub user_id: int,
    pub github_user_id: int,
    pub github_login: Seq<char>,
    pub access_token: Seq<char>,
}

impl View for GithubProfile {
    type V = GithubProfileView;

    open spec fn view(&self) -> GithubProfileView {
        GithubProfileView {
            id: self.id as int,
            user_id: self.user_id as int,
            github_user_id: self.github_user_id as int,
            github_login: self.github_login@,
            access_token: self.access_token@,
        }
    }
}

impl View for BoardRepository {
    type V = BoardRepositoryView;

    open spec fn view(&self) -> BoardRepositoryView {
        BoardRepositoryView {
            id: self.id as int,
            github_profile_id: self.github_profile_id as int,
            board_id: self.board_id as int,
            repository_name: self.repository_name@,
            repository_owner: self.repository_owner@,
        }
    }
}

impl View for GithubWebhook {
    type V = GithubWebhookView;

    open spec fn view(&self) -> GithubWebhookView {
        GithubWebhookView {
            id: self.id as int,
            webhook_id: self.webhook_id as int,
            url: self.url@,
            board_repository_id: self.board_repository_id as int,
        }
    }
}

impl Clone for BoardRepository {
    fn clone(&self) -> (r: Self)
        ensures
            r == *self,
    {
        BoardRepository {
            id: self.id,
            github_profile_id: self.github_profile_id,
            board_id: self.board_id,
            repository_name: self.repository_name.clone(),
            repository_owner: self.repository_owner.clone(),
        }
    }
}

impl Clone for GithubWebhook {
    fn clone(&self) -> (r: Self)
        ensures
            r == *self,
    {
        GithubWebhook {
            id: self.id,
            webhook_id: self.webhook_id,
            url: self.url.clone(),
            board_repository_id: self.board_repository_id,
        }
    }
}

impl Clone for GithubProfile {
    fn clone(&self) -> (r: Self)
        ensures
            r == *self,
    {
        GithubProfile {
            id: self.id,
            user_id: self.user_id,
            github_user_id: self.github_user_id,
            github_login: self.github_login.clone(),
            access_token: self.access_token.clone(),
        }
    }
}

} // verus!
