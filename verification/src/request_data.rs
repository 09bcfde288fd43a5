//! Request payload shapes accepted by the API surface. The embedding
//! program deserializes transport bytes into copies of these and converts.

use vstd::prelude::*;

use crate::github_api::Issue;
use crate::github_api::Repository;

verus! {

/// Body of a link create-or-update request.
pub struct NewBoardRepositoryRequest {
    pub board_id: i64,
    pub repository_name: String,
    pub repository_owner: String,
}

/// Query parameters of a link lookup.
pub struct GetBoardRepositoryQueryParams {
    pub board_id: i64,
}

/// Body of a profile creation request.
pub struct NewGithubProfileRequest {
    pub access_token: String,
}

/// An inbound issue event as delivered by the provider.
pub struct IssueWebhookRequest {
    pub action: String,
    pub issue: Issue,
    pub repository: Repository,
}

} // verus!
