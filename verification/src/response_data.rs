//! Response payload shapes produced for API consumers.

use vstd::prelude::*;
use vstd::string::StringSliceAdditionalSpecFns;

use crate::github_api::split_bytes_at_first;
use crate::github_api::Repository;

verus! {

/// A link as reported to API consumers; `board_id` travels as text.
pub struct BoardRepositoryResponse {
    pub id: i32,
    pub board_id: String,
    pub repository_name: String,
    pub repository_owner: String,
}

/// A profile as reported to API consumers; numeric ids travel as text.
pub struct GithubProfileResponse {
    pub id: i32,
    pub user_id: String,
    pub github_user_id: String,
    pub github_login: String,
}

/// A repository as reported by the repository-listing endpoint.
pub struct GetGithubRepositoryResponse {
    pub name: String,
    pub owner: String,
}

impl GetGithubRepositoryResponse {
    /// Shape a listed repository for API consumers, splitting its full
    /// name into owner and name.
    pub fn from_repository(repository: &Repository) -> (r: GetGithubRepositoryResponse)
        requires
            repository.spec_has_separator(),
        ensures
            r.owner.view() == vstd::utf8::decode_utf8(
                split_bytes_at_first(repository.name_bytes(), 47u8).0,
            ),
            r.name.view() == vstd::utf8::decode_utf8(
                split_bytes_at_first(repository.name_bytes(), 47u8).1,
            ),
    {
        let parts = repository.split_full_name();
        GetGithubRepositoryResponse { name: parts.1.to_owned(), owner: parts.0.to_owned() }
    }
}

} // verus!
