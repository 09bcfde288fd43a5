//! Bookkeeping for provider profiles: one per user, one per provider
//! account, holding the credential used for provider calls.

use vstd::prelude::*;

use crate::errors::GITrelloError;
use crate::models::GithubProfile;
use crate::models::GithubProfileView;
use crate::models::NewGithubProfile;

verus! {

/// Mathematical view of a `ProfileStore`.
#[verifier::ext_equal]
pub ghost struct ProfileStoreView {
    pub profiles: Seq<GithubProfileView>,
    pub next_id: int,
}

impl ProfileStoreView {
    pub open spec fn has_user(self, user_id: int) -> bool {
        exists|i: int|
            0 <= i < self.profiles.len() && #[trigger] self.profiles[i].user_id == user_id
    }

    pub open spec fn index_for_user(self, user_id: int) -> int {
        choose|i: int|
            0 <= i < self.profiles.len() && #[trigger] self.profiles[i].user_id == user_id
    }

    pub open spec fn profile_for_user(self, user_id: int) -> GithubProfileView {
        self.profiles[self.index_for_user(user_id)]
    }

    pub open spec fn has_github_user(self, github_user_id: int) -> bool {
        exists|i: int|
            0 <= i < self.profiles.len() && #[trigger] self.profiles[i].github_user_id
                == github_user_id
    }

    pub open spec fn index_for_github_user(self, github_user_id: int) -> int {
        choose|i: int|
            0 <= i < self.profiles.len() && #[trigger] self.profiles[i].github_user_id
                == github_user_id
    }

    pub open spec fn profile_for_github_user(self, github_user_id: int) -> GithubProfileView {
        self.profiles[self.index_for_github_user(github_user_id)]
    }

    pub open spec fn has_id(self, id: int) -> bool {
        exists|i: int| 0 <= i < self.profiles.len() && #[trigger] self.profiles[i].id == id
    }

    pub open spec fn index_of(self, id: int) -> int {
        choose|i: int| 0 <= i < self.profiles.len() && #[trigger] self.profiles[i].id == id
    }

    /// Structural well-formedness: one profile per local id, per user and
    /// per provider account, with all ids below the allocation counter.
    pub open spec fn wf(self) -> bool {
        &&& forall|i: int, j: int|
            #![trigger self.profiles[i], self.profiles[j]]
            0 <= i < j < self.profiles.len() ==> self.profiles[i].id != self.profiles[j].id
                && self.profiles[i].user_id != self.profiles[j].user_id
                && self.profiles[i].github_user_id != self.profiles[j].github_user_id
        &&& forall|i: int|
            0 <= i < self.profiles.len() ==> 0 <= (#[trigger] self.profiles[i]).id < self.next_id
        &&& 0 <= self.next_id <= i32::MAX
    }
}

/// In-memory bookkeeping of provider profiles.
pub struct ProfileStore {
    profiles: Vec<GithubProfile>,
    next_id: i32,
}

impl View for ProfileStore {
    type V = ProfileStoreView;

    closed spec fn view(&self) -> ProfileStoreView {
        ProfileStoreView {
            profiles: self.profiles@.map_values(|p: GithubProfile| p@),
            next_id: self.next_id as int,
        }
    }
}

impl ProfileStore {
    /// An empty profile store.
    pub fn new() -> (s: ProfileStore)
        ensures
            s@.wf(),
            s@.profiles.len() == 0,
            s@.next_id == 0,
    {
        ProfileStore { profiles: Vec::new(), next_id: 0 }
    }

    fn find_index_by_user(&self, user_id: i64) -> (r: Option<usize>)
        requires
            self@.wf(),
        ensures
            r is Some <==> self@.has_user(user_id as int),
            r matches Some(k) ==> 0 <= k < self@.profiles.len() && self@.profiles[k as int]
                == self@.profile_for_user(user_id as int) && self@.index_for_user(user_id as int)
                == k as int,
    {
        let n = self.profiles.len();
        let mut i: usize = 0;
        while i < n
            invariant
                n == self.profiles.len(),
                i <= n,
                self@.wf(),
                forall|j: int| 0 <= j < i ==> (#[trigger] self@.profiles[j]).user_id != user_id,
            decreases n - i,
        {
            if self.profiles[i].user_id == user_id {
                proof {
                    assert(self.profiles@[i as int].user_id == user_id);
                    assert(self@.profiles[i as int].user_id == user_id as int);
                    assert(self@.has_user(user_id as int));
                    let k = self@.index_for_user(user_id as int);
                    assert(0 <= k < self@.profiles.len() && self@.profiles[k].user_id
                        == user_id as int);
                    assert(k == i as int);
                }
                return Some(i);
            }
            i += 1;
        }
        None
    }

    fn find_index_by_github_user(&self, github_user_id: i64) -> (r: Option<usize>)
        requires
            self@.wf(),
        ensures
            r is Some <==> self@.has_github_user(github_user_id as int),
            r matches Some(k) ==> 0 <= k < self@.profiles.len() && self@.profiles[k as int]
                == self@.profile_for_github_user(github_user_id as int)
                && self@.index_for_github_user(github_user_id as int) == k as int,
    {
        let n = self.profiles.len();
        let mut i: usize = 0;
        while i < n
            invariant
                n == self.profiles.len(),
                i <= n,
                self@.wf(),
                forall|j: int|
                    0 <= j < i ==> (#[trigger] self@.profiles[j]).github_user_id
                        != github_user_id,
            decreases n - i,
        {
            if self.profiles[i].github_user_id == github_user_id {
                proof {
                    assert(self.profiles@[i as int].github_user_id == github_user_id);
                    assert(self@.profiles[i as int].github_user_id == github_user_id as int);
                    assert(self@.has_github_user(github_user_id as int));
                    let k = self@.index_for_github_user(github_user_id as int);
                    assert(0 <= k < self@.profiles.len() && self@.profiles[k].github_user_id
                        == github_user_id as int);
                    assert(k == i as int);
                }
                return Some(i);
            }
            i += 1;
        }
        None
    }

    fn find_index_by_id(&self, id: i32) -> (r: Option<usize>)
        requires
            self@.wf(),
        ensures
            r is Some <==> self@.has_id(id as int),
            r matches Some(k) ==> 0 <= k < self@.profiles.len() && self@.profiles[k as int].id
                == id as int && self@.index_of(id as int) == k as int,
    {
        let n = self.profiles.len();
        let mut i: usize = 0;
        while i < n
            invariant
                n == self.profiles.len(),
                i <= n,
                self@.wf(),
                forall|j: int| 0 <= j < i ==> (#[trigger] self@.profiles[j]).id != id,
            decreases n - i,
        {
            if self.profiles[i].id == id {
                proof {
                    assert(self.profiles@[i as int].id == id);
                    assert(self@.profiles[i as int].id == id as int);
                    assert(self@.has_id(id as int));
                    let k = self@.index_of(id as int);
                    assert(0 <= k < self@.profiles.len() && self@.profiles[k].id == id as int);
                    assert(k == i as int);
                }
                return Some(i);
            }
            i += 1;
        }
        None
    }

    /// Create a profile. Fails with `AlreadyExists` when the provider
    /// account is already bound to some user (the original duplicate
    /// check) or the user already has a profile, and with
    /// `InternalError` when id allocation is exhausted.
    pub fn create(&mut self, data: &NewGithubProfile) -> (r: Result<GithubProfile, GITrelloError>)
        requires
            old(self)@.wf(),
        ensures
            final(self)@.wf(),
            old(self)@.has_github_user(data.github_user_id as int) ==> (r matches Err(e)
                && e matches GITrelloError::AlreadyExists { message } && message@
                == "This GitHub account is being used by another GITrello user"@) && final(self)@
                == old(self)@,
            !old(self)@.has_github_user(data.github_user_id as int) && old(self)@.has_user(
                data.user_id as int,
            ) ==> (r matches Err(e) && e matches GITrelloError::AlreadyExists { .. })
                && final(self)@ == old(self)@,
            !old(self)@.has_github_user(data.github_user_id as int) && !old(self)@.has_user(
                data.user_id as int,
            ) && old(self)@.next_id == i32::MAX ==> (r matches Err(e) && e is InternalError)
                && final(self)@ == old(self)@,
            !old(self)@.has_github_user(data.github_user_id as int) && !old(self)@.has_user(
                data.user_id as int,
            ) && old(self)@.next_id < i32::MAX ==> (r matches Ok(profile) && profile@
                == (GithubProfileView {
                id: old(self)@.next_id,
                user_id: data.user_id as int,
                github_user_id: data.github_user_id as int,
                github_login: data.github_login@,
                access_token: data.access_token@,
            }) && final(self)@ == (ProfileStoreView {
                profiles: old(self)@.profiles.push(profile@),
                next_id: old(self)@.next_id + 1,
            })),
    {
        if self.find_index_by_github_user(data.github_user_id).is_some() {
            return Err(
                GITrelloError::AlreadyExists {
                    message: "This GitHub account is being used by another GITrello user".to_owned(),
                },
            );
        }
        if self.find_index_by_user(data.user_id).is_some() {
            return Err(
                GITrelloError::AlreadyExists {
                    message: "a github profile for this user already exists".to_owned(),
                },
            );
        }
        if self.next_id == i32::MAX {
            return Err(GITrelloError::InternalError);
        }
        let profile = GithubProfile {
            id: self.next_id,
            user_id: data.user_id,
            github_user_id: data.github_user_id,
            github_login: data.github_login.clone(),
            access_token: data.access_token.clone(),
        };
        let out = profile.clone();
        self.profiles.push(profile);
        self.next_id = self.next_id + 1;
        proof {
            assert(self@.profiles =~= old(self)@.profiles.push(out@));
            assert(self@ == (ProfileStoreView {
                profiles: old(self)@.profiles.push(out@),
                next_id: old(self)@.next_id + 1,
            }));
            let post = self@;
            let pre = old(self)@;
            assert forall|i: int, j: int| 0 <= i < j < post.profiles.len() implies (
            #[trigger] post.profiles[i]).id != (#[trigger] post.profiles[j]).id && post.profiles[
            i].user_id != post.profiles[j].user_id && post.profiles[i].github_user_id
                != post.profiles[j].github_user_id by {
                if j == post.profiles.len() - 1 {
                    assert(post.profiles[i] == pre.profiles[i]);
                    assert(post.profiles[j] == out@);
                    assert(pre.profiles[i].id < pre.next_id);
                    assert(pre.profiles[i].user_id != data.user_id as int);
                    assert(pre.profiles[i].github_user_id != data.github_user_id as int);
                } else {
                    assert(post.profiles[i] == pre.profiles[i]);
                    assert(post.profiles[j] == pre.profiles[j]);
                }
            }
            assert forall|i: int| 0 <= i < post.profiles.len() implies 0 <= (
            #[trigger] post.profiles[i]).id < post.next_id by {
                if i < post.profiles.len() - 1 {
                    assert(post.profiles[i] == pre.profiles[i]);
                } else {
                    assert(post.profiles[i] == out@);
                }
            }
        }
        Ok(out)
    }

    /// Look a profile up by its user; `NotFound` when the user has none.
    pub fn get_by_user_id(&self, user_id: i64) -> (r: Result<GithubProfile, GITrelloError>)
        requires
            self@.wf(),
        ensures
            r is Ok <==> self@.has_user(user_id as int),
            r matches Ok(profile) ==> profile@ == self@.profile_for_user(user_id as int),
            r matches Err(e) ==> e matches GITrelloError::NotFound { .. },
    {
        match self.find_index_by_user(user_id) {
            Some(k) => Ok(self.profiles[k].clone()),
            None => Err(
                GITrelloError::NotFound {
                    message: "github profile does not exist for this user".to_owned(),
                },
            ),
        }
    }

    /// Look a profile up by its provider account; `NotFound` when the
    /// account is unbound.
    pub fn get_by_github_user_id(&self, github_user_id: i64) -> (r: Result<
        GithubProfile,
        GITrelloError,
    >)
        requires
            self@.wf(),
        ensures
            r is Ok <==> self@.has_github_user(github_user_id as int),
            r matches Ok(profile) ==> profile@ == self@.profile_for_github_user(
                github_user_id as int,
            ),
            r matches Err(e) ==> e matches GITrelloError::NotFound { .. },
    {
        match self.find_index_by_github_user(github_user_id) {
            Some(k) => Ok(self.profiles[k].clone()),
            None => Err(
                GITrelloError::NotFound {
                    message: "github profile does not exist for this GitHub user".to_owned(),
                },
            ),
        }
    }

    /// Remove the profile with the given id; removing an absent profile
    /// is a no-op, as in the underlying row deletion.
    pub fn delete(&mut self, id: i32) -> (r: Result<(), GITrelloError>)
        requires
            old(self)@.wf(),
        ensures
            final(self)@.wf(),
            r is Ok,
            old(self)@.has_id(id as int) ==> final(self)@ == (ProfileStoreView {
                profiles: old(self)@.profiles.remove(old(self)@.index_of(id as int)),
                ..old(self)@
            }),
            !old(self)@.has_id(id as int) ==> final(self)@ == old(self)@,
            !final(self)@.has_id(id as int),
    {
        match self.find_index_by_id(id) {
            Some(k) => {
                self.profiles.remove(k);
                proof {
                    let pre = old(self)@;
                    let post = self@;
                    assert(post.profiles =~= pre.profiles.remove(k as int));
                    assert(post == (ProfileStoreView {
                        profiles: pre.profiles.remove(pre.index_of(id as int)),
                        ..pre
                    }));
                    assert forall|i: int, j: int| 0 <= i < j < post.profiles.len() implies (
                    #[trigger] post.profiles[i]).id != (#[trigger] post.profiles[j]).id
                        && post.profiles[i].user_id != post.profiles[j].user_id
                        && post.profiles[i].github_user_id
                        != post.profiles[j].github_user_id by {
                        let pi = if i < k as int {
                            i
                        } else {
                            i + 1
                        };
                        let pj = if j < k as int {
                            j
                        } else {
                            j + 1
                        };
                        assert(post.profiles[i] == pre.profiles[pi]);
                        assert(post.profiles[j] == pre.profiles[pj]);
                        assert(pre.profiles[pi].id != pre.profiles[pj].id);
                    }
                    assert forall|i: int| 0 <= i < post.profiles.len() implies 0 <= (
                    #[trigger] post.profiles[i]).id < post.next_id by {
                        let pi = if i < k as int {
                            i
                        } else {
                            i + 1
                        };
                        assert(post.profiles[i] == pre.profiles[pi]);
                    }
                    assert forall|i: int| 0 <= i < post.profiles.len() implies (
                    #[trigger] post.profiles[i]).id != id by {
                        let pi = if i < k as int {
                            i
                        } else {
                            i + 1
                        };
                        assert(post.profiles[i] == pre.profiles[pi]);
                        if pi != k as int {
                            assert(pre.profiles[pi].id != pre.profiles[k as int].id);
                        }
                    }
                }
                Ok(())
            },
            None => Ok(()),
        }
    }
}

} // verus!
